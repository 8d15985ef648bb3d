use dalhin::i18n::{
    lang_for_tag, msg_added, msg_app_added_to_library, msg_app_removed_from_library,
    msg_apps_found, msg_creating, msg_detected_unregistered, msg_installer_added,
    msg_installer_label, msg_installing_setup, msg_library_count, msg_name_empty,
    msg_no_apps_found, msg_no_new_profiles_found, msg_opening_winecfg, msg_profile_created,
    msg_profile_deleted, msg_profiles_count, msg_program_started, msg_running_installer,
    msg_scanning_apps, msg_starting, split_chars, tr, Lang,
};
use dalhin::text::{is_white_space_char, join_strings, str_lt, trim_str};

fn chars(x: &str) -> Vec<char> {
    x.chars().collect()
}

#[test]
fn all_languages_in_selector_order() {
    assert_eq!(Lang::all(), [Lang::Es, Lang::En, Lang::PtBr, Lang::Ru]);
}

#[test]
fn labels() {
    assert_eq!(Lang::Es.label(), "Español");
    assert_eq!(Lang::En.label(), "English");
    assert_eq!(Lang::PtBr.label(), "Português (BR)");
    assert_eq!(Lang::Ru.label(), "Русский");
}

#[test]
fn locale_strings() {
    assert_eq!(Lang::from_locale_str("es_AR.UTF-8"), Some(Lang::Es));
    assert_eq!(Lang::from_locale_str("pt_PT"), Some(Lang::PtBr));
    assert_eq!(Lang::from_locale_str("RU_ru"), Some(Lang::Ru));
    assert_eq!(Lang::from_locale_str("de_DE:pt_BR:en_US"), Some(Lang::PtBr));
    assert_eq!(Lang::from_locale_str(" en_GB "), Some(Lang::En));
    assert_eq!(Lang::from_locale_str("de_DE:fr_FR"), None);
    assert_eq!(Lang::from_locale_str(""), None);
    assert_eq!(Lang::from_locale_str("C"), None);
}

#[test]
fn tags() {
    assert_eq!(lang_for_tag(&chars("ru_ru")), Some(Lang::Ru));
    assert_eq!(lang_for_tag(&chars("english")), Some(Lang::En));
    assert_eq!(lang_for_tag(&chars("r")), None);
}

#[test]
fn detection_order_and_fallback() {
    let vals = vec![None, Some("C".to_string()), Some("ru_RU.UTF-8".to_string()), Some("es_ES".to_string())];
    assert_eq!(Lang::detect(&vals), Lang::Ru);
    assert_eq!(Lang::detect(&[None, None, None, None]), Lang::En);
    assert_eq!(Lang::detect(&[Some("fr_FR".to_string())]), Lang::En);
}

#[test]
fn split_keeps_empty_pieces() {
    let pieces: Vec<String> = split_chars(&chars("a::b:"), ':').iter().map(|p| p.iter().collect()).collect();
    assert_eq!(pieces, vec!["a", "", "b", ""]);
}

#[test]
fn fixed_texts() {
    let t = tr(Lang::Es);
    assert_eq!(t.app_title, "Dalhin");
    assert_eq!(t.tab_library, "Biblioteca");
    assert_eq!(t.donate, "☕ Donar");
    let t = tr(Lang::En);
    assert_eq!(t.subtitle, "Wine profile manager");
    assert_eq!(t.install_missing, "Install what's missing (will ask for password)");
    assert_eq!(tr(Lang::PtBr).create, "Criar");
    assert_eq!(tr(Lang::Ru).language, "Язык");
}

#[test]
fn status_texts() {
    assert_eq!(msg_name_empty(Lang::En), "Name can't be empty");
    assert_eq!(msg_creating(Lang::Es, "Juegos"), "Creando «Juegos»…");
    assert_eq!(msg_profile_created(Lang::En, "X"), "Profile “X” created");
    assert_eq!(msg_profile_deleted(Lang::Ru, "X"), "Профиль «X» удалён");
    assert_eq!(msg_no_new_profiles_found(Lang::PtBr), "Nenhum perfil novo foi encontrado");
    assert_eq!(msg_added(Lang::Es, "wine"), "«wine» agregado");
    assert_eq!(msg_opening_winecfg(Lang::En, "w"), "Opening winecfg for “w”…");
    assert_eq!(msg_program_started(Lang::Ru), "Программа запущена");
    assert_eq!(
        msg_running_installer(Lang::En, "w"),
        "Running the installer for “w”… when you're done, click “Already installed, scan apps”."
    );
    assert_eq!(msg_installer_added(Lang::Es, "w"), "Instalador agregado a «w». Ya podés apretar «Instalar».");
    assert_eq!(msg_scanning_apps(Lang::PtBr, "w"), "Procurando aplicativos instalados em “w”…");
    assert_eq!(msg_no_apps_found(Lang::En, "w"), "No installed apps were found in “w”. Try picking it manually instead.");
    assert_eq!(msg_app_added_to_library(Lang::En), "App added to the library");
    assert_eq!(msg_starting(Lang::Es), "Iniciando…");
    assert_eq!(msg_app_removed_from_library(Lang::PtBr), "Aplicativo removido da biblioteca");
    assert_eq!(msg_installing_setup(Lang::Ru), "Установка… может запросить пароль");
    assert_eq!(msg_installer_label(Lang::En, "setup.exe"), "Installer: setup.exe");
}

#[test]
fn counted_texts() {
    assert_eq!(msg_apps_found(Lang::Es, 1, "w"), "Encontré 1 aplicación en «w» y las agregué a la biblioteca.");
    assert_eq!(msg_apps_found(Lang::En, 3, "w"), "Found 3 apps in “w” and added them to the library.");
    assert_eq!(msg_apps_found(Lang::En, 0, "w"), "Found 0 apps in “w” and added them to the library.");
    assert_eq!(msg_detected_unregistered(Lang::En, 12), "Found but not registered (12)");
    assert_eq!(msg_profiles_count(Lang::Es, 0), "Perfiles (0)");
    assert_eq!(msg_library_count(Lang::Ru, 105), "Библиотека (105)");
    assert_eq!(msg_library_count(Lang::En, 18446744073709551615), "Library (18446744073709551615)");
}

#[test]
fn joins_and_order() {
    let v = vec!["a".to_string(), "b".to_string(), "c".to_string()];
    assert_eq!(join_strings(&v, " && "), "a && b && c");
    assert_eq!(join_strings(&[], ", "), "");
    assert!(str_lt("abc", "abd"));
    assert!(str_lt("ab", "abc"));
    assert!(!str_lt("abc", "abc"));
    assert!(!str_lt("b", "abc"));
}

#[test]
fn trim_removes_unicode_white_space_at_both_ends() {
    assert_eq!(trim_str("  Juegos \t\n"), "Juegos");
    assert_eq!(trim_str("\u{3000}\u{a0}a b\u{2009}"), "a b");
    assert_eq!(trim_str(" \r\n "), "");
    assert_eq!(trim_str("x"), "x");
    for c in ['\t', ' ', '\u{85}', '\u{1680}', '\u{200a}', '\u{2028}', '\u{202f}', '\u{205f}', '\u{3000}'] {
        assert!(is_white_space_char(c));
        assert_eq!(is_white_space_char(c), c.is_whitespace());
    }
    for c in ['a', '\u{200b}', '\u{180e}', '_'] {
        assert!(!is_white_space_char(c));
        assert_eq!(is_white_space_char(c), c.is_whitespace());
    }
    for c in (0u32..=0x10ffff).filter_map(char::from_u32) {
        assert_eq!(is_white_space_char(c), c.is_whitespace(), "{:?}", c);
    }
}

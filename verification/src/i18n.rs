//! Interface languages and texts.

use vstd::prelude::*;
use crate::text::{
    chars_of, chars_start_with, decimal, is_prefix_of, lowercased, push_decimal, string_of,
    to_lower, trim_str, trimmed,
};

verus! {

/// The languages of the interface.
#[derive(Debug, Clone, Copy, PartialEq, Eq, Structural)]
pub enum Lang {
    Es,
    En,
    PtBr,
    Ru,
}

/// The pieces of `s` between occurrences of `sep`, as `str::split` gives
/// them: one more piece than there are separators.
pub open spec fn split_on(s: Seq<char>, sep: char) -> Seq<Seq<char>>
    decreases s.len(),
{
    if s.len() == 0 {
        seq![Seq::<char>::empty()]
    } else {
        let prev = split_on(s.drop_last(), sep);
        if s.last() == sep {
            prev.push(Seq::<char>::empty())
        } else {
            prev.update(prev.len() - 1, prev.last().push(s.last()))
        }
    }
}

/// The language that a lowercased locale tag names, by its first letters.
pub open spec fn tag_lang(lower: Seq<char>) -> Option<Lang> {
    if is_prefix_of(seq!['r', 'u'], lower) {
        Some(Lang::Ru)
    } else if is_prefix_of(seq!['p', 't'], lower) {
        Some(Lang::PtBr)
    } else if is_prefix_of(seq!['e', 's'], lower) {
        Some(Lang::Es)
    } else if is_prefix_of(seq!['e', 'n'], lower) {
        Some(Lang::En)
    } else {
        None
    }
}

/// The first of the locale tags that names a known language, each tag
/// trimmed and lowercased first.
pub open spec fn first_known_lang(tags: Seq<Seq<char>>) -> Option<Lang>
    decreases tags.len(),
{
    if tags.len() == 0 {
        None
    } else {
        match tag_lang(lowercased(trimmed(tags[0]))) {
            Some(l) => Some(l),
            None => first_known_lang(tags.drop_first()),
        }
    }
}

/// The pieces of a string split at `sep`.
pub fn split_chars(s: &[char], sep: char) -> (r: Vec<Vec<char>>)
    ensures
        r@.len() == split_on(s@, sep).len(),
        forall|k: int| 0 <= k < r@.len() ==> #[trigger] r@[k]@ == split_on(s@, sep)[k],
{
    let mut done: Vec<Vec<char>> = Vec::new();
    let mut cur: Vec<char> = Vec::new();
    let mut i: usize = 0;
    while i < s.len()
        invariant
            i <= s.len(),
            done@.len() + 1 == split_on(s@.take(i as int), sep).len(),
            forall|k: int| 0 <= k < done@.len() ==> #[trigger] done@[k]@ == split_on(s@.take(i as int), sep)[k],
            cur@ == split_on(s@.take(i as int), sep).last(),
        decreases s.len() - i,
    {
        let ghost prev = s@.take(i as int);
        assert(s@.take(i + 1).drop_last() =~= prev);
        if s[i] == sep {
            done.push(cur);
            cur = Vec::new();
        } else {
            cur.push(s[i]);
        }
        i = i + 1;
    }
    assert(s@.take(s.len() as int) =~= s@);
    done.push(cur);
    done
}

impl Lang {
    /// All the languages, in the order the language selector shows them.
    pub fn all() -> (r: [Lang; 4])
        ensures
            r@ == seq![Lang::Es, Lang::En, Lang::PtBr, Lang::Ru],
    {
        let r = [Lang::Es, Lang::En, Lang::PtBr, Lang::Ru];
        assert(r@ =~= seq![Lang::Es, Lang::En, Lang::PtBr, Lang::Ru]);
        r
    }

    /// The name of the language, written in that language.
    pub fn label(&self) -> (r: &'static str)
        ensures
            r@ == (match *self {
                Lang::Es => "Español"@,
                Lang::En => "English"@,
                Lang::PtBr => "Português (BR)"@,
                Lang::Ru => "Русский"@,
            }),
    {
        match self {
            Lang::Es => "Español",
            Lang::En => "English",
            Lang::PtBr => "Português (BR)",
            Lang::Ru => "Русский",
        }
    }

    /// The language named by a locale value such as `pt_BR.UTF-8` or a
    /// colon-separated list such as `pt_BR:en_US`: the first entry that
    /// names a known language decides.
    pub fn from_locale_str(raw: &str) -> (r: Option<Lang>)
        ensures
            r == first_known_lang(split_on(raw@, ':')),
    {
        let cs = chars_of(raw);
        let pieces = split_chars(&cs, ':');
        let ghost tags = split_on(raw@, ':');
        let mut i: usize = 0;
        assert(tags.skip(0) =~= tags);
        while i < pieces.len()
            invariant
                tags == split_on(raw@, ':'),
                pieces@.len() == tags.len(),
                forall|k: int| 0 <= k < pieces@.len() ==> #[trigger] pieces@[k]@ == tags[k],
                i <= pieces.len(),
                first_known_lang(tags) == first_known_lang(tags.skip(i as int)),
            decreases pieces.len() - i,
        {
            let piece = string_of(pieces[i].as_slice());
            let lower = to_lower(trim_str(piece.as_str()).as_str());
            let lower_chars = chars_of(lower.as_str());
            assert(tags.skip(i as int)[0] == tags[i as int]);
            assert(tags.skip(i as int).drop_first() =~= tags.skip(i + 1));
            assert(lower_chars@ == lowercased(trimmed(tags[i as int])));
            if let Some(l) = lang_for_tag(&lower_chars) {
                assert(first_known_lang(tags.skip(i as int)) == Some(l));
                return Some(l);
            }
            i = i + 1;
        }
        assert(tags.skip(i as int) =~= Seq::<Seq<char>>::empty());
        None
    }
}

/// The language named by the first of the locale values that names one;
/// missing values are skipped.
pub open spec fn first_env_lang(values: Seq<Option<Seq<char>>>) -> Option<Lang>
    decreases values.len(),
{
    if values.len() == 0 {
        None
    } else {
        match values[0] {
            Some(raw) => match first_known_lang(split_on(raw, ':')) {
                Some(l) => Some(l),
                None => first_env_lang(values.drop_first()),
            },
            None => first_env_lang(values.drop_first()),
        }
    }
}

/// The contents of optional strings.
pub open spec fn opt_views(values: Seq<Option<String>>) -> Seq<Option<Seq<char>>> {
    values.map_values(|o: Option<String>| match o {
        Some(s) => Some(s@),
        None => None,
    })
}

impl Lang {
    /// The language of the interface from the values of the locale variables,
    /// in order of priority (`LC_ALL`, `LC_MESSAGES`, `LANGUAGE`, `LANG`; a
    /// variable that is not set is `None`): the first value that names a known
    /// language decides, and English is the fallback.
    pub fn detect(values: &[Option<String>]) -> (r: Lang)
        ensures
            r == (match first_env_lang(opt_views(values@)) {
                Some(l) => l,
                None => Lang::En,
            }),
    {
        let ghost vs = opt_views(values@);
        let mut i: usize = 0;
        assert(vs.skip(0) =~= vs);
        while i < values.len()
            invariant
                vs == opt_views(values@),
                i <= values.len(),
                first_env_lang(vs) == first_env_lang(vs.skip(i as int)),
            decreases values.len() - i,
        {
            assert(vs.skip(i as int)[0] == vs[i as int]);
            assert(vs.skip(i as int).drop_first() =~= vs.skip(i + 1));
            if let Some(raw) = &values[i] {
                if let Some(l) = Lang::from_locale_str(raw.as_str()) {
                    return l;
                }
            }
            i = i + 1;
        }
        assert(vs.skip(i as int) =~= Seq::<Option<Seq<char>>>::empty());
        Lang::En
    }
}

/// The language that a lowercased locale tag names: `ru`, `pt`, `es` and
/// `en` at its start, tried in that order.
pub fn lang_for_tag(lower: &[char]) -> (r: Option<Lang>)
    ensures
        r == tag_lang(lower@),
{
    let ru: [char; 2] = ['r', 'u'];
    let pt: [char; 2] = ['p', 't'];
    let es: [char; 2] = ['e', 's'];
    let en: [char; 2] = ['e', 'n'];
    assert(ru@ =~= seq!['r', 'u']);
    assert(pt@ =~= seq!['p', 't']);
    assert(es@ =~= seq!['e', 's']);
    assert(en@ =~= seq!['e', 'n']);
    if chars_start_with(lower, &ru) {
        Some(Lang::Ru)
    } else if chars_start_with(lower, &pt) {
        Some(Lang::PtBr)
    } else if chars_start_with(lower, &es) {
        Some(Lang::Es)
    } else if chars_start_with(lower, &en) {
        Some(Lang::En)
    } else {
        None
    }
}

/// The fixed texts of the interface.
#[derive(Debug)]
pub struct Tr {

    pub app_title: &'static str,
    pub subtitle: &'static str,
    pub tab_profiles_manager: &'static str,
    pub tab_library: &'static str,
    pub system_config: &'static str,
    pub check_system: &'static str,
    pub new_profile: &'static str,
    pub profile_name_placeholder: &'static str,
    pub create: &'static str,
    pub detect_existing_profiles: &'static str,
    pub no_profiles_yet: &'static str,
    pub external: &'static str,
    pub change_installer: &'static str,
    pub add_installer: &'static str,
    pub install: &'static str,
    pub winecfg: &'static str,
    pub delete: &'static str,
    pub open: &'static str,
    pub remove: &'static str,
    pub no_apps_yet: &'static str,
    pub installing_hint: &'static str,
    pub scan_installed_apps: &'static str,
    pub scan_done_button: &'static str,
    pub add_to_library: &'static str,
    pub library_empty: &'static str,
    pub add: &'static str,
    pub wine_label: &'static str,
    pub i386_arch_label: &'static str,
    pub vulkan_tools_label: &'static str,
    pub mesa_vulkan_label: &'static str,
    pub system_ready: &'static str,
    pub install_missing: &'static str,
    pub language: &'static str,
    pub donate: &'static str,
}

/// The fixed texts of the interface in each language.
pub open spec fn translations(lang: Lang) -> Tr {
    match lang {
        Lang::Es => Tr {
            app_title: "Dalhin",
            subtitle: "Gestor de perfiles de Wine",
            tab_profiles_manager: "Gestor de perfiles",
            tab_library: "Biblioteca",
            system_config: "Configuración del sistema",
            check_system: "Revisar sistema",
            new_profile: "Nuevo perfil",
            profile_name_placeholder: "Nombre del perfil",
            create: "Crear",
            detect_existing_profiles: "Detectar perfiles existentes",
            no_profiles_yet: "No tienes perfiles todavía. Crea uno arriba o detecta los que ya tengas.",
            external: "externo",
            change_installer: "Cambiar instalador",
            add_installer: "Agregar instalador",
            install: "Instalar",
            winecfg: "winecfg",
            delete: "Eliminar",
            open: "Abrir",
            remove: "Quitar",
            no_apps_yet: "Todavía no hay apps agregadas en este perfil.",
            installing_hint: "Instalando… cuando termines, buscá las apps instaladas con el botón de abajo.",
            scan_installed_apps: "Buscar aplicaciones instaladas",
            scan_done_button: "Ya instalé, buscar apps",
            add_to_library: "+ Agregar a biblioteca",
            library_empty: "Todavía no agregaste ninguna app. Andá a la pestaña «Gestor de perfiles» y usá «+ Agregar a biblioteca» en el perfil que quieras.",
            add: "Agregar",
            wine_label: "wine",
            i386_arch_label: "arquitectura i386 (para apps de 32 bits)",
            vulkan_tools_label: "vulkan-tools",
            mesa_vulkan_label: "driver Vulkan de Mesa",
            system_ready: "Sistema listo para DXVK/Vulkan",
            install_missing: "Instalar lo que falta (pide contraseña)",
            language: "Idioma",
            donate: "☕ Donar",
        },
        Lang::En => Tr {
            app_title: "Dalhin",
            subtitle: "Wine profile manager",
            tab_profiles_manager: "Profile manager",
            tab_library: "Library",
            system_config: "System configuration",
            check_system: "Check system",
            new_profile: "New profile",
            profile_name_placeholder: "Profile name",
            create: "Create",
            detect_existing_profiles: "Detect existing profiles",
            no_profiles_yet: "You don't have any profiles yet. Create one above or detect ones you already have.",
            external: "external",
            change_installer: "Change installer",
            add_installer: "Add installer",
            install: "Install",
            winecfg: "winecfg",
            delete: "Delete",
            open: "Open",
            remove: "Remove",
            no_apps_yet: "No apps added to this profile yet.",
            installing_hint: "Installing… when you're done, look for installed apps with the button below.",
            scan_installed_apps: "Scan for installed apps",
            scan_done_button: "Already installed, scan apps",
            add_to_library: "+ Add to library",
            library_empty: "You haven't added any apps yet. Go to the “Profile manager” tab and use “+ Add to library” on the profile you want.",
            add: "Add",
            wine_label: "wine",
            i386_arch_label: "i386 architecture (for 32-bit apps)",
            vulkan_tools_label: "vulkan-tools",
            mesa_vulkan_label: "Mesa Vulkan driver",
            system_ready: "System ready for DXVK/Vulkan",
            install_missing: "Install what's missing (will ask for password)",
            language: "Language",
            donate: "☕ Donate",
        },
        Lang::PtBr => Tr {
            app_title: "Dalhin",
            subtitle: "Gerenciador de perfis do Wine",
            tab_profiles_manager: "Gerenciador de perfis",
            tab_library: "Biblioteca",
            system_config: "Configuração do sistema",
            check_system: "Verificar sistema",
            new_profile: "Novo perfil",
            profile_name_placeholder: "Nome do perfil",
            create: "Criar",
            detect_existing_profiles: "Detectar perfis existentes",
            no_profiles_yet: "Você ainda não tem perfis. Crie um acima ou detecte os que já existem.",
            external: "externo",
            change_installer: "Trocar instalador",
            add_installer: "Adicionar instalador",
            install: "Instalar",
            winecfg: "winecfg",
            delete: "Excluir",
            open: "Abrir",
            remove: "Remover",
            no_apps_yet: "Ainda não há apps adicionados a este perfil.",
            installing_hint: "Instalando… quando terminar, procure os apps instalados com o botão abaixo.",
            scan_installed_apps: "Procurar aplicativos instalados",
            scan_done_button: "Já instalei, procurar apps",
            add_to_library: "+ Adicionar à biblioteca",
            library_empty: "Você ainda não adicionou nenhum app. Vá até a aba “Gerenciador de perfis” e use “+ Adicionar à biblioteca” no perfil desejado.",
            add: "Adicionar",
            wine_label: "wine",
            i386_arch_label: "arquitetura i386 (para apps de 32 bits)",
            vulkan_tools_label: "vulkan-tools",
            mesa_vulkan_label: "driver Vulkan da Mesa",
            system_ready: "Sistema pronto para DXVK/Vulkan",
            install_missing: "Instalar o que falta (vai pedir senha)",
            language: "Idioma",
            donate: "☕ Doar",
        },
        Lang::Ru => Tr {
            app_title: "Dalhin",
            subtitle: "Менеджер профилей Wine",
            tab_profiles_manager: "Профили",
            tab_library: "Библиотека",
            system_config: "Настройка системы",
            check_system: "Проверить систему",
            new_profile: "Новый профиль",
            profile_name_placeholder: "Название профиля",
            create: "Создать",
            detect_existing_profiles: "Найти существующие профили",
            no_profiles_yet: "У вас пока нет профилей. Создайте новый выше или найдите уже существующие.",
            external: "внешний",
            change_installer: "Сменить установщик",
            add_installer: "Добавить установщик",
            install: "Установить",
            winecfg: "winecfg",
            delete: "Удалить",
            open: "Открыть",
            remove: "Убрать",
            no_apps_yet: "В этом профиле пока нет приложений.",
            installing_hint: "Идёт установка… когда закончите, найдите установленные приложения кнопкой ниже.",
            scan_installed_apps: "Найти установленные приложения",
            scan_done_button: "Установка завершена, искать приложения",
            add_to_library: "+ Добавить в библиотеку",
            library_empty: "Вы ещё не добавили ни одного приложения. Перейдите на вкладку «Профили» и используйте «+ Добавить в библиотеку» в нужном профиле.",
            add: "Добавить",
            wine_label: "wine",
            i386_arch_label: "архитектура i386 (для 32-битных приложений)",
            vulkan_tools_label: "vulkan-tools",
            mesa_vulkan_label: "драйвер Vulkan от Mesa",
            system_ready: "Система готова для DXVK/Vulkan",
            install_missing: "Установить недостающее (запросит пароль)",
            language: "Язык",
            donate: "☕ Поддержать",
        },
    }
}

/// The fixed texts of the interface in `lang`.
pub fn tr(lang: Lang) -> (r: Tr)
    ensures
        r == translations(lang),
{
    match lang {
        Lang::Es => Tr {
            app_title: "Dalhin",
            subtitle: "Gestor de perfiles de Wine",
            tab_profiles_manager: "Gestor de perfiles",
            tab_library: "Biblioteca",
            system_config: "Configuración del sistema",
            check_system: "Revisar sistema",
            new_profile: "Nuevo perfil",
            profile_name_placeholder: "Nombre del perfil",
            create: "Crear",
            detect_existing_profiles: "Detectar perfiles existentes",
            no_profiles_yet: "No tienes perfiles todavía. Crea uno arriba o detecta los que ya tengas.",
            external: "externo",
            change_installer: "Cambiar instalador",
            add_installer: "Agregar instalador",
            install: "Instalar",
            winecfg: "winecfg",
            delete: "Eliminar",
            open: "Abrir",
            remove: "Quitar",
            no_apps_yet: "Todavía no hay apps agregadas en este perfil.",
            installing_hint: "Instalando… cuando termines, buscá las apps instaladas con el botón de abajo.",
            scan_installed_apps: "Buscar aplicaciones instaladas",
            scan_done_button: "Ya instalé, buscar apps",
            add_to_library: "+ Agregar a biblioteca",
            library_empty: "Todavía no agregaste ninguna app. Andá a la pestaña «Gestor de perfiles» y usá «+ Agregar a biblioteca» en el perfil que quieras.",
            add: "Agregar",
            wine_label: "wine",
            i386_arch_label: "arquitectura i386 (para apps de 32 bits)",
            vulkan_tools_label: "vulkan-tools",
            mesa_vulkan_label: "driver Vulkan de Mesa",
            system_ready: "Sistema listo para DXVK/Vulkan",
            install_missing: "Instalar lo que falta (pide contraseña)",
            language: "Idioma",
            donate: "☕ Donar",
        },
        Lang::En => Tr {
            app_title: "Dalhin",
            subtitle: "Wine profile manager",
            tab_profiles_manager: "Profile manager",
            tab_library: "Library",
            system_config: "System configuration",
            check_system: "Check system",
            new_profile: "New profile",
            profile_name_placeholder: "Profile name",
            create: "Create",
            detect_existing_profiles: "Detect existing profiles",
            no_profiles_yet: "You don't have any profiles yet. Create one above or detect ones you already have.",
            external: "external",
            change_installer: "Change installer",
            add_installer: "Add installer",
            install: "Install",
            winecfg: "winecfg",
            delete: "Delete",
            open: "Open",
            remove: "Remove",
            no_apps_yet: "No apps added to this profile yet.",
            installing_hint: "Installing… when you're done, look for installed apps with the button below.",
            scan_installed_apps: "Scan for installed apps",
            scan_done_button: "Already installed, scan apps",
            add_to_library: "+ Add to library",
            library_empty: "You haven't added any apps yet. Go to the “Profile manager” tab and use “+ Add to library” on the profile you want.",
            add: "Add",
            wine_label: "wine",
            i386_arch_label: "i386 architecture (for 32-bit apps)",
            vulkan_tools_label: "vulkan-tools",
            mesa_vulkan_label: "Mesa Vulkan driver",
            system_ready: "System ready for DXVK/Vulkan",
            install_missing: "Install what's missing (will ask for password)",
            language: "Language",
            donate: "☕ Donate",
        },
        Lang::PtBr => Tr {
            app_title: "Dalhin",
            subtitle: "Gerenciador de perfis do Wine",
            tab_profiles_manager: "Gerenciador de perfis",
            tab_library: "Biblioteca",
            system_config: "Configuração do sistema",
            check_system: "Verificar sistema",
            new_profile: "Novo perfil",
            profile_name_placeholder: "Nome do perfil",
            create: "Criar",
            detect_existing_profiles: "Detectar perfis existentes",
            no_profiles_yet: "Você ainda não tem perfis. Crie um acima ou detecte os que já existem.",
            external: "externo",
            change_installer: "Trocar instalador",
            add_installer: "Adicionar instalador",
            install: "Instalar",
            winecfg: "winecfg",
            delete: "Excluir",
            open: "Abrir",
            remove: "Remover",
            no_apps_yet: "Ainda não há apps adicionados a este perfil.",
            installing_hint: "Instalando… quando terminar, procure os apps instalados com o botão abaixo.",
            scan_installed_apps: "Procurar aplicativos instalados",
            scan_done_button: "Já instalei, procurar apps",
            add_to_library: "+ Adicionar à biblioteca",
            library_empty: "Você ainda não adicionou nenhum app. Vá até a aba “Gerenciador de perfis” e use “+ Adicionar à biblioteca” no perfil desejado.",
            add: "Adicionar",
            wine_label: "wine",
            i386_arch_label: "arquitetura i386 (para apps de 32 bits)",
            vulkan_tools_label: "vulkan-tools",
            mesa_vulkan_label: "driver Vulkan da Mesa",
            system_ready: "Sistema pronto para DXVK/Vulkan",
            install_missing: "Instalar o que falta (vai pedir senha)",
            language: "Idioma",
            donate: "☕ Doar",
        },
        Lang::Ru => Tr {
            app_title: "Dalhin",
            subtitle: "Менеджер профилей Wine",
            tab_profiles_manager: "Профили",
            tab_library: "Библиотека",
            system_config: "Настройка системы",
            check_system: "Проверить систему",
            new_profile: "Новый профиль",
            profile_name_placeholder: "Название профиля",
            create: "Создать",
            detect_existing_profiles: "Найти существующие профили",
            no_profiles_yet: "У вас пока нет профилей. Создайте новый выше или найдите уже существующие.",
            external: "внешний",
            change_installer: "Сменить установщик",
            add_installer: "Добавить установщик",
            install: "Установить",
            winecfg: "winecfg",
            delete: "Удалить",
            open: "Открыть",
            remove: "Убрать",
            no_apps_yet: "В этом профиле пока нет приложений.",
            installing_hint: "Идёт установка… когда закончите, найдите установленные приложения кнопкой ниже.",
            scan_installed_apps: "Найти установленные приложения",
            scan_done_button: "Установка завершена, искать приложения",
            add_to_library: "+ Добавить в библиотеку",
            library_empty: "Вы ещё не добавили ни одного приложения. Перейдите на вкладку «Профили» и используйте «+ Добавить в библиотеку» в нужном профиле.",
            add: "Добавить",
            wine_label: "wine",
            i386_arch_label: "архитектура i386 (для 32-битных приложений)",
            vulkan_tools_label: "vulkan-tools",
            mesa_vulkan_label: "драйвер Vulkan от Mesa",
            system_ready: "Система готова для DXVK/Vulkan",
            install_missing: "Установить недостающее (запросит пароль)",
            language: "Язык",
            donate: "☕ Поддержать",
        },
    }
}

/// The status text `name_empty` in `lang`.
pub open spec fn name_empty_text(lang: Lang) -> Seq<char> {
    match lang {
        Lang::Es => "El nombre no puede estar vacío"@,
        Lang::En => "Name can't be empty"@,
        Lang::PtBr => "O nome não pode ficar vazio"@,
        Lang::Ru => "Имя не может быть пустым"@,
    }
}

/// Status text `name_empty` in `lang`.
pub fn msg_name_empty(lang: Lang) -> (r: String)
    ensures
        r@ == name_empty_text(lang),
{
    let mut out = String::new();
    match lang {
        Lang::Es => {
            out.append("El nombre no puede estar vacío");
        },
        Lang::En => {
            out.append("Name can't be empty");
        },
        Lang::PtBr => {
            out.append("O nome não pode ficar vazio");
        },
        Lang::Ru => {
            out.append("Имя не может быть пустым");
        },
    }
    out
}

/// The status text `creating` in `lang`.
pub open spec fn creating_text(lang: Lang, name: Seq<char>) -> Seq<char> {
    match lang {
        Lang::Es => "Creando «"@ + name + "»…"@,
        Lang::En => "Creating “"@ + name + "”…"@,
        Lang::PtBr => "Criando “"@ + name + "”…"@,
        Lang::Ru => "Создание «"@ + name + "»…"@,
    }
}

/// Status text `creating` in `lang`.
pub fn msg_creating(lang: Lang, name: &str) -> (r: String)
    ensures
        r@ == creating_text(lang, name@),
{
    let mut out = String::new();
    match lang {
        Lang::Es => {
            out.append("Creando «");
            out.append(name);
            out.append("»…");
        },
        Lang::En => {
            out.append("Creating “");
            out.append(name);
            out.append("”…");
        },
        Lang::PtBr => {
            out.append("Criando “");
            out.append(name);
            out.append("”…");
        },
        Lang::Ru => {
            out.append("Создание «");
            out.append(name);
            out.append("»…");
        },
    }
    out
}

/// The status text `profile_created` in `lang`.
pub open spec fn profile_created_text(lang: Lang, name: Seq<char>) -> Seq<char> {
    match lang {
        Lang::Es => "Perfil «"@ + name + "» creado"@,
        Lang::En => "Profile “"@ + name + "” created"@,
        Lang::PtBr => "Perfil “"@ + name + "” criado"@,
        Lang::Ru => "Профиль «"@ + name + "» создан"@,
    }
}

/// Status text `profile_created` in `lang`.
pub fn msg_profile_created(lang: Lang, name: &str) -> (r: String)
    ensures
        r@ == profile_created_text(lang, name@),
{
    let mut out = String::new();
    match lang {
        Lang::Es => {
            out.append("Perfil «");
            out.append(name);
            out.append("» creado");
        },
        Lang::En => {
            out.append("Profile “");
            out.append(name);
            out.append("” created");
        },
        Lang::PtBr => {
            out.append("Perfil “");
            out.append(name);
            out.append("” criado");
        },
        Lang::Ru => {
            out.append("Профиль «");
            out.append(name);
            out.append("» создан");
        },
    }
    out
}

/// The status text `profile_deleted` in `lang`.
pub open spec fn profile_deleted_text(lang: Lang, name: Seq<char>) -> Seq<char> {
    match lang {
        Lang::Es => "Perfil «"@ + name + "» eliminado"@,
        Lang::En => "Profile “"@ + name + "” deleted"@,
        Lang::PtBr => "Perfil “"@ + name + "” excluído"@,
        Lang::Ru => "Профиль «"@ + name + "» удалён"@,
    }
}

/// Status text `profile_deleted` in `lang`.
pub fn msg_profile_deleted(lang: Lang, name: &str) -> (r: String)
    ensures
        r@ == profile_deleted_text(lang, name@),
{
    let mut out = String::new();
    match lang {
        Lang::Es => {
            out.append("Perfil «");
            out.append(name);
            out.append("» eliminado");
        },
        Lang::En => {
            out.append("Profile “");
            out.append(name);
            out.append("” deleted");
        },
        Lang::PtBr => {
            out.append("Perfil “");
            out.append(name);
            out.append("” excluído");
        },
        Lang::Ru => {
            out.append("Профиль «");
            out.append(name);
            out.append("» удалён");
        },
    }
    out
}

/// The status text `no_new_profiles_found` in `lang`.
pub open spec fn no_new_profiles_found_text(lang: Lang) -> Seq<char> {
    match lang {
        Lang::Es => "No se encontraron perfiles sueltos nuevos"@,
        Lang::En => "No new loose profiles were found"@,
        Lang::PtBr => "Nenhum perfil novo foi encontrado"@,
        Lang::Ru => "Новых профилей не найдено"@,
    }
}

/// Status text `no_new_profiles_found` in `lang`.
pub fn msg_no_new_profiles_found(lang: Lang) -> (r: String)
    ensures
        r@ == no_new_profiles_found_text(lang),
{
    let mut out = String::new();
    match lang {
        Lang::Es => {
            out.append("No se encontraron perfiles sueltos nuevos");
        },
        Lang::En => {
            out.append("No new loose profiles were found");
        },
        Lang::PtBr => {
            out.append("Nenhum perfil novo foi encontrado");
        },
        Lang::Ru => {
            out.append("Новых профилей не найдено");
        },
    }
    out
}

/// The status text `added` in `lang`.
pub open spec fn added_text(lang: Lang, name: Seq<char>) -> Seq<char> {
    match lang {
        Lang::Es => "«"@ + name + "» agregado"@,
        Lang::En => "“"@ + name + "” added"@,
        Lang::PtBr => "“"@ + name + "” adicionado"@,
        Lang::Ru => "«"@ + name + "» добавлен"@,
    }
}

/// Status text `added` in `lang`.
pub fn msg_added(lang: Lang, name: &str) -> (r: String)
    ensures
        r@ == added_text(lang, name@),
{
    let mut out = String::new();
    match lang {
        Lang::Es => {
            out.append("«");
            out.append(name);
            out.append("» agregado");
        },
        Lang::En => {
            out.append("“");
            out.append(name);
            out.append("” added");
        },
        Lang::PtBr => {
            out.append("“");
            out.append(name);
            out.append("” adicionado");
        },
        Lang::Ru => {
            out.append("«");
            out.append(name);
            out.append("» добавлен");
        },
    }
    out
}

/// The status text `opening_winecfg` in `lang`.
pub open spec fn opening_winecfg_text(lang: Lang, name: Seq<char>) -> Seq<char> {
    match lang {
        Lang::Es => "Abriendo winecfg de «"@ + name + "»…"@,
        Lang::En => "Opening winecfg for “"@ + name + "”…"@,
        Lang::PtBr => "Abrindo o winecfg de “"@ + name + "”…"@,
        Lang::Ru => "Открываю winecfg для «"@ + name + "»…"@,
    }
}

/// Status text `opening_winecfg` in `lang`.
pub fn msg_opening_winecfg(lang: Lang, name: &str) -> (r: String)
    ensures
        r@ == opening_winecfg_text(lang, name@),
{
    let mut out = String::new();
    match lang {
        Lang::Es => {
            out.append("Abriendo winecfg de «");
            out.append(name);
            out.append("»…");
        },
        Lang::En => {
            out.append("Opening winecfg for “");
            out.append(name);
            out.append("”…");
        },
        Lang::PtBr => {
            out.append("Abrindo o winecfg de “");
            out.append(name);
            out.append("”…");
        },
        Lang::Ru => {
            out.append("Открываю winecfg для «");
            out.append(name);
            out.append("»…");
        },
    }
    out
}

/// The status text `program_started` in `lang`.
pub open spec fn program_started_text(lang: Lang) -> Seq<char> {
    match lang {
        Lang::Es => "Programa iniciado"@,
        Lang::En => "Program started"@,
        Lang::PtBr => "Programa iniciado"@,
        Lang::Ru => "Программа запущена"@,
    }
}

/// Status text `program_started` in `lang`.
pub fn msg_program_started(lang: Lang) -> (r: String)
    ensures
        r@ == program_started_text(lang),
{
    let mut out = String::new();
    match lang {
        Lang::Es => {
            out.append("Programa iniciado");
        },
        Lang::En => {
            out.append("Program started");
        },
        Lang::PtBr => {
            out.append("Programa iniciado");
        },
        Lang::Ru => {
            out.append("Программа запущена");
        },
    }
    out
}

/// The status text `running_installer` in `lang`.
pub open spec fn running_installer_text(lang: Lang, name: Seq<char>) -> Seq<char> {
    match lang {
        Lang::Es => "Ejecutando instalador de «"@ + name + "»… cuando termines, apretá «Ya instalé, buscar apps»."@,
        Lang::En => "Running the installer for “"@ + name + "”… when you're done, click “Already installed, scan apps”."@,
        Lang::PtBr => "Executando o instalador de “"@ + name + "”… quando terminar, clique em “Já instalei, procurar apps”."@,
        Lang::Ru => "Запускаю установщик «"@ + name + "»… когда закончите, нажмите «Установка завершена, искать приложения»."@,
    }
}

/// Status text `running_installer` in `lang`.
pub fn msg_running_installer(lang: Lang, name: &str) -> (r: String)
    ensures
        r@ == running_installer_text(lang, name@),
{
    let mut out = String::new();
    match lang {
        Lang::Es => {
            out.append("Ejecutando instalador de «");
            out.append(name);
            out.append("»… cuando termines, apretá «Ya instalé, buscar apps».");
        },
        Lang::En => {
            out.append("Running the installer for “");
            out.append(name);
            out.append("”… when you're done, click “Already installed, scan apps”.");
        },
        Lang::PtBr => {
            out.append("Executando o instalador de “");
            out.append(name);
            out.append("”… quando terminar, clique em “Já instalei, procurar apps”.");
        },
        Lang::Ru => {
            out.append("Запускаю установщик «");
            out.append(name);
            out.append("»… когда закончите, нажмите «Установка завершена, искать приложения».");
        },
    }
    out
}

/// The status text `installer_added` in `lang`.
pub open spec fn installer_added_text(lang: Lang, name: Seq<char>) -> Seq<char> {
    match lang {
        Lang::Es => "Instalador agregado a «"@ + name + "». Ya podés apretar «Instalar»."@,
        Lang::En => "Installer added to “"@ + name + "”. You can now click “Install”."@,
        Lang::PtBr => "Instalador adicionado a “"@ + name + "”. Agora você pode clicar em “Instalar”."@,
        Lang::Ru => "Установщик добавлен в «"@ + name + "». Теперь можно нажать «Установить»."@,
    }
}

/// Status text `installer_added` in `lang`.
pub fn msg_installer_added(lang: Lang, name: &str) -> (r: String)
    ensures
        r@ == installer_added_text(lang, name@),
{
    let mut out = String::new();
    match lang {
        Lang::Es => {
            out.append("Instalador agregado a «");
            out.append(name);
            out.append("». Ya podés apretar «Instalar».");
        },
        Lang::En => {
            out.append("Installer added to “");
            out.append(name);
            out.append("”. You can now click “Install”.");
        },
        Lang::PtBr => {
            out.append("Instalador adicionado a “");
            out.append(name);
            out.append("”. Agora você pode clicar em “Instalar”.");
        },
        Lang::Ru => {
            out.append("Установщик добавлен в «");
            out.append(name);
            out.append("». Теперь можно нажать «Установить».");
        },
    }
    out
}

/// The status text `scanning_apps` in `lang`.
pub open spec fn scanning_apps_text(lang: Lang, name: Seq<char>) -> Seq<char> {
    match lang {
        Lang::Es => "Buscando aplicaciones instaladas en «"@ + name + "»…"@,
        Lang::En => "Scanning for installed apps in “"@ + name + "”…"@,
        Lang::PtBr => "Procurando aplicativos instalados em “"@ + name + "”…"@,
        Lang::Ru => "Ищу установленные приложения в «"@ + name + "»…"@,
    }
}

/// Status text `scanning_apps` in `lang`.
pub fn msg_scanning_apps(lang: Lang, name: &str) -> (r: String)
    ensures
        r@ == scanning_apps_text(lang, name@),
{
    let mut out = String::new();
    match lang {
        Lang::Es => {
            out.append("Buscando aplicaciones instaladas en «");
            out.append(name);
            out.append("»…");
        },
        Lang::En => {
            out.append("Scanning for installed apps in “");
            out.append(name);
            out.append("”…");
        },
        Lang::PtBr => {
            out.append("Procurando aplicativos instalados em “");
            out.append(name);
            out.append("”…");
        },
        Lang::Ru => {
            out.append("Ищу установленные приложения в «");
            out.append(name);
            out.append("»…");
        },
    }
    out
}

/// The status text `apps_found` in `lang`.
pub open spec fn apps_found_text(lang: Lang, added: usize, name: Seq<char>) -> Seq<char> {
    match lang {
        Lang::Es => "Encontré "@ + decimal(added as nat) + " "@ + (if added == 1 { "aplicación"@ } else { "aplicaciones"@ }) + " en «"@ + name + "» y las agregué a la biblioteca."@,
        Lang::En => "Found "@ + decimal(added as nat) + " "@ + (if added == 1 { "app"@ } else { "apps"@ }) + " in “"@ + name + "” and added them to the library."@,
        Lang::PtBr => "Encontrei "@ + decimal(added as nat) + " "@ + (if added == 1 { "aplicativo"@ } else { "aplicativos"@ }) + " em “"@ + name + "” e adicionei à biblioteca."@,
        Lang::Ru => "Найдено "@ + decimal(added as nat) + " "@ + (if added == 1 { "приложение"@ } else { "приложений"@ }) + " в «"@ + name + "», добавлено в библиотеку."@,
    }
}

/// Status text `apps_found` in `lang`.
pub fn msg_apps_found(lang: Lang, added: usize, name: &str) -> (r: String)
    ensures
        r@ == apps_found_text(lang, added, name@),
{
    let mut out = String::new();
    match lang {
        Lang::Es => {
            out.append("Encontré ");
            push_decimal(&mut out, added);
            out.append(" ");
            if added == 1 { out.append("aplicación"); } else { out.append("aplicaciones"); }
            out.append(" en «");
            out.append(name);
            out.append("» y las agregué a la biblioteca.");
        },
        Lang::En => {
            out.append("Found ");
            push_decimal(&mut out, added);
            out.append(" ");
            if added == 1 { out.append("app"); } else { out.append("apps"); }
            out.append(" in “");
            out.append(name);
            out.append("” and added them to the library.");
        },
        Lang::PtBr => {
            out.append("Encontrei ");
            push_decimal(&mut out, added);
            out.append(" ");
            if added == 1 { out.append("aplicativo"); } else { out.append("aplicativos"); }
            out.append(" em “");
            out.append(name);
            out.append("” e adicionei à biblioteca.");
        },
        Lang::Ru => {
            out.append("Найдено ");
            push_decimal(&mut out, added);
            out.append(" ");
            if added == 1 { out.append("приложение"); } else { out.append("приложений"); }
            out.append(" в «");
            out.append(name);
            out.append("», добавлено в библиотеку.");
        },
    }
    out
}

/// The status text `no_apps_found` in `lang`.
pub open spec fn no_apps_found_text(lang: Lang, name: Seq<char>) -> Seq<char> {
    match lang {
        Lang::Es => "No encontré ninguna aplicación instalada en «"@ + name + "». Probá «Elegir a mano» para señalarla vos."@,
        Lang::En => "No installed apps were found in “"@ + name + "”. Try picking it manually instead."@,
        Lang::PtBr => "Nenhum aplicativo instalado foi encontrado em “"@ + name + "”. Tente escolher manualmente."@,
        Lang::Ru => "В «"@ + name + "» не найдено установленных приложений. Попробуйте выбрать вручную."@,
    }
}

/// Status text `no_apps_found` in `lang`.
pub fn msg_no_apps_found(lang: Lang, name: &str) -> (r: String)
    ensures
        r@ == no_apps_found_text(lang, name@),
{
    let mut out = String::new();
    match lang {
        Lang::Es => {
            out.append("No encontré ninguna aplicación instalada en «");
            out.append(name);
            out.append("». Probá «Elegir a mano» para señalarla vos.");
        },
        Lang::En => {
            out.append("No installed apps were found in “");
            out.append(name);
            out.append("”. Try picking it manually instead.");
        },
        Lang::PtBr => {
            out.append("Nenhum aplicativo instalado foi encontrado em “");
            out.append(name);
            out.append("”. Tente escolher manualmente.");
        },
        Lang::Ru => {
            out.append("В «");
            out.append(name);
            out.append("» не найдено установленных приложений. Попробуйте выбрать вручную.");
        },
    }
    out
}

/// The status text `app_added_to_library` in `lang`.
pub open spec fn app_added_to_library_text(lang: Lang) -> Seq<char> {
    match lang {
        Lang::Es => "Aplicación agregada a la biblioteca"@,
        Lang::En => "App added to the library"@,
        Lang::PtBr => "Aplicativo adicionado à biblioteca"@,
        Lang::Ru => "Приложение добавлено в библиотеку"@,
    }
}

/// Status text `app_added_to_library` in `lang`.
pub fn msg_app_added_to_library(lang: Lang) -> (r: String)
    ensures
        r@ == app_added_to_library_text(lang),
{
    let mut out = String::new();
    match lang {
        Lang::Es => {
            out.append("Aplicación agregada a la biblioteca");
        },
        Lang::En => {
            out.append("App added to the library");
        },
        Lang::PtBr => {
            out.append("Aplicativo adicionado à biblioteca");
        },
        Lang::Ru => {
            out.append("Приложение добавлено в библиотеку");
        },
    }
    out
}

/// The status text `starting` in `lang`.
pub open spec fn starting_text(lang: Lang) -> Seq<char> {
    match lang {
        Lang::Es => "Iniciando…"@,
        Lang::En => "Starting…"@,
        Lang::PtBr => "Iniciando…"@,
        Lang::Ru => "Запуск…"@,
    }
}

/// Status text `starting` in `lang`.
pub fn msg_starting(lang: Lang) -> (r: String)
    ensures
        r@ == starting_text(lang),
{
    let mut out = String::new();
    match lang {
        Lang::Es => {
            out.append("Iniciando…");
        },
        Lang::En => {
            out.append("Starting…");
        },
        Lang::PtBr => {
            out.append("Iniciando…");
        },
        Lang::Ru => {
            out.append("Запуск…");
        },
    }
    out
}

/// The status text `app_removed_from_library` in `lang`.
pub open spec fn app_removed_from_library_text(lang: Lang) -> Seq<char> {
    match lang {
        Lang::Es => "Aplicación quitada de la biblioteca"@,
        Lang::En => "App removed from the library"@,
        Lang::PtBr => "Aplicativo removido da biblioteca"@,
        Lang::Ru => "Приложение удалено из библиотеки"@,
    }
}

/// Status text `app_removed_from_library` in `lang`.
pub fn msg_app_removed_from_library(lang: Lang) -> (r: String)
    ensures
        r@ == app_removed_from_library_text(lang),
{
    let mut out = String::new();
    match lang {
        Lang::Es => {
            out.append("Aplicación quitada de la biblioteca");
        },
        Lang::En => {
            out.append("App removed from the library");
        },
        Lang::PtBr => {
            out.append("Aplicativo removido da biblioteca");
        },
        Lang::Ru => {
            out.append("Приложение удалено из библиотеки");
        },
    }
    out
}

/// The status text `installing_setup` in `lang`.
pub open spec fn installing_setup_text(lang: Lang) -> Seq<char> {
    match lang {
        Lang::Es => "Instalando… puede pedir tu contraseña"@,
        Lang::En => "Installing… it may ask for your password"@,
        Lang::PtBr => "Instalando… pode pedir sua senha"@,
        Lang::Ru => "Установка… может запросить пароль"@,
    }
}

/// Status text `installing_setup` in `lang`.
pub fn msg_installing_setup(lang: Lang) -> (r: String)
    ensures
        r@ == installing_setup_text(lang),
{
    let mut out = String::new();
    match lang {
        Lang::Es => {
            out.append("Instalando… puede pedir tu contraseña");
        },
        Lang::En => {
            out.append("Installing… it may ask for your password");
        },
        Lang::PtBr => {
            out.append("Instalando… pode pedir sua senha");
        },
        Lang::Ru => {
            out.append("Установка… может запросить пароль");
        },
    }
    out
}

/// The status text `installer_label` in `lang`.
pub open spec fn installer_label_text(lang: Lang, file: Seq<char>) -> Seq<char> {
    match lang {
        Lang::Es => "Instalador: "@ + file,
        Lang::En => "Installer: "@ + file,
        Lang::PtBr => "Instalador: "@ + file,
        Lang::Ru => "Установщик: "@ + file,
    }
}

/// Status text `installer_label` in `lang`.
pub fn msg_installer_label(lang: Lang, file: &str) -> (r: String)
    ensures
        r@ == installer_label_text(lang, file@),
{
    let mut out = String::new();
    match lang {
        Lang::Es => {
            out.append("Instalador: ");
            out.append(file);
        },
        Lang::En => {
            out.append("Installer: ");
            out.append(file);
        },
        Lang::PtBr => {
            out.append("Instalador: ");
            out.append(file);
        },
        Lang::Ru => {
            out.append("Установщик: ");
            out.append(file);
        },
    }
    out
}

/// The status text `detected_unregistered` in `lang`.
pub open spec fn detected_unregistered_text(lang: Lang, count: usize) -> Seq<char> {
    match lang {
        Lang::Es => "Encontrados sin registrar ("@ + decimal(count as nat) + ")"@,
        Lang::En => "Found but not registered ("@ + decimal(count as nat) + ")"@,
        Lang::PtBr => "Encontrados e não registrados ("@ + decimal(count as nat) + ")"@,
        Lang::Ru => "Найдено незарегистрированных ("@ + decimal(count as nat) + ")"@,
    }
}

/// Status text `detected_unregistered` in `lang`.
pub fn msg_detected_unregistered(lang: Lang, count: usize) -> (r: String)
    ensures
        r@ == detected_unregistered_text(lang, count),
{
    let mut out = String::new();
    match lang {
        Lang::Es => {
            out.append("Encontrados sin registrar (");
            push_decimal(&mut out, count);
            out.append(")");
        },
        Lang::En => {
            out.append("Found but not registered (");
            push_decimal(&mut out, count);
            out.append(")");
        },
        Lang::PtBr => {
            out.append("Encontrados e não registrados (");
            push_decimal(&mut out, count);
            out.append(")");
        },
        Lang::Ru => {
            out.append("Найдено незарегистрированных (");
            push_decimal(&mut out, count);
            out.append(")");
        },
    }
    out
}

/// The status text `profiles_count` in `lang`.
pub open spec fn profiles_count_text(lang: Lang, count: usize) -> Seq<char> {
    match lang {
        Lang::Es => "Perfiles ("@ + decimal(count as nat) + ")"@,
        Lang::En => "Profiles ("@ + decimal(count as nat) + ")"@,
        Lang::PtBr => "Perfis ("@ + decimal(count as nat) + ")"@,
        Lang::Ru => "Профили ("@ + decimal(count as nat) + ")"@,
    }
}

/// Status text `profiles_count` in `lang`.
pub fn msg_profiles_count(lang: Lang, count: usize) -> (r: String)
    ensures
        r@ == profiles_count_text(lang, count),
{
    let mut out = String::new();
    match lang {
        Lang::Es => {
            out.append("Perfiles (");
            push_decimal(&mut out, count);
            out.append(")");
        },
        Lang::En => {
            out.append("Profiles (");
            push_decimal(&mut out, count);
            out.append(")");
        },
        Lang::PtBr => {
            out.append("Perfis (");
            push_decimal(&mut out, count);
            out.append(")");
        },
        Lang::Ru => {
            out.append("Профили (");
            push_decimal(&mut out, count);
            out.append(")");
        },
    }
    out
}

/// The status text `library_count` in `lang`.
pub open spec fn library_count_text(lang: Lang, count: usize) -> Seq<char> {
    match lang {
        Lang::Es => "Biblioteca ("@ + decimal(count as nat) + ")"@,
        Lang::En => "Library ("@ + decimal(count as nat) + ")"@,
        Lang::PtBr => "Biblioteca ("@ + decimal(count as nat) + ")"@,
        Lang::Ru => "Библиотека ("@ + decimal(count as nat) + ")"@,
    }
}

/// Status text `library_count` in `lang`.
pub fn msg_library_count(lang: Lang, count: usize) -> (r: String)
    ensures
        r@ == library_count_text(lang, count),
{
    let mut out = String::new();
    match lang {
        Lang::Es => {
            out.append("Biblioteca (");
            push_decimal(&mut out, count);
            out.append(")");
        },
        Lang::En => {
            out.append("Library (");
            push_decimal(&mut out, count);
            out.append(")");
        },
        Lang::PtBr => {
            out.append("Biblioteca (");
            push_decimal(&mut out, count);
            out.append(")");
        },
        Lang::Ru => {
            out.append("Библиотека (");
            push_decimal(&mut out, count);
            out.append(")");
        },
    }
    out
}

/// The first locale variable whose value names a language decides the
/// language, wherever it stands among the variables (`LANG`, last, counts
/// as much as `LC_ALL`, first, when the others are unset or name none).
pub proof fn law_first_naming_value_decides(vs: Seq<Option<Seq<char>>>, j: int)
    requires
        0 <= j < vs.len(),
        vs[j] is Some,
        first_known_lang(split_on(vs[j]->0, ':')) is Some,
        forall|i: int|
            0 <= i < j ==> (#[trigger] vs[i]) is None || first_known_lang(split_on(vs[i]->0, ':')) is None,
    ensures
        first_env_lang(vs) == first_known_lang(split_on(vs[j]->0, ':')),
    decreases j,
{
    if j > 0 {
        let rest = vs.drop_first();
        assert(vs[0] is None || first_known_lang(split_on(vs[0]->0, ':')) is None);
        assert forall|i: int| 0 <= i < j - 1 implies (#[trigger] rest[i]) is None || first_known_lang(
            split_on(rest[i]->0, ':'),
        ) is None by {
            assert(rest[i] == vs[i + 1]);
        }
        assert(rest[j - 1] == vs[j]);
        law_first_naming_value_decides(rest, j - 1);
    }
}

/// When no locale variable names a language, none is named (and the
/// interface falls back to English).
pub proof fn law_no_naming_value(vs: Seq<Option<Seq<char>>>)
    requires
        forall|i: int|
            0 <= i < vs.len() ==> (#[trigger] vs[i]) is None || first_known_lang(split_on(vs[i]->0, ':')) is None,
    ensures
        first_env_lang(vs) is None,
    decreases vs.len(),
{
    if vs.len() > 0 {
        let rest = vs.drop_first();
        assert(vs[0] is None || first_known_lang(split_on(vs[0]->0, ':')) is None);
        assert forall|i: int| 0 <= i < rest.len() implies (#[trigger] rest[i]) is None || first_known_lang(
            split_on(rest[i]->0, ':'),
        ) is None by {
            assert(rest[i] == vs[i + 1]);
        }
        law_no_naming_value(rest);
    }
}

} // verus!


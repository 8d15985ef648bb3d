use dalhin::prefix::{
    add_library_app, check_new_prefix, delete_prefix, detect_arch, detected_prefix, find_prefix,
    is_safe_name, is_wine_folder_name, record_created_prefix, register_prefix, remove_library_app,
    set_launcher_exe, set_setup_exe, wineboot_outcome, LibraryApp, Prefix,
};

fn s(x: &str) -> String {
    x.to_string()
}

fn profile(name: &str, path: &str, external: bool) -> Prefix {
    Prefix {
        name: s(name),
        path: s(path),
        arch: s("win64"),
        category: s("aplicaciones"),
        external,
        setup_exe: None,
        launcher_exe: None,
        library: Vec::new(),
    }
}

fn names(v: &[Prefix]) -> Vec<String> {
    v.iter().map(|p| p.name.clone()).collect()
}

#[test]
fn safe_names_accept_plain_names() {
    assert!(is_safe_name("Juegos"));
    assert!(is_safe_name("GOG Games 2"));
    assert!(is_safe_name("a.b"));
}

#[test]
fn safe_names_reject_path_tricks() {
    assert!(!is_safe_name(""));
    assert!(!is_safe_name("."));
    assert!(!is_safe_name(".."));
    assert!(!is_safe_name("../../.config"));
    assert!(!is_safe_name("a/b"));
    assert!(!is_safe_name("a\\b"));
    assert!(!is_safe_name(".hidden"));
}

#[test]
fn register_adds_external_profile() {
    let mut reg = vec![profile("uno", "/p/uno", false)];
    let r = register_prefix(&mut reg, s("wine"), s("/home/u/.wine"), s("win32"), s("aplicaciones")).unwrap();
    assert_eq!(r.name, "wine");
    assert!(r.external);
    assert_eq!(r.arch, "win32");
    assert!(r.setup_exe.is_none() && r.launcher_exe.is_none() && r.library.is_empty());
    assert_eq!(names(&reg), vec![s("uno"), s("wine")]);
}

#[test]
fn register_refuses_unsafe_name() {
    let mut reg = vec![profile("uno", "/p/uno", false)];
    let e = register_prefix(&mut reg, s(".wine"), s("/x"), s("win64"), s("c")).unwrap_err();
    assert_eq!(e, "El nombre no puede contener '/', '\\\\', ni empezar con '.'");
    assert_eq!(reg.len(), 1);
}

#[test]
fn register_refuses_taken_name_or_path() {
    let mut reg = vec![profile("uno", "/p/uno", false)];
    let e = register_prefix(&mut reg, s("uno"), s("/otro"), s("win64"), s("c")).unwrap_err();
    assert_eq!(e, "«uno» ya está registrado");
    let e = register_prefix(&mut reg, s("dos"), s("/p/uno"), s("win64"), s("c")).unwrap_err();
    assert_eq!(e, "«dos» ya está registrado");
    assert_eq!(reg.len(), 1);
}

#[test]
fn registering_twice_is_refused() {
    let mut reg = Vec::new();
    assert!(register_prefix(&mut reg, s("w"), s("/a"), s("win64"), s("c")).is_ok());
    assert!(register_prefix(&mut reg, s("w"), s("/b"), s("win64"), s("c")).is_err());
    assert_eq!(reg.len(), 1);
    assert!(reg[0].external);
}

#[test]
fn check_new_prefix_messages() {
    let reg = vec![profile("uno", "/p/uno", false)];
    assert_eq!(check_new_prefix(&reg, "   ").unwrap_err(), "El nombre no puede estar vacío");
    assert_eq!(check_new_prefix(&reg, "").unwrap_err(), "El nombre no puede estar vacío");
    assert_eq!(
        check_new_prefix(&reg, "a/b").unwrap_err(),
        "El nombre no puede contener '/', '\\\\', ni empezar con '.'"
    );
    assert_eq!(check_new_prefix(&reg, "uno").unwrap_err(), "Ya existe un prefijo llamado «uno»");
    assert!(check_new_prefix(&reg, "dos").is_ok());
}

#[test]
fn created_profiles_are_not_external() {
    let mut reg = Vec::new();
    let p = record_created_prefix(&mut reg, s("nuevo"), s("/d/prefixes/nuevo"), s("win64"), s("aplicaciones"));
    assert!(!p.external);
    assert_eq!(reg.len(), 1);
    assert_eq!(reg[0].path, "/d/prefixes/nuevo");
}

#[test]
fn wineboot_outcome_reports_stderr() {
    assert!(wineboot_outcome(true, "ignored").is_ok());
    assert_eq!(wineboot_outcome(false, "boom").unwrap_err(), "wineboot falló: boom");
}

#[test]
fn find_prefix_gives_first_match() {
    let reg = vec![profile("a", "/1", false), profile("b", "/2", false), profile("b", "/3", false)];
    assert_eq!(find_prefix(&reg, "b"), Some(1));
    assert_eq!(find_prefix(&reg, "c"), None);
}

#[test]
fn set_setup_exe_changes_only_the_named_profile() {
    let mut reg = vec![profile("a", "/1", false), profile("b", "/2", false)];
    let p = set_setup_exe(&mut reg, "b", s("/dl/setup.exe")).unwrap();
    assert_eq!(p.setup_exe.as_deref(), Some("/dl/setup.exe"));
    assert_eq!(reg[1].setup_exe.as_deref(), Some("/dl/setup.exe"));
    assert!(reg[0].setup_exe.is_none());
}

#[test]
fn last_setting_wins() {
    let mut reg = vec![profile("a", "/1", false)];
    set_setup_exe(&mut reg, "a", s("/one.exe")).unwrap();
    set_setup_exe(&mut reg, "a", s("/two.exe")).unwrap();
    assert_eq!(reg[0].setup_exe.as_deref(), Some("/two.exe"));
    set_launcher_exe(&mut reg, "a", s("/g1.exe")).unwrap();
    set_launcher_exe(&mut reg, "a", s("/g2.exe")).unwrap();
    assert_eq!(reg[0].launcher_exe.as_deref(), Some("/g2.exe"));
}

#[test]
fn unknown_profile_errors() {
    let mut reg = vec![profile("a", "/1", false)];
    assert_eq!(set_setup_exe(&mut reg, "z", s("/x.exe")).unwrap_err(), "No se encontró el prefijo «z»");
    assert_eq!(set_launcher_exe(&mut reg, "z", s("/x.exe")).unwrap_err(), "No se encontró el prefijo «z»");
    assert_eq!(add_library_app(&mut reg, "z", s("/x.exe")).unwrap_err(), "No se encontró el prefijo «z»");
    assert_eq!(remove_library_app(&mut reg, "z", "/x.exe").unwrap_err(), "No se encontró el prefijo «z»");
    assert_eq!(delete_prefix(&mut reg, "z").unwrap_err(), "No se encontró el prefijo «z»");
    assert_eq!(reg.len(), 1);
    assert!(reg[0].setup_exe.is_none());
}

#[test]
fn add_library_app_names_the_app_and_does_not_duplicate() {
    let mut reg = vec![profile("gog", "/p/gog", false)];
    let exe = "/p/gog/drive_c/GOG Games/Life is Strange/Binaries/Win32/LifeIsStrange.exe";
    let p = add_library_app(&mut reg, "gog", s(exe)).unwrap();
    assert_eq!(p.library.len(), 1);
    assert_eq!(p.library[0].name, "Life is Strange");
    assert_eq!(p.library[0].exe_path, exe);
    let p = add_library_app(&mut reg, "gog", s(exe)).unwrap();
    assert_eq!(p.library.len(), 1);
    assert_eq!(reg[0].library.len(), 1);
}

#[test]
fn remove_after_add_leaves_no_entry() {
    let mut reg = vec![profile("gog", "/p/gog", false)];
    add_library_app(&mut reg, "gog", s("/g/A/a.exe")).unwrap();
    add_library_app(&mut reg, "gog", s("/g/B/b.exe")).unwrap();
    let p = remove_library_app(&mut reg, "gog", "/g/A/a.exe").unwrap();
    assert_eq!(p.library.len(), 1);
    assert_eq!(p.library[0].exe_path, "/g/B/b.exe");
    assert!(reg[0].library.iter().all(|a| a.exe_path != "/g/A/a.exe"));
}

#[test]
fn remove_drops_every_entry_with_that_path() {
    let mut p = profile("x", "/x", false);
    p.library.push(LibraryApp { name: s("A"), exe_path: s("/a.exe") });
    p.library.push(LibraryApp { name: s("B"), exe_path: s("/b.exe") });
    p.library.push(LibraryApp { name: s("A2"), exe_path: s("/a.exe") });
    let mut reg = vec![p];
    let r = remove_library_app(&mut reg, "x", "/a.exe").unwrap();
    assert_eq!(r.library.len(), 1);
    assert_eq!(r.library[0].name, "B");
}

#[test]
fn delete_own_profile_names_its_folder() {
    let mut reg = vec![profile("a", "/p/a", false), profile("b", "/p/b", false)];
    assert_eq!(delete_prefix(&mut reg, "a").unwrap(), Some(s("/p/a")));
    assert_eq!(names(&reg), vec![s("b")]);
}

#[test]
fn delete_external_profile_keeps_its_folder() {
    let mut reg = vec![profile("wine", "/home/u/.wine", true), profile("b", "/p/b", false)];
    assert_eq!(delete_prefix(&mut reg, "wine").unwrap(), None);
    assert_eq!(names(&reg), vec![s("b")]);
}

#[test]
fn delete_removes_every_profile_with_the_name() {
    let mut reg = vec![profile("a", "/1", false), profile("b", "/2", false), profile("a", "/3", false)];
    assert_eq!(delete_prefix(&mut reg, "a").unwrap(), Some(s("/1")));
    assert_eq!(names(&reg), vec![s("b")]);
}

#[test]
fn detect_arch_reads_the_arch_line() {
    assert_eq!(detect_arch("WINE REGISTRY Version 2\n;; All keys relative\n#arch=win32\n"), "win32");
    assert_eq!(detect_arch("WINE REGISTRY Version 2\r\n#arch=win64  \r\n"), "win64");
    assert_eq!(detect_arch("no arch here\n"), "win64");
    assert_eq!(detect_arch(""), "win64");
}

#[test]
fn detect_arch_looks_only_at_the_first_twenty_lines() {
    let mut content = String::new();
    for _ in 0..20 {
        content.push_str("x\n");
    }
    content.push_str("#arch=win32\n");
    assert_eq!(detect_arch(&content), "win64");
    let mut content = String::new();
    for _ in 0..19 {
        content.push_str("x\n");
    }
    content.push_str("#arch=win32");
    assert_eq!(detect_arch(&content), "win32");
}

#[test]
fn wine_folder_names() {
    assert!(is_wine_folder_name(".wine"));
    assert!(is_wine_folder_name(".wine-games"));
    assert!(!is_wine_folder_name("wine"));
    assert!(!is_wine_folder_name(".config"));
}

#[test]
fn detected_prefix_skips_registered_paths() {
    let reg = vec![profile("wine", "/home/u/.wine", true)];
    assert!(detected_prefix(&reg, ".wine", s("/home/u/.wine"), s("win64")).is_none());
    let d = detected_prefix(&reg, ".wine-games", s("/home/u/.wine-games"), s("win32")).unwrap();
    assert_eq!(d.name, "wine-games");
    assert_eq!(d.path, "/home/u/.wine-games");
    assert_eq!(d.arch, "win32");
}

#[test]
fn changes_leave_other_profiles_alone() {
    let mut dos = profile("dos", "/p/dos", true);
    dos.library = vec![LibraryApp { name: s("Juego"), exe_path: s("/p/dos/j.exe") }];
    let mut reg = vec![profile("uno", "/p/uno", false), dos];
    set_setup_exe(&mut reg, "uno", s("/s.exe")).unwrap();
    set_launcher_exe(&mut reg, "uno", s("/l.exe")).unwrap();
    add_library_app(&mut reg, "uno", s("/p/dos/j.exe")).unwrap();
    remove_library_app(&mut reg, "uno", "/p/dos/j.exe").unwrap();
    assert_eq!(reg[1].name, "dos");
    assert!(reg[1].external);
    assert!(reg[1].setup_exe.is_none() && reg[1].launcher_exe.is_none());
    assert_eq!(reg[1].library.len(), 1);
    assert_eq!(reg[1].library[0].exe_path, "/p/dos/j.exe");
    assert_eq!(reg[0].setup_exe.as_deref(), Some("/s.exe"));
    assert!(reg[0].library.is_empty());
}

#[test]
fn installer_is_kept_after_programs_are_found() {
    let mut reg = vec![profile("uno", "/p/uno", false)];
    set_setup_exe(&mut reg, "uno", s("/dl/setup.exe")).unwrap();
    add_library_app(&mut reg, "uno", s("/p/uno/drive_c/Juego/j.exe")).unwrap();
    set_launcher_exe(&mut reg, "uno", s("/p/uno/drive_c/Juego/j.exe")).unwrap();
    remove_library_app(&mut reg, "uno", "/p/uno/drive_c/Juego/j.exe").unwrap();
    assert_eq!(reg[0].setup_exe.as_deref(), Some("/dl/setup.exe"));
}

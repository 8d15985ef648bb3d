use dalhin::programs::{
    derive_app_name, fallback_program, file_name, has_extension, is_generic_folder,
    is_skippable_dir, looks_like_installer_artifact, path_parts_of, programs_from_shortcuts,
};

fn s(x: &str) -> String {
    x.to_string()
}

#[test]
fn app_name_from_containing_folder() {
    assert_eq!(derive_app_name("/h/GOG Games/Life is Strange/Binaries/Win32/LiS.exe"), "Life is Strange");
    assert_eq!(derive_app_name("/games/Bread & Fred Demo/Bread&Fred.exe"), "Bread & Fred Demo");
    assert_eq!(derive_app_name("C/Program Files/Foo/bin/x64/foo.exe"), "Foo");
}

#[test]
fn app_name_skips_generic_folders_in_any_case() {
    assert_eq!(derive_app_name("/GAME/BIN/tool.exe"), "tool");
    assert_eq!(derive_app_name("/Data/System/Games/x86/run.me.exe"), "run.me");
}

#[test]
fn app_name_falls_back_to_stem_or_default() {
    assert_eq!(derive_app_name("setup.exe"), "setup");
    assert_eq!(derive_app_name(".hidden"), ".hidden");
    assert_eq!(derive_app_name("/"), "Aplicación");
    assert_eq!(derive_app_name(""), "Aplicación");
    assert_eq!(derive_app_name("/a/.."), "a");
}

#[test]
fn path_parts_follow_std_path() {
    let parts: Vec<String> = path_parts_of("/a//b/./c/").iter().map(|p| p.iter().collect()).collect();
    assert_eq!(parts, vec![s("a"), s("b"), s("c")]);
    let parts: Vec<String> = path_parts_of("./x/../y").iter().map(|p| p.iter().collect()).collect();
    assert_eq!(parts, vec![s("x"), s(".."), s("y")]);
}

#[test]
fn file_names() {
    assert_eq!(file_name("/a/b/game.exe"), Some(s("game.exe")));
    assert_eq!(file_name("/a/b/"), Some(s("b")));
    assert_eq!(file_name("/a/.."), None);
    assert_eq!(file_name("/"), None);
}

#[test]
fn generic_folder_names() {
    assert!(is_generic_folder("win32"));
    assert!(is_generic_folder("binaries"));
    assert!(!is_generic_folder("Win32"));
    assert!(!is_generic_folder("games2"));
}

#[test]
fn installer_artifacts() {
    assert!(looks_like_installer_artifact("unins000.exe"));
    assert!(looks_like_installer_artifact("VC_redist.x64.exe"));
    assert!(looks_like_installer_artifact("UnityCrashHandler64.exe"));
    assert!(looks_like_installer_artifact("Setup.exe"));
    assert!(looks_like_installer_artifact("Web Site.url"));
    assert!(!looks_like_installer_artifact("LifeIsStrange.exe"));
    assert!(!looks_like_installer_artifact("Bread&Fred.exe"));
}

#[test]
fn skippable_dirs() {
    assert!(is_skippable_dir("windows"));
    assert!(is_skippable_dir("Windows"));
    assert!(is_skippable_dir("$Recycle.Bin"));
    assert!(is_skippable_dir("RECYCLER"));
    assert!(!is_skippable_dir("Program Files"));
}

#[test]
fn extensions() {
    assert!(has_extension("game.exe", "exe"));
    assert!(has_extension("GAME.EXE", "exe"));
    assert!(has_extension("Game.Lnk", "lnk"));
    assert!(!has_extension("game.exe.txt", "exe"));
    assert!(!has_extension(".exe", "exe"));
    assert!(!has_extension("exe", "exe"));
    assert!(has_extension("a.", ""));
}

#[test]
fn shortcut_programs_are_filtered_and_listed_once() {
    let targets = vec![
        s("/d/GOG Games/Game A/a.exe"),
        s("/d/GOG Games/Game A/unins000.exe"),
        s("/d/GOG Games/Game B/b.exe"),
        s("/d/GOG Games/Game A/a.exe"),
    ];
    let r = programs_from_shortcuts(&targets);
    assert_eq!(
        r,
        vec![
            (s("Game A"), s("/d/GOG Games/Game A/a.exe")),
            (s("Game B"), s("/d/GOG Games/Game B/b.exe")),
        ]
    );
}

#[test]
fn fallback_picks_newest_non_installer() {
    let candidates = vec![
        (s("/c/Tetris/old.exe"), 10u128),
        (s("/c/Tetris/setup.exe"), 99u128),
        (s("/c/Tetris/new.exe"), 50u128),
        (s("/c/Other/tie.exe"), 50u128),
    ];
    assert_eq!(fallback_program(&candidates), Some((s("Tetris"), s("/c/Tetris/new.exe"))));
    let only_installers = vec![(s("/c/unins000.exe"), 5u128)];
    assert_eq!(fallback_program(&only_installers), None);
    assert_eq!(fallback_program(&[]), None);
}

/// Paths built from awkward components: empty, `.`, `..`, hidden names,
/// generic folders in mixed case, names with several dots.
fn awkward_paths() -> Vec<String> {
    let parts = ["", ".", "..", "a", "Bin", "GAMES", "x.exe", ".h", "a.b.EXE", "Tool"];
    let mut out = Vec::new();
    for lead in ["", "/"] {
        for trail in ["", "/"] {
            for a in parts {
                out.push(format!("{lead}{a}{trail}"));
                for b in parts {
                    out.push(format!("{lead}{a}/{b}{trail}"));
                    for c in parts {
                        out.push(format!("{lead}{a}/{b}/{c}{trail}"));
                    }
                }
            }
        }
    }
    out
}

/// The name std's path handling suggests for an executable: the nearest
/// enclosing folder that is not a generic one, else the file stem.
fn name_by_std(p: &str) -> String {
    let generic = ["win32", "win64", "x86", "x64", "binaries", "bin", "game", "games", "data", "system"];
    let path = std::path::Path::new(p);
    let mut up = path.parent();
    while let Some(dir) = up {
        if let Some(n) = dir.file_name() {
            let n = n.to_string_lossy().to_string();
            if !n.is_empty() && !generic.contains(&n.to_lowercase().as_str()) {
                return n;
            }
        }
        up = dir.parent();
    }
    match path.file_stem() {
        Some(stem) => stem.to_string_lossy().to_string(),
        None => "Aplicación".to_string(),
    }
}

#[test]
fn path_helpers_agree_with_std_path() {
    for p in awkward_paths() {
        let path = std::path::Path::new(&p);
        let std_name = path.file_name().map(|f| f.to_string_lossy().to_string());
        assert_eq!(file_name(&p), std_name, "file name of {p:?}");
        let std_ext = path.extension().map(|e| e.eq_ignore_ascii_case("exe")).unwrap_or(false);
        let leaf = std_name.clone().unwrap_or_default();
        assert_eq!(has_extension(&leaf, "exe"), std_ext, "extension of {p:?}");
        assert_eq!(derive_app_name(&p), name_by_std(&p), "app name of {p:?}");
    }
}

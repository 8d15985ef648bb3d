use dalhin::listing::{file_label, library_count, library_entries, prefix_apps};
use dalhin::prefix::{LibraryApp, Prefix};
use dalhin::style::thumbnail_index;

fn profile(name: &str, apps: &[(&str, &str)], launcher: Option<&str>) -> Prefix {
    Prefix {
        name: name.to_string(),
        path: format!("/p/{name}"),
        arch: "win64".to_string(),
        category: "juegos".to_string(),
        external: false,
        setup_exe: None,
        launcher_exe: launcher.map(|s| s.to_string()),
        library: apps
            .iter()
            .map(|(n, e)| LibraryApp { name: n.to_string(), exe_path: e.to_string() })
            .collect(),
    }
}

#[test]
fn labels_of_executables() {
    assert_eq!(file_label("/a/b/game.exe"), "game.exe");
    assert_eq!(file_label("/"), "/");
}

#[test]
fn card_lists_launcher_when_not_in_library() {
    let p = profile("g", &[("A", "/x/A/a.exe")], Some("/x/old/play.exe"));
    assert_eq!(
        prefix_apps(&p),
        vec![("A".to_string(), "/x/A/a.exe".to_string()), ("play.exe".to_string(), "/x/old/play.exe".to_string())]
    );
    let p = profile("g", &[("A", "/x/A/a.exe")], Some("/x/A/a.exe"));
    assert_eq!(prefix_apps(&p).len(), 1);
    let p = profile("g", &[], None);
    assert!(prefix_apps(&p).is_empty());
}

#[test]
fn library_tab_lists_all_profiles() {
    let reg = vec![
        profile("uno", &[("A", "/a.exe"), ("B", "/b.exe")], None),
        profile("dos", &[], Some("/c.exe")),
        profile("tres", &[("C", "/c.exe")], None),
    ];
    let entries = library_entries(&reg);
    let flat: Vec<(String, String)> = entries.iter().map(|(p, a)| (p.clone(), a.name.clone())).collect();
    assert_eq!(
        flat,
        vec![
            ("uno".to_string(), "A".to_string()),
            ("uno".to_string(), "B".to_string()),
            ("tres".to_string(), "C".to_string()),
        ]
    );
    assert_eq!(library_count(&reg), 3);
}

#[test]
fn thumbnail_slots() {
    assert_eq!(thumbnail_index(""), 0);
    // "A" hashes to 65.
    assert_eq!(thumbnail_index("A"), 65 % 7);
    // "ab": 97 * 31 + 98 = 3105.
    assert_eq!(thumbnail_index("ab"), 3105 % 7);
    let long = "Life is Strange: Before the Storm";
    assert_eq!(thumbnail_index(long), thumbnail_index(long));
    assert!(thumbnail_index(long) < 7);
}

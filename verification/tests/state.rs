use dalhin::i18n::Lang;
use dalhin::prefix::{DetectedPrefix, LibraryApp, Prefix};
use dalhin::state::{missing_icon_paths, Command, Dalhin, Message, Tab};
use dalhin::style::StatusKind;
use dalhin::system::SystemReport;

fn s(x: &str) -> String {
    x.to_string()
}

fn app(name: &str, exe: &str) -> LibraryApp {
    LibraryApp { name: s(name), exe_path: s(exe) }
}

fn profile(name: &str) -> Prefix {
    Prefix {
        name: s(name),
        path: format!("/p/{}", name),
        arch: s("win64"),
        category: s("aplicaciones"),
        external: false,
        setup_exe: None,
        launcher_exe: None,
        library: Vec::new(),
    }
}

fn status(d: &Dalhin) -> Option<(StatusKind, String)> {
    d.status.clone()
}

fn fresh(prefixes: Vec<Prefix>) -> Dalhin {
    Dalhin::new(prefixes, Lang::En).0
}

#[test]
fn start_without_programs_checks_system_and_loads_nothing() {
    let (d, cmds) = Dalhin::new(vec![profile("uno")], Lang::Es);
    assert_eq!(cmds.len(), 2);
    assert!(matches!(cmds[0], Command::ScanSystem));
    assert!(matches!(cmds[1], Command::Nothing));
    assert_eq!(d.active_tab, Tab::Prefixes);
    assert!(d.status.is_none());
    assert!(d.new_name.is_empty());
    assert!(d.icons_known.is_empty());
}

#[test]
fn start_queues_icons_sorted_once() {
    let mut p = profile("uno");
    p.library = vec![app("B", "/b.exe"), app("A", "/a.exe")];
    p.launcher_exe = Some(s("/b.exe"));
    let (d, mut cmds) = Dalhin::new(vec![p], Lang::Es);
    assert!(matches!(cmds[0], Command::ScanSystem));
    match cmds.remove(1) {
        Command::LoadIcons(paths) => assert_eq!(paths, vec![s("/a.exe"), s("/b.exe")]),
        _ => panic!("expected icon loads"),
    }
    assert_eq!(d.icons_known, vec![s("/a.exe"), s("/b.exe")]);
}

#[test]
fn missing_icons_skip_known_ones() {
    let mut p = profile("uno");
    p.library = vec![app("A", "/a.exe"), app("C", "/c.exe")];
    let q = profile("dos");
    let r = missing_icon_paths(&vec![p, q], &vec![s("/a.exe")]);
    assert_eq!(r, vec![s("/c.exe")]);
}

#[test]
fn create_with_blank_name_fails() {
    let mut d = fresh(vec![]);
    d.update(Message::NameChanged(s("   ")));
    let c = d.update(Message::CreatePressed);
    assert!(matches!(c, Command::Nothing));
    assert_eq!(status(&d), Some((StatusKind::Failure, s("Name can't be empty"))));
}

#[test]
fn create_trims_name_and_asks_for_profile() {
    let mut d = fresh(vec![]);
    d.update(Message::NameChanged(s("  Juegos ")));
    let c = d.update(Message::CreatePressed);
    match c {
        Command::CreatePrefix(name, arch, category) => {
            assert_eq!(name, "Juegos");
            assert_eq!(arch, "win64");
            assert_eq!(category, "aplicaciones");
        }
        _ => panic!("expected a create command"),
    }
    assert_eq!(status(&d), Some((StatusKind::Info, s("Creating “Juegos”…"))));
}

#[test]
fn created_profile_clears_name_and_reloads() {
    let mut d = fresh(vec![]);
    d.update(Message::NameChanged(s("Juegos")));
    let c = d.update(Message::PrefixCreated(Ok(profile("Juegos")), vec![profile("Juegos")]));
    assert!(matches!(c, Command::Nothing));
    assert!(d.new_name.is_empty());
    assert_eq!(d.prefixes.len(), 1);
    assert_eq!(status(&d), Some((StatusKind::Success, s("Profile “Juegos” created"))));
}

#[test]
fn failed_creation_shows_error() {
    let mut d = fresh(vec![]);
    let c = d.update(Message::PrefixCreated(Err(s("boom")), vec![]));
    assert!(matches!(c, Command::Nothing));
    assert_eq!(status(&d), Some((StatusKind::Failure, s("boom"))));
}

#[test]
fn install_records_start_time_once_per_profile() {
    let mut p = profile("uno");
    p.setup_exe = Some(s("/setup.exe"));
    let mut d = fresh(vec![p]);
    let c = d.update(Message::InstallPressed(s("uno"), 100));
    match c {
        Command::RunExe(q, exe) => {
            assert_eq!(q.name, "uno");
            assert_eq!(exe, "/setup.exe");
        }
        _ => panic!("expected the installer to run"),
    }
    d.update(Message::InstallPressed(s("uno"), 250));
    assert_eq!(d.installing_since, vec![(s("uno"), 250u128)]);
    assert_eq!(status(&d), Some((StatusKind::Info, s("Running the installer for “uno”… when you're done, click “Already installed, scan apps”."))));
}

#[test]
fn install_without_installer_does_nothing() {
    let mut d = fresh(vec![profile("uno")]);
    let c = d.update(Message::InstallPressed(s("uno"), 100));
    assert!(matches!(c, Command::Nothing));
    assert!(d.installing_since.is_empty());
    assert!(d.status.is_none());
}

#[test]
fn scan_uses_recorded_start_time() {
    let mut p = profile("uno");
    p.setup_exe = Some(s("/setup.exe"));
    let mut d = fresh(vec![p]);
    d.update(Message::InstallPressed(s("uno"), 77));
    match d.update(Message::ScanProgramsPressed(s("uno"))) {
        Command::ListPrograms(q, since) => {
            assert_eq!(q.name, "uno");
            assert_eq!(since, 77);
        }
        _ => panic!("expected a program listing"),
    }
    match d.update(Message::ScanProgramsPressed(s("uno"))) {
        Command::ListPrograms(_, since) => assert_eq!(since, 77),
        _ => panic!("expected a program listing"),
    }
}

#[test]
fn scan_without_install_uses_epoch() {
    let mut d = fresh(vec![profile("uno")]);
    match d.update(Message::ScanProgramsPressed(s("uno"))) {
        Command::ListPrograms(_, since) => assert_eq!(since, 0),
        _ => panic!("expected a program listing"),
    }
}

#[test]
fn no_programs_found_is_an_error() {
    let mut d = fresh(vec![profile("uno")]);
    let c = d.update(Message::ProgramsFound(s("uno"), Ok(vec![])));
    assert!(matches!(c, Command::Nothing));
    assert_eq!(
        status(&d),
        Some((StatusKind::Failure, s("No installed apps were found in “uno”. Try picking it manually instead.")))
    );
}

#[test]
fn found_programs_are_added() {
    let mut d = fresh(vec![profile("uno")]);
    let c = d.update(Message::ProgramsFound(
        s("uno"),
        Ok(vec![(s("Game"), s("/g/game.exe")), (s("Tool"), s("/t/tool.exe"))]),
    ));
    match c {
        Command::AddPrograms(name, exes) => {
            assert_eq!(name, "uno");
            assert_eq!(exes, vec![s("/g/game.exe"), s("/t/tool.exe")]);
        }
        _ => panic!("expected programs to be added"),
    }
}

#[test]
fn first_program_becomes_launcher_when_none() {
    let mut d = fresh(vec![profile("uno")]);
    let mut reloaded = profile("uno");
    reloaded.library = vec![app("Game", "/g/game.exe")];
    let c = d.update(Message::ProgramsAdded(s("uno"), 1, Some(s("/g/game.exe")), vec![reloaded]));
    match c {
        Command::SetLauncherExe(name, exe, added) => {
            assert_eq!(name, "uno");
            assert_eq!(exe, "/g/game.exe");
            assert_eq!(added, 1);
        }
        _ => panic!("expected the launcher to be set"),
    }
}

#[test]
fn added_programs_report_and_load_icons() {
    let mut p = profile("uno");
    p.setup_exe = Some(s("/setup.exe"));
    let mut d = fresh(vec![p]);
    d.update(Message::InstallPressed(s("uno"), 5));
    let mut reloaded = profile("uno");
    reloaded.launcher_exe = Some(s("/g/game.exe"));
    reloaded.library = vec![app("Game", "/g/game.exe"), app("Tool", "/t/tool.exe")];
    let c = d.update(Message::ProgramsAdded(s("uno"), 2, Some(s("/g/game.exe")), vec![reloaded]));
    match c {
        Command::LoadIcons(paths) => assert_eq!(paths, vec![s("/g/game.exe"), s("/t/tool.exe")]),
        _ => panic!("expected icon loads"),
    }
    assert!(d.installing_since.is_empty());
    assert_eq!(
        status(&d),
        Some((StatusKind::Success, s("Found 2 apps in “uno” and added them to the library.")))
    );
}

#[test]
fn launcher_set_reports_count() {
    let mut d = fresh(vec![profile("uno")]);
    let mut reloaded = profile("uno");
    reloaded.launcher_exe = Some(s("/g/game.exe"));
    reloaded.library = vec![app("Game", "/g/game.exe")];
    let c = d.update(Message::LauncherSet(s("uno"), 1, vec![reloaded]));
    assert!(matches!(c, Command::LoadIcons(_)));
    assert_eq!(
        status(&d),
        Some((StatusKind::Success, s("Found 1 app in “uno” and added them to the library.")))
    );
}

#[test]
fn icon_loaded_is_counted_once() {
    let mut d = fresh(vec![]);
    d.update(Message::IconLoaded(s("/x.exe")));
    d.update(Message::IconLoaded(s("/x.exe")));
    assert_eq!(d.icons_known, vec![s("/x.exe")]);
}

#[test]
fn deleted_profile_forgets_start_time() {
    let mut p = profile("uno");
    p.setup_exe = Some(s("/setup.exe"));
    let mut d = fresh(vec![p]);
    d.update(Message::InstallPressed(s("uno"), 9));
    let c = d.update(Message::DeletePressed(s("uno")));
    match c {
        Command::DeletePrefix(name) => assert_eq!(name, "uno"),
        _ => panic!("expected a delete command"),
    }
    d.update(Message::PrefixDeleted(s("uno"), Ok(()), vec![]));
    assert!(d.installing_since.is_empty());
    assert!(d.prefixes.is_empty());
    assert_eq!(status(&d), Some((StatusKind::Success, s("Profile “uno” deleted"))));
}

#[test]
fn detection_without_results_informs() {
    let mut d = fresh(vec![]);
    assert!(matches!(d.update(Message::DetectPressed), Command::DetectPrefixes));
    d.update(Message::PrefixesDetected(vec![]));
    assert!(d.detected.is_empty());
    assert_eq!(status(&d).map(|x| x.0), Some(StatusKind::Info));
}

#[test]
fn detected_prefix_is_registered_and_dropped() {
    let mut d = fresh(vec![]);
    let found = DetectedPrefix { name: s("wine"), path: s("/home/u/.wine"), arch: s("win32") };
    d.update(Message::PrefixesDetected(vec![found]));
    match d.update(Message::AddDetectedPressed(s("/home/u/.wine"))) {
        Command::RegisterPrefix(name, path, arch, category) => {
            assert_eq!(name, "wine");
            assert_eq!(path, "/home/u/.wine");
            assert_eq!(arch, "win32");
            assert_eq!(category, "aplicaciones");
        }
        _ => panic!("expected a registration"),
    }
    let mut reg = profile("wine");
    reg.external = true;
    d.update(Message::DetectedRegistered(s("/home/u/.wine"), Ok(reg.duplicate()), vec![reg]));
    assert!(d.detected.is_empty());
    assert_eq!(d.prefixes.len(), 1);
}

#[test]
fn unknown_detected_path_does_nothing() {
    let mut d = fresh(vec![]);
    assert!(matches!(d.update(Message::AddDetectedPressed(s("/nowhere"))), Command::Nothing));
}

#[test]
fn winecfg_for_known_profile() {
    let mut d = fresh(vec![profile("uno")]);
    match d.update(Message::WinecfgPressed(s("uno"))) {
        Command::OpenWinecfg(p) => assert_eq!(p.name, "uno"),
        _ => panic!("expected winecfg"),
    }
    assert!(matches!(d.update(Message::WinecfgPressed(s("otro"))), Command::Nothing));
}

#[test]
fn chosen_exes_become_commands() {
    let mut d = fresh(vec![profile("uno")]);
    assert!(matches!(d.update(Message::SetupExeChosen(s("uno"), None)), Command::Nothing));
    match d.update(Message::SetupExeChosen(s("uno"), Some(s("/s.exe")))) {
        Command::SetSetupExe(n, e) => assert_eq!((n, e), (s("uno"), s("/s.exe"))),
        _ => panic!("expected setup exe"),
    }
    match d.update(Message::AppExeChosen(s("uno"), Some(s("/a.exe")))) {
        Command::AddLibraryApp(n, e) => assert_eq!((n, e), (s("uno"), s("/a.exe"))),
        _ => panic!("expected app add"),
    }
    match d.update(Message::RemoveAppPressed(s("uno"), s("/a.exe"))) {
        Command::RemoveLibraryApp(n, e) => assert_eq!((n, e), (s("uno"), s("/a.exe"))),
        _ => panic!("expected app removal"),
    }
}

#[test]
fn launch_app_runs_it() {
    let mut d = fresh(vec![profile("uno")]);
    match d.update(Message::LaunchAppPressed(s("uno"), s("/a.exe"))) {
        Command::RunExe(p, e) => {
            assert_eq!(p.name, "uno");
            assert_eq!(e, "/a.exe");
        }
        _ => panic!("expected a run"),
    }
    assert_eq!(status(&d), Some((StatusKind::Info, s("Starting…"))));
}

#[test]
fn setup_runs_missing_commands() {
    let mut d = fresh(vec![]);
    assert!(matches!(d.update(Message::InstallSetupPressed), Command::Nothing));
    d.update(Message::SystemScanned(SystemReport { wine: false, i386_arch: true, vulkan_tools: true, mesa_vulkan: true }));
    match d.update(Message::InstallSetupPressed) {
        Command::RunSetup(cmds) => assert_eq!(cmds, vec![s("apt update"), s("apt install -y wine wine32 wine64")]),
        _ => panic!("expected setup"),
    }
    assert!(matches!(d.update(Message::SetupFinished(Ok(s("ok")))), Command::RescanSystem));
    assert_eq!(status(&d), Some((StatusKind::Success, s("ok"))));
}

#[test]
fn tabs_language_and_donation() {
    let mut d = fresh(vec![]);
    d.update(Message::TabSelected(Tab::Settings));
    assert_eq!(d.active_tab, Tab::Settings);
    d.update(Message::LangSelected(Lang::Ru));
    assert_eq!(d.lang, Lang::Ru);
    match d.update(Message::DonatePressed) {
        Command::OpenUrl(u) => assert_eq!(u, "https://github.com/sponsors/TU_USUARIO"),
        _ => panic!("expected a url"),
    }
}

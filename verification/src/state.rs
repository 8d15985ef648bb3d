//! The state of the application and how each event changes it. Work that
//! touches the disk, runs programs or waits on the user is not done here:
//! `update` answers each event with the next state and one `Command`, the
//! caller carries the command out and reports its outcome as a new event.

use vstd::prelude::*;
use crate::i18n::{self, Lang};
use crate::prefix::{
    apps_view, first_named, find_prefix, has_name, opt_view, reg_view, AppView, DetectedPrefix,
    DetectedView, Prefix, PrefixView,
};
use crate::style::StatusKind;
use crate::system::{missing_setup_commands, setup_commands, SystemReport};
use crate::text::{insert_sorted, str_eq, strictly_sorted, trim_str, trimmed, views};

verus! {

/// The tab on show: the profile manager, the library of all programs, or
/// the settings (system check and language).
#[derive(Debug, Clone, Copy, PartialEq, Eq, Structural)]
pub enum Tab {
    Prefixes,
    Library,
    Settings,
}

/// The state of the application.
#[derive(Debug)]
pub struct Dalhin {
    /// The registry as last read from disk.
    pub prefixes: Vec<Prefix>,
    /// The name typed for a new profile.
    pub new_name: String,
    /// The status line.
    pub status: Option<(StatusKind, String)>,
    /// Loose Wine prefixes found on disk and not registered yet.
    pub detected: Vec<DetectedPrefix>,
    pub system_report: Option<SystemReport>,
    /// Profiles whose installer was started in this session, with when
    /// (nanoseconds since the Unix epoch).
    pub installing_since: Vec<(String, u128)>,
    pub active_tab: Tab,
    /// Executables whose icon has been asked for (loaded or still loading).
    pub icons_known: Vec<String>,
    pub lang: Lang,
}

/// The contents of the state.
pub ghost struct DalhinView {
    pub prefixes: Seq<PrefixView>,
    pub new_name: Seq<char>,
    pub status: Option<(StatusKind, Seq<char>)>,
    pub detected: Seq<DetectedView>,
    pub system_report: Option<SystemReport>,
    pub installing_since: Seq<(Seq<char>, u128)>,
    pub active_tab: Tab,
    pub icons_known: Seq<Seq<char>>,
    pub lang: Lang,
}

/// The contents of a status line.
pub open spec fn status_view(s: Option<(StatusKind, String)>) -> Option<(StatusKind, Seq<char>)> {
    match s {
        Some((k, t)) => Some((k, t@)),
        None => None,
    }
}

/// The contents of a list of detected prefixes.
pub open spec fn detected_view(d: Seq<DetectedPrefix>) -> Seq<DetectedView> {
    d.map_values(|x: DetectedPrefix| x@)
}

/// The contents of the installer start times.
pub open spec fn since_view(v: Seq<(String, u128)>) -> Seq<(Seq<char>, u128)> {
    v.map_values(|e: (String, u128)| (e.0@, e.1))
}

impl View for Dalhin {
    type V = DalhinView;

    open spec fn view(&self) -> DalhinView {
        DalhinView {
            prefixes: reg_view(self.prefixes@),
            new_name: self.new_name@,
            status: status_view(self.status),
            detected: detected_view(self.detected@),
            system_report: self.system_report,
            installing_since: since_view(self.installing_since@),
            active_tab: self.active_tab,
            icons_known: views(self.icons_known@),
            lang: self.lang,
        }
    }
}

/// The executables whose icons the lists show: every library entry and
/// installed program of every profile, in profile order.
pub open spec fn icon_candidates(reg: Seq<PrefixView>) -> Seq<Seq<char>>
    decreases reg.len(),
{
    if reg.len() == 0 {
        Seq::empty()
    } else {
        let p = reg.last();
        let own = p.library.map_values(|a: AppView| a.exe_path);
        icon_candidates(reg.drop_last()) + match p.launcher_exe {
            Some(e) => own.push(e),
            None => own,
        }
    }
}

/// `missing` lists, sorted and once each, the executables of the registry
/// whose icon has not been asked for yet.
pub open spec fn missing_icons(reg: Seq<PrefixView>, known: Seq<Seq<char>>, missing: Seq<Seq<char>>) -> bool {
    &&& strictly_sorted(missing)
    &&& forall|x: Seq<char>| missing.contains(x) <==> (icon_candidates(reg).contains(x) && !known.contains(x))
}

/// Whether `x` is in the list.
fn list_contains(v: &Vec<String>, x: &str) -> (r: bool)
    ensures
        r == views(v@).contains(x@),
{
    let mut k: usize = 0;
    while k < v.len()
        invariant
            k <= v.len(),
            forall|j: int| 0 <= j < k ==> v@[j]@ != x@,
        decreases v.len() - k,
    {
        if str_eq(v[k].as_str(), x) {
            assert(views(v@)[k as int] == x@);
            return true;
        }
        k = k + 1;
    }
    assert(!views(v@).contains(x@)) by {
        if views(v@).contains(x@) {
            let j = choose|j: int| 0 <= j < views(v@).len() && views(v@)[j] == x@;
            assert(v@[j]@ == x@);
        }
    }
    false
}

/// Membership in a sequence with one more element.
pub proof fn lemma_push_contains<A>(s: Seq<A>, a: A)
    ensures
        forall|x: A| #[trigger] s.push(a).contains(x) <==> (s.contains(x) || x == a),
{
    assert forall|x: A| #[trigger] s.push(a).contains(x) <==> (s.contains(x) || x == a) by {
        if s.push(a).contains(x) {
            let k = choose|k: int| 0 <= k < s.push(a).len() && s.push(a)[k] == x;
            if k < s.len() {
                assert(s[k] == x);
            }
        }
        if s.contains(x) {
            let k = choose|k: int| 0 <= k < s.len() && s[k] == x;
            assert(s.push(a)[k] == x);
        }
        if x == a {
            assert(s.push(a)[s.len() as int] == x);
        }
    }
}

/// Membership in a concatenation.
pub proof fn lemma_concat_contains<A>(s: Seq<A>, t: Seq<A>)
    ensures
        forall|x: A| #[trigger] (s + t).contains(x) <==> (s.contains(x) || t.contains(x)),
{
    assert forall|x: A| #[trigger] (s + t).contains(x) <==> (s.contains(x) || t.contains(x)) by {
        if (s + t).contains(x) {
            let k = choose|k: int| 0 <= k < (s + t).len() && (s + t)[k] == x;
            if k < s.len() {
                assert(s[k] == x);
            } else {
                assert(t[k - s.len()] == x);
            }
        }
        if s.contains(x) {
            let k = choose|k: int| 0 <= k < s.len() && s[k] == x;
            assert((s + t)[k] == x);
        }
        if t.contains(x) {
            let k = choose|k: int| 0 <= k < t.len() && t[k] == x;
            assert((s + t)[s.len() + k] == x);
        }
    }
}

fn push_if_missing(out: &mut Vec<String>, known: &Vec<String>, x: &String)
    requires
        strictly_sorted(views(old(out)@)),
    ensures
        strictly_sorted(views(final(out)@)),
        forall|y: Seq<char>| #[trigger] views(final(out)@).contains(y) <==> (views(old(out)@).contains(y) || (y == x@ && !views(known@).contains(y))),
{
    if !list_contains(known, x.as_str()) {
        insert_sorted(out, x.clone());
    }
}

/// The executables of the registry whose icon has not been asked for yet,
/// sorted and once each.
pub fn missing_icon_paths(prefixes: &Vec<Prefix>, known: &Vec<String>) -> (r: Vec<String>)
    ensures
        missing_icons(reg_view(prefixes@), views(known@), views(r@)),
{
    let ghost reg = reg_view(prefixes@);
    let mut out: Vec<String> = Vec::new();
    let mut i: usize = 0;
    while i < prefixes.len()
        invariant
            reg == reg_view(prefixes@),
            i <= prefixes.len(),
            strictly_sorted(views(out@)),
            forall|x: Seq<char>| #[trigger] views(out@).contains(x) <==> (icon_candidates(reg.take(i as int)).contains(x) && !views(known@).contains(x)),
        decreases prefixes.len() - i,
    {
        let p = &prefixes[i];
        let ghost base = icon_candidates(reg.take(i as int));
        let ghost own = p@.library.map_values(|a: AppView| a.exe_path);
        assert(reg.take(i + 1).drop_last() =~= reg.take(i as int));
        assert(reg.take(i + 1).last() == p@);
        let mut j: usize = 0;
        while j < p.library.len()
            invariant
                own == apps_view(p.library@).map_values(|a: AppView| a.exe_path),
                j <= p.library.len(),
                strictly_sorted(views(out@)),
                forall|x: Seq<char>| #[trigger] views(out@).contains(x) <==> ((base.contains(x) || own.take(j as int).contains(x)) && !views(known@).contains(x)),
            decreases p.library.len() - j,
        {
            let ghost before = views(out@);
            push_if_missing(&mut out, known, &p.library[j].exe_path);
            let ghost a = own[j as int];
            assert(a == p.library@[j as int].exe_path@);
            assert(own.take(j + 1) =~= own.take(j as int).push(a));
            proof {
                lemma_push_contains(own.take(j as int), a);
                assert forall|x: Seq<char>| views(out@).contains(x) <==> ((base.contains(x) || own.take(j + 1).contains(x)) && !views(known@).contains(x)) by {
                    assert(own.take(j + 1).contains(x) <==> (own.take(j as int).contains(x) || x == a));
                    assert(views(out@).contains(x) <==> (before.contains(x) || (x == a && !views(known@).contains(x))));
                    assert(before.contains(x) <==> ((base.contains(x) || own.take(j as int).contains(x)) && !views(known@).contains(x)));
                }
            }
            j = j + 1;
        }
        assert(own.take(p.library.len() as int) =~= own);
        let ghost before = views(out@);
        if let Some(e) = &p.launcher_exe {
            push_if_missing(&mut out, known, e);
        }
        proof {
            let total = icon_candidates(reg.take(i + 1));
            let tail = match p@.launcher_exe {
                Some(e) => own.push(e),
                None => own,
            };
            assert(total =~= base + tail);
            lemma_concat_contains(base, tail);
            if let Some(e) = p@.launcher_exe {
                lemma_push_contains(own, e);
            }
            assert forall|x: Seq<char>| views(out@).contains(x) <==> (total.contains(x) && !views(known@).contains(x)) by {
                assert(total.contains(x) <==> (base.contains(x) || tail.contains(x)));
                if let Some(e) = p@.launcher_exe {
                    assert(tail.contains(x) <==> (own.contains(x) || x == e));
                    assert(views(out@).contains(x) <==> (before.contains(x) || (x == e && !views(known@).contains(x))));
                } else {
                    assert(views(out@) == before);
                }
            }
        }
        i = i + 1;
    }
    assert(reg.take(prefixes.len() as int) =~= reg);
    out
}


/// An event: something the user did, or the outcome of a command.
#[derive(Debug)]
pub enum Message {
    NameChanged(String),
    CreatePressed,
    /// A profile was created (or not); with the registry read again.
    PrefixCreated(Result<Prefix, String>, Vec<Prefix>),
    DeletePressed(String),
    /// A profile was deleted (or not); with the registry read again.
    PrefixDeleted(String, Result<(), String>, Vec<Prefix>),
    DetectPressed,
    /// Loose Wine prefixes found on disk.
    PrefixesDetected(Vec<DetectedPrefix>),
    AddDetectedPressed(String),
    /// A detected prefix (by path) was registered (or not); with the
    /// registry read again.
    DetectedRegistered(String, Result<Prefix, String>, Vec<Prefix>),
    WinecfgPressed(String),
    WinecfgOpened(Result<(), String>),
    GameLaunched(Result<(), String>),
    /// "Install" on a profile, with the current time (nanoseconds since the
    /// Unix epoch).
    InstallPressed(String, u128),
    ChangeSetupPressed(String),
    /// The installer picked for a profile, if the user did not cancel.
    SetupExeChosen(String, Option<String>),
    SetupExeSaved(String, Result<Prefix, String>, Vec<Prefix>),
    ScanProgramsPressed(String),
    /// The installed programs found in a profile: name and executable.
    ProgramsFound(String, Result<Vec<(String, String)>, String>),
    /// Found programs were added to a profile's library: how many were
    /// added, the first one found, and the registry read again.
    ProgramsAdded(String, usize, Option<String>, Vec<Prefix>),
    /// The first found program became the profile's program to play.
    LauncherSet(String, usize, Vec<Prefix>),
    AddAppPressed(String),
    AppExeChosen(String, Option<String>),
    AppAdded(Result<Prefix, String>, Vec<Prefix>),
    LaunchAppPressed(String, String),
    RemoveAppPressed(String, String),
    AppRemoved(Result<Prefix, String>, Vec<Prefix>),
    /// The icon of an executable has been loaded (or found missing).
    IconLoaded(String),
    ScanSystemPressed,
    SystemScanned(SystemReport),
    InstallSetupPressed,
    SetupFinished(Result<String, String>),
    TabSelected(Tab),
    LangSelected(Lang),
    DonatePressed,
}

/// Work for the caller; each one's outcome comes back as a `Message`.
#[derive(Debug)]
pub enum Command {
    /// Nothing to do.
    Nothing,
    /// Create a profile (name, architecture, category): `PrefixCreated`.
    CreatePrefix(String, String, String),
    /// Delete a profile: `PrefixDeleted`.
    DeletePrefix(String),
    /// Look for loose Wine prefixes: `PrefixesDetected`.
    DetectPrefixes,
    /// Register a prefix (name, path, architecture, category):
    /// `DetectedRegistered`.
    RegisterPrefix(String, String, String, String),
    /// Open winecfg for a profile: `WinecfgOpened`.
    OpenWinecfg(Prefix),
    /// Run an executable in a profile: `GameLaunched`.
    RunExe(Prefix, String),
    /// Let the user pick an installer for a profile: `SetupExeChosen`.
    PickSetupExe(String),
    /// Record a profile's installer: `SetupExeSaved`.
    SetSetupExe(String, String),
    /// Look for installed programs, falling back on executables modified
    /// since the given time: `ProgramsFound`.
    ListPrograms(Prefix, u128),
    /// Add each executable to a profile's library: `ProgramsAdded`.
    AddPrograms(String, Vec<String>),
    /// Make an executable the profile's program to play: `LauncherSet`
    /// (carrying the count along).
    SetLauncherExe(String, String, usize),
    /// Let the user pick a program for a profile: `AppExeChosen`.
    PickLauncherExe(String, Prefix),
    /// Add a program to a profile's library: `AppAdded`.
    AddLibraryApp(String, String),
    /// Remove a program from a profile's library: `AppRemoved`.
    RemoveLibraryApp(String, String),
    /// Check the system in the background: `SystemScanned`.
    ScanSystem,
    /// Run the setup commands with elevated rights: `SetupFinished`.
    RunSetup(Vec<String>),
    /// Check the system again right away: `SystemScanned`.
    RescanSystem,
    /// Load the icons of these executables: one `IconLoaded` each.
    LoadIcons(Vec<String>),
    /// Open a web page.
    OpenUrl(String),
}

/// The contents of a command.
pub ghost enum CommandView {
    Nothing,
    CreatePrefix(Seq<char>, Seq<char>, Seq<char>),
    DeletePrefix(Seq<char>),
    DetectPrefixes,
    RegisterPrefix(Seq<char>, Seq<char>, Seq<char>, Seq<char>),
    OpenWinecfg(PrefixView),
    RunExe(PrefixView, Seq<char>),
    PickSetupExe(Seq<char>),
    SetSetupExe(Seq<char>, Seq<char>),
    ListPrograms(PrefixView, u128),
    AddPrograms(Seq<char>, Seq<Seq<char>>),
    SetLauncherExe(Seq<char>, Seq<char>, usize),
    PickLauncherExe(Seq<char>, PrefixView),
    AddLibraryApp(Seq<char>, Seq<char>),
    RemoveLibraryApp(Seq<char>, Seq<char>),
    ScanSystem,
    RunSetup(Seq<Seq<char>>),
    RescanSystem,
    LoadIcons(Seq<Seq<char>>),
    OpenUrl(Seq<char>),
}

impl View for Command {
    type V = CommandView;

    open spec fn view(&self) -> CommandView {
        match self {
            Command::Nothing => CommandView::Nothing,
            Command::CreatePrefix(a, b, c) => CommandView::CreatePrefix(a@, b@, c@),
            Command::DeletePrefix(a) => CommandView::DeletePrefix(a@),
            Command::DetectPrefixes => CommandView::DetectPrefixes,
            Command::RegisterPrefix(a, b, c, d) => CommandView::RegisterPrefix(a@, b@, c@, d@),
            Command::OpenWinecfg(p) => CommandView::OpenWinecfg(p@),
            Command::RunExe(p, e) => CommandView::RunExe(p@, e@),
            Command::PickSetupExe(a) => CommandView::PickSetupExe(a@),
            Command::SetSetupExe(a, b) => CommandView::SetSetupExe(a@, b@),
            Command::ListPrograms(p, t) => CommandView::ListPrograms(p@, *t),
            Command::AddPrograms(a, v) => CommandView::AddPrograms(a@, views(v@)),
            Command::SetLauncherExe(a, b, n) => CommandView::SetLauncherExe(a@, b@, *n),
            Command::PickLauncherExe(a, p) => CommandView::PickLauncherExe(a@, p@),
            Command::AddLibraryApp(a, b) => CommandView::AddLibraryApp(a@, b@),
            Command::RemoveLibraryApp(a, b) => CommandView::RemoveLibraryApp(a@, b@),
            Command::ScanSystem => CommandView::ScanSystem,
            Command::RunSetup(v) => CommandView::RunSetup(views(v@)),
            Command::RescanSystem => CommandView::RescanSystem,
            Command::LoadIcons(v) => CommandView::LoadIcons(views(v@)),
            Command::OpenUrl(a) => CommandView::OpenUrl(a@),
        }
    }
}

/// The state with a new status line.
pub open spec fn with_status(s: DalhinView, kind: StatusKind, text: Seq<char>) -> DalhinView {
    DalhinView { status: Some((kind, text)), ..s }
}

/// The state after a failed operation: its error on the status line.
pub open spec fn failed(s: DalhinView, e: Seq<char>) -> DalhinView {
    with_status(s, StatusKind::Failure, e)
}

/// `c` asks for the icons that the registry of `t` still misses, and `t`
/// counts them as asked for; nothing is asked when none is missing.
pub open spec fn icons_queued(known: Seq<Seq<char>>, t: DalhinView, c: CommandView) -> bool {
    match c {
        CommandView::Nothing => missing_icons(t.prefixes, known, Seq::empty()) && t.icons_known == known,
        CommandView::LoadIcons(m) => m.len() > 0 && missing_icons(t.prefixes, known, m)
            && t.icons_known == known + m,
        _ => false,
    }
}

/// Some installer start time is recorded for `name`.
pub open spec fn since_has(v: Seq<(Seq<char>, u128)>, name: Seq<char>) -> bool {
    exists|i: int| 0 <= i < v.len() && v[i].0 == name
}

/// The first position of `name` among the start times.
pub open spec fn since_first(v: Seq<(Seq<char>, u128)>, name: Seq<char>) -> int {
    choose|i: int| 0 <= i < v.len() && v[i].0 == name && forall|j: int| 0 <= j < i ==> v[j].0 != name
}

/// The start times with `name` started at `t` (a map's insert).
pub open spec fn since_insert(v: Seq<(Seq<char>, u128)>, name: Seq<char>, t: u128) -> Seq<(Seq<char>, u128)> {
    if since_has(v, name) {
        v.update(since_first(v, name), (name, t))
    } else {
        v.push((name, t))
    }
}

/// The start times without `name` (a map's remove).
pub open spec fn since_remove(v: Seq<(Seq<char>, u128)>, name: Seq<char>) -> Seq<(Seq<char>, u128)> {
    v.filter(|e: (Seq<char>, u128)| e.0 != name)
}

/// When the installer of `name` was started, or the Unix epoch (0) when it
/// was not started in this session.
pub open spec fn since_get(v: Seq<(Seq<char>, u128)>, name: Seq<char>) -> u128 {
    if since_has(v, name) {
        v[since_first(v, name)].1
    } else {
        0
    }
}

/// The first detected prefix at `path`.
pub open spec fn detected_first(d: Seq<DetectedView>, path: Seq<char>) -> int {
    choose|i: int| 0 <= i < d.len() && d[i].path == path && forall|j: int| 0 <= j < i ==> d[j].path != path
}

/// Some detected prefix is at `path`.
pub open spec fn detected_has(d: Seq<DetectedView>, path: Seq<char>) -> bool {
    exists|i: int| 0 <= i < d.len() && d[i].path == path
}

/// The first profile called `name`, when there is one.
pub open spec fn named(reg: Seq<PrefixView>, name: Seq<char>) -> PrefixView {
    reg[first_named(reg, name)]
}

/// The category of profiles made by the application.
pub open spec fn default_category() -> Seq<char> {
    "aplicaciones"@
}

/// The page that the donate button opens.
pub open spec fn donation_url() -> Seq<char> {
    "https://github.com/sponsors/TU_USUARIO"@
}

/// How the state `s` and an event `m` lead to the state `t` and the
/// command `c`.
pub open spec fn transition(s: DalhinView, m: Message, t: DalhinView, c: CommandView) -> bool {
    let lang = s.lang;
    match m {
        Message::NameChanged(v) => t == DalhinView { new_name: v@, ..s } && c == CommandView::Nothing,
        Message::CreatePressed => {
            let name = trimmed(s.new_name);
            if name.len() == 0 {
                t == failed(s, i18n::name_empty_text(lang)) && c == CommandView::Nothing
            } else {
                t == with_status(s, StatusKind::Info, i18n::creating_text(lang, name))
                    && c == CommandView::CreatePrefix(name, "win64"@, default_category())
            }
        },
        Message::PrefixCreated(result, reloaded) => match result {
            Ok(p) => t == DalhinView {
                status: Some((StatusKind::Success, i18n::profile_created_text(lang, p.name@))),
                new_name: Seq::empty(),
                prefixes: reg_view(reloaded@),
                ..s
            } && c == CommandView::Nothing,
            Err(e) => t == failed(s, e@) && c == CommandView::Nothing,
        },
        Message::DeletePressed(name) => t == s && c == CommandView::DeletePrefix(name@),
        Message::PrefixDeleted(name, result, reloaded) => match result {
            Ok(_) => t == DalhinView {
                status: Some((StatusKind::Success, i18n::profile_deleted_text(lang, name@))),
                prefixes: reg_view(reloaded@),
                installing_since: since_remove(s.installing_since, name@),
                ..s
            } && c == CommandView::Nothing,
            Err(e) => t == failed(s, e@) && c == CommandView::Nothing,
        },
        Message::DetectPressed => t == s && c == CommandView::DetectPrefixes,
        Message::PrefixesDetected(found) => c == CommandView::Nothing && if found@.len() == 0 {
            t == DalhinView {
                detected: Seq::empty(),
                status: Some((StatusKind::Info, i18n::no_new_profiles_found_text(lang))),
                ..s
            }
        } else {
            t == DalhinView { detected: detected_view(found@), ..s }
        },
        Message::AddDetectedPressed(path) => t == s && if detected_has(s.detected, path@) {
            let d = s.detected[detected_first(s.detected, path@)];
            c == CommandView::RegisterPrefix(d.name, d.path, d.arch, default_category())
        } else {
            c == CommandView::Nothing
        },
        Message::DetectedRegistered(path, result, reloaded) => c == CommandView::Nothing && match result {
            Ok(p) => t == DalhinView {
                status: Some((StatusKind::Success, i18n::added_text(lang, p.name@))),
                prefixes: reg_view(reloaded@),
                detected: s.detected.filter(|d: DetectedView| d.path != path@),
                ..s
            },
            Err(e) => t == failed(s, e@),
        },
        Message::WinecfgPressed(name) => if has_name(s.prefixes, name@) {
            t == with_status(s, StatusKind::Info, i18n::opening_winecfg_text(lang, name@))
                && c == CommandView::OpenWinecfg(named(s.prefixes, name@))
        } else {
            t == s && c == CommandView::Nothing
        },
        Message::WinecfgOpened(result) => c == CommandView::Nothing && match result {
            Ok(_) => t == s,
            Err(e) => t == failed(s, e@),
        },
        Message::GameLaunched(result) => c == CommandView::Nothing && match result {
            Ok(_) => t == with_status(s, StatusKind::Success, i18n::program_started_text(lang)),
            Err(e) => t == failed(s, e@),
        },
        Message::InstallPressed(name, now) => if has_name(s.prefixes, name@) && named(
            s.prefixes,
            name@,
        ).setup_exe is Some {
            let p = named(s.prefixes, name@);
            t == DalhinView {
                installing_since: since_insert(s.installing_since, name@, now),
                status: Some((StatusKind::Info, i18n::running_installer_text(lang, name@))),
                ..s
            } && c == CommandView::RunExe(p, p.setup_exe->0)
        } else {
            t == s && c == CommandView::Nothing
        },
        Message::ChangeSetupPressed(name) => t == s && c == CommandView::PickSetupExe(name@),
        Message::SetupExeChosen(name, chosen) => t == s && match chosen {
            Some(path) => c == CommandView::SetSetupExe(name@, path@),
            None => c == CommandView::Nothing,
        },
        Message::SetupExeSaved(name, result, reloaded) => c == CommandView::Nothing && match result {
            Ok(_) => t == DalhinView {
                prefixes: reg_view(reloaded@),
                status: Some((StatusKind::Success, i18n::installer_added_text(lang, name@))),
                ..s
            },
            Err(e) => t == failed(s, e@),
        },
        Message::ScanProgramsPressed(name) => if has_name(s.prefixes, name@) {
            t == with_status(s, StatusKind::Info, i18n::scanning_apps_text(lang, name@))
                && c == CommandView::ListPrograms(
                named(s.prefixes, name@),
                since_get(s.installing_since, name@),
            )
        } else {
            t == s && c == CommandView::Nothing
        },
        Message::ProgramsFound(name, result) => match result {
            Ok(programs) => if programs@.len() > 0 {
                t == s && c == CommandView::AddPrograms(
                    name@,
                    programs@.map_values(|e: (String, String)| e.1@),
                )
            } else {
                t == failed(s, i18n::no_apps_found_text(lang, name@)) && c == CommandView::Nothing
            },
            Err(e) => t == failed(s, e@) && c == CommandView::Nothing,
        },
        Message::ProgramsAdded(name, added, first, reloaded) => {
            let reg = reg_view(reloaded@);
            let base = DalhinView {
                prefixes: reg,
                installing_since: since_remove(s.installing_since, name@),
                ..s
            };
            let needs_launcher = has_name(reg, name@) && named(reg, name@).launcher_exe is None;
            if needs_launcher && first is Some {
                t == base && c == CommandView::SetLauncherExe(name@, first->0@, added)
            } else {
                icons_queued(
                    s.icons_known,
                    DalhinView { icons_known: t.icons_known, ..with_status(base, StatusKind::Success, i18n::apps_found_text(lang, added, name@)) },
                    c,
                ) && t == DalhinView { icons_known: t.icons_known, ..with_status(base, StatusKind::Success, i18n::apps_found_text(lang, added, name@)) }
            }
        },
        Message::LauncherSet(name, added, reloaded) => {
            let u = DalhinView {
                prefixes: reg_view(reloaded@),
                status: Some((StatusKind::Success, i18n::apps_found_text(lang, added, name@))),
                ..s
            };
            icons_queued(s.icons_known, t, c) && t == DalhinView { icons_known: t.icons_known, ..u }
        },
        Message::AddAppPressed(name) => t == s && if has_name(s.prefixes, name@) {
            c == CommandView::PickLauncherExe(name@, named(s.prefixes, name@))
        } else {
            c == CommandView::Nothing
        },
        Message::AppExeChosen(name, chosen) => t == s && match chosen {
            Some(path) => c == CommandView::AddLibraryApp(name@, path@),
            None => c == CommandView::Nothing,
        },
        Message::AppAdded(result, reloaded) => match result {
            Ok(_) => {
                let u = DalhinView {
                    prefixes: reg_view(reloaded@),
                    status: Some((StatusKind::Success, i18n::app_added_to_library_text(lang))),
                    ..s
                };
                icons_queued(s.icons_known, t, c) && t == DalhinView { icons_known: t.icons_known, ..u }
            },
            Err(e) => t == failed(s, e@) && c == CommandView::Nothing,
        },
        Message::LaunchAppPressed(name, exe) => if has_name(s.prefixes, name@) {
            t == with_status(s, StatusKind::Info, i18n::starting_text(lang))
                && c == CommandView::RunExe(named(s.prefixes, name@), exe@)
        } else {
            t == s && c == CommandView::Nothing
        },
        Message::RemoveAppPressed(name, exe) => t == s && c == CommandView::RemoveLibraryApp(name@, exe@),
        Message::AppRemoved(result, reloaded) => c == CommandView::Nothing && match result {
            Ok(_) => t == DalhinView {
                prefixes: reg_view(reloaded@),
                status: Some((StatusKind::Success, i18n::app_removed_from_library_text(lang))),
                ..s
            },
            Err(e) => t == failed(s, e@),
        },
        Message::IconLoaded(path) => c == CommandView::Nothing && if s.icons_known.contains(path@) {
            t == s
        } else {
            t == DalhinView { icons_known: s.icons_known.push(path@), ..s }
        },
        Message::ScanSystemPressed => t == s && c == CommandView::ScanSystem,
        Message::SystemScanned(report) => t == DalhinView { system_report: Some(report), ..s } && c == CommandView::Nothing,
        Message::InstallSetupPressed => match s.system_report {
            Some(report) => t == with_status(s, StatusKind::Info, i18n::installing_setup_text(lang))
                && c == CommandView::RunSetup(setup_commands(report)),
            None => t == s && c == CommandView::Nothing,
        },
        Message::SetupFinished(result) => match result {
            Ok(msg) => t == with_status(s, StatusKind::Success, msg@) && c == CommandView::RescanSystem,
            Err(e) => t == failed(s, e@) && c == CommandView::Nothing,
        },
        Message::TabSelected(tab) => t == DalhinView { active_tab: tab, ..s } && c == CommandView::Nothing,
        Message::LangSelected(l) => t == DalhinView { lang: l, ..s } && c == CommandView::Nothing,
        Message::DonatePressed => t == s && c == CommandView::OpenUrl(donation_url()),
    }
}


/// A position that is first for `name` is the one `since_first` gives.
proof fn lemma_since_first(v: Seq<(Seq<char>, u128)>, name: Seq<char>, i: int)
    requires
        0 <= i < v.len(),
        v[i].0 == name,
        forall|j: int| 0 <= j < i ==> v[j].0 != name,
    ensures
        since_first(v, name) == i,
        since_has(v, name),
{
    let k = since_first(v, name);
    assert(0 <= k < v.len() && v[k].0 == name && forall|j: int| 0 <= j < k ==> v[j].0 != name);
    if k < i {
        assert(v[k].0 != name);
    } else if i < k {
        assert(v[i].0 != name);
    }
}

/// The position of the start time recorded for `name`.
fn find_since(v: &Vec<(String, u128)>, name: &str) -> (r: Option<usize>)
    ensures
        r is None <==> !since_has(since_view(v@), name@),
        r matches Some(i) ==> i == since_first(since_view(v@), name@) && i < v@.len(),
{
    let ghost w = since_view(v@);
    let mut k: usize = 0;
    while k < v.len()
        invariant
            w == since_view(v@),
            k <= v.len(),
            forall|j: int| 0 <= j < k ==> w[j].0 != name@,
        decreases v.len() - k,
    {
        if str_eq(v[k].0.as_str(), name) {
            proof {
                lemma_since_first(w, name@, k as int);
            }
            return Some(k);
        }
        k = k + 1;
    }
    None
}

/// Records that the installer of `name` started at `t`.
fn since_set(v: &mut Vec<(String, u128)>, name: String, t: u128)
    ensures
        since_view(final(v)@) == since_insert(since_view(old(v)@), name@, t),
{
    match find_since(v, name.as_str()) {
        Some(i) => {
            let ghost w = since_view(v@);
            v.set(i, (name, t));
            assert(since_view(v@) =~= w.update(i as int, (name@, t)));
        },
        None => {
            let ghost w = since_view(v@);
            v.push((name, t));
            assert(since_view(v@) =~= w.push((name@, t)));
        },
    }
}

/// Forgets the start time of `name`.
fn since_clear(v: &mut Vec<(String, u128)>, name: &str)
    ensures
        since_view(final(v)@) == since_remove(since_view(old(v)@), name@),
{
    let ghost w = since_view(v@);
    let ghost keep = |e: (Seq<char>, u128)| e.0 != name@;
    let mut kept: Vec<(String, u128)> = Vec::new();
    let mut k: usize = 0;
    while k < v.len()
        invariant
            w == since_view(v@),
            keep == |e: (Seq<char>, u128)| e.0 != name@,
            k <= v.len(),
            since_view(kept@) == w.take(k as int).filter(keep),
        decreases v.len() - k,
    {
        proof {
            reveal(Seq::filter);
            assert(w.take(k + 1).drop_last() =~= w.take(k as int));
            assert(w.take(k + 1).last() == w[k as int]);
        }
        let ghost before = since_view(kept@);
        if !str_eq(v[k].0.as_str(), name) {
            let e = (v[k].0.clone(), v[k].1);
            kept.push(e);
            assert(since_view(kept@) =~= before.push(w[k as int]));
        }
        k = k + 1;
    }
    assert(w.take(v.len() as int) =~= w);
    *v = kept;
}

/// The position of the first detected prefix at `path`.
fn find_detected(d: &Vec<DetectedPrefix>, path: &str) -> (r: Option<usize>)
    ensures
        r is None <==> !detected_has(detected_view(d@), path@),
        r matches Some(i) ==> i == detected_first(detected_view(d@), path@) && i < d@.len(),
{
    let ghost w = detected_view(d@);
    let mut k: usize = 0;
    while k < d.len()
        invariant
            w == detected_view(d@),
            k <= d.len(),
            forall|j: int| 0 <= j < k ==> w[j].path != path@,
        decreases d.len() - k,
    {
        if str_eq(d[k].path.as_str(), path) {
            proof {
                let i = detected_first(w, path@);
                assert(0 <= k < w.len() && w[k as int].path == path@ && forall|j: int| 0 <= j < k ==> w[j].path != path@);
                assert(0 <= i < w.len() && w[i].path == path@ && forall|j: int| 0 <= j < i ==> w[j].path != path@);
                if i < k {
                    assert(w[i].path != path@);
                } else if k < i {
                    assert(w[k as int].path != path@);
                }
            }
            return Some(k);
        }
        k = k + 1;
    }
    None
}

/// The detected prefixes that are not at `path`.
fn detected_without(d: &Vec<DetectedPrefix>, path: &str) -> (r: Vec<DetectedPrefix>)
    ensures
        detected_view(r@) == detected_view(d@).filter(|x: DetectedView| x.path != path@),
{
    let ghost w = detected_view(d@);
    let ghost keep = |x: DetectedView| x.path != path@;
    let mut kept: Vec<DetectedPrefix> = Vec::new();
    let mut k: usize = 0;
    while k < d.len()
        invariant
            w == detected_view(d@),
            keep == |x: DetectedView| x.path != path@,
            k <= d.len(),
            detected_view(kept@) == w.take(k as int).filter(keep),
        decreases d.len() - k,
    {
        proof {
            reveal(Seq::filter);
            assert(w.take(k + 1).drop_last() =~= w.take(k as int));
            assert(w.take(k + 1).last() == w[k as int]);
        }
        let ghost before = detected_view(kept@);
        if !str_eq(d[k].path.as_str(), path) {
            let x = d[k].duplicate();
            kept.push(x);
            assert(detected_view(kept@) =~= before.push(w[k as int]));
        }
        k = k + 1;
    }
    assert(w.take(d.len() as int) =~= w);
    kept
}

impl Dalhin {
    /// Asks for the icon of every executable of the registry that has not
    /// been asked for yet (sorted, once each), and counts them as asked for
    /// so that they are not asked for twice while they load.
    pub fn queue_missing_icon_loads(&mut self) -> (r: Command)
        ensures
            icons_queued(old(self)@.icons_known, final(self)@, r@),
            final(self)@ == (DalhinView { icons_known: final(self)@.icons_known, ..old(self)@ }),
    {
        let paths = missing_icon_paths(&self.prefixes, &self.icons_known);
        if paths.len() == 0 {
            assert(views(paths@) =~= Seq::<Seq<char>>::empty());
            return Command::Nothing;
        }
        let ghost known = views(self.icons_known@);
        let ghost s0 = self@;
        assert(missing_icons(s0.prefixes, known, views(paths@)));
        let mut i: usize = 0;
        while i < paths.len()
            invariant
                self@ == (DalhinView { icons_known: self@.icons_known, ..s0 }),
                i <= paths.len(),
                views(self.icons_known@) == known + views(paths@).take(i as int),
            decreases paths.len() - i,
        {
            let ghost before = views(self.icons_known@);
            self.icons_known.push(paths[i].clone());
            assert(views(self.icons_known@) =~= before.push(paths@[i as int]@));
            i = i + 1;
            assert(views(self.icons_known@) =~= known + views(paths@).take(i as int));
        }
        assert(views(paths@).take(paths.len() as int) =~= views(paths@));
        Command::LoadIcons(paths)
    }

    /// The state at start-up, with the registry as read from disk and the
    /// detected language, and the commands that follow: a check of the
    /// system, then the loading of the icons.
    pub fn new(prefixes: Vec<Prefix>, lang: Lang) -> (r: (Dalhin, Vec<Command>))
        ensures
            r.0@ == (DalhinView {
                prefixes: reg_view(prefixes@),
                new_name: Seq::empty(),
                status: None,
                detected: Seq::empty(),
                system_report: None,
                installing_since: Seq::empty(),
                active_tab: Tab::Prefixes,
                icons_known: r.0@.icons_known,
                lang,
            }),
            r.1@.len() == 2,
            r.1@[0]@ == CommandView::ScanSystem,
            icons_queued(Seq::empty(), r.0@, r.1@[1]@),
    {
        let mut app = Dalhin {
            prefixes,
            new_name: String::new(),
            status: None,
            detected: Vec::new(),
            system_report: None,
            installing_since: Vec::new(),
            active_tab: Tab::Prefixes,
            icons_known: Vec::new(),
            lang,
        };
        assert(detected_view(app.detected@) =~= Seq::<DetectedView>::empty());
        assert(since_view(app.installing_since@) =~= Seq::<(Seq<char>, u128)>::empty());
        assert(views(app.icons_known@) =~= Seq::<Seq<char>>::empty());
        let icons = app.queue_missing_icon_loads();
        let mut commands: Vec<Command> = Vec::new();
        commands.push(Command::ScanSystem);
        commands.push(icons);
        (app, commands)
    }

    fn fail(&mut self, e: String)
        ensures
            final(self)@ == failed(old(self)@, e@),
    {
        self.status = Some((StatusKind::Failure, e));
    }

    fn inform(&mut self, kind: StatusKind, text: String)
        ensures
            final(self)@ == with_status(old(self)@, kind, text@),
    {
        self.status = Some((kind, text));
    }

    /// The next state and the command that follow an event (see
    /// `transition` for each one).
    #[verifier::rlimit(100)]
    pub fn update(&mut self, msg: Message) -> (r: Command)
        ensures
            transition(old(self)@, msg, final(self)@, r@),
    {
        let lang = self.lang;
        match msg {
            Message::NameChanged(value) => {
                self.new_name = value;
                Command::Nothing
            },
            Message::CreatePressed => {
                let name = trim_str(self.new_name.as_str());
                if name.unicode_len() == 0 {
                    self.fail(i18n::msg_name_empty(lang));
                    return Command::Nothing;
                }
                self.inform(StatusKind::Info, i18n::msg_creating(lang, name.as_str()));
                Command::CreatePrefix(name, String::from_str("win64"), String::from_str("aplicaciones"))
            },
            Message::PrefixCreated(result, reloaded) => {
                match result {
                    Ok(p) => {
                        self.status = Some((StatusKind::Success, i18n::msg_profile_created(lang, p.name.as_str())));
                        self.new_name = String::new();
                        self.prefixes = reloaded;
                    },
                    Err(e) => self.fail(e),
                }
                Command::Nothing
            },
            Message::DeletePressed(name) => Command::DeletePrefix(name),
            Message::PrefixDeleted(name, result, reloaded) => {
                match result {
                    Ok(()) => {
                        self.status = Some((StatusKind::Success, i18n::msg_profile_deleted(lang, name.as_str())));
                        self.prefixes = reloaded;
                        since_clear(&mut self.installing_since, name.as_str());
                    },
                    Err(e) => self.fail(e),
                }
                Command::Nothing
            },
            Message::DetectPressed => Command::DetectPrefixes,
            Message::PrefixesDetected(found) => {
                let empty = found.len() == 0;
                self.detected = found;
                if empty {
                    assert(detected_view(self.detected@) =~= Seq::<DetectedView>::empty());
                    self.inform(StatusKind::Info, i18n::msg_no_new_profiles_found(lang));
                }
                Command::Nothing
            },
            Message::AddDetectedPressed(path) => {
                match find_detected(&self.detected, path.as_str()) {
                    Some(i) => {
                        let d = &self.detected[i];
                        Command::RegisterPrefix(
                            d.name.clone(),
                            d.path.clone(),
                            d.arch.clone(),
                            String::from_str("aplicaciones"),
                        )
                    },
                    None => Command::Nothing,
                }
            },
            Message::DetectedRegistered(path, result, reloaded) => {
                match result {
                    Ok(p) => {
                        self.status = Some((StatusKind::Success, i18n::msg_added(lang, p.name.as_str())));
                        self.prefixes = reloaded;
                        self.detected = detected_without(&self.detected, path.as_str());
                    },
                    Err(e) => self.fail(e),
                }
                Command::Nothing
            },
            Message::WinecfgPressed(name) => {
                match find_prefix(&self.prefixes, name.as_str()) {
                    Some(i) => {
                        let p = self.prefixes[i].duplicate();
                        self.inform(StatusKind::Info, i18n::msg_opening_winecfg(lang, name.as_str()));
                        Command::OpenWinecfg(p)
                    },
                    None => Command::Nothing,
                }
            },
            Message::WinecfgOpened(result) => {
                if let Err(e) = result {
                    self.fail(e);
                }
                Command::Nothing
            },
            Message::GameLaunched(result) => {
                match result {
                    Ok(()) => self.inform(StatusKind::Success, i18n::msg_program_started(lang)),
                    Err(e) => self.fail(e),
                }
                Command::Nothing
            },
            Message::InstallPressed(name, now) => {
                match find_prefix(&self.prefixes, name.as_str()) {
                    Some(i) => {
                        let p = self.prefixes[i].duplicate();
                        match &p.setup_exe {
                            Some(exe) => {
                                let exe = exe.clone();
                                let text = i18n::msg_running_installer(lang, name.as_str());
                                since_set(&mut self.installing_since, name, now);
                                self.inform(StatusKind::Info, text);
                                Command::RunExe(p, exe)
                            },
                            None => Command::Nothing,
                        }
                    },
                    None => Command::Nothing,
                }
            },
            Message::ChangeSetupPressed(name) => Command::PickSetupExe(name),
            Message::SetupExeChosen(name, chosen) => match chosen {
                Some(path) => Command::SetSetupExe(name, path),
                None => Command::Nothing,
            },
            Message::SetupExeSaved(name, result, reloaded) => {
                match result {
                    Ok(_) => {
                        self.prefixes = reloaded;
                        self.inform(StatusKind::Success, i18n::msg_installer_added(lang, name.as_str()));
                    },
                    Err(e) => self.fail(e),
                }
                Command::Nothing
            },
            Message::ScanProgramsPressed(name) => {
                match find_prefix(&self.prefixes, name.as_str()) {
                    Some(i) => {
                        let p = self.prefixes[i].duplicate();
                        let since = match find_since(&self.installing_since, name.as_str()) {
                            Some(k) => self.installing_since[k].1,
                            None => 0,
                        };
                        self.inform(StatusKind::Info, i18n::msg_scanning_apps(lang, name.as_str()));
                        Command::ListPrograms(p, since)
                    },
                    None => Command::Nothing,
                }
            },
            Message::ProgramsFound(name, result) => {
                match result {
                    Ok(programs) => {
                        if programs.len() > 0 {
                            let mut exes: Vec<String> = Vec::new();
                            let mut k: usize = 0;
                            while k < programs.len()
                                invariant
                                    k <= programs.len(),
                                    views(exes@) == programs@.map_values(|e: (String, String)| e.1@).take(k as int),
                                decreases programs.len() - k,
                            {
                                let ghost before = views(exes@);
                                exes.push(programs[k].1.clone());
                                assert(views(exes@) =~= before.push(programs@[k as int].1@));
                                k = k + 1;
                                assert(views(exes@) =~= programs@.map_values(|e: (String, String)| e.1@).take(k as int));
                            }
                            assert(programs@.map_values(|e: (String, String)| e.1@).take(programs.len() as int) =~= programs@.map_values(|e: (String, String)| e.1@));
                            Command::AddPrograms(name, exes)
                        } else {
                            self.fail(i18n::msg_no_apps_found(lang, name.as_str()));
                            Command::Nothing
                        }
                    },
                    Err(e) => {
                        self.fail(e);
                        Command::Nothing
                    },
                }
            },
            Message::ProgramsAdded(name, added, first, reloaded) => {
                self.prefixes = reloaded;
                since_clear(&mut self.installing_since, name.as_str());
                let needs_launcher = match find_prefix(&self.prefixes, name.as_str()) {
                    Some(i) => self.prefixes[i].launcher_exe.is_none(),
                    None => false,
                };
                if needs_launcher {
                    if let Some(exe) = first {
                        return Command::SetLauncherExe(name, exe, added);
                    }
                }
                self.inform(StatusKind::Success, i18n::msg_apps_found(lang, added, name.as_str()));
                self.queue_missing_icon_loads()
            },
            Message::LauncherSet(name, added, reloaded) => {
                self.prefixes = reloaded;
                self.inform(StatusKind::Success, i18n::msg_apps_found(lang, added, name.as_str()));
                self.queue_missing_icon_loads()
            },
            Message::AddAppPressed(name) => {
                match find_prefix(&self.prefixes, name.as_str()) {
                    Some(i) => {
                        let p = self.prefixes[i].duplicate();
                        Command::PickLauncherExe(name, p)
                    },
                    None => Command::Nothing,
                }
            },
            Message::AppExeChosen(name, chosen) => match chosen {
                Some(path) => Command::AddLibraryApp(name, path),
                None => Command::Nothing,
            },
            Message::AppAdded(result, reloaded) => {
                match result {
                    Ok(_) => {
                        self.prefixes = reloaded;
                        self.inform(StatusKind::Success, i18n::msg_app_added_to_library(lang));
                        self.queue_missing_icon_loads()
                    },
                    Err(e) => {
                        self.fail(e);
                        Command::Nothing
                    },
                }
            },
            Message::LaunchAppPressed(name, exe) => {
                match find_prefix(&self.prefixes, name.as_str()) {
                    Some(i) => {
                        let p = self.prefixes[i].duplicate();
                        self.inform(StatusKind::Info, i18n::msg_starting(lang));
                        Command::RunExe(p, exe)
                    },
                    None => Command::Nothing,
                }
            },
            Message::RemoveAppPressed(name, exe) => Command::RemoveLibraryApp(name, exe),
            Message::AppRemoved(result, reloaded) => {
                match result {
                    Ok(_) => {
                        self.prefixes = reloaded;
                        self.inform(StatusKind::Success, i18n::msg_app_removed_from_library(lang));
                    },
                    Err(e) => self.fail(e),
                }
                Command::Nothing
            },
            Message::IconLoaded(path) => {
                if !list_contains(&self.icons_known, path.as_str()) {
                    let ghost before = views(self.icons_known@);
                    self.icons_known.push(path);
                    assert(views(self.icons_known@) =~= before.push(path@));
                }
                Command::Nothing
            },
            Message::ScanSystemPressed => Command::ScanSystem,
            Message::SystemScanned(report) => {
                self.system_report = Some(report);
                Command::Nothing
            },
            Message::InstallSetupPressed => {
                match self.system_report {
                    Some(report) => {
                        let cmds = missing_setup_commands(&report);
                        self.inform(StatusKind::Info, i18n::msg_installing_setup(lang));
                        Command::RunSetup(cmds)
                    },
                    None => Command::Nothing,
                }
            },
            Message::SetupFinished(result) => {
                match result {
                    Ok(text) => {
                        self.inform(StatusKind::Success, text);
                        Command::RescanSystem
                    },
                    Err(e) => {
                        self.fail(e);
                        Command::Nothing
                    },
                }
            },
            Message::TabSelected(tab) => {
                self.active_tab = tab;
                Command::Nothing
            },
            Message::LangSelected(l) => {
                self.lang = l;
                Command::Nothing
            },
            Message::DonatePressed => Command::OpenUrl(String::from_str("https://github.com/sponsors/TU_USUARIO")),
        }
    }
}

} // verus!

//! The registry of Wine profiles ("prefixes"): what each one holds, and the
//! operations that register, change and remove them. Reading and writing
//! the registry file is left to the caller; every operation here works on
//! the list in memory.

use vstd::prelude::*;
use crate::programs::{app_name_for, derive_app_name};
use crate::text::{
    chars_contain, chars_of, chars_start_with, contains_seq, is_prefix_of, lowercased, push_char,
    str_eq, str_has_char, string_of, to_lower, trim_str, trimmed,
};

verus! {

/// An application or game added to a profile's library.
#[derive(Debug)]
pub struct LibraryApp {
    pub name: String,
    pub exe_path: String,
}

/// A Wine profile.
#[derive(Debug)]
pub struct Prefix {
    pub name: String,
    pub path: String,
    /// `win32` or `win64`.
    pub arch: String,
    pub category: String,
    /// Registered from a folder that already existed, not created here;
    /// its folder is never removed from disk.
    pub external: bool,
    /// The installer that the "Install" button runs.
    pub setup_exe: Option<String>,
    /// The installed program that the "Play" button runs.
    pub launcher_exe: Option<String>,
    pub library: Vec<LibraryApp>,
}

/// A Wine prefix found on disk that the registry does not list yet.
#[derive(Debug)]
pub struct DetectedPrefix {
    pub name: String,
    pub path: String,
    pub arch: String,
}

/// The contents of a library entry.
pub ghost struct AppView {
    pub name: Seq<char>,
    pub exe_path: Seq<char>,
}

/// The contents of a profile.
pub ghost struct PrefixView {
    pub name: Seq<char>,
    pub path: Seq<char>,
    pub arch: Seq<char>,
    pub category: Seq<char>,
    pub external: bool,
    pub setup_exe: Option<Seq<char>>,
    pub launcher_exe: Option<Seq<char>>,
    pub library: Seq<AppView>,
}

/// The contents of a detected prefix.
pub ghost struct DetectedView {
    pub name: Seq<char>,
    pub path: Seq<char>,
    pub arch: Seq<char>,
}

/// The contents of an optional string.
pub open spec fn opt_view(o: Option<String>) -> Option<Seq<char>> {
    match o {
        Some(s) => Some(s@),
        None => None,
    }
}

impl View for LibraryApp {
    type V = AppView;

    open spec fn view(&self) -> AppView {
        AppView { name: self.name@, exe_path: self.exe_path@ }
    }
}

/// The contents of a list of library entries.
pub open spec fn apps_view(apps: Seq<LibraryApp>) -> Seq<AppView> {
    apps.map_values(|a: LibraryApp| a@)
}

impl View for Prefix {
    type V = PrefixView;

    open spec fn view(&self) -> PrefixView {
        PrefixView {
            name: self.name@,
            path: self.path@,
            arch: self.arch@,
            category: self.category@,
            external: self.external,
            setup_exe: opt_view(self.setup_exe),
            launcher_exe: opt_view(self.launcher_exe),
            library: apps_view(self.library@),
        }
    }
}

impl View for DetectedPrefix {
    type V = DetectedView;

    open spec fn view(&self) -> DetectedView {
        DetectedView { name: self.name@, path: self.path@, arch: self.arch@ }
    }
}

/// The contents of a list of profiles.
pub open spec fn reg_view(reg: Seq<Prefix>) -> Seq<PrefixView> {
    reg.map_values(|p: Prefix| p@)
}

fn copy_opt(o: &Option<String>) -> (r: Option<String>)
    ensures
        opt_view(r) == opt_view(*o),
{
    match o {
        Some(s) => Some(s.clone()),
        None => None,
    }
}

impl LibraryApp {
    /// A copy of the entry.
    pub fn duplicate(&self) -> (r: LibraryApp)
        ensures
            r@ == self@,
    {
        LibraryApp { name: self.name.clone(), exe_path: self.exe_path.clone() }
    }
}

/// A copy of a list of library entries.
pub fn copy_apps(apps: &Vec<LibraryApp>) -> (r: Vec<LibraryApp>)
    ensures
        apps_view(r@) == apps_view(apps@),
{
    let mut out: Vec<LibraryApp> = Vec::new();
    let mut i: usize = 0;
    while i < apps.len()
        invariant
            i <= apps.len(),
            out@.len() == i,
            apps_view(out@) == apps_view(apps@).take(i as int),
        decreases apps.len() - i,
    {
        let ghost before = out@;
        let a = apps[i].duplicate();
        out.push(a);
        assert forall|k: int| 0 <= k < i + 1 implies #[trigger] apps_view(out@)[k] == apps_view(
            apps@,
        ).take(i + 1)[k] by {
            if k < i {
                assert(out@[k] == before[k]);
                assert(apps_view(before)[k] == apps_view(apps@).take(i as int)[k]);
            }
        }
        i = i + 1;
        assert(apps_view(out@) =~= apps_view(apps@).take(i as int));
    }
    assert(apps_view(apps@).take(apps.len() as int) =~= apps_view(apps@));
    out
}

impl Prefix {
    /// A copy of the profile.
    pub fn duplicate(&self) -> (r: Prefix)
        ensures
            r@ == self@,
    {
        let library = copy_apps(&self.library);
        Prefix {
            name: self.name.clone(),
            path: self.path.clone(),
            arch: self.arch.clone(),
            category: self.category.clone(),
            external: self.external,
            setup_exe: copy_opt(&self.setup_exe),
            launcher_exe: copy_opt(&self.launcher_exe),
            library,
        }
    }
}

impl DetectedPrefix {
    /// A copy of the detected prefix.
    pub fn duplicate(&self) -> (r: DetectedPrefix)
        ensures
            r@ == self@,
    {
        DetectedPrefix { name: self.name.clone(), path: self.path.clone(), arch: self.arch.clone() }
    }
}

/// A name that can stand as one component of a path: not empty, no
/// separator, not `.` or `..`, and not hidden.
pub open spec fn safe_name(name: Seq<char>) -> bool {
    &&& name.len() > 0
    &&& !name.contains('/')
    &&& !name.contains('\\')
    &&& name != "."@
    &&& name != ".."@
    &&& name[0] != '.'
}

/// Whether `name` can be used as a folder name below the profiles folder
/// without escaping it (no `/`, no `\`, no `.`, `..` or leading dot).
pub fn is_safe_name(name: &str) -> (r: bool)
    ensures
        r == safe_name(name@),
{
    let cs = chars_of(name);
    if cs.len() == 0 {
        return false;
    }
    if str_has_char(name, '/') || str_has_char(name, '\\') {
        return false;
    }
    if cs[0] == '.' {
        proof {
            reveal_strlit(".");
            reveal_strlit("..");
        }
        return false;
    }
    proof {
        reveal_strlit(".");
        reveal_strlit("..");
        assert(name@ != "."@);
        assert(name@ != ".."@);
    }
    true
}

/// `i` is the first position of a profile called `name`.
pub open spec fn first_named_at(reg: Seq<PrefixView>, name: Seq<char>, i: int) -> bool {
    &&& 0 <= i < reg.len()
    &&& reg[i].name == name
    &&& forall|j: int| 0 <= j < i ==> reg[j].name != name
}

/// Some profile is called `name`.
pub open spec fn has_name(reg: Seq<PrefixView>, name: Seq<char>) -> bool {
    exists|i: int| 0 <= i < reg.len() && reg[i].name == name
}

/// The position of the first profile called `name` (meaningful when
/// `has_name` holds).
pub open spec fn first_named(reg: Seq<PrefixView>, name: Seq<char>) -> int {
    choose|i: int| first_named_at(reg, name, i)
}

/// Only one position is the first one of a name, and it exists when the
/// name is there.
pub proof fn lemma_first_named(reg: Seq<PrefixView>, name: Seq<char>, i: int)
    requires
        first_named_at(reg, name, i),
    ensures
        first_named(reg, name) == i,
        has_name(reg, name),
{
    let k = first_named(reg, name);
    assert(first_named_at(reg, name, k));
    if k < i {
        assert(reg[k].name != name);
    } else if i < k {
        assert(reg[i].name != name);
    }
}

/// The position of the first profile called `name`, if any.
pub fn find_prefix(prefixes: &Vec<Prefix>, name: &str) -> (r: Option<usize>)
    ensures
        r is None <==> !has_name(reg_view(prefixes@), name@),
        r matches Some(i) ==> first_named_at(reg_view(prefixes@), name@, i as int)
            && first_named(reg_view(prefixes@), name@) == i,
{
    let ghost reg = reg_view(prefixes@);
    let mut i: usize = 0;
    while i < prefixes.len()
        invariant
            reg == reg_view(prefixes@),
            i <= prefixes.len(),
            forall|j: int| 0 <= j < i ==> reg[j].name != name@,
        decreases prefixes.len() - i,
    {
        if str_eq(prefixes[i].name.as_str(), name) {
            proof {
                lemma_first_named(reg, name@, i as int);
            }
            return Some(i);
        }
        i = i + 1;
    }
    None
}

/// The message for a name that is not a safe folder name.
pub open spec fn unsafe_name_message() -> Seq<char> {
    "El nombre no puede contener '/', '\\\\', ni empezar con '.'"@
}

/// The message for a profile name that the registry does not hold.
pub open spec fn not_found_message(name: Seq<char>) -> Seq<char> {
    "No se encontró el prefijo «"@ + name + "»"@
}

fn not_found_error(name: &str) -> (r: String)
    ensures
        r@ == not_found_message(name@),
{
    let mut e = String::from_str("No se encontró el prefijo «");
    e.append(name);
    e.append("»");
    e
}


/// The profile with `exe` as its installer.
pub open spec fn with_setup(p: PrefixView, exe: Seq<char>) -> PrefixView {
    PrefixView { setup_exe: Some(exe), ..p }
}

/// The profile with `exe` as its installed program.
pub open spec fn with_launcher(p: PrefixView, exe: Seq<char>) -> PrefixView {
    PrefixView { launcher_exe: Some(exe), ..p }
}

/// Some entry of the library runs `exe`.
pub open spec fn library_has(lib: Seq<AppView>, exe: Seq<char>) -> bool {
    exists|k: int| 0 <= k < lib.len() && lib[k].exe_path == exe
}

/// The profile with `exe` in its library: unchanged when an entry already
/// runs it, else with a new entry at the end named after the executable.
pub open spec fn with_app(p: PrefixView, exe: Seq<char>) -> PrefixView {
    if library_has(p.library, exe) {
        p
    } else {
        PrefixView { library: p.library.push(AppView { name: app_name_for(exe), exe_path: exe }), ..p }
    }
}

/// The profile without the library entries that run `exe`.
pub open spec fn without_app(p: PrefixView, exe: Seq<char>) -> PrefixView {
    PrefixView { library: p.library.filter(|a: AppView| a.exe_path != exe), ..p }
}

/// The registry with the first profile called `name` changed by `f`, or
/// unchanged when no profile has that name.
pub open spec fn change_named(
    reg: Seq<PrefixView>,
    name: Seq<char>,
    f: spec_fn(PrefixView) -> PrefixView,
) -> Seq<PrefixView> {
    if has_name(reg, name) {
        let i = first_named(reg, name);
        reg.update(i, f(reg[i]))
    } else {
        reg
    }
}

/// The registry after `set_setup_exe`.
pub open spec fn after_set_setup(reg: Seq<PrefixView>, name: Seq<char>, exe: Seq<char>) -> Seq<PrefixView> {
    change_named(reg, name, |p: PrefixView| with_setup(p, exe))
}

/// The registry after `set_launcher_exe`.
pub open spec fn after_set_launcher(reg: Seq<PrefixView>, name: Seq<char>, exe: Seq<char>) -> Seq<PrefixView> {
    change_named(reg, name, |p: PrefixView| with_launcher(p, exe))
}

/// The registry after `add_library_app`.
pub open spec fn after_add_app(reg: Seq<PrefixView>, name: Seq<char>, exe: Seq<char>) -> Seq<PrefixView> {
    change_named(reg, name, |p: PrefixView| with_app(p, exe))
}

/// The registry after `remove_library_app`.
pub open spec fn after_remove_app(reg: Seq<PrefixView>, name: Seq<char>, exe: Seq<char>) -> Seq<PrefixView> {
    change_named(reg, name, |p: PrefixView| without_app(p, exe))
}

/// The registry after `delete_prefix`: every profile called `name` is gone,
/// the others keep their order.
pub open spec fn after_delete(reg: Seq<PrefixView>, name: Seq<char>) -> Seq<PrefixView> {
    reg.filter(|p: PrefixView| p.name != name)
}

fn set_named(prefixes: &mut Vec<Prefix>, i: usize, p: Prefix) -> (r: Prefix)
    requires
        i < old(prefixes)@.len(),
    ensures
        reg_view(final(prefixes)@) == reg_view(old(prefixes)@).update(i as int, p@),
        r@ == p@,
{
    let out = p.duplicate();
    prefixes.set(i, p);
    assert(reg_view(prefixes@) =~= reg_view(old(prefixes)@).update(i as int, out@));
    out
}

/// Records `exe_path` as the installer of the profile called `name`, so
/// that its "Install" button runs it. Returns the changed profile, or an
/// error when no profile has that name (the registry is then unchanged).
pub fn set_setup_exe(prefixes: &mut Vec<Prefix>, name: &str, exe_path: String) -> (r: Result<Prefix, String>)
    ensures
        r is Ok <==> has_name(reg_view(old(prefixes)@), name@),
        reg_view(final(prefixes)@) == after_set_setup(reg_view(old(prefixes)@), name@, exe_path@),
        r matches Ok(p) ==> p@ == reg_view(final(prefixes)@)[first_named(reg_view(old(prefixes)@), name@)],
        r matches Err(e) ==> e@ == not_found_message(name@),
{
    match find_prefix(prefixes, name) {
        None => Err(not_found_error(name)),
        Some(i) => {
            let mut p = prefixes[i].duplicate();
            p.setup_exe = Some(exe_path);
            Ok(set_named(prefixes, i, p))
        },
    }
}

/// Records `exe_path` as the installed program of the profile called
/// `name`, so that its "Play" button runs it. Returns the changed profile,
/// or an error when no profile has that name (the registry is then
/// unchanged).
pub fn set_launcher_exe(prefixes: &mut Vec<Prefix>, name: &str, exe_path: String) -> (r: Result<Prefix, String>)
    ensures
        r is Ok <==> has_name(reg_view(old(prefixes)@), name@),
        reg_view(final(prefixes)@) == after_set_launcher(reg_view(old(prefixes)@), name@, exe_path@),
        r matches Ok(p) ==> p@ == reg_view(final(prefixes)@)[first_named(reg_view(old(prefixes)@), name@)],
        r matches Err(e) ==> e@ == not_found_message(name@),
{
    match find_prefix(prefixes, name) {
        None => Err(not_found_error(name)),
        Some(i) => {
            let mut p = prefixes[i].duplicate();
            p.launcher_exe = Some(exe_path);
            Ok(set_named(prefixes, i, p))
        },
    }
}

/// Whether an entry of the library runs `exe_path`.
pub fn library_contains(library: &Vec<LibraryApp>, exe_path: &str) -> (r: bool)
    ensures
        r == library_has(apps_view(library@), exe_path@),
{
    let ghost lib = apps_view(library@);
    let mut k: usize = 0;
    while k < library.len()
        invariant
            lib == apps_view(library@),
            k <= library.len(),
            forall|j: int| 0 <= j < k ==> lib[j].exe_path != exe_path@,
        decreases library.len() - k,
    {
        if str_eq(library[k].exe_path.as_str(), exe_path) {
            assert(lib[k as int].exe_path == exe_path@);
            return true;
        }
        k = k + 1;
    }
    false
}

/// Adds the program at `exe_path` to the library of the profile called
/// `name`, named after its folder (see `derive_app_name`); a program
/// already in the library is not added twice. Returns the profile, or an
/// error when no profile has that name (the registry is then unchanged).
pub fn add_library_app(prefixes: &mut Vec<Prefix>, name: &str, exe_path: String) -> (r: Result<Prefix, String>)
    ensures
        r is Ok <==> has_name(reg_view(old(prefixes)@), name@),
        reg_view(final(prefixes)@) == after_add_app(reg_view(old(prefixes)@), name@, exe_path@),
        r matches Ok(p) ==> p@ == reg_view(final(prefixes)@)[first_named(reg_view(old(prefixes)@), name@)],
        r matches Err(e) ==> e@ == not_found_message(name@),
{
    match find_prefix(prefixes, name) {
        None => Err(not_found_error(name)),
        Some(i) => {
            let mut p = prefixes[i].duplicate();
            if !library_contains(&p.library, exe_path.as_str()) {
                let app_name = derive_app_name(exe_path.as_str());
                let ghost before = apps_view(p.library@);
                let entry = LibraryApp { name: app_name, exe_path };
                p.library.push(entry);
                assert(apps_view(p.library@) =~= before.push(entry@));
            }
            Ok(set_named(prefixes, i, p))
        },
    }
}

/// Removes from the library of the profile called `name` every entry that
/// runs `exe_path`. Returns the profile, or an error when no profile has
/// that name (the registry is then unchanged).
pub fn remove_library_app(prefixes: &mut Vec<Prefix>, name: &str, exe_path: &str) -> (r: Result<Prefix, String>)
    ensures
        r is Ok <==> has_name(reg_view(old(prefixes)@), name@),
        reg_view(final(prefixes)@) == after_remove_app(reg_view(old(prefixes)@), name@, exe_path@),
        r matches Ok(p) ==> p@ == reg_view(final(prefixes)@)[first_named(reg_view(old(prefixes)@), name@)],
        r matches Err(e) ==> e@ == not_found_message(name@),
{
    match find_prefix(prefixes, name) {
        None => Err(not_found_error(name)),
        Some(i) => {
            let mut p = prefixes[i].duplicate();
            let ghost lib = apps_view(p.library@);
            let ghost keep = |a: AppView| a.exe_path != exe_path@;
            let mut kept: Vec<LibraryApp> = Vec::new();
            let mut k: usize = 0;
            while k < p.library.len()
                invariant
                    lib == apps_view(p.library@),
                    keep == |a: AppView| a.exe_path != exe_path@,
                    k <= p.library.len(),
                    apps_view(kept@) == lib.take(k as int).filter(keep),
                decreases p.library.len() - k,
            {
                proof {
                    reveal(Seq::filter);
                    assert(lib.take(k + 1).drop_last() =~= lib.take(k as int));
                    assert(lib.take(k + 1).last() == lib[k as int]);
                }
                let ghost before = apps_view(kept@);
                if !str_eq(p.library[k].exe_path.as_str(), exe_path) {
                    let a = p.library[k].duplicate();
                    kept.push(a);
                    assert(apps_view(kept@) =~= before.push(a@));
                }
                k = k + 1;
            }
            assert(lib.take(p.library.len() as int) =~= lib);
            p.library = kept;
            Ok(set_named(prefixes, i, p))
        },
    }
}

/// Removes every profile called `name` from the registry. On success says
/// which folder to delete from disk: the profile's own folder, or none for
/// an external profile (its folder is the user's and is never deleted).
/// Fails, leaving the registry unchanged, when no profile has that name.
pub fn delete_prefix(prefixes: &mut Vec<Prefix>, name: &str) -> (r: Result<Option<String>, String>)
    ensures
        r is Ok <==> has_name(reg_view(old(prefixes)@), name@),
        reg_view(final(prefixes)@) == after_delete(reg_view(old(prefixes)@), name@),
        r matches Ok(d) ==> ({
            let p = reg_view(old(prefixes)@)[first_named(reg_view(old(prefixes)@), name@)];
            &&& (p.external ==> d is None)
            &&& (!p.external ==> (d matches Some(dir) && dir@ == p.path))
        }),
        r matches Err(e) ==> e@ == not_found_message(name@),
{
    let ghost reg = reg_view(prefixes@);
    let ghost keep = |p: PrefixView| p.name != name@;
    let found = find_prefix(prefixes, name);
    let dir = match found {
        None => {
            proof {
                assert forall|j: int| 0 <= j < reg.len() implies keep(reg[j]) by {
                }
                crate::prefix::lemma_filter_all(reg, keep);
            }
            return Err(not_found_error(name));
        },
        Some(i) => {
            if prefixes[i].external {
                None
            } else {
                Some(prefixes[i].path.clone())
            }
        },
    };
    let mut kept: Vec<Prefix> = Vec::new();
    let mut k: usize = 0;
    while k < prefixes.len()
        invariant
            reg == reg_view(prefixes@),
            keep == |p: PrefixView| p.name != name@,
            k <= prefixes.len(),
            reg_view(kept@) == reg.take(k as int).filter(keep),
        decreases prefixes.len() - k,
    {
        proof {
            reveal(Seq::filter);
            assert(reg.take(k + 1).drop_last() =~= reg.take(k as int));
            assert(reg.take(k + 1).last() == reg[k as int]);
        }
        let ghost before = reg_view(kept@);
        if !str_eq(prefixes[k].name.as_str(), name) {
            let p = prefixes[k].duplicate();
            kept.push(p);
            assert(reg_view(kept@) =~= before.push(p@));
        }
        k = k + 1;
    }
    assert(reg.take(prefixes.len() as int) =~= reg);
    *prefixes = kept;
    Ok(dir)
}

/// Filtering with a predicate that holds everywhere changes nothing.
pub proof fn lemma_filter_all<A>(s: Seq<A>, pred: spec_fn(A) -> bool)
    requires
        forall|j: int| 0 <= j < s.len() ==> pred(s[j]),
    ensures
        s.filter(pred) == s,
    decreases s.len(),
{
    reveal(Seq::filter);
    if s.len() > 0 {
        lemma_filter_all(s.drop_last(), pred);
        assert(s.drop_last().push(s.last()) =~= s);
    }
}


/// A new profile record with an empty library and no installer or
/// program yet.
pub open spec fn new_prefix_view(
    name: Seq<char>,
    path: Seq<char>,
    arch: Seq<char>,
    category: Seq<char>,
    external: bool,
) -> PrefixView {
    PrefixView {
        name,
        path,
        arch,
        category,
        external,
        setup_exe: None,
        launcher_exe: None,
        library: Seq::empty(),
    }
}

/// Some profile is called `name` or lives at `path`.
pub open spec fn name_or_path_taken(reg: Seq<PrefixView>, name: Seq<char>, path: Seq<char>) -> bool {
    exists|i: int| 0 <= i < reg.len() && (reg[i].name == name || reg[i].path == path)
}

/// Whether `register_prefix` accepts a profile.
pub open spec fn register_accepts(reg: Seq<PrefixView>, name: Seq<char>, path: Seq<char>) -> bool {
    safe_name(name) && !name_or_path_taken(reg, name, path)
}

/// The registry after `register_prefix`.
pub open spec fn after_register(
    reg: Seq<PrefixView>,
    name: Seq<char>,
    path: Seq<char>,
    arch: Seq<char>,
    category: Seq<char>,
) -> Seq<PrefixView> {
    if register_accepts(reg, name, path) {
        reg.push(new_prefix_view(name, path, arch, category, true))
    } else {
        reg
    }
}

/// The message for a profile that is already registered.
pub open spec fn already_registered_message(name: Seq<char>) -> Seq<char> {
    "«"@ + name + "» ya está registrado"@
}

/// Registers a Wine prefix that already exists on disk (found or chosen by
/// hand) as an external profile. Refused when the name is not a safe folder
/// name, or when a profile with that name or at that path is already
/// registered; the registry is then unchanged.
pub fn register_prefix(
    prefixes: &mut Vec<Prefix>,
    name: String,
    path: String,
    arch: String,
    category: String,
) -> (r: Result<Prefix, String>)
    ensures
        r is Ok <==> register_accepts(reg_view(old(prefixes)@), name@, path@),
        reg_view(final(prefixes)@) == after_register(reg_view(old(prefixes)@), name@, path@, arch@, category@),
        r matches Ok(p) ==> p@ == new_prefix_view(name@, path@, arch@, category@, true),
        r matches Err(e) ==> (if !safe_name(name@) {
            e@ == unsafe_name_message()
        } else {
            e@ == already_registered_message(name@)
        }),
{
    if !is_safe_name(name.as_str()) {
        return Err(String::from_str("El nombre no puede contener '/', '\\\\', ni empezar con '.'"));
    }
    let ghost reg = reg_view(prefixes@);
    let mut k: usize = 0;
    while k < prefixes.len()
        invariant
            reg == reg_view(prefixes@),
            safe_name(name@),
            k <= prefixes.len(),
            forall|j: int| 0 <= j < k ==> reg[j].name != name@ && reg[j].path != path@,
        decreases prefixes.len() - k,
    {
        if str_eq(prefixes[k].name.as_str(), name.as_str()) || str_eq(prefixes[k].path.as_str(), path.as_str()) {
            assert(0 <= k < reg.len() && (reg[k as int].name == name@ || reg[k as int].path == path@));
            let mut e = String::from_str("«");
            e.append(name.as_str());
            e.append("» ya está registrado");
            return Err(e);
        }
        k = k + 1;
    }
    let prefix = Prefix {
        name,
        path,
        arch,
        category,
        external: true,
        setup_exe: None,
        launcher_exe: None,
        library: Vec::new(),
    };
    assert(apps_view(prefix.library@) =~= Seq::<AppView>::empty());
    let out = prefix.duplicate();
    prefixes.push(prefix);
    assert(reg_view(prefixes@) =~= reg.push(out@));
    Ok(out)
}

/// The message for an empty profile name.
pub open spec fn empty_name_message() -> Seq<char> {
    "El nombre no puede estar vacío"@
}

/// The message for a profile name that is already taken.
pub open spec fn name_taken_message(name: Seq<char>) -> Seq<char> {
    "Ya existe un prefijo llamado «"@ + name + "»"@
}

/// Why a new profile called `name` cannot be created, if it cannot.
pub open spec fn new_prefix_refusal(reg: Seq<PrefixView>, name: Seq<char>) -> Option<Seq<char>> {
    if trimmed(name).len() == 0 {
        Some(empty_name_message())
    } else if !safe_name(name) {
        Some(unsafe_name_message())
    } else if has_name(reg, name) {
        Some(name_taken_message(name))
    } else {
        None
    }
}

/// Checks that a new profile called `name` may be created: its name is
/// not blank, is a safe folder name and is not taken yet.
pub fn check_new_prefix(prefixes: &Vec<Prefix>, name: &str) -> (r: Result<(), String>)
    ensures
        r is Ok <==> new_prefix_refusal(reg_view(prefixes@), name@) is None,
        r matches Err(e) ==> new_prefix_refusal(reg_view(prefixes@), name@) == Some(e@),
{
    let t = trim_str(name);
    if t.unicode_len() == 0 {
        return Err(String::from_str("El nombre no puede estar vacío"));
    }
    if !is_safe_name(name) {
        return Err(String::from_str("El nombre no puede contener '/', '\\\\', ni empezar con '.'"));
    }
    match find_prefix(prefixes, name) {
        Some(_) => {
            let mut e = String::from_str("Ya existe un prefijo llamado «");
            e.append(name);
            e.append("»");
            Err(e)
        },
        None => Ok(()),
    }
}

/// Adds a profile that was just created on disk (its folder made and
/// initialised by `wineboot`) to the registry, and returns it.
pub fn record_created_prefix(
    prefixes: &mut Vec<Prefix>,
    name: String,
    path: String,
    arch: String,
    category: String,
) -> (r: Prefix)
    ensures
        r@ == new_prefix_view(name@, path@, arch@, category@, false),
        reg_view(final(prefixes)@) == reg_view(old(prefixes)@).push(r@),
{
    let prefix = Prefix {
        name,
        path,
        arch,
        category,
        external: false,
        setup_exe: None,
        launcher_exe: None,
        library: Vec::new(),
    };
    assert(apps_view(prefix.library@) =~= Seq::<AppView>::empty());
    let out = prefix.duplicate();
    prefixes.push(prefix);
    assert(reg_view(prefixes@) =~= reg_view(old(prefixes)@).push(out@));
    out
}

/// What a finished `wineboot` run means for profile creation: success, or
/// an error carrying its error output.
pub fn wineboot_outcome(success: bool, stderr: &str) -> (r: Result<(), String>)
    ensures
        success <==> r is Ok,
        r matches Err(e) ==> e@ == "wineboot falló: "@ + stderr@,
{
    if success {
        Ok(())
    } else {
        let mut e = String::from_str("wineboot falló: ");
        e.append(stderr);
        Err(e)
    }
}


/// The lines of a text as `str::lines` gives them: split at `\n`, a `\r`
/// just before a `\n` dropped, and no empty last line after a final `\n`.
pub open spec fn text_lines(content: Seq<char>) -> Seq<Seq<char>> {
    let pieces = crate::i18n::split_on(content, '\n');
    let n = pieces.len() as int;
    let terminated = Seq::new((n - 1) as nat, |k: int| strip_cr(pieces[k]));
    if pieces[n - 1].len() > 0 {
        terminated.push(pieces[n - 1])
    } else {
        terminated
    }
}

/// A line without its trailing `\r`, if it has one.
pub open spec fn strip_cr(line: Seq<char>) -> Seq<char> {
    if line.len() > 0 && line.last() == '\r' {
        line.drop_last()
    } else {
        line
    }
}

/// The first `n` lines, or all of them when there are fewer.
pub open spec fn first_lines(lines: Seq<Seq<char>>, n: int) -> Seq<Seq<char>> {
    if lines.len() <= n {
        lines
    } else {
        lines.take(n)
    }
}

/// The architecture that the first of `lines` starting with `#arch=`
/// declares, trimmed.
pub open spec fn arch_in_lines(lines: Seq<Seq<char>>) -> Option<Seq<char>>
    decreases lines.len(),
{
    if lines.len() == 0 {
        None
    } else if is_prefix_of("#arch="@, lines[0]) {
        Some(trimmed(lines[0].skip(6)))
    } else {
        arch_in_lines(lines.drop_first())
    }
}

/// The architecture of a prefix from its `system.reg`: the `#arch=` line
/// among the first 20 lines, or `win64` (today's usual one) when there is
/// none.
pub open spec fn arch_of_system_reg(content: Seq<char>) -> Seq<char> {
    match arch_in_lines(first_lines(text_lines(content), 20)) {
        Some(a) => a,
        None => "win64"@,
    }
}

/// Reads whether a prefix is `win32` or `win64` from the text of its
/// `system.reg`: Wine writes a line `#arch=winXX` near its top. When no
/// such line is among the first 20, `win64` is assumed.
pub fn detect_arch(system_reg: &str) -> (r: String)
    ensures
        r@ == arch_of_system_reg(system_reg@),
{
    let cs = chars_of(system_reg);
    let pieces = crate::i18n::split_chars(&cs, '\n');
    let ghost ps = crate::i18n::split_on(system_reg@, '\n');
    let ghost lines = text_lines(system_reg@);
    let ghost head = first_lines(lines, 20);
    proof {
        crate::prefix::lemma_split_nonempty(system_reg@, '\n');
    }
    let n = pieces.len();
    assert(lines.len() == if ps[n - 1].len() > 0 { n as int } else { n - 1 });
    assert(forall|j: int| 0 <= j < n - 1 ==> #[trigger] lines[j] == strip_cr(ps[j]));
    assert(ps[n - 1].len() > 0 ==> lines[n - 1] == ps[n - 1]);
    assert(head.len() <= 20 && head.len() <= lines.len());
    assert(forall|j: int| 0 <= j < head.len() ==> #[trigger] head[j] == lines[j]);
    let tag = chars_of("#arch=");
    proof {
        reveal_strlit("#arch=");
    }
    let mut k: usize = 0;
    assert(head.skip(0) =~= head);
    while k < n && k < 20 && !(k + 1 == n && pieces[k].len() == 0)
        invariant
            "#arch="@.len() == 6,
            ps == crate::i18n::split_on(system_reg@, '\n'),
            lines == text_lines(system_reg@),
            head == first_lines(lines, 20),
            n == pieces@.len() == ps.len(),
            n >= 1,
            lines.len() == if ps[n - 1].len() > 0 { n as int } else { n - 1 },
            head.len() == if lines.len() <= 20 { lines.len() } else { 20 },
            forall|j: int| 0 <= j < n - 1 ==> #[trigger] lines[j] == strip_cr(ps[j]),
            ps[n - 1].len() > 0 ==> lines[n - 1] == ps[n - 1],
            forall|j: int| 0 <= j < head.len() ==> #[trigger] head[j] == lines[j],
            forall|j: int| 0 <= j < pieces@.len() ==> #[trigger] pieces@[j]@ == ps[j],
            tag@ == "#arch="@,
            k <= 20,
            k <= n,
            k <= head.len(),
            arch_in_lines(head) == arch_in_lines(head.skip(k as int)),
        decreases n - k,
    {
        let piece = &pieces[k];
        let is_last = k + 1 == n;
        let line_end = if !is_last && piece.len() > 0 && piece[piece.len() - 1] == '\r' {
            piece.len() - 1
        } else {
            piece.len()
        };
        let line = &piece.as_slice()[0..line_end];
        assert(lines[k as int] == line@) by {
            assert(line@ =~= piece@.subrange(0, line_end as int));
            if !is_last {
                if piece.len() > 0 && piece@.last() == '\r' {
                    assert(piece@.drop_last() =~= line@);
                } else {
                    assert(piece@ =~= line@);
                }
            } else {
                assert(piece@ =~= line@);
            }
        }
        assert(head.skip(k as int)[0] == lines[k as int]);
        assert(head.skip(k as int).drop_first() =~= head.skip(k + 1));
        if line.len() >= 6 && chars_start_with(line, tag.as_slice()) {
            let rest = string_of(&line[6..line.len()]);
            assert(line@.subrange(6, line@.len() as int) =~= line@.skip(6));
            return trim_str(rest.as_str());
        }
        k = k + 1;
    }
    assert(k == head.len());
    assert(head.skip(k as int) =~= Seq::<Seq<char>>::empty());
    String::from_str("win64")
}

/// Splitting always gives at least one piece.
pub proof fn lemma_split_nonempty(s: Seq<char>, sep: char)
    ensures
        crate::i18n::split_on(s, sep).len() >= 1,
    decreases s.len(),
{
    if s.len() > 0 {
        lemma_split_nonempty(s.drop_last(), sep);
    }
}

/// The name under which a loose Wine prefix folder is offered: the folder
/// name without its leading dots (`.wine-games` gives `wine-games`).
pub open spec fn without_leading_dots(s: Seq<char>) -> Seq<char>
    decreases s.len(),
{
    if s.len() > 0 && s[0] == '.' {
        without_leading_dots(s.drop_first())
    } else {
        s
    }
}

/// A folder in the home directory that may be a loose Wine prefix: its
/// name starts with `.wine`.
pub fn is_wine_folder_name(file_name: &str) -> (r: bool)
    ensures
        r == is_prefix_of(".wine"@, file_name@),
{
    let cs = chars_of(file_name);
    let p = chars_of(".wine");
    chars_start_with(&cs, &p)
}

/// Some profile lives at `path`.
pub open spec fn path_registered(reg: Seq<PrefixView>, path: Seq<char>) -> bool {
    exists|i: int| 0 <= i < reg.len() && reg[i].path == path
}

/// The entry to offer for an initialised Wine prefix folder found on disk
/// (it has a `system.reg`): none when a profile already lives at its path,
/// else the folder name without leading dots, its path and its
/// architecture.
pub fn detected_prefix(prefixes: &Vec<Prefix>, file_name: &str, path: String, arch: String) -> (r: Option<DetectedPrefix>)
    ensures
        r is None <==> path_registered(reg_view(prefixes@), path@),
        r matches Some(d) ==> d@ == (DetectedView { name: without_leading_dots(file_name@), path: path@, arch: arch@ }),
{
    let ghost reg = reg_view(prefixes@);
    let mut k: usize = 0;
    while k < prefixes.len()
        invariant
            reg == reg_view(prefixes@),
            k <= prefixes.len(),
            forall|j: int| 0 <= j < k ==> reg[j].path != path@,
        decreases prefixes.len() - k,
    {
        if str_eq(prefixes[k].path.as_str(), path.as_str()) {
            assert(reg[k as int].path == path@);
            return None;
        }
        k = k + 1;
    }
    let cs = chars_of(file_name);
    let mut start: usize = 0;
    assert(cs@.skip(0) =~= cs@);
    while start < cs.len() && cs[start] == '.'
        invariant
            cs@ == file_name@,
            start <= cs.len(),
            without_leading_dots(file_name@) == without_leading_dots(cs@.skip(start as int)),
        decreases cs.len() - start,
    {
        assert(cs@.skip(start as int).drop_first() =~= cs@.skip(start + 1));
        start = start + 1;
    }
    assert(cs@.subrange(start as int, cs.len() as int) =~= cs@.skip(start as int));
    let name = string_of(&cs.as_slice()[start..cs.len()]);
    Some(DetectedPrefix { name, path, arch })
}

} // verus!

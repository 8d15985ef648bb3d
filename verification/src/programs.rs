//! Recognising installed programs: names of installer leftovers, folders
//! not worth scanning, and a readable application name for an executable's
//! path.

use vstd::prelude::*;
use crate::i18n::{split_chars, split_on};
use crate::text::{chars_contain, chars_of, contains_seq, lowercased, string_of, to_lower};

verus! {

/// A piece of a path that names something: not empty and not `.`.
pub open spec fn is_path_part(s: Seq<char>) -> bool {
    s.len() > 0 && s != seq!['.']
}

/// The named components of a `/`-separated path, as `std::path` sees them
/// on Unix: empty pieces (repeated or trailing `/`) and `.` are dropped,
/// `..` is kept.
pub open spec fn path_parts(p: Seq<char>) -> Seq<Seq<char>> {
    split_on(p, '/').filter(|s: Seq<char>| is_path_part(s))
}

/// The last component of a path when it names a file or folder, as
/// `Path::file_name` gives it.
pub open spec fn file_name_of(p: Seq<char>) -> Option<Seq<char>> {
    let parts = path_parts(p);
    if parts.len() > 0 && parts.last() != seq!['.', '.'] {
        Some(parts.last())
    } else {
        None
    }
}

/// The position of the last `c` in `s`, or -1.
pub open spec fn last_index_of(s: Seq<char>, c: char) -> int
    decreases s.len(),
{
    if s.len() == 0 {
        -1
    } else if s.last() == c {
        s.len() - 1
    } else {
        last_index_of(s.drop_last(), c)
    }
}

/// A file name without its extension, as `Path::file_stem` gives it: the
/// part before the last dot, unless that dot is the first character.
pub open spec fn stem_of(name: Seq<char>) -> Seq<char> {
    let d = last_index_of(name, '.');
    if d <= 0 {
        name
    } else {
        name.take(d)
    }
}

/// Folder names too generic to name an application.
pub open spec fn generic_folder(lower: Seq<char>) -> bool {
    ||| lower == "win32"@
    ||| lower == "win64"@
    ||| lower == "x86"@
    ||| lower == "x64"@
    ||| lower == "binaries"@
    ||| lower == "bin"@
    ||| lower == "game"@
    ||| lower == "games"@
    ||| lower == "data"@
    ||| lower == "system"@
}

/// A containing folder that can name the application.
pub open spec fn names_app(part: Seq<char>) -> bool {
    part != seq!['.', '.'] && !generic_folder(lowercased(part))
}

/// The last of `parts[0..k]` that can name the application.
pub open spec fn last_naming_part(parts: Seq<Seq<char>>, k: int) -> Option<Seq<char>>
    decreases k,
{
    if k <= 0 {
        None
    } else if names_app(parts[k - 1]) {
        Some(parts[k - 1])
    } else {
        last_naming_part(parts, k - 1)
    }
}

/// The readable name for an executable: the nearest containing folder
/// whose name is not generic, else the file name without extension, else
/// `Aplicación`.
pub open spec fn app_name_for(exe_path: Seq<char>) -> Seq<char> {
    let parts = path_parts(exe_path);
    match last_naming_part(parts, parts.len() - 1) {
        Some(n) => n,
        None => match file_name_of(exe_path) {
            Some(f) => stem_of(f),
            None => "Aplicación"@,
        },
    }
}

/// The character sequences of a list of character vectors.
pub open spec fn char_views(v: Seq<Vec<char>>) -> Seq<Seq<char>> {
    v.map_values(|x: Vec<char>| x@)
}

/// The named components of a path (see `path_parts`).
pub fn path_parts_of(p: &str) -> (r: Vec<Vec<char>>)
    ensures
        char_views(r@) == path_parts(p@),
{
    let cs = chars_of(p);
    let pieces = split_chars(&cs, '/');
    let ghost all = split_on(p@, '/');
    let ghost pred = |s: Seq<char>| is_path_part(s);
    let mut out: Vec<Vec<char>> = Vec::new();
    let mut i: usize = 0;
    while i < pieces.len()
        invariant
            all == split_on(p@, '/'),
            pred == |s: Seq<char>| is_path_part(s),
            pieces@.len() == all.len(),
            forall|k: int| 0 <= k < pieces@.len() ==> #[trigger] pieces@[k]@ == all[k],
            i <= pieces.len(),
            char_views(out@) == all.take(i as int).filter(pred),
        decreases pieces.len() - i,
    {
        let ghost before = out@;
        proof {
            reveal(Seq::filter);
            assert(all.take(i + 1).drop_last() =~= all.take(i as int));
            assert(all.take(i + 1).last() == all[i as int]);
        }
        let piece = &pieces[i];
        let keep = piece.len() > 0 && !(piece.len() == 1 && piece[0] == '.');
        assert(keep == is_path_part(all[i as int])) by {
            if piece.len() == 1 {
                assert(piece@ =~= seq!['.'] <==> piece@[0] == '.');
            }
        }
        if keep {
            let mut copy: Vec<char> = Vec::new();
            let mut j: usize = 0;
            while j < piece.len()
                invariant
                    j <= piece.len(),
                    copy@ == piece@.take(j as int),
                decreases piece.len() - j,
            {
                copy.push(piece[j]);
                j = j + 1;
                assert(copy@ =~= piece@.take(j as int));
            }
            assert(piece@.take(piece.len() as int) =~= piece@);
            out.push(copy);
            assert(char_views(out@) =~= char_views(before).push(all[i as int]));
        }
        i = i + 1;
    }
    assert(all.take(pieces.len() as int) =~= all);
    out
}

/// Whether a folder name is too generic to name an application.
pub fn is_generic_folder(lower: &str) -> (r: bool)
    ensures
        r == generic_folder(lower@),
{
    let x = chars_of(lower);
    proof {
        reveal_strlit("win32");
        reveal_strlit("win64");
        reveal_strlit("x86");
        reveal_strlit("x64");
        reveal_strlit("binaries");
        reveal_strlit("bin");
        reveal_strlit("game");
        reveal_strlit("games");
        reveal_strlit("data");
        reveal_strlit("system");
    }
    crate::text::str_eq(lower, "win32") || crate::text::str_eq(lower, "win64")
        || crate::text::str_eq(lower, "x86") || crate::text::str_eq(lower, "x64")
        || crate::text::str_eq(lower, "binaries") || crate::text::str_eq(lower, "bin")
        || crate::text::str_eq(lower, "game") || crate::text::str_eq(lower, "games")
        || crate::text::str_eq(lower, "data") || crate::text::str_eq(lower, "system")
}

/// A readable name for the application at `exe_path`: climbs the
/// containing folders to the first one that is not a generic name such as
/// `Binaries` or `Win32` (".../Life is Strange/Binaries/Win32/game.exe"
/// gives "Life is Strange"); falls back to the file name without its
/// extension, then to `Aplicación`.
pub fn derive_app_name(exe_path: &str) -> (r: String)
    ensures
        r@ == app_name_for(exe_path@),
{
    let parts = path_parts_of(exe_path);
    let ghost ps = path_parts(exe_path@);
    assert(parts@.len() == ps.len());
    if parts.len() > 0 {
        let mut k: usize = parts.len() - 1;
        while k > 0
            invariant
                ps == path_parts(exe_path@),
                char_views(parts@) == ps,
                k < parts@.len(),
                last_naming_part(ps, ps.len() - 1) == last_naming_part(ps, k as int),
            decreases k,
        {
            let part = &parts[k - 1];
            assert(part@ == ps[k - 1]);
            let is_dotdot = part.len() == 2 && part[0] == '.' && part[1] == '.';
            assert(is_dotdot == (part@ == seq!['.', '.'])) by {
                if part.len() == 2 {
                    assert(part@ =~= seq!['.', '.'] <==> (part@[0] == '.' && part@[1] == '.'));
                }
            }
            if !is_dotdot {
                let name = string_of(part.as_slice());
                let lower = to_lower(name.as_str());
                if !is_generic_folder(lower.as_str()) {
                    return name;
                }
            }
            k = k - 1;
        }
    }
    // No containing folder names it: use the file name without extension.
    if parts.len() > 0 {
        let last = &parts[parts.len() - 1];
        assert(last@ == ps.last());
        let is_dotdot = last.len() == 2 && last[0] == '.' && last[1] == '.';
        assert(is_dotdot == (last@ == seq!['.', '.'])) by {
            if last.len() == 2 {
                assert(last@ =~= seq!['.', '.'] <==> (last@[0] == '.' && last@[1] == '.'));
            }
        }
        if !is_dotdot {
            // Just past the last dot, or 0 when there is none.
            let mut d: usize = last.len();
            assert(last@.take(last.len() as int) =~= last@);
            while d > 0 && last[d - 1] != '.'
                invariant
                    d <= last.len(),
                    last_index_of(last@, '.') == last_index_of(last@.take(d as int), '.'),
                decreases d,
            {
                assert(last@.take(d as int).drop_last() =~= last@.take(d - 1));
                d = d - 1;
            }
            proof {
                if d == 0 {
                    assert(last@.take(0) =~= Seq::<char>::empty());
                } else {
                    assert(last@.take(d as int).last() == '.');
                }
            }
            if d > 1 {
                let stem = string_of(&last.as_slice()[0..d - 1]);
                assert(last@.subrange(0, d - 1) =~= last@.take(d - 1));
                return stem;
            }
            return string_of(last.as_slice());
        }
    }
    String::from_str("Aplicación")
}


/// Pieces of file names that mark installer leftovers rather than the
/// program itself: uninstallers, redistributables, runtimes, crash
/// reporters and the like.
pub open spec fn installer_hints() -> Seq<Seq<char>> {
    seq!["unins"@, "uninstall"@, "setup"@, "install"@, "redist"@, "vcredist"@, "dxsetup"@, "directx"@, "dotnetfx"@, "dotnet-"@, "oalinst"@, "vc_redist"@, "vcruntime"@, "ucrtbase"@, "crashpad"@, "crashreport"@, "crashhandler"@, "updater"@, "update.exe"@, "debug"@, "report"@, "err"@, "website"@, "web site"@, "user_manual"@]
}

/// A file name that contains, once lowercased, one of `installer_hints`.
pub open spec fn installer_artifact(file_name: Seq<char>) -> bool {
    exists|k: int| 0 <= k < installer_hints().len() && contains_seq(lowercased(file_name), #[trigger] installer_hints()[k])
}

/// Whether a file name looks like part of an installer (an uninstaller, a
/// redistributable, a crash reporter...) rather than the program itself.
pub fn looks_like_installer_artifact(file_name: &str) -> (r: bool)
    ensures
        r == installer_artifact(file_name@),
{
    let lower = to_lower(file_name);
    let hay = chars_of(lower.as_str());
    let hints: [&str; 25] = ["unins", "uninstall", "setup", "install", "redist", "vcredist", "dxsetup", "directx", "dotnetfx", "dotnet-", "oalinst", "vc_redist", "vcruntime", "ucrtbase", "crashpad", "crashreport", "crashhandler", "updater", "update.exe", "debug", "report", "err", "website", "web site", "user_manual"];
    assert(hints@.map_values(|h: &str| h@) =~= installer_hints());
    let mut k: usize = 0;
    while k < 25
        invariant
            hay@ == lowercased(file_name@),
            hints@.map_values(|h: &str| h@) == installer_hints(),
            k <= 25,
            forall|j: int| 0 <= j < k ==> !contains_seq(hay@, #[trigger] installer_hints()[j]),
        decreases 25 - k,
    {
        let needle = chars_of(hints[k]);
        assert(needle@ == installer_hints()[k as int]);
        if chars_contain(&hay, &needle) {
            return true;
        }
        k = k + 1;
    }
    false
}

/// Folders not worth scanning for programs: the simulated Windows folder
/// and the recycle bins.
pub open spec fn skippable_dir(file_name: Seq<char>) -> bool {
    let lower = lowercased(file_name);
    lower == "windows"@ || lower == "$recycle.bin"@ || lower == "recycler"@
}

/// Whether a folder is not worth scanning for programs.
pub fn is_skippable_dir(file_name: &str) -> (r: bool)
    ensures
        r == skippable_dir(file_name@),
{
    let lower = to_lower(file_name);
    crate::text::str_eq(lower.as_str(), "windows") || crate::text::str_eq(lower.as_str(), "$recycle.bin")
        || crate::text::str_eq(lower.as_str(), "recycler")
}

/// A character with ASCII letters mapped to lower case.
pub open spec fn ascii_lower(c: char) -> char {
    if 'A' <= c <= 'Z' {
        ((c as u32) + 32) as char
    } else {
        c
    }
}

/// Equal up to the case of ASCII letters, as `eq_ignore_ascii_case`.
pub open spec fn eq_ascii_case(a: Seq<char>, b: Seq<char>) -> bool {
    a.len() == b.len() && forall|i: int| 0 <= i < a.len() ==> ascii_lower(#[trigger] a[i]) == ascii_lower(b[i])
}

/// The extension of a file name, as `Path::extension` gives it: what
/// follows the last dot, unless that dot is the first character.
pub open spec fn extension_of(file_name: Seq<char>) -> Option<Seq<char>> {
    let d = last_index_of(file_name, '.');
    if d <= 0 || file_name == seq!['.', '.'] {
        None
    } else {
        Some(file_name.skip(d + 1))
    }
}

fn lower_ascii_char(c: char) -> (r: char)
    ensures
        r == ascii_lower(c),
{
    if 'A' <= c && c <= 'Z' {
        let b: u8 = (c as u8) + 32;
        b as char
    } else {
        c
    }
}

/// Whether a file name has the extension `ext`, compared without regard
/// to ASCII case.
pub fn has_extension(file_name: &str, ext: &str) -> (r: bool)
    ensures
        r == (extension_of(file_name@) matches Some(e) && eq_ascii_case(e, ext@)),
{
    let name = chars_of(file_name);
    let want = chars_of(ext);
    let mut d: usize = name.len();
    assert(name@.take(name.len() as int) =~= name@);
    while d > 0 && name[d - 1] != '.'
        invariant
            name@ == file_name@,
            d <= name.len(),
            last_index_of(name@, '.') == last_index_of(name@.take(d as int), '.'),
        decreases d,
    {
        assert(name@.take(d as int).drop_last() =~= name@.take(d - 1));
        d = d - 1;
    }
    proof {
        if d == 0 {
            assert(name@.take(0) =~= Seq::<char>::empty());
        } else {
            assert(name@.take(d as int).last() == '.');
        }
    }
    if d <= 1 {
        return false;
    }
    if name.len() == 2 && name[0] == '.' && name[1] == '.' {
        assert(name@ =~= seq!['.', '.']);
        return false;
    }
    assert(name@ != seq!['.', '.']) by {
        if name@ == seq!['.', '.'] {
            assert(name@.len() == 2 && name@[0] == '.' && name@[1] == '.');
        }
    }
    let ghost e = name@.skip(d as int);
    assert(extension_of(file_name@) == Some(e));
    assert(e.len() == name.len() - d);
    if name.len() - d != want.len() {
        assert(!eq_ascii_case(e, ext@));
        return false;
    }
    let mut i: usize = 0;
    while i < want.len()
        invariant
            e == name@.skip(d as int),
            extension_of(file_name@) == Some(e),
            want@ == ext@,
            d <= name.len(),
            name.len() - d == want.len(),
            i <= want.len(),
            forall|j: int| 0 <= j < i ==> ascii_lower(#[trigger] e[j]) == ascii_lower(want@[j]),
        decreases want.len() - i,
    {
        if lower_ascii_char(name[d + i]) != lower_ascii_char(want[i]) {
            assert(ascii_lower(e[i as int]) != ascii_lower(want@[i as int]));
            return false;
        }
        i = i + 1;
    }
    true
}


/// The last component of a path when it names a file or folder.
pub fn file_name(p: &str) -> (r: Option<String>)
    ensures
        r matches Some(s) ==> file_name_of(p@) == Some(s@),
        r is None <==> file_name_of(p@) is None,
{
    let parts = path_parts_of(p);
    let ghost ps = path_parts(p@);
    assert(parts@.len() == ps.len());
    if parts.len() == 0 {
        return None;
    }
    let last = &parts[parts.len() - 1];
    assert(last@ == ps.last());
    if last.len() == 2 && last[0] == '.' && last[1] == '.' {
        assert(last@ =~= seq!['.', '.']);
        return None;
    }
    assert(last@ != seq!['.', '.']) by {
        if last@ == seq!['.', '.'] {
            assert(last@[0] == '.' && last@[1] == '.');
        }
    }
    Some(string_of(last.as_slice()))
}

/// The file name of a path, or nothing when it has none.
pub open spec fn file_name_or_empty(p: Seq<char>) -> Seq<char> {
    match file_name_of(p) {
        Some(f) => f,
        None => Seq::empty(),
    }
}

/// A program entry: the suggested name and the executable's path.
pub open spec fn program_entry(path: Seq<char>) -> (Seq<char>, Seq<char>) {
    (app_name_for(path), path)
}

/// The programs that shortcut targets point to, in order: targets whose
/// file name looks like an installer leftover are skipped, and each target
/// is listed once, where it first appears.
pub open spec fn shortcut_programs(targets: Seq<Seq<char>>) -> Seq<(Seq<char>, Seq<char>)>
    decreases targets.len(),
{
    if targets.len() == 0 {
        Seq::empty()
    } else {
        let prev = shortcut_programs(targets.drop_last());
        let t = targets.last();
        if installer_artifact(file_name_or_empty(t)) || prev.map_values(|e: (Seq<char>, Seq<char>)| e.1).contains(t) {
            prev
        } else {
            prev.push(program_entry(t))
        }
    }
}

/// The contents of a list of program entries.
pub open spec fn entries_view(v: Seq<(String, String)>) -> Seq<(Seq<char>, Seq<char>)> {
    v.map_values(|e: (String, String)| (e.0@, e.1@))
}

/// Whether a program entry already lists the executable `path`.
fn is_listed(entries: &Vec<(String, String)>, path: &str) -> (r: bool)
    ensures
        r == entries_view(entries@).map_values(|e: (Seq<char>, Seq<char>)| e.1).contains(path@),
{
    let ghost seconds = entries_view(entries@).map_values(|e: (Seq<char>, Seq<char>)| e.1);
    let mut j: usize = 0;
    while j < entries.len()
        invariant
            seconds == entries_view(entries@).map_values(|e: (Seq<char>, Seq<char>)| e.1),
            j <= entries.len(),
            forall|k: int| 0 <= k < j ==> seconds[k] != path@,
        decreases entries.len() - j,
    {
        if crate::text::str_eq(entries[j].1.as_str(), path) {
            assert(seconds[j as int] == path@);
            return true;
        }
        j = j + 1;
    }
    false
}

/// The programs that the given shortcut targets point to (resolved paths
/// of the executables, in the order the shortcuts were found).
pub fn programs_from_shortcuts(targets: &[String]) -> (r: Vec<(String, String)>)
    ensures
        entries_view(r@) == shortcut_programs(crate::text::views(targets@)),
{
    let ghost ts = crate::text::views(targets@);
    let mut out: Vec<(String, String)> = Vec::new();
    let mut i: usize = 0;
    while i < targets.len()
        invariant
            ts == crate::text::views(targets@),
            i <= targets.len(),
            entries_view(out@) == shortcut_programs(ts.take(i as int)),
        decreases targets.len() - i,
    {
        let ghost prev = entries_view(out@);
        assert(ts.take(i + 1).drop_last() =~= ts.take(i as int));
        assert(ts.take(i + 1).last() == targets@[i as int]@);
        let t = targets[i].as_str();
        let fname = match file_name(t) {
            Some(f) => f,
            None => String::new(),
        };
        assert(fname@ == file_name_or_empty(t@));
        if !looks_like_installer_artifact(fname.as_str()) {
            if !is_listed(&out, t) {
                let name = derive_app_name(t);
                out.push((name, targets[i].clone()));
                assert(entries_view(out@) =~= prev.push(program_entry(t@)));
            }
        }
        i = i + 1;
    }
    assert(ts.take(targets.len() as int) =~= ts);
    out
}


/// Candidate executables with their modification times (nanoseconds since
/// the Unix epoch), as plain values.
pub open spec fn candidates_view(c: Seq<(String, u128)>) -> Seq<(Seq<char>, u128)> {
    c.map_values(|e: (String, u128)| (e.0@, e.1))
}

/// A candidate whose file name does not look like an installer leftover.
pub open spec fn kept_candidate(c: Seq<(Seq<char>, u128)>, i: int) -> bool {
    0 <= i < c.len() && !installer_artifact(file_name_or_empty(c[i].0))
}

/// `i` is the kept candidate that was modified last; among several with
/// that time, the first one.
pub open spec fn newest_at(c: Seq<(Seq<char>, u128)>, i: int) -> bool {
    &&& kept_candidate(c, i)
    &&& forall|j: int| #[trigger] kept_candidate(c, j) ==> c[j].1 <= c[i].1
    &&& forall|j: int| 0 <= j < i && #[trigger] kept_candidate(c, j) ==> c[j].1 < c[i].1
}

/// The position of the newest kept candidate (meaningful when there is
/// one).
pub open spec fn newest(c: Seq<(Seq<char>, u128)>) -> int {
    choose|i: int| newest_at(c, i)
}

/// The newest kept candidate is unique.
pub proof fn lemma_newest_unique(c: Seq<(Seq<char>, u128)>, i: int)
    requires
        newest_at(c, i),
    ensures
        newest(c) == i,
{
    let k = newest(c);
    assert(newest_at(c, k));
    if k < i {
        assert(kept_candidate(c, k));
        assert(c[k].1 < c[i].1);
        assert(c[i].1 <= c[k].1);
    } else if i < k {
        assert(kept_candidate(c, i));
        assert(c[i].1 < c[k].1);
        assert(c[k].1 <= c[i].1);
    }
}

/// The program to fall back on when no shortcut points to one: among the
/// executables found, the most recently modified one whose name does not
/// look like part of an installer (the first of several equally new ones).
pub fn fallback_program(candidates: &[(String, u128)]) -> (r: Option<(String, String)>)
    ensures
        r is None <==> forall|i: int| !kept_candidate(candidates_view(candidates@), i),
        r matches Some(e) ==> newest_at(candidates_view(candidates@), newest(candidates_view(candidates@)))
            && (e.0@, e.1@) == program_entry(candidates_view(candidates@)[newest(candidates_view(candidates@))].0),
{
    let ghost c = candidates_view(candidates@);
    let mut best: Option<usize> = None;
    let mut i: usize = 0;
    while i < candidates.len()
        invariant
            c == candidates_view(candidates@),
            i <= candidates.len(),
            best is None ==> forall|j: int| 0 <= j < i ==> !kept_candidate(c, j),
            best matches Some(b) ==> {
                &&& b < i
                &&& kept_candidate(c, b as int)
                &&& forall|j: int| 0 <= j < i && kept_candidate(c, j) ==> c[j].1 <= c[b as int].1
                &&& forall|j: int| 0 <= j < b && kept_candidate(c, j) ==> c[j].1 < c[b as int].1
            },
        decreases candidates.len() - i,
    {
        let fname = match file_name(candidates[i].0.as_str()) {
            Some(f) => f,
            None => String::new(),
        };
        assert(fname@ == file_name_or_empty(c[i as int].0));
        if !looks_like_installer_artifact(fname.as_str()) {
            match best {
                None => {
                    best = Some(i);
                },
                Some(b) => {
                    if candidates[i].1 > candidates[b].1 {
                        best = Some(i);
                    }
                },
            }
        }
        i = i + 1;
    }
    match best {
        None => None,
        Some(b) => {
            assert(newest_at(c, b as int));
            proof {
                lemma_newest_unique(c, b as int);
            }
            let path = candidates[b].0.clone();
            let name = derive_app_name(path.as_str());
            Some((name, path))
        },
    }
}

/// Some entry runs the executable `p`.
pub open spec fn lists_exe(entries: Seq<(Seq<char>, Seq<char>)>, p: Seq<char>) -> bool {
    exists|k: int| 0 <= k < entries.len() && entries[k].1 == p
}

/// `p` is one of the targets, and not an installer leftover.
pub open spec fn kept_target(ts: Seq<Seq<char>>, p: Seq<char>) -> bool {
    exists|i: int| 0 <= i < ts.len() && ts[i] == p && !installer_artifact(file_name_or_empty(p))
}

/// The programs found through shortcuts: every target that is not an
/// installer leftover is listed, each executable once (entries are told
/// apart by executable, never by suggested name), nothing else is listed,
/// and each entry is named after its executable's folder.
pub proof fn law_shortcut_programs_complete(ts: Seq<Seq<char>>)
    ensures
        forall|i: int|
            0 <= i < ts.len() && !installer_artifact(file_name_or_empty(#[trigger] ts[i])) ==> lists_exe(
                shortcut_programs(ts),
                ts[i],
            ),
        forall|k: int|
            0 <= k < shortcut_programs(ts).len() ==> kept_target(ts, (#[trigger] shortcut_programs(ts)[k]).1),
        forall|k: int|
            0 <= k < shortcut_programs(ts).len() ==> (#[trigger] shortcut_programs(ts)[k]).0 == app_name_for(
                shortcut_programs(ts)[k].1,
            ),
        forall|k: int, l: int|
            0 <= k < l < shortcut_programs(ts).len() ==> (#[trigger] shortcut_programs(ts)[k]).1
                != (#[trigger] shortcut_programs(ts)[l]).1,
    decreases ts.len(),
{
    if ts.len() > 0 {
        let init = ts.drop_last();
        law_shortcut_programs_complete(init);
        let prev = shortcut_programs(init);
        let out = shortcut_programs(ts);
        let t = ts.last();
        let paths = prev.map_values(|e: (Seq<char>, Seq<char>)| e.1);
        if installer_artifact(file_name_or_empty(t)) || paths.contains(t) {
            assert(out == prev);
        } else {
            assert(out == prev.push(program_entry(t)));
        }
        assert forall|i: int|
            0 <= i < ts.len() && !installer_artifact(file_name_or_empty(#[trigger] ts[i])) implies lists_exe(
                out,
                ts[i],
            ) by {
            if i < init.len() {
                assert(init[i] == ts[i]);
                assert(lists_exe(prev, init[i]));
                let k = choose|k: int| 0 <= k < prev.len() && prev[k].1 == init[i];
                assert(out[k] == prev[k]);
            } else if paths.contains(t) {
                let k = choose|k: int| 0 <= k < paths.len() && paths[k] == t;
                assert(out[k] == prev[k]);
            } else {
                assert(out[prev.len() as int].1 == t);
            }
        }
        assert forall|k: int| 0 <= k < out.len() implies kept_target(ts, (#[trigger] out[k]).1) by {
            if k < prev.len() {
                assert(out[k] == prev[k]);
                assert(kept_target(init, prev[k].1));
                let i = choose|i: int|
                    0 <= i < init.len() && init[i] == prev[k].1 && !installer_artifact(file_name_or_empty(prev[k].1));
                assert(ts[i] == init[i]);
            } else {
                assert(out[k] == program_entry(t));
                assert(ts[ts.len() - 1] == t);
            }
        }
        assert forall|k: int| 0 <= k < out.len() implies (#[trigger] out[k]).0 == app_name_for(out[k].1) by {
            if k < prev.len() {
                assert(out[k] == prev[k]);
            }
        }
        assert forall|k: int, l: int| 0 <= k < l < out.len() implies (#[trigger] out[k]).1 != (#[trigger] out[l]).1 by {
            assert(out[k] == prev[k]);
            if l < prev.len() {
                assert(out[l] == prev[l]);
            } else {
                assert(paths[k] == prev[k].1);
                assert(!paths.contains(t));
            }
        }
    }
}

/// The ten folder names that never name an application, in lowercase:
/// architecture folders, binary folders and data folders.
pub open spec fn generic_folder_names() -> Seq<Seq<char>> {
    seq![
        "win32"@, "win64"@, "x86"@, "x64"@, "binaries"@, "bin"@, "game"@, "games"@, "data"@, "system"@,
    ]
}

/// Each of `win32`, `win64`, `x86`, `x64`, `binaries`, `bin`, `game`,
/// `games`, `data` and `system` is too generic to name an application, and
/// no other name is.
pub proof fn law_generic_folder_names(lower: Seq<char>)
    ensures
        generic_folder(lower) <==> generic_folder_names().contains(lower),
{
    let g = generic_folder_names();
    if generic_folder(lower) {
        if lower == "win32"@ { assert(g[0] == lower); }
        else if lower == "win64"@ { assert(g[1] == lower); }
        else if lower == "x86"@ { assert(g[2] == lower); }
        else if lower == "x64"@ { assert(g[3] == lower); }
        else if lower == "binaries"@ { assert(g[4] == lower); }
        else if lower == "bin"@ { assert(g[5] == lower); }
        else if lower == "game"@ { assert(g[6] == lower); }
        else if lower == "games"@ { assert(g[7] == lower); }
        else if lower == "data"@ { assert(g[8] == lower); }
        else { assert(g[9] == lower); }
    }
    if g.contains(lower) {
        let k = choose|k: int| 0 <= k < g.len() && g[k] == lower;
        assert(0 <= k < 10);
    }
}

/// Below the nearest specific folder only generic ones: the name is that
/// folder's.
proof fn lemma_naming_part(parts: Seq<Seq<char>>, k: int, n: int)
    requires
        0 <= k < n < parts.len(),
        parts[k] != seq!['.', '.'],
        !generic_folder_names().contains(lowercased(parts[k])),
        forall|j: int| k < j < parts.len() - 1 ==> generic_folder_names().contains(lowercased(#[trigger] parts[j])),
        n <= parts.len() - 1,
    ensures
        last_naming_part(parts, n) == Some(parts[k]),
    decreases n,
{
    law_generic_folder_names(lowercased(parts[n - 1]));
    if n - 1 > k {
        assert(generic_folder_names().contains(lowercased(parts[n - 1])));
        lemma_naming_part(parts, k, n - 1);
    }
}

/// A program is named after the nearest enclosing folder whose name is not
/// generic (in any letter case), however many generic folders lie below
/// it: `.../Life is Strange/Binaries/Win64/game.exe` is named `Life is
/// Strange`.
pub proof fn law_named_after_nearest_specific_folder(exe: Seq<char>, k: int)
    requires
        0 <= k < path_parts(exe).len() - 1,
        path_parts(exe)[k] != seq!['.', '.'],
        !generic_folder_names().contains(lowercased(path_parts(exe)[k])),
        forall|j: int|
            k < j < path_parts(exe).len() - 1 ==> generic_folder_names().contains(
                lowercased(#[trigger] path_parts(exe)[j]),
            ),
    ensures
        app_name_for(exe) == path_parts(exe)[k],
{
    let parts = path_parts(exe);
    lemma_naming_part(parts, k, parts.len() - 1);
}

} // verus!


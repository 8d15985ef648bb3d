//! What the profile and library lists show, independent of how it is
//! drawn.

use vstd::prelude::*;
use crate::prefix::{apps_view, reg_view, AppView, LibraryApp, Prefix, PrefixView};
use crate::programs::{file_name, file_name_of};
use crate::text::str_eq;

verus! {

/// The label of an executable: its file name, or the whole path when it
/// has none.
pub open spec fn exe_label(exe: Seq<char>) -> Seq<char> {
    match file_name_of(exe) {
        Some(f) => f,
        None => exe,
    }
}

/// The label of an executable: its file name, or the whole path.
pub fn file_label(exe: &str) -> (r: String)
    ensures
        r@ == exe_label(exe@),
{
    match file_name(exe) {
        Some(f) => f,
        None => String::from_str(exe),
    }
}

/// The programs a profile's card lists, each with a name and a path: its
/// library, then its installed program when the library does not hold it
/// (profiles written by earlier versions), labelled by its file name.
pub open spec fn card_apps(p: PrefixView) -> Seq<(Seq<char>, Seq<char>)> {
    let lib = p.library.map_values(|a: AppView| (a.name, a.exe_path));
    match p.launcher_exe {
        Some(exe) => if lib.map_values(|e: (Seq<char>, Seq<char>)| e.1).contains(exe) {
            lib
        } else {
            lib.push((exe_label(exe), exe))
        },
        None => lib,
    }
}

/// The contents of a list of name and path pairs.
pub open spec fn pairs_view(v: Seq<(String, String)>) -> Seq<(Seq<char>, Seq<char>)> {
    v.map_values(|e: (String, String)| (e.0@, e.1@))
}

/// The programs that a profile's card lists (see `card_apps`).
pub fn prefix_apps(p: &Prefix) -> (r: Vec<(String, String)>)
    ensures
        pairs_view(r@) == card_apps(p@),
{
    let ghost lib = apps_view(p.library@).map_values(|a: AppView| (a.name, a.exe_path));
    let mut out: Vec<(String, String)> = Vec::new();
    let mut i: usize = 0;
    while i < p.library.len()
        invariant
            lib == apps_view(p.library@).map_values(|a: AppView| (a.name, a.exe_path)),
            i <= p.library.len(),
            out@.len() == i,
            pairs_view(out@) == lib.take(i as int),
        decreases p.library.len() - i,
    {
        let a = &p.library[i];
        out.push((a.name.clone(), a.exe_path.clone()));
        i = i + 1;
        assert(pairs_view(out@) =~= lib.take(i as int));
    }
    assert(lib.take(p.library.len() as int) =~= lib);
    if let Some(exe) = &p.launcher_exe {
        let ghost seconds = lib.map_values(|e: (Seq<char>, Seq<char>)| e.1);
        let mut listed = false;
        let mut k: usize = 0;
        while k < out.len()
            invariant
                pairs_view(out@) == lib,
                seconds == lib.map_values(|e: (Seq<char>, Seq<char>)| e.1),
                k <= out.len(),
                listed ==> seconds.contains(exe@),
                !listed ==> forall|j: int| 0 <= j < k ==> seconds[j] != exe@,
            decreases out.len() - k,
        {
            if str_eq(out[k].1.as_str(), exe.as_str()) {
                assert(seconds[k as int] == exe@);
                listed = true;
            }
            k = k + 1;
        }
        if !listed {
            let ghost before = pairs_view(out@);
            let label = file_label(exe.as_str());
            out.push((label, exe.clone()));
            assert(pairs_view(out@) =~= before.push((exe_label(exe@), exe@)));
        }
    }
    out
}

/// Every library entry of every profile, with its profile's name, in
/// profile order.
pub open spec fn all_library_entries(reg: Seq<PrefixView>) -> Seq<(Seq<char>, AppView)>
    decreases reg.len(),
{
    if reg.len() == 0 {
        Seq::empty()
    } else {
        let last = reg.last();
        all_library_entries(reg.drop_last()) + last.library.map_values(|a: AppView| (last.name, a))
    }
}

/// The entries that the library tab lists: every program of every
/// profile, with the name of its profile.
pub fn library_entries(prefixes: &Vec<Prefix>) -> (r: Vec<(String, LibraryApp)>)
    ensures
        r@.map_values(|e: (String, LibraryApp)| (e.0@, e.1@)) == all_library_entries(reg_view(prefixes@)),
{
    let ghost reg = reg_view(prefixes@);
    let mut out: Vec<(String, LibraryApp)> = Vec::new();
    let mut i: usize = 0;
    while i < prefixes.len()
        invariant
            reg == reg_view(prefixes@),
            i <= prefixes.len(),
            out@.map_values(|e: (String, LibraryApp)| (e.0@, e.1@)) == all_library_entries(reg.take(i as int)),
        decreases prefixes.len() - i,
    {
        let p = &prefixes[i];
        let ghost start = out@.map_values(|e: (String, LibraryApp)| (e.0@, e.1@));
        let ghost apps = p@.library.map_values(|a: AppView| (p@.name, a));
        assert(reg.take(i + 1).drop_last() =~= reg.take(i as int));
        assert(reg.take(i + 1).last() == p@);
        let mut j: usize = 0;
        while j < p.library.len()
            invariant
                out@.len() == start.len() + j,
                j <= p.library.len(),
                apps == apps_view(p.library@).map_values(|a: AppView| (p.name@, a)),
                out@.map_values(|e: (String, LibraryApp)| (e.0@, e.1@)) == start + apps.take(j as int),
            decreases p.library.len() - j,
        {
            let ghost before = out@.map_values(|e: (String, LibraryApp)| (e.0@, e.1@));
            let entry = (p.name.clone(), p.library[j].duplicate());
            let ghost ev = (entry.0@, entry.1@);
            out.push(entry);
            assert(out@.map_values(|e: (String, LibraryApp)| (e.0@, e.1@)) =~= before.push(ev));
            assert(apps.take(j + 1) =~= apps.take(j as int).push(apps[j as int]));
            assert(apps[j as int] == ev);
            j = j + 1;
            assert(out@.map_values(|e: (String, LibraryApp)| (e.0@, e.1@)) =~= start + apps.take(j as int));
        }
        assert(apps.take(p.library.len() as int) =~= apps);
        i = i + 1;
    }
    assert(reg.take(prefixes.len() as int) =~= reg);
    out
}

/// The number of programs in all the libraries together.
pub open spec fn library_total(reg: Seq<PrefixView>) -> int
    decreases reg.len(),
{
    if reg.len() == 0 {
        0
    } else {
        library_total(reg.drop_last()) + reg.last().library.len()
    }
}

/// The number of programs in all the libraries together, as the library
/// tab's title counts them.
pub fn library_count(prefixes: &Vec<Prefix>) -> (r: usize)
    requires
        library_total(reg_view(prefixes@)) <= usize::MAX,
    ensures
        r == library_total(reg_view(prefixes@)),
{
    let ghost reg = reg_view(prefixes@);
    let mut total: usize = 0;
    let mut i: usize = 0;
    while i < prefixes.len()
        invariant
            reg == reg_view(prefixes@),
            library_total(reg) <= usize::MAX,
            i <= prefixes.len(),
            total == library_total(reg.take(i as int)),
        decreases prefixes.len() - i,
    {
        assert(reg.take(i + 1).drop_last() =~= reg.take(i as int));
        proof {
            crate::listing::lemma_total_grows(reg, (i + 1) as int);
        }
        total = total + prefixes[i].library.len();
        i = i + 1;
    }
    assert(reg.take(prefixes.len() as int) =~= reg);
    total
}

/// The total over a prefix of the registry is at most the total.
pub proof fn lemma_total_grows(reg: Seq<PrefixView>, k: int)
    requires
        0 <= k <= reg.len(),
    ensures
        library_total(reg.take(k)) <= library_total(reg),
    decreases reg.len() - k,
{
    if k < reg.len() {
        lemma_total_grows(reg, k + 1);
        assert(reg.take(k + 1).drop_last() =~= reg.take(k));
    } else {
        assert(reg.take(k) =~= reg);
    }
}

} // verus!

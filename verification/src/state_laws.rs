//! What holds of every step of the application state.

use vstd::prelude::*;
use crate::registry_laws::{distinct_keys, lemma_filter_distinct};
use crate::state::{
    icons_queued, named, since_first, since_has, since_insert,
    since_remove, transition, CommandView, DalhinView, Message,
};
use crate::prefix::has_name;
use crate::system::setup_commands;
use crate::text::strictly_sorted;

verus! {

/// No executable is counted twice among the icons asked for.
pub open spec fn icons_once(s: DalhinView) -> bool {
    distinct_keys(s.icons_known, |x: Seq<char>| x)
}

/// No profile has two installer start times.
pub open spec fn since_once(s: DalhinView) -> bool {
    distinct_keys(s.installing_since, |e: (Seq<char>, u128)| e.0)
}

/// Asking for missing icons never asks for one already asked for, nor for
/// the same one twice.
proof fn lemma_queue_keeps_icons_once(known: Seq<Seq<char>>, t: DalhinView, c: CommandView)
    requires
        distinct_keys(known, |x: Seq<char>| x),
        icons_queued(known, t, c),
    ensures
        distinct_keys(t.icons_known, |x: Seq<char>| x),
        c matches CommandView::LoadIcons(m) ==> forall|k: int| 0 <= k < m.len() ==> !known.contains(#[trigger] m[k]),
{
    if let CommandView::LoadIcons(m) = c {
        assert(strictly_sorted(m));
        assert forall|k: int| 0 <= k < m.len() implies !known.contains(#[trigger] m[k]) by {
            assert(m.contains(m[k]));
        }
        let all = known + m;
        assert forall|i: int, j: int| 0 <= i < j < all.len() implies all[i] != all[j] by {
            if j < known.len() {
            } else if i < known.len() {
                assert(!known.contains(m[j - known.len()]));
                assert(known[i] == all[i]);
            } else {
                crate::text::lemma_lex_irreflexive(m[i - known.len()]);
            }
        }
    }
}

/// Every step keeps the icons asked for free of repeats, and a command to
/// load icons never names an executable whose icon was asked for already:
/// each icon is loaded once however often the lists are redrawn.
pub proof fn law_icons_asked_once(s: DalhinView, m: Message, t: DalhinView, c: CommandView)
    requires
        icons_once(s),
        transition(s, m, t, c),
    ensures
        icons_once(t),
        c matches CommandView::LoadIcons(paths) ==> forall|k: int| 0 <= k < paths.len() ==> !s.icons_known.contains(#[trigger] paths[k]),
{
    match m {
        Message::ProgramsAdded(..) | Message::LauncherSet(..) | Message::AppAdded(..) => {
            if icons_queued(s.icons_known, t, c) {
                lemma_queue_keeps_icons_once(s.icons_known, t, c);
            } else {
                assert(t.icons_known == s.icons_known);
            }
        },
        Message::IconLoaded(path) => {
            if !s.icons_known.contains(path@) {
                let all = s.icons_known.push(path@);
                assert forall|i: int, j: int| 0 <= i < j < all.len() implies all[i] != all[j] by {
                    if j == s.icons_known.len() {
                        assert(s.icons_known[i] == all[i]);
                    }
                }
            }
        },
        _ => {},
    }
}

/// Every step keeps at most one installer start time per profile, as a map
/// from profile name to time would.
pub proof fn law_one_start_time_per_profile(s: DalhinView, m: Message, t: DalhinView, c: CommandView)
    requires
        since_once(s),
        transition(s, m, t, c),
    ensures
        since_once(t),
{
    let v = s.installing_since;
    match m {
        Message::InstallPressed(name, now) => {
            if t.installing_since != v {
                let w = since_insert(v, name@, now);
                if since_has(v, name@) {
                    let i = since_first(v, name@);
                    assert(0 <= i < v.len() && v[i].0 == name@);
                    assert forall|a: int, b: int| 0 <= a < b < w.len() implies w[a].0 != w[b].0 by {
                        assert(v[a].0 != v[b].0);
                    }
                } else {
                    assert forall|a: int, b: int| 0 <= a < b < w.len() implies w[a].0 != w[b].0 by {
                        if b == v.len() {
                            assert(v[a].0 != name@);
                        }
                    }
                }
            }
        },
        Message::PrefixDeleted(name, ..) | Message::ProgramsAdded(name, ..) => {
            lemma_filter_distinct(v, |e: (Seq<char>, u128)| e.0 != name@, |e: (Seq<char>, u128)| e.0);
        },
        _ => {},
    }
}

/// System packages are installed only when the user asks for it after a
/// system check, and then exactly the commands that check calls for.
pub proof fn law_setup_only_on_request(s: DalhinView, m: Message, t: DalhinView, c: CommandView)
    requires
        transition(s, m, t, c),
        c is RunSetup,
    ensures
        m is InstallSetupPressed,
        s.system_report matches Some(r) && c == CommandView::RunSetup(setup_commands(r)),
{
}

/// A program runs only when the user asks for it: the installer of a
/// registered profile that has one ("Install"), or a program of a
/// registered profile ("Open"), always inside that profile's prefix.
pub proof fn law_programs_run_only_on_request(s: DalhinView, m: Message, t: DalhinView, c: CommandView)
    requires
        transition(s, m, t, c),
        c is RunExe,
    ensures
        match m {
            Message::InstallPressed(name, _) => has_name(s.prefixes, name@)
                && named(s.prefixes, name@).setup_exe is Some
                && c == CommandView::RunExe(named(s.prefixes, name@), named(s.prefixes, name@).setup_exe->0),
            Message::LaunchAppPressed(name, exe) => has_name(s.prefixes, name@)
                && c == CommandView::RunExe(named(s.prefixes, name@), exe@),
            _ => false,
        },
{
}

} // verus!

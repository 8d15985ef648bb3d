//! What holds of the profile registry across its operations.

use vstd::prelude::*;
use crate::prefix::{
    after_add_app, after_delete, after_register, after_remove_app, after_set_launcher, after_set_setup,
    change_named, first_named, first_named_at, has_name, lemma_first_named, new_prefix_refusal,
    new_prefix_view, register_accepts, with_app, with_launcher, with_setup, without_app, AppView,
    PrefixView, library_has,
};

verus! {

/// No two elements of `s` have the same key.
pub open spec fn distinct_keys<A>(s: Seq<A>, key: spec_fn(A) -> Seq<char>) -> bool {
    forall|i: int, j: int| 0 <= i < j < s.len() ==> key(s[i]) != key(s[j])
}

/// No two profiles of the registry have the same name.
pub open spec fn unique_names(reg: Seq<PrefixView>) -> bool {
    distinct_keys(reg, |p: PrefixView| p.name)
}

/// No two entries of a library run the same executable.
pub open spec fn unique_exes(lib: Seq<AppView>) -> bool {
    distinct_keys(lib, |a: AppView| a.exe_path)
}

/// Filtering keeps keys distinct.
pub proof fn lemma_filter_distinct<A>(s: Seq<A>, pred: spec_fn(A) -> bool, key: spec_fn(A) -> Seq<char>)
    requires
        distinct_keys(s, key),
    ensures
        distinct_keys(s.filter(pred), key),
    decreases s.len(),
{
    reveal(Seq::filter);
    if s.len() > 0 {
        let rest = s.drop_last();
        assert(distinct_keys(rest, key));
        lemma_filter_distinct(rest, pred, key);
        let sub = rest.filter(pred);
        if pred(s.last()) {
            let out = sub.push(s.last());
            assert forall|i: int, j: int| 0 <= i < j < out.len() implies key(out[i]) != key(out[j]) by {
                if j == sub.len() {
                    assert(sub.contains(sub[i]));
                    rest.lemma_filter_contains_rev(pred, sub[i]);
                    let k = choose|k: int| 0 <= k < rest.len() && rest[k] == sub[i];
                    assert(s[k] == out[i]);
                    assert(s[s.len() - 1] == out[j]);
                } else {
                    assert(out[i] == sub[i] && out[j] == sub[j]);
                }
            }
        }
    }
}

/// Changing one profile without touching its name keeps the first position
/// of every name.
proof fn lemma_change_keeps_names(reg: Seq<PrefixView>, name: Seq<char>, f: spec_fn(PrefixView) -> PrefixView)
    requires
        forall|p: PrefixView| #[trigger] f(p).name == p.name,
    ensures
        change_named(reg, name, f).len() == reg.len(),
        forall|j: int| 0 <= j < reg.len() ==> #[trigger] change_named(reg, name, f)[j].name == reg[j].name,
        has_name(reg, name) ==> has_name(change_named(reg, name, f), name)
            && first_named(change_named(reg, name, f), name) == first_named(reg, name),
        unique_names(reg) ==> unique_names(change_named(reg, name, f)),
{
    let out = change_named(reg, name, f);
    if has_name(reg, name) {
        let i = first_named(reg, name);
        let w = choose|w: int| 0 <= w < reg.len() && reg[w].name == name;
        // Some first position exists.
        lemma_first_exists(reg, name, w);
        assert(first_named_at(reg, name, i));
        assert(f(reg[i]).name == reg[i].name);
        assert(first_named_at(out, name, i));
        lemma_first_named(out, name, i);
    }
}

/// When a name occurs, it has a first position.
pub proof fn lemma_first_exists(reg: Seq<PrefixView>, name: Seq<char>, w: int)
    requires
        0 <= w < reg.len(),
        reg[w].name == name,
    ensures
        first_named_at(reg, name, first_named(reg, name)),
    decreases w,
{
    if forall|j: int| 0 <= j < w ==> reg[j].name != name {
        assert(first_named_at(reg, name, w));
    } else {
        let v = choose|j: int| 0 <= j < w && reg[j].name == name;
        assert(0 <= v < w && reg[v].name == name);
        lemma_first_exists(reg, name, v);
    }
}

/// Every operation on the registry keeps profile names unique: setting an
/// installer or program, adding or removing a library entry, deleting,
/// registering an existing prefix, and creating a profile that passed
/// `check_new_prefix`.
pub proof fn law_names_stay_unique(
    reg: Seq<PrefixView>,
    name: Seq<char>,
    path: Seq<char>,
    arch: Seq<char>,
    category: Seq<char>,
    exe: Seq<char>,
)
    requires
        unique_names(reg),
    ensures
        unique_names(after_set_setup(reg, name, exe)),
        unique_names(after_set_launcher(reg, name, exe)),
        unique_names(after_add_app(reg, name, exe)),
        unique_names(after_remove_app(reg, name, exe)),
        unique_names(after_delete(reg, name)),
        unique_names(after_register(reg, name, path, arch, category)),
        new_prefix_refusal(reg, name) is None ==> unique_names(
            reg.push(new_prefix_view(name, path, arch, category, false)),
        ),
{
    lemma_change_keeps_names(reg, name, |p: PrefixView| with_setup(p, exe));
    lemma_change_keeps_names(reg, name, |p: PrefixView| with_launcher(p, exe));
    lemma_change_keeps_names(reg, name, |p: PrefixView| with_app(p, exe));
    lemma_change_keeps_names(reg, name, |p: PrefixView| without_app(p, exe));
    lemma_filter_distinct(reg, |p: PrefixView| p.name != name, |p: PrefixView| p.name);
    if register_accepts(reg, name, path) {
        let out = reg.push(new_prefix_view(name, path, arch, category, true));
        assert forall|i: int, j: int| 0 <= i < j < out.len() implies out[i].name != out[j].name by {
            if j == reg.len() {
                assert(!(reg[i].name == name || reg[i].path == path));
            }
        }
    }
    if new_prefix_refusal(reg, name) is None {
        let out = reg.push(new_prefix_view(name, path, arch, category, false));
        assert forall|i: int, j: int| 0 <= i < j < out.len() implies out[i].name != out[j].name by {
            if j == reg.len() {
                assert(!(0 <= i < reg.len() && reg[i].name == name));
            }
        }
    }
}


/// Adding the same program twice to a profile's library is the same as
/// adding it once.
pub proof fn law_add_app_idempotent(reg: Seq<PrefixView>, name: Seq<char>, exe: Seq<char>)
    ensures
        after_add_app(after_add_app(reg, name, exe), name, exe) == after_add_app(reg, name, exe),
{
    let once = after_add_app(reg, name, exe);
    lemma_change_keeps_names(reg, name, |p: PrefixView| with_app(p, exe));
    if has_name(reg, name) {
        let i = first_named(reg, name);
        let w = choose|w: int| 0 <= w < reg.len() && reg[w].name == name;
        lemma_first_exists(reg, name, w);
        let p1 = with_app(reg[i], exe);
        assert(once[i] == p1);
        assert(library_has(p1.library, exe)) by {
            if !library_has(reg[i].library, exe) {
                assert(p1.library[p1.library.len() - 1].exe_path == exe);
            }
        }
        assert(with_app(p1, exe) == p1);
        assert(once.update(i, p1) =~= once);
    }
}

/// After adding a program, the profile's library runs it exactly once,
/// provided no program was listed twice before.
pub proof fn law_added_app_listed_once(p: PrefixView, exe: Seq<char>)
    requires
        unique_exes(p.library),
    ensures
        library_has(with_app(p, exe).library, exe),
        unique_exes(with_app(p, exe).library),
{
    let lib = with_app(p, exe).library;
    if !library_has(p.library, exe) {
        assert(lib[lib.len() - 1].exe_path == exe);
        assert forall|i: int, j: int| 0 <= i < j < lib.len() implies lib[i].exe_path != lib[j].exe_path by {
            if j == lib.len() - 1 {
                assert(p.library[i].exe_path != exe);
            } else {
                assert(lib[i] == p.library[i] && lib[j] == p.library[j]);
            }
        }
    }
}

/// After removing a program from a profile's library, no entry of that
/// library runs it.
pub proof fn law_removed_app_is_gone(reg: Seq<PrefixView>, name: Seq<char>, exe: Seq<char>)
    requires
        has_name(reg, name),
    ensures
        !library_has(after_remove_app(reg, name, exe)[first_named(reg, name)].library, exe),
{
    let i = first_named(reg, name);
    let w = choose|w: int| 0 <= w < reg.len() && reg[w].name == name;
    lemma_first_exists(reg, name, w);
    let lib = reg[i].library;
    let pred = |a: AppView| a.exe_path != exe;
    let out = lib.filter(pred);
    assert(after_remove_app(reg, name, exe)[i].library == out);
    assert forall|k: int| 0 <= k < out.len() implies out[k].exe_path != exe by {
        lib.lemma_filter_pred(pred, k);
    }
}

/// Setting a profile's installer twice leaves the second one; the same
/// holds for its installed program.
pub proof fn law_last_setting_wins(reg: Seq<PrefixView>, name: Seq<char>, first: Seq<char>, second: Seq<char>)
    ensures
        after_set_setup(after_set_setup(reg, name, first), name, second) == after_set_setup(reg, name, second),
        after_set_launcher(after_set_launcher(reg, name, first), name, second) == after_set_launcher(reg, name, second),
{
    lemma_change_keeps_names(reg, name, |p: PrefixView| with_setup(p, first));
    lemma_change_keeps_names(reg, name, |p: PrefixView| with_launcher(p, first));
    if has_name(reg, name) {
        let i = first_named(reg, name);
        let w = choose|w: int| 0 <= w < reg.len() && reg[w].name == name;
        lemma_first_exists(reg, name, w);
        assert(after_set_setup(after_set_setup(reg, name, first), name, second) =~= after_set_setup(reg, name, second));
        assert(after_set_launcher(after_set_launcher(reg, name, first), name, second) =~= after_set_launcher(reg, name, second));
    }
}

/// After deleting a name, no profile has it, and every profile with
/// another name is still there.
pub proof fn law_delete_removes_name(reg: Seq<PrefixView>, name: Seq<char>)
    ensures
        !has_name(after_delete(reg, name), name),
        forall|i: int| 0 <= i < reg.len() && reg[i].name != name ==> after_delete(reg, name).contains(#[trigger] reg[i]),
{
    let pred = |p: PrefixView| p.name != name;
    let out = reg.filter(pred);
    assert forall|k: int| 0 <= k < out.len() implies out[k].name != name by {
        reg.lemma_filter_pred(pred, k);
    }
    assert forall|i: int| 0 <= i < reg.len() && reg[i].name != name implies out.contains(#[trigger] reg[i]) by {
        reg.lemma_filter_contains(pred, i);
    }
}

/// Once a prefix is registered, registering the same name again is
/// refused, and the registered profile is external.
pub proof fn law_register_twice_refused(
    reg: Seq<PrefixView>,
    name: Seq<char>,
    path: Seq<char>,
    arch: Seq<char>,
    category: Seq<char>,
    other_path: Seq<char>,
)
    requires
        register_accepts(reg, name, path),
    ensures
        !register_accepts(after_register(reg, name, path, arch, category), name, other_path),
        after_register(reg, name, path, arch, category).last().external,
{
    let out = after_register(reg, name, path, arch, category);
    assert(out[out.len() - 1].name == name);
}

/// Setting a profile's installer or program, or adding or removing one of
/// its programs, leaves every profile with another name as it was.
pub proof fn law_other_profiles_untouched(reg: Seq<PrefixView>, name: Seq<char>, exe: Seq<char>, j: int)
    requires
        0 <= j < reg.len(),
        reg[j].name != name,
    ensures
        after_set_setup(reg, name, exe)[j] == reg[j],
        after_set_launcher(reg, name, exe)[j] == reg[j],
        after_add_app(reg, name, exe)[j] == reg[j],
        after_remove_app(reg, name, exe)[j] == reg[j],
{
    if has_name(reg, name) {
        let w = choose|w: int| 0 <= w < reg.len() && reg[w].name == name;
        lemma_first_exists(reg, name, w);
    }
}

/// A profile keeps its installer when its program to play is set or its
/// library changes, so that it can be run again later.
pub proof fn law_installer_kept(reg: Seq<PrefixView>, name: Seq<char>, exe: Seq<char>, j: int)
    requires
        0 <= j < reg.len(),
    ensures
        after_set_launcher(reg, name, exe)[j].setup_exe == reg[j].setup_exe,
        after_add_app(reg, name, exe)[j].setup_exe == reg[j].setup_exe,
        after_remove_app(reg, name, exe)[j].setup_exe == reg[j].setup_exe,
{
    if has_name(reg, name) {
        let w = choose|w: int| 0 <= w < reg.len() && reg[w].name == name;
        lemma_first_exists(reg, name, w);
    }
}

} // verus!

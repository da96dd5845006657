//! What a reconciliation does to the files on disk, as mathematics: the
//! staging tree, the staging archive and the served archive.
use vstd::prelude::*;

use crate::driver::{is_final, next_stage, Command, Reconciler, StageView};

verus! {

/// A directory tree of resources: resource name, then entry name, then text.
pub type Tree = Map<Seq<char>, Map<Seq<char>, Seq<char>>>;

/// The durable state that reconciliations change. An archive is described by
/// the tree it holds under its root directory.
pub struct Store {
    pub tree: Tree,
    /// The archive at the staging path, if a complete one lies there.
    pub staged: Option<Tree>,
    /// The archive at the serving path, if any was ever published.
    pub served: Option<Tree>,
}

/// The entries of `name` in `t`; none when it has no directory.
pub open spec fn dir_of(t: Tree, name: Seq<char>) -> Map<Seq<char>, Seq<char>> {
    if t.contains_key(name) { t[name] } else { Map::empty() }
}

/// `m` after writing the entries `ev` in order; a later entry of the same
/// name overwrites an earlier one.
pub open spec fn write_all(m: Map<Seq<char>, Seq<char>>, ev: Seq<(Seq<char>, Seq<char>)>) -> Map<Seq<char>, Seq<char>>
    decreases ev.len(),
{
    if ev.len() == 0 {
        m
    } else {
        write_all(m, ev.drop_last()).insert(ev.last().0, ev.last().1)
    }
}

/// The tree `t` after the resource `name` was materialized with `ev`.
pub open spec fn materialized(t: Tree, name: Seq<char>, ev: Seq<(Seq<char>, Seq<char>)>) -> Tree {
    t.insert(name, write_all(dir_of(t, name), ev))
}

/// What performing the step `c` does to the store, when it succeeded (`ok`)
/// or failed. The model records successful writes only: a failed write of
/// the staging tree may leave a partly written file behind, which no law
/// below speaks of. A failed packaging leaves no complete staging archive.
pub open spec fn perform(s: Store, c: Command, ok: bool) -> Store {
    match c {
        Command::CreateDir { resource, .. } => if ok {
            Store { tree: s.tree.insert(resource@, dir_of(s.tree, resource@)), ..s }
        } else {
            s
        },
        Command::WriteEntry { resource, key, content, .. } => if ok {
            Store { tree: s.tree.insert(resource@, dir_of(s.tree, resource@).insert(key@, content@)), ..s }
        } else {
            s
        },
        Command::Package { .. } => if ok {
            Store { staged: Some(s.tree), ..s }
        } else {
            Store { staged: None, ..s }
        },
        Command::Publish { .. } => if ok && s.staged is Some {
            Store { staged: None, served: s.staged, ..s }
        } else {
            s
        },
    }
}

/// What the step of stage `st` of `r` does to the store.
pub open spec fn effect(s: Store, r: Reconciler, st: StageView, ok: bool) -> Store {
    let name = r.name@;
    match st {
        StageView::CreatingDir => if ok {
            Store { tree: s.tree.insert(name, dir_of(s.tree, name)), ..s }
        } else {
            s
        },
        StageView::Writing(i) => if ok {
            let e = r.entries_view()[i as int];
            Store { tree: s.tree.insert(name, dir_of(s.tree, name).insert(e.0, e.1)), ..s }
        } else {
            s
        },
        StageView::Packaging => if ok {
            Store { staged: Some(s.tree), ..s }
        } else {
            Store { staged: None, ..s }
        },
        StageView::Publishing => if ok && s.staged is Some {
            Store { staged: None, served: s.staged, ..s }
        } else {
            s
        },
        _ => s,
    }
}

/// The store after `r` ran from stage `st` with the steps going as `oks`
/// says, until its stage is final or `oks` is used up.
pub open spec fn run(s: Store, r: Reconciler, st: StageView, oks: Seq<bool>) -> Store
    decreases oks.len(),
{
    if oks.len() == 0 || is_final(st) {
        s
    } else {
        run(effect(s, r, st, oks[0]), r, next_stage(st, r.entries@.len(), oks[0]), oks.drop_first())
    }
}

/// The stage that `r` reaches from `st` with the steps going as `oks` says.
pub open spec fn final_stage(r: Reconciler, st: StageView, oks: Seq<bool>) -> StageView
    decreases oks.len(),
{
    if oks.len() == 0 || is_final(st) {
        st
    } else {
        final_stage(r, next_stage(st, r.entries@.len(), oks[0]), oks.drop_first())
    }
}

/// The step that a reconciliation issues in a stage does to the store what
/// that stage's effect says.
pub proof fn lemma_command_effect(s: Store, r: Reconciler, st: StageView, c: Command, ok: bool)
    requires
        r.issues(st, c),
    ensures
        perform(s, c, ok) == effect(s, r, st, ok),
{
}

/// A reconciliation that does not end in a publish, because a step failed
/// (packaging or publishing among them) or it stopped early, leaves the
/// served archive exactly as it was.
pub proof fn lemma_failed_build_keeps_served(s: Store, r: Reconciler, st: StageView, oks: Seq<bool>)
    requires
        !(final_stage(r, st, oks) is Done),
    ensures
        run(s, r, st, oks).served == s.served,
    decreases oks.len(),
{
    if oks.len() == 0 || is_final(st) {
    } else {
        let st2 = next_stage(st, r.entries@.len(), oks[0]);
        if st is Publishing && oks[0] {
            assert(st2 is Done);
            assert(final_stage(r, st2, oks.drop_first()) is Done);
        }
        lemma_failed_build_keeps_served(effect(s, r, st, oks[0]), r, st2, oks.drop_first());
    }
}

/// From packaging on, a reconciliation that ends in a publish serves the
/// staging tree as it stood.
proof fn lemma_package_and_publish(s: Store, r: Reconciler, oks: Seq<bool>)
    requires
        final_stage(r, StageView::Packaging, oks) is Done,
    ensures
        run(s, r, StageView::Packaging, oks).served == Some(s.tree),
        run(s, r, StageView::Packaging, oks).tree == s.tree,
{
    let n = r.entries@.len();
    assert(oks.len() > 0 && oks[0]) by {
        if oks.len() == 0 || !oks[0] {
            if oks.len() > 0 {
                let rest = oks.drop_first();
                assert(final_stage(r, StageView::Failed, rest) is Failed) by {
                    if rest.len() > 0 {}
                }
            }
        }
    }
    let rest = oks.drop_first();
    let s1 = effect(s, r, StageView::Packaging, true);
    assert(final_stage(r, StageView::Publishing, rest) is Done);
    assert(rest.len() > 0 && rest[0]) by {
        if rest.len() == 0 || !rest[0] {
            if rest.len() > 0 {
                let rest2 = rest.drop_first();
                assert(final_stage(r, StageView::Failed, rest2) is Failed) by {
                    if rest2.len() > 0 {}
                }
            }
        }
    }
    let rest2 = rest.drop_first();
    let s2 = effect(s1, r, StageView::Publishing, true);
    assert(run(s2, r, StageView::Done, rest2) == s2);
    assert(run(s1, r, StageView::Publishing, rest) == run(s2, r, StageView::Done, rest2));
    assert(run(s, r, StageView::Packaging, oks) == run(s1, r, StageView::Publishing, rest));
}

/// Writing one more entry extends the written prefix by that entry.
proof fn lemma_write_step(m: Map<Seq<char>, Seq<char>>, ev: Seq<(Seq<char>, Seq<char>)>, i: int)
    requires
        0 <= i < ev.len(),
    ensures
        write_all(m, ev.take((i + 1) as int)) == write_all(m, ev.take(i)).insert(ev[i].0, ev[i].1),
{
    assert(ev.take((i + 1) as int).drop_last() =~= ev.take(i));
}

/// From the write of entry `i` on, a reconciliation that ends in a publish
/// serves `t0` with the resource's directory holding all entries written.
proof fn lemma_writes(
    s: Store,
    r: Reconciler,
    i: nat,
    oks: Seq<bool>,
    t0: Tree,
    base: Map<Seq<char>, Seq<char>>,
)
    requires
        i < r.entries@.len(),
        s.tree == t0.insert(r.name@, write_all(base, r.entries_view().take(i as int))),
        final_stage(r, StageView::Writing(i), oks) is Done,
    ensures
        run(s, r, StageView::Writing(i), oks).served == Some(
            t0.insert(r.name@, write_all(base, r.entries_view())),
        ),
        run(s, r, StageView::Writing(i), oks).tree == t0.insert(r.name@, write_all(base, r.entries_view())),
    decreases r.entries@.len() - i,
{
    let n = r.entries@.len();
    let ev = r.entries_view();
    let name = r.name@;
    assert(oks.len() > 0 && oks[0]) by {
        if oks.len() == 0 || !oks[0] {
            if oks.len() > 0 {
                let rest = oks.drop_first();
                assert(final_stage(r, StageView::Failed, rest) is Failed) by {
                    if rest.len() > 0 {}
                }
            }
        }
    }
    let s1 = effect(s, r, StageView::Writing(i), true);
    lemma_write_step(base, ev, i as int);
    assert(s1.tree =~= t0.insert(name, write_all(base, ev.take((i + 1) as int))));
    if i + 1 < n {
        lemma_writes(s1, r, i + 1, oks.drop_first(), t0, base);
    } else {
        assert(ev.take((i + 1) as int) =~= ev);
        lemma_package_and_publish(s1, r, oks.drop_first());
    }
}

/// A reconciliation that ends in a publish serves the staging tree as it was
/// before, with the resource's entries written into its directory: the
/// entries of every other resource stay in the archive unchanged.
pub proof fn lemma_successful_build_publishes_tree(s: Store, r: Reconciler, oks: Seq<bool>)
    requires
        r.wf(),
        final_stage(r, StageView::CreatingDir, oks) is Done,
    ensures
        run(s, r, StageView::CreatingDir, oks).served == Some(
            materialized(s.tree, r.name@, r.entries_view()),
        ),
        run(s, r, StageView::CreatingDir, oks).tree == materialized(s.tree, r.name@, r.entries_view()),
{
    let name = r.name@;
    let ev = r.entries_view();
    let base = dir_of(s.tree, name);
    assert(oks.len() > 0 && oks[0]) by {
        if oks.len() == 0 || !oks[0] {
            if oks.len() > 0 {
                let rest = oks.drop_first();
                assert(final_stage(r, StageView::Failed, rest) is Failed) by {
                    if rest.len() > 0 {}
                }
            }
        }
    }
    let s1 = effect(s, r, StageView::CreatingDir, true);
    assert(ev.take(0) =~= Seq::<(Seq<char>, Seq<char>)>::empty());
    assert(s1.tree == s.tree.insert(name, write_all(base, ev.take(0))));
    lemma_writes(s1, r, 0, oks.drop_first(), s.tree, base);
    assert(s.tree.insert(name, write_all(base, ev)) == materialized(s.tree, name, ev));
}

/// Writing entries into a directory overrides its earlier content with
/// what the entries alone would give.
pub proof fn lemma_write_all_overrides(m: Map<Seq<char>, Seq<char>>, ev: Seq<(Seq<char>, Seq<char>)>)
    ensures
        write_all(m, ev) == m.union_prefer_right(write_all(Map::empty(), ev)),
    decreases ev.len(),
{
    if ev.len() > 0 {
        lemma_write_all_overrides(m, ev.drop_last());
        assert(write_all(m, ev) =~= m.union_prefer_right(write_all(Map::empty(), ev)));
    } else {
        assert(write_all(m, ev) =~= m.union_prefer_right(write_all(Map::empty(), ev)));
    }
}

/// Materializing a resource a second time with the same entries changes
/// nothing.
pub proof fn lemma_materialize_idempotent(t: Tree, name: Seq<char>, ev: Seq<(Seq<char>, Seq<char>)>)
    ensures
        materialized(materialized(t, name, ev), name, ev) == materialized(t, name, ev),
{
    let once = write_all(dir_of(t, name), ev);
    let f = write_all(Map::empty(), ev);
    lemma_write_all_overrides(dir_of(t, name), ev);
    lemma_write_all_overrides(once, ev);
    assert(dir_of(materialized(t, name, ev), name) == once);
    assert(once.union_prefer_right(f) =~= once);
    assert(materialized(materialized(t, name, ev), name, ev) =~= materialized(t, name, ev));
}

/// Publishing a resource again with identical content serves an archive with
/// the same entries and the same content as the first publish.
pub proof fn lemma_republish_is_idempotent(s: Store, r: Reconciler, oks1: Seq<bool>, oks2: Seq<bool>)
    requires
        r.wf(),
        final_stage(r, StageView::CreatingDir, oks1) is Done,
        final_stage(r, StageView::CreatingDir, oks2) is Done,
    ensures
        run(run(s, r, StageView::CreatingDir, oks1), r, StageView::CreatingDir, oks2).served
            == run(s, r, StageView::CreatingDir, oks1).served,
{
    let s1 = run(s, r, StageView::CreatingDir, oks1);
    lemma_successful_build_publishes_tree(s, r, oks1);
    lemma_successful_build_publishes_tree(s1, r, oks2);
    lemma_materialize_idempotent(s.tree, r.name@, r.entries_view());
}

/// The entry names of `ev` are distinct.
pub open spec fn unique_keys(ev: Seq<(Seq<char>, Seq<char>)>) -> bool {
    forall|i: int, j: int| 0 <= i < j < ev.len() ==> ev[i].0 != ev[j].0
}

/// After writing entries of distinct names, each holds its own content, and
/// a name holds content exactly when it was there before or is written.
pub proof fn lemma_write_all_holds(m: Map<Seq<char>, Seq<char>>, ev: Seq<(Seq<char>, Seq<char>)>)
    requires
        unique_keys(ev),
    ensures
        forall|j: int| 0 <= j < ev.len() ==> write_all(m, ev).contains_key(ev[j].0)
            && write_all(m, ev)[ev[j].0] == ev[j].1,
        forall|k: Seq<char>| write_all(m, ev).contains_key(k) <==> (m.contains_key(k) || exists|j: int|
            0 <= j < ev.len() && ev[j].0 == k),
        forall|k: Seq<char>| m.contains_key(k) && (forall|j: int| 0 <= j < ev.len() ==> ev[j].0 != k)
            ==> write_all(m, ev)[k] == m[k],
    decreases ev.len(),
{
    if ev.len() > 0 {
        let init = ev.drop_last();
        lemma_write_all_holds(m, init);
        assert forall|j: int| 0 <= j < ev.len() implies write_all(m, ev).contains_key(ev[j].0)
            && write_all(m, ev)[ev[j].0] == ev[j].1 by {
            if j < ev.len() - 1 {
                assert(init[j] == ev[j]);
                assert(ev[j].0 != ev[ev.len() - 1].0);
            }
        }
        assert forall|k: Seq<char>| write_all(m, ev).contains_key(k) <==> (m.contains_key(k) || exists|j: int|
            0 <= j < ev.len() && ev[j].0 == k) by {
            if write_all(m, ev).contains_key(k) && !m.contains_key(k) && k != ev.last().0 {
                let j = choose|j: int| 0 <= j < init.len() && init[j].0 == k;
                assert(ev[j].0 == k);
            }
            if exists|j: int| 0 <= j < ev.len() && ev[j].0 == k {
                let j = choose|j: int| 0 <= j < ev.len() && ev[j].0 == k;
                if j < ev.len() - 1 {
                    assert(init[j].0 == k);
                }
            }
        }
        assert forall|k: Seq<char>| m.contains_key(k) && (forall|j: int| 0 <= j < ev.len() ==> ev[j].0 != k)
            implies write_all(m, ev)[k] == m[k] by {
            assert(ev[ev.len() - 1].0 != k);
            assert forall|j: int| 0 <= j < init.len() implies init[j].0 != k by {
                assert(ev[j].0 != k);
            }
        }
    }
}

/// After a resource with entries of distinct names is materialized, its
/// directory holds each entry with its content, and nothing but its earlier
/// entries and these; every other resource keeps its directory unchanged.
pub proof fn lemma_materialized_entries(t: Tree, name: Seq<char>, ev: Seq<(Seq<char>, Seq<char>)>)
    requires
        unique_keys(ev),
    ensures
        materialized(t, name, ev).contains_key(name),
        forall|j: int| 0 <= j < ev.len() ==> materialized(t, name, ev)[name].contains_key(ev[j].0)
            && materialized(t, name, ev)[name][ev[j].0] == ev[j].1,
        forall|k: Seq<char>| materialized(t, name, ev)[name].contains_key(k) <==> (dir_of(t, name).contains_key(k)
            || exists|j: int| 0 <= j < ev.len() && ev[j].0 == k),
        forall|other: Seq<char>| other != name ==> (materialized(t, name, ev).contains_key(other)
            <==> t.contains_key(other)),
        forall|other: Seq<char>| other != name && t.contains_key(other) ==> materialized(t, name, ev)[other]
            == t[other],
{
    lemma_write_all_holds(dir_of(t, name), ev);
}

} // verus!

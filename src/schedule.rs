//! Which directories of a walk still need work, and in what order.
use vstd::prelude::*;
use crate::worklist::{WorkList, is_done};

verus! {

/// A directory that the walker found, with the number of components of its path.
#[derive(Clone, Debug)]
pub struct FoundDir {
    pub path: String,
    pub depth: usize,
}

/// The worklist after the walker reported `found`, in order: each directory that
/// was not recorded is recorded as pending.
pub open spec fn observe_all(m: Map<Seq<char>, bool>, found: Seq<FoundDir>) -> Map<Seq<char>, bool>
    decreases found.len(),
{
    if found.len() == 0 {
        m
    } else {
        let prev = observe_all(m, found.drop_last());
        let p = found.last().path@;
        if prev.contains_key(p) {
            prev
        } else {
            prev.insert(p, false)
        }
    }
}

/// The directories of `found` that `m` does not record as done, in their order.
pub open spec fn pending(m: Map<Seq<char>, bool>, found: Seq<FoundDir>) -> Seq<FoundDir>
    decreases found.len(),
{
    if found.len() == 0 {
        Seq::empty()
    } else {
        let prev = pending(m, found.drop_last());
        if is_done(m, found.last().path@) {
            prev
        } else {
            prev.push(found.last())
        }
    }
}

/// The directories of `dirs` at depth `d`, in their order.
pub open spec fn layer(dirs: Seq<FoundDir>, d: int) -> Seq<FoundDir>
    decreases dirs.len(),
{
    if dirs.len() == 0 {
        Seq::empty()
    } else {
        let prev = layer(dirs.drop_last(), d);
        if dirs.last().depth == d {
            prev.push(dirs.last())
        } else {
            prev
        }
    }
}

/// The layers of `dirs` from depth `hi` down to depth `lo`.
pub open spec fn layers(dirs: Seq<FoundDir>, hi: int, lo: int) -> Seq<FoundDir>
    decreases hi - lo + 1,
{
    if hi < lo {
        Seq::empty()
    } else {
        layers(dirs, hi, lo + 1) + layer(dirs, lo)
    }
}

/// The greatest depth in `dirs` (0 when there is none).
pub open spec fn max_depth(dirs: Seq<FoundDir>) -> int
    decreases dirs.len(),
{
    if dirs.len() == 0 {
        0
    } else {
        let prev = max_depth(dirs.drop_last());
        if dirs.last().depth > prev {
            dirs.last().depth as int
        } else {
            prev
        }
    }
}

/// `dirs`, deepest first; directories of equal depth keep their order.
pub open spec fn deepest_first(dirs: Seq<FoundDir>) -> Seq<FoundDir> {
    layers(dirs, max_depth(dirs), 0)
}

/// No directory comes before a deeper one.
pub open spec fn is_deepest_first(dirs: Seq<FoundDir>) -> bool {
    forall|i: int, j: int| 0 <= i < j < dirs.len() ==> dirs[i].depth >= dirs[j].depth
}

proof fn lemma_layer_depth(dirs: Seq<FoundDir>, d: int)
    ensures
        forall|i: int| 0 <= i < layer(dirs, d).len() ==> #[trigger] layer(dirs, d)[i].depth == d,
    decreases dirs.len(),
{
    if dirs.len() > 0 {
        lemma_layer_depth(dirs.drop_last(), d);
        let prev = layer(dirs.drop_last(), d);
        assert forall|i: int| 0 <= i < layer(dirs, d).len() implies #[trigger] layer(dirs, d)[i].depth
            == d by {
            if i < prev.len() {
                assert(layer(dirs, d)[i] == prev[i]);
            }
        }
    }
}

proof fn lemma_layers_sorted(dirs: Seq<FoundDir>, hi: int, lo: int)
    ensures
        is_deepest_first(layers(dirs, hi, lo)),
        forall|i: int|
            0 <= i < layers(dirs, hi, lo).len() ==> lo <= #[trigger] layers(dirs, hi, lo)[i].depth
                <= hi,
    decreases hi - lo + 1,
{
    if hi >= lo {
        lemma_layers_sorted(dirs, hi, lo + 1);
        lemma_layer_depth(dirs, lo);
        let a = layers(dirs, hi, lo + 1);
        let b = layer(dirs, lo);
        let r = layers(dirs, hi, lo);
        assert(r == a + b);
        assert forall|i: int| 0 <= i < r.len() implies lo <= #[trigger] r[i].depth <= hi by {
            if i >= a.len() {
                assert(r[i] == b[i - a.len()]);
            }
        }
        assert forall|i: int, j: int| 0 <= i < j < r.len() implies r[i].depth >= r[j].depth by {
            if j < a.len() {
                assert(r[i] == a[i] && r[j] == a[j]);
            } else if i >= a.len() {
                assert(r[i] == b[i - a.len()] && r[j] == b[j - a.len()]);
            } else {
                assert(r[i] == a[i] && r[j] == b[j - a.len()]);
            }
        }
    }
}

/// Directories deepest first, directories of equal depth in their given order.
pub fn order_deepest_first(dirs: &Vec<FoundDir>) -> (r: Vec<FoundDir>)
    ensures
        r@ == deepest_first(dirs@),
        is_deepest_first(r@),
{
    let mut top: usize = 0;
    let mut i: usize = 0;
    while i < dirs.len()
        invariant
            i <= dirs@.len(),
            top == max_depth(dirs@.subrange(0, i as int)),
        decreases dirs@.len() - i,
    {
        proof {
            assert(dirs@.subrange(0, i + 1).drop_last() =~= dirs@.subrange(0, i as int));
        }
        if dirs[i].depth > top {
            top = dirs[i].depth;
        }
        i = i + 1;
    }
    proof {
        assert(dirs@.subrange(0, dirs@.len() as int) =~= dirs@);
    }
    let mut out: Vec<FoundDir> = Vec::new();
    let mut d: usize = top;
    loop
        invariant_except_break
            out@ == layers(dirs@, top as int, d + 1),
        invariant
            d <= top,
            top == max_depth(dirs@),
        ensures
            out@ == layers(dirs@, top as int, 0),
        decreases d,
    {
        let ghost base = out@;
        let mut j: usize = 0;
        while j < dirs.len()
            invariant
                j <= dirs@.len(),
                out@ == base + layer(dirs@.subrange(0, j as int), d as int),
            decreases dirs@.len() - j,
        {
            proof {
                assert(dirs@.subrange(0, j + 1).drop_last() =~= dirs@.subrange(0, j as int));
            }
            if dirs[j].depth == d {
                out.push(FoundDir { path: dirs[j].path.clone(), depth: dirs[j].depth });
                proof {
                    assert(out@ =~= base + layer(dirs@.subrange(0, j + 1), d as int));
                }
            }
            j = j + 1;
        }
        proof {
            assert(dirs@.subrange(0, dirs@.len() as int) =~= dirs@);
        }
        if d == 0 {
            break;
        }
        d = d - 1;
    }
    proof {
        lemma_layers_sorted(dirs@, top as int, 0);
    }
    out
}

proof fn lemma_observe_keeps_done(m: Map<Seq<char>, bool>, found: Seq<FoundDir>, p: Seq<char>)
    ensures
        is_done(observe_all(m, found), p) == is_done(m, p),
    decreases found.len(),
{
    if found.len() > 0 {
        lemma_observe_keeps_done(m, found.drop_last(), p);
    }
}

/// Records every directory that the walker found, in order, and returns those
/// that are not done, in the same order.
pub fn select_pending(worklist: &mut WorkList, found: &Vec<FoundDir>) -> (r: Vec<FoundDir>)
    requires
        old(worklist).wf(),
    ensures
        final(worklist).wf(),
        final(worklist)@ == observe_all(old(worklist)@, found@),
        r@ == pending(old(worklist)@, found@),
        final(worklist).spec_root() == old(worklist).spec_root(),
        final(worklist).spec_settings() == old(worklist).spec_settings(),
{
    let ghost start = worklist@;
    let mut out: Vec<FoundDir> = Vec::new();
    let mut i: usize = 0;
    while i < found.len()
        invariant
            i <= found@.len(),
            worklist.wf(),
            worklist@ == observe_all(start, found@.subrange(0, i as int)),
            out@ == pending(start, found@.subrange(0, i as int)),
            worklist.spec_root() == old(worklist).spec_root(),
            worklist.spec_settings() == old(worklist).spec_settings(),
        decreases found@.len() - i,
    {
        let ghost prefix = found@.subrange(0, i + 1);
        proof {
            assert(prefix.drop_last() =~= found@.subrange(0, i as int));
            lemma_observe_keeps_done(start, found@.subrange(0, i as int), found@[i as int].path@);
        }
        let needs_work = worklist.observe(found[i].path.clone());
        if needs_work {
            out.push(FoundDir { path: found[i].path.clone(), depth: found[i].depth });
        }
        i = i + 1;
    }
    proof {
        assert(found@.subrange(0, found@.len() as int) =~= found@);
    }
    out
}

/// The directories of a walk that still need work, deepest first, after
/// recording each of them in the worklist.
pub fn schedule(worklist: &mut WorkList, found: &Vec<FoundDir>) -> (r: Vec<FoundDir>)
    requires
        old(worklist).wf(),
    ensures
        final(worklist).wf(),
        final(worklist)@ == observe_all(old(worklist)@, found@),
        r@ == deepest_first(pending(old(worklist)@, found@)),
        is_deepest_first(r@),
        final(worklist).spec_root() == old(worklist).spec_root(),
        final(worklist).spec_settings() == old(worklist).spec_settings(),
{
    let selected = select_pending(worklist, found);
    order_deepest_first(&selected)
}

/// The worklist after each directory of `dirs` has been recorded as done.
pub open spec fn mark_all_done(m: Map<Seq<char>, bool>, dirs: Seq<FoundDir>) -> Map<Seq<char>, bool>
    decreases dirs.len(),
{
    if dirs.len() == 0 {
        m
    } else {
        mark_all_done(m, dirs.drop_last()).insert(dirs.last().path@, true)
    }
}

proof fn lemma_mark_all_done(m: Map<Seq<char>, bool>, dirs: Seq<FoundDir>, p: Seq<char>)
    ensures
        is_done(m, p) ==> is_done(mark_all_done(m, dirs), p),
        (exists|i: int| 0 <= i < dirs.len() && #[trigger] dirs[i].path@ == p) ==> is_done(
            mark_all_done(m, dirs),
            p,
        ),
    decreases dirs.len(),
{
    if dirs.len() > 0 {
        lemma_mark_all_done(m, dirs.drop_last(), p);
        if exists|i: int| 0 <= i < dirs.len() && #[trigger] dirs[i].path@ == p {
            let i = choose|i: int| 0 <= i < dirs.len() && #[trigger] dirs[i].path@ == p;
            if i < dirs.len() - 1 {
                assert(dirs.drop_last()[i].path@ == p);
            }
        }
    }
}

proof fn lemma_pending_holds(m: Map<Seq<char>, bool>, found: Seq<FoundDir>, i: int)
    requires
        0 <= i < found.len(),
        !is_done(m, found[i].path@),
    ensures
        exists|j: int| 0 <= j < pending(m, found).len() && #[trigger] pending(m, found)[j] == found[i],
    decreases found.len(),
{
    let prev = pending(m, found.drop_last());
    if i < found.len() - 1 {
        lemma_pending_holds(m, found.drop_last(), i);
        assert(found.drop_last()[i] == found[i]);
        let j = choose|j: int| 0 <= j < prev.len() && #[trigger] prev[j] == found[i];
        assert(pending(m, found)[j] == found[i]);
    } else {
        assert(pending(m, found)[prev.len() as int] == found[i]);
    }
}

/// A walk in which every directory is done selects nothing and changes nothing.
pub proof fn lemma_done_walk_is_idle(m: Map<Seq<char>, bool>, found: Seq<FoundDir>)
    requires
        forall|i: int| 0 <= i < found.len() ==> is_done(m, #[trigger] found[i].path@),
    ensures
        pending(m, found) == Seq::<FoundDir>::empty(),
        observe_all(m, found) == m,
    decreases found.len(),
{
    if found.len() > 0 {
        assert forall|i: int| 0 <= i < found.drop_last().len() implies is_done(
            m,
            #[trigger] found.drop_last()[i].path@,
        ) by {
            assert(found.drop_last()[i] == found[i]);
        }
        lemma_done_walk_is_idle(m, found.drop_last());
        assert(is_done(m, found[found.len() - 1].path@));
    }
}

/// Running twice over the same walk does no work the second time: once every
/// directory that the first run selected has been recorded as done, the second
/// run selects no directory and leaves the worklist as it is.
pub proof fn lemma_second_run_is_idle(m: Map<Seq<char>, bool>, found: Seq<FoundDir>)
    ensures
        ({
            let after_first = mark_all_done(observe_all(m, found), pending(m, found));
            &&& pending(after_first, found) == Seq::<FoundDir>::empty()
            &&& observe_all(after_first, found) == after_first
        }),
{
    let observed = observe_all(m, found);
    let selected = pending(m, found);
    let after_first = mark_all_done(observed, selected);
    assert forall|i: int| 0 <= i < found.len() implies is_done(
        after_first,
        #[trigger] found[i].path@,
    ) by {
        let p = found[i].path@;
        lemma_observe_keeps_done(m, found, p);
        lemma_mark_all_done(observed, selected, p);
        if !is_done(m, p) {
            lemma_pending_holds(m, found, i);
            let j = choose|j: int| 0 <= j < selected.len() && #[trigger] selected[j] == found[i];
            assert(selected[j].path@ == p);
        }
    }
    lemma_done_walk_is_idle(after_first, found);
}

} // verus!

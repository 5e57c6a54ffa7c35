//! The ring laws: closure, inverse-link symmetry, and size accuracy, proved
//! of every well-formed list.

use crate::list::List;
use vstd::prelude::*;

verus! {

/// The slot reached from `start` after `k` successor steps.
pub open spec fn succ_steps<T>(l: List<T>, start: usize, k: nat) -> usize
    decreases k,
{
    if k == 0 {
        start
    } else {
        l.nodes@[succ_steps(l, start, (k - 1) as nat) as int].next
    }
}

/// The slot reached from `start` after `k` predecessor steps.
pub open spec fn pred_steps<T>(l: List<T>, start: usize, k: nat) -> usize
    decreases k,
{
    if k == 0 {
        start
    } else {
        l.nodes@[pred_steps(l, start, (k - 1) as nat) as int].prev
    }
}

/// From the sentinel, `k + 1` successor steps land on the node at ring
/// position `k`.
proof fn lemma_succ_steps_position<T>(l: List<T>, k: int)
    requires
        l.wf(),
        0 <= k < l.order@.len(),
    ensures
        succ_steps(l, 0, (k + 1) as nat) == l.order@[k],
    decreases k,
{
    assert(succ_steps(l, 0, (k + 1) as nat) == l.nodes@[succ_steps(l, 0, k as nat) as int].next);
    if k == 0 {
        assert(succ_steps(l, 0, 0) == 0);
    } else {
        lemma_succ_steps_position(l, k - 1);
        assert(l.link_ok(k - 1));
    }
}

/// From the sentinel, `k + 1` predecessor steps land on the node at ring
/// position `len - 1 - k`.
proof fn lemma_pred_steps_position<T>(l: List<T>, k: int)
    requires
        l.wf(),
        0 <= k < l.order@.len(),
    ensures
        pred_steps(l, 0, (k + 1) as nat) == l.order@[l.order@.len() - 1 - k],
    decreases k,
{
    assert(pred_steps(l, 0, (k + 1) as nat) == l.nodes@[pred_steps(l, 0, k as nat) as int].prev);
    if k == 0 {
        assert(pred_steps(l, 0, 0) == 0);
    } else {
        lemma_pred_steps_position(l, k - 1);
        assert(l.link_ok(l.order@.len() - k));
    }
}

/// Stepping from the sentinel is stepping from its successor, one step
/// later; likewise backward.
proof fn lemma_steps_shift<T>(l: List<T>, k: nat)
    requires
        l.wf(),
    ensures
        succ_steps(l, 0, (k + 1) as nat) == succ_steps(l, l.nodes@[0].next, k),
        pred_steps(l, 0, (k + 1) as nat) == pred_steps(l, l.nodes@[0].prev, k),
    decreases k,
{
    if k == 0 {
        assert(succ_steps(l, 0, 1) == l.nodes@[succ_steps(l, 0, 0) as int].next);
        assert(pred_steps(l, 0, 1) == l.nodes@[pred_steps(l, 0, 0) as int].prev);
    } else {
        lemma_steps_shift(l, (k - 1) as nat);
        assert(succ_steps(l, 0, (k + 1) as nat) == l.nodes@[succ_steps(l, 0, k) as int].next);
        assert(pred_steps(l, 0, (k + 1) as nat) == l.nodes@[pred_steps(l, 0, k) as int].prev);
    }
}

/// Ring closure: in a well-formed list, following successor links for
/// exactly `size` steps starting at the sentinel's successor reaches the
/// sentinel again, and likewise for `size` predecessor steps starting at
/// the sentinel's predecessor.
pub proof fn lemma_ring_closure<T>(l: List<T>)
    requires
        l.wf(),
    ensures
        succ_steps(l, l.nodes@[0].next, l.size as nat) == 0,
        pred_steps(l, l.nodes@[0].prev, l.size as nat) == 0,
{
    if l.size == 0 {
    } else {
        lemma_steps_shift(l, (l.size - 1) as nat);
        lemma_succ_steps_position(l, l.size - 1);
        assert(l.link_ok(l.size - 1));
        lemma_pred_steps_position(l, l.size - 1);
        assert(l.link_ok(0));
    }
}

/// Size accuracy: `size` counts exactly the nodes a forward traversal from
/// the sentinel's successor visits before returning to the sentinel — the
/// first `size` positions are real nodes, and step `size` is the first to
/// reach the sentinel.
pub proof fn lemma_size_accuracy<T>(l: List<T>)
    requires
        l.wf(),
    ensures
        forall|k: nat| k < l.size ==> #[trigger] succ_steps(l, l.nodes@[0].next, k) != 0,
        succ_steps(l, l.nodes@[0].next, l.size as nat) == 0,
{
    lemma_ring_closure(l);
    assert forall|k: nat| k < l.size implies #[trigger] succ_steps(l, l.nodes@[0].next, k)
        != 0 by {
        lemma_steps_shift(l, k);
        lemma_succ_steps_position(l, k as int);
        assert(l.slot_in_range(l.order@[k as int]));
    }
}

/// Inverse-link symmetry: for every node of the ring (the sentinel
/// included), the successor's predecessor and the predecessor's successor
/// are the node itself.
pub proof fn lemma_inverse_links<T>(l: List<T>, i: usize)
    requires
        l.wf(),
        i == 0 || l.order@.contains(i),
    ensures
        l.nodes@[l.nodes@[i as int].next as int].prev == i,
        l.nodes@[l.nodes@[i as int].prev as int].next == i,
{
    let r = l.order@;
    if i == 0 {
        if r.len() > 0 {
            assert(l.link_ok(0));
            assert(l.link_ok(r.len() - 1));
        }
    } else {
        let k = choose|k: int| 0 <= k < r.len() && r[k] == i;
        assert(l.link_ok(k));
        if k < r.len() - 1 {
            assert(l.link_ok(k + 1));
        }
        if k > 0 {
            assert(l.link_ok(k - 1));
        }
    }
}

} // verus!

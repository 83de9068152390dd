//! Laws of the dispatcher, stated on their own.
//!
//! Each proof here states a property that spans more than one operation,
//! over the same state model the operations' contracts use. What a single
//! function guarantees stands in that function's `ensures`; these lemmas
//! record what follows for a whole connection history.

use vstd::prelude::*;
use crate::conn::{admissible, first_outbound_id, opt_seq, QuicConnState};
use vstd::multiset::Multiset;

verus! {

/// The state change a successful open performs, as its contract states
/// it: the identifier handed out is the stored successor, and the stored
/// successor advances by 4.
pub open spec fn open_transition<W>(
    pre: QuicConnState<W>,
    post: QuicConnState<W>,
    id: u64,
) -> bool {
    &&& id == pre.outbound_next_id
    &&& post.outbound_next_id == id + 4
    &&& post.server == pre.server
}

/// Opened streams carry identifiers `{4, 8, 12, …}` (client) or
/// `{5, 9, 13, …}` (server), strictly increasing: any open performed
/// later in a connection's history — every operation keeps the stored
/// successor non-decreasing, so `post1.outbound_next_id <=
/// pre2.outbound_next_id` — hands out a strictly larger identifier of the
/// same residue class, and the class is the role's own.
pub proof fn lemma_open_ids_strictly_increase<W>(
    pre1: QuicConnState<W>,
    post1: QuicConnState<W>,
    id1: u64,
    pre2: QuicConnState<W>,
    post2: QuicConnState<W>,
    id2: u64,
)
    requires
        pre1.wf(),
        pre2.wf(),
        open_transition(pre1, post1, id1),
        open_transition(pre2, post2, id2),
        post1.outbound_next_id <= pre2.outbound_next_id,
        pre1.server == pre2.server,
    ensures
        id2 > id1,
        id1 % 4 == first_outbound_id(pre1.server) % 4,
        id2 % 4 == id1 % 4,
        id1 >= first_outbound_id(pre1.server),
{
}

/// The accept queue hands identifiers out in strictly increasing order:
/// whatever is accepted later is larger, so no identifier is ever
/// accepted twice.
pub proof fn lemma_accept_order<W>(c: QuicConnState<W>, a: int, b: int)
    requires
        c.wf(),
        0 <= a < b < c.fifo().len(),
    ensures
        c.fifo()[a] < c.fifo()[b],
{
}

/// An identifier a drain admits to the accept queue was never in the
/// queue before: admission demands exceeding the high-water mark, and
/// everything already queued sits at or below it. Together with
/// `lemma_accept_order` this makes each admission unique across the
/// connection's lifetime.
pub proof fn lemma_admission_fresh<W>(
    pre: QuicConnState<W>,
    post: QuicConnState<W>,
    a: int,
)
    requires
        pre.wf(),
        post.wf(),
        pre.fifo().len() <= a < post.fifo().len(),
        forall|i: int| 0 <= i < pre.fifo().len() ==> post.fifo()[i] == pre.fifo()[i],
        admissible(post.fifo()[a], pre.inbound_high_water, pre.server),
    ensures
        !pre.fifo().contains(post.fifo()[a]),
{
    let id = post.fifo()[a];
    if pre.fifo().contains(id) {
        let i = choose|i: int| 0 <= i < pre.fifo().len() && pre.fifo()[i] == id;
        assert(pre.fifo()[i] <= pre.inbound_high_water);
    }
}

/// At connection close every registered waker is woken exactly once: the
/// wake list's count of any waker is the sum of its occurrences over the
/// five stores — each registration contributes exactly one wake.
pub proof fn lemma_finalize_counts<W>(c: QuicConnState<W>, wakers: Seq<W>, w: W)
    requires
        wakers.to_multiset() == c.registered_wakers(),
    ensures
        wakers.to_multiset().count(w) == opt_seq(c.fifo_waker).to_multiset().count(w) + opt_seq(
            c.open_waker,
        ).to_multiset().count(w) + opt_seq(c.send_waker).to_multiset().count(w)
            + c.read_wakers.values().to_multiset().count(w)
            + c.write_wakers.values().to_multiset().count(w),
{
    broadcast use vstd::multiset::group_multiset_axioms;

}

/// A waker registered in a one-slot store and not elsewhere is woken
/// exactly once at close.
pub proof fn lemma_close_wakes_parked_opener_once<W>(c: QuicConnState<W>, wakers: Seq<W>, w: W)
    requires
        wakers.to_multiset() == c.registered_wakers(),
        c.open_waker == Some(w),
        c.fifo_waker != Some(w),
        c.send_waker != Some(w),
        !c.read_wakers.values().contains(w),
        !c.write_wakers.values().contains(w),
    ensures
        wakers.to_multiset().count(w) == 1,
{
    broadcast use vstd::multiset::group_multiset_axioms;
    broadcast use vstd::seq_lib::group_to_multiset_ensures;

    lemma_finalize_counts(c, wakers, w);
    assert(opt_seq(c.open_waker) == seq![w]);
    assert(opt_seq(c.open_waker).to_multiset().count(w) == 1) by {
        assert(opt_seq(c.open_waker) == Seq::<W>::empty().push(w));
        assert(Seq::<W>::empty().push(w).to_multiset() =~= Multiset::<W>::empty().insert(w));
    }
    match c.fifo_waker {
        Some(v) => {
            assert(opt_seq(c.fifo_waker) == Seq::<W>::empty().push(v));
            assert(Seq::<W>::empty().push(v).to_multiset() =~= Multiset::<W>::empty().insert(v));
            assert(opt_seq(c.fifo_waker).to_multiset().count(w) == 0);
        },
        None => {
            assert(opt_seq(c.fifo_waker).to_multiset() =~= Multiset::<W>::empty());
        },
    }
    match c.send_waker {
        Some(v) => {
            assert(opt_seq(c.send_waker) == Seq::<W>::empty().push(v));
            assert(Seq::<W>::empty().push(v).to_multiset() =~= Multiset::<W>::empty().insert(v));
            assert(opt_seq(c.send_waker).to_multiset().count(w) == 0);
        },
        None => {
            assert(opt_seq(c.send_waker).to_multiset() =~= Multiset::<W>::empty());
        },
    }
    assert(c.read_wakers.values().to_multiset().count(w) == 0);
    assert(c.write_wakers.values().to_multiset().count(w) == 0);
}

} // verus!

//! Ascending ordering of stream identifiers.
//!
//! The engine reports readable streams in arbitrary order. The dispatcher
//! processes them in ascending identifier order so that wake-ups and accept
//! admissions are deterministic; this module supplies that ordering. A
//! min-heap would serve the same purpose: popping one visits the
//! identifiers exactly as walking a sorted sequence does.

use vstd::prelude::*;

verus! {

/// The sequence is in ascending order.
pub open spec fn sorted(s: Seq<u64>) -> bool {
    forall|a: int, b: int| 0 <= a < b < s.len() ==> s[a] <= s[b]
}

/// Index of a minimal element of the non-empty vector `v`.
fn min_index(v: &Vec<u64>) -> (m: usize)
    requires
        v@.len() > 0,
    ensures
        m < v@.len(),
        forall|j: int| 0 <= j < v@.len() ==> v@[m as int] <= v@[j],
{
    let n = v.len();
    let mut m: usize = 0;
    let mut i: usize = 1;
    while i < n
        invariant
            n == v@.len(),
            m < i <= n,
            forall|j: int| 0 <= j < i ==> v@[m as int] <= v@[j],
        decreases n - i,
    {
        if v[i] < v[m] {
            m = i;
        }
        i = i + 1;
    }
    m
}

/// Sort the identifiers into ascending order. The result holds exactly the
/// identifiers that came in, each as often as it came in.
pub fn sort_ids(ids: &mut Vec<u64>)
    ensures
        sorted(final(ids)@),
        final(ids)@.to_multiset() == old(ids)@.to_multiset(),
        final(ids)@.len() == old(ids)@.len(),
{
    let mut out: Vec<u64> = Vec::new();
    proof {
        broadcast use vstd::seq_lib::group_to_multiset_ensures;
        broadcast use vstd::multiset::group_multiset_axioms;

        assert(out@.to_multiset().add(ids@.to_multiset()) =~= old(ids)@.to_multiset());
    }
    while ids.len() > 0
        invariant
            sorted(out@),
            forall|a: int, b: int|
                0 <= a < out@.len() && 0 <= b < ids@.len() ==> out@[a] <= ids@[b],
            out@.to_multiset().add(ids@.to_multiset()) == old(ids)@.to_multiset(),
            out@.len() + ids@.len() == old(ids)@.len(),
        decreases ids@.len(),
    {
        let m = min_index(ids);
        let ghost prev = ids@;
        let ghost prev_out = out@;
        let v = ids.remove(m);
        proof {
            broadcast use vstd::seq_lib::group_to_multiset_ensures;
            broadcast use vstd::multiset::group_multiset_axioms;
            broadcast use vstd::multiset::group_multiset_properties;

            assert(v == prev[m as int]);
            assert(forall|j: int|
                0 <= j < ids@.len() ==> #[trigger] ids@[j] == if j < m {
                    prev[j]
                } else {
                    prev[j + 1]
                });
            assert(forall|a: int| 0 <= a < out@.len() ==> #[trigger] out@[a] <= v);
            assert(ids@.to_multiset() =~= prev.to_multiset().remove(v));
            assert(out@.push(v).to_multiset() =~= out@.to_multiset().insert(v));
            assert(prev.contains(v));
            assert(prev.to_multiset().count(v) > 0);
            assert(out@.push(v).to_multiset().add(ids@.to_multiset()) =~= out@.to_multiset().add(
                prev.to_multiset(),
            ));
        }
        out.push(v);
        proof {
            assert(forall|a: int| 0 <= a < prev_out.len() ==> out@[a] == prev_out[a]);
            assert(out@[out@.len() - 1] == v);
            assert(sorted(out@));
        }
    }
    proof {
        broadcast use vstd::seq_lib::group_to_multiset_ensures;
        broadcast use vstd::multiset::group_multiset_axioms;

        assert(ids@.to_multiset() =~= vstd::multiset::Multiset::<u64>::empty());
        assert(out@.to_multiset().add(vstd::multiset::Multiset::<u64>::empty())
            =~= out@.to_multiset());
    }
    *ids = out;
}

} // verus!

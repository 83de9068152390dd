//! One-slot storage keyed by stream identifier.
//!
//! Each key holds at most one value; writing replaces whatever was there,
//! and reading removes. The dispatcher keeps one such table per direction
//! for stream wakers, and one for the closing set. Tables stay small (one
//! entry per suspended task), so a linear scan over an association list is
//! the whole implementation, and its key-uniqueness invariant is proved
//! rather than delegated to a hash table.

use vstd::prelude::*;

verus! {

/// A table from stream identifier to at most one value per key.
pub struct Slots<V> {
    entries: Vec<(u64, V)>,
}

/// `post` is `pre` with `v` stored under `k` and every other key as it was.
pub open spec fn updated<V>(pre: Slots<V>, post: Slots<V>, k: u64, v: V) -> bool {
    &&& post.spec_has(k)
    &&& post.spec_get(k) == v
    &&& (forall|k2: u64| k2 != k ==> post.spec_has(k2) == pre.spec_has(k2))
    &&& (forall|k2: u64| k2 != k && pre.spec_has(k2) ==> post.spec_get(k2) == pre.spec_get(k2))
}

/// `post` is `pre` with `k` vacated and every other key as it was.
pub open spec fn removed<V>(pre: Slots<V>, post: Slots<V>, k: u64) -> bool {
    &&& !post.spec_has(k)
    &&& (forall|k2: u64| k2 != k ==> post.spec_has(k2) == pre.spec_has(k2))
    &&& (forall|k2: u64| k2 != k && pre.spec_has(k2) ==> post.spec_get(k2) == pre.spec_get(k2))
}

impl<V> Slots<V> {
    /// The stored pairs, in insertion order.
    pub closed spec fn entries_seq(self) -> Seq<(u64, V)> {
        self.entries@
    }

    /// No key appears twice.
    pub open spec fn wf(self) -> bool {
        forall|i: int, j: int|
            0 <= i < j < self.entries_seq().len() ==> (#[trigger] self.entries_seq()[i]).0 != (
            #[trigger] self.entries_seq()[j]).0
    }

    /// Whether `k` currently holds a value.
    pub open spec fn spec_has(self, k: u64) -> bool {
        exists|i: int|
            0 <= i < self.entries_seq().len() && (#[trigger] self.entries_seq()[i]).0 == k
    }

    /// The index at which `k` is stored.
    pub open spec fn key_at(self, k: u64) -> int {
        choose|i: int|
            0 <= i < self.entries_seq().len() && (#[trigger] self.entries_seq()[i]).0 == k
    }

    /// The value stored under `k`.
    pub open spec fn spec_get(self, k: u64) -> V {
        self.entries_seq()[self.key_at(k)].1
    }

    /// All stored values, in storage order.
    pub open spec fn values(self) -> Seq<V> {
        self.entries_seq().map_values(|p: (u64, V)| p.1)
    }

    /// How many keys hold a value.
    pub open spec fn spec_len(self) -> nat {
        self.entries_seq().len()
    }

    /// An empty table.
    pub fn new() -> (r: Slots<V>)
        ensures
            r.wf(),
            r.spec_len() == 0,
            forall|k: u64| !r.spec_has(k),
    {
        Slots { entries: Vec::new() }
    }

    pub fn len(&self) -> (r: usize)
        ensures
            r == self.spec_len(),
    {
        self.entries.len()
    }

    pub fn is_empty(&self) -> (r: bool)
        ensures
            r == (self.spec_len() == 0),
    {
        self.entries.len() == 0
    }

    /// Whether `k` currently holds a value.
    pub fn contains(&self, k: u64) -> (r: bool)
        requires
            self.wf(),
        ensures
            r == self.spec_has(k),
    {
        let n = self.entries.len();
        let mut i: usize = 0;
        while i < n
            invariant
                n == self.entries_seq().len(),
                0 <= i <= n,
                forall|j: int| 0 <= j < i ==> (#[trigger] self.entries_seq()[j]).0 != k,
            decreases n - i,
        {
            if self.entries[i].0 == k {
                return true;
            }
            i = i + 1;
        }
        false
    }

    /// Store `v` under `k`, discarding any value previously there.
    pub fn insert(&mut self, k: u64, v: V)
        requires
            old(self).wf(),
        ensures
            final(self).wf(),
            final(self).spec_has(k),
            final(self).spec_get(k) == v,
            forall|k2: u64| k2 != k ==> final(self).spec_has(k2) == old(self).spec_has(k2),
            forall|k2: u64|
                k2 != k && old(self).spec_has(k2) ==> final(self).spec_get(k2) == old(self).spec_get(k2),
            final(self).spec_len() == old(self).spec_len() + (if old(self).spec_has(k) {
                0int
            } else {
                1int
            }),
    {
        let n = self.entries.len();
        let mut i: usize = 0;
        while i < n
            invariant
                old(self).wf(),
                n == self.entries_seq().len(),
                0 <= i <= n,
                self == old(self),
                forall|j: int| 0 <= j < i ==> (#[trigger] self.entries_seq()[j]).0 != k,
            decreases n - i,
        {
            if self.entries[i].0 == k {
                self.entries.set(i, (k, v));
                proof {
                    let s = self.entries_seq();
                    let so = old(self).entries_seq();
                    assert(forall|j: int| 0 <= j < n ==> (#[trigger] s[j]).0 == so[j].0);
                    assert forall|a: int, b: int| 0 <= a < b < s.len() implies (#[trigger] s[a]).0
                        != (#[trigger] s[b]).0 by {
                        assert(so[a].0 != so[b].0);
                    }
                    assert(self.wf());
                    assert(s[i as int].0 == k);
                    assert(self.spec_has(k));
                    let jk = self.key_at(k);
                    assert(s[jk].0 == k);
                    assert(jk == i as int);
                    assert forall|k2: u64| k2 != k implies self.spec_has(k2) == old(
                        self,
                    ).spec_has(k2) by {
                        if old(self).spec_has(k2) {
                            let j = old(self).key_at(k2);
                            assert(so[j].0 == k2);
                            assert(j != i as int);
                            assert(s[j].0 == k2);
                        }
                        if self.spec_has(k2) {
                            let j = self.key_at(k2);
                            assert(s[j].0 == k2);
                            assert(j != i as int);
                            assert(so[j].0 == k2);
                        }
                    }
                    assert forall|k2: u64| k2 != k && old(self).spec_has(k2) implies self.spec_get(
                        k2,
                    ) == old(self).spec_get(k2) by {
                        let j = old(self).key_at(k2);
                        assert(so[j].0 == k2);
                        assert(j != i as int);
                        assert(s[j].0 == k2);
                        let j2 = self.key_at(k2);
                        assert(s[j2].0 == k2);
                        assert(j == j2);
                        assert(so[j].1 == s[j].1);
                    }
                }
                return ;
            }
            i = i + 1;
        }
        self.entries.push((k, v));
        proof {
            let s = self.entries_seq();
            let so = old(self).entries_seq();
            assert(s[n as int].0 == k);
            assert(forall|j: int| 0 <= j < n ==> s[j] == so[j]);
            assert(!old(self).spec_has(k)) by {
                if old(self).spec_has(k) {
                    let j = old(self).key_at(k);
                    assert(so[j].0 == k);
                }
            }
            assert forall|a: int, b: int| 0 <= a < b < s.len() implies (#[trigger] s[a]).0 != (
            #[trigger] s[b]).0 by {
                if b < n {
                    assert(so[a].0 != so[b].0);
                } else {
                    assert(s[b].0 == k);
                    assert(so[a].0 != k);
                }
            }
            assert(self.wf());
            assert(self.spec_has(k));
            let jk = self.key_at(k);
            assert(s[jk].0 == k);
            assert(jk == n as int);
            assert forall|k2: u64| k2 != k implies self.spec_has(k2) == old(self).spec_has(k2) by {
                if self.spec_has(k2) {
                    let j = self.key_at(k2);
                    assert(s[j].0 == k2);
                    assert(j < n);
                    assert(so[j].0 == k2);
                }
                if old(self).spec_has(k2) {
                    let j = old(self).key_at(k2);
                    assert(so[j].0 == k2);
                    assert(s[j].0 == k2);
                }
            }
            assert forall|k2: u64| k2 != k && old(self).spec_has(k2) implies self.spec_get(k2)
                == old(self).spec_get(k2) by {
                let j = old(self).key_at(k2);
                assert(so[j].0 == k2);
                assert(s[j].0 == k2);
                let j2 = self.key_at(k2);
                assert(s[j2].0 == k2);
                assert(j == j2);
            }
        }
    }

    /// Take the value under `k` out of the table, if there is one.
    pub fn remove(&mut self, k: u64) -> (r: Option<V>)
        requires
            old(self).wf(),
        ensures
            final(self).wf(),
            !final(self).spec_has(k),
            r is Some <==> old(self).spec_has(k),
            old(self).spec_has(k) ==> r == Some(old(self).spec_get(k)),
            forall|k2: u64| k2 != k ==> final(self).spec_has(k2) == old(self).spec_has(k2),
            forall|k2: u64|
                k2 != k && old(self).spec_has(k2) ==> final(self).spec_get(k2) == old(self).spec_get(k2),
            final(self).spec_len() == old(self).spec_len() - (if old(self).spec_has(k) {
                1int
            } else {
                0int
            }),
    {
        let n = self.entries.len();
        let mut i: usize = 0;
        while i < n
            invariant
                old(self).wf(),
                n == self.entries_seq().len(),
                0 <= i <= n,
                self == old(self),
                forall|j: int| 0 <= j < i ==> (#[trigger] self.entries_seq()[j]).0 != k,
            decreases n - i,
        {
            if self.entries[i].0 == k {
                let pair = self.entries.remove(i);
                proof {
                    let s = self.entries_seq();
                    let so = old(self).entries_seq();
                    assert(so[i as int].0 == k);
                    assert(old(self).spec_has(k));
                    assert(old(self).key_at(k) == i as int) by {
                        let j = old(self).key_at(k);
                        assert(so[j].0 == k);
                    }
                    assert(forall|j: int| 0 <= j < i ==> s[j] == so[j]);
                    assert(forall|j: int| i <= j < s.len() ==> s[j] == so[j + 1]);
                    assert forall|a: int, b: int| 0 <= a < b < s.len() implies (#[trigger] s[a]).0
                        != (#[trigger] s[b]).0 by {
                        let a2: int = if a < i { a } else { a + 1 };
                        let b2: int = if b < i { b } else { b + 1 };
                        assert(s[a] == so[a2]);
                        assert(s[b] == so[b2]);
                        assert(so[a2].0 != so[b2].0);
                    }
                    assert(self.wf());
                    assert forall|k2: u64| self.spec_has(k2) implies k2 != k && old(
                        self,
                    ).spec_has(k2) by {
                        let j = self.key_at(k2);
                        assert(s[j].0 == k2);
                        if j < i {
                            assert(so[j].0 == k2);
                        } else {
                            assert(so[j + 1].0 == k2);
                        }
                    }
                    assert forall|k2: u64| k2 != k && old(self).spec_has(k2) implies self.spec_has(
                        k2,
                    ) && self.spec_get(k2) == old(self).spec_get(k2) by {
                        let j = old(self).key_at(k2);
                        assert(so[j].0 == k2);
                        assert(j != i);
                        if j < i {
                            assert(s[j].0 == k2);
                        } else {
                            assert(s[j - 1].0 == k2);
                        }
                        let j2 = self.key_at(k2);
                        assert(s[j2].0 == k2);
                        if j2 < i {
                            assert(so[j2].0 == k2);
                            assert(j2 == j);
                        } else {
                            assert(so[j2 + 1].0 == k2);
                            assert(j2 + 1 == j);
                        }
                    }
                }
                return Some(pair.1);
            }
            i = i + 1;
        }
        proof {
            assert(!old(self).spec_has(k));
        }
        None
    }

    /// Empty the table, handing back every stored value exactly once.
    pub fn take_all(&mut self) -> (r: Vec<V>)
        requires
            old(self).wf(),
        ensures
            final(self).wf(),
            final(self).spec_len() == 0,
            forall|k: u64| !final(self).spec_has(k),
            r@.to_multiset() == old(self).values().to_multiset(),
            r@.len() == old(self).spec_len(),
    {
        let mut out: Vec<V> = Vec::new();
        proof {
            broadcast use vstd::seq_lib::group_to_multiset_ensures;

            assert(self.values() =~= old(self).values());
        }
        loop
            invariant
                self.wf(),
                out@.to_multiset().add(self.values().to_multiset()) == old(
                    self,
                ).values().to_multiset(),
                out@.len() + self.spec_len() == old(self).spec_len(),
            decreases self.entries_seq().len(),
        {
            let ghost prev = self.entries@;
            match self.entries.pop() {
                Some(pair) => {
                    proof {
                        broadcast use vstd::seq_lib::group_to_multiset_ensures;
                        broadcast use vstd::multiset::group_multiset_axioms;
                        broadcast use vstd::multiset::group_multiset_properties;

                        let m = prev.map_values(|p: (u64, V)| p.1);
                        assert(m[m.len() - 1] == pair.1);
                        assert(self.values() =~= m.drop_last());
                        assert(m =~= self.values().push(pair.1));
                        assert(m.to_multiset() =~= self.values().to_multiset().insert(pair.1));
                        assert(out@.push(pair.1).to_multiset() =~= out@.to_multiset().insert(
                            pair.1,
                        ));
                        assert(out@.push(pair.1).to_multiset().add(self.values().to_multiset())
                            =~= out@.to_multiset().add(m.to_multiset()));
                    }
                    out.push(pair.1);
                },
                None => {
                    proof {
                        broadcast use vstd::seq_lib::group_to_multiset_ensures;
                        broadcast use vstd::multiset::group_multiset_axioms;

                        assert(self.values() =~= Seq::<V>::empty());
                        assert(self.values().to_multiset() =~= vstd::multiset::Multiset::empty());
                        assert(out@.to_multiset().add(vstd::multiset::Multiset::<V>::empty())
                            =~= out@.to_multiset());
                    }
                    return out;
                },
            }
        }
    }
}

} // verus!

//! A vector of `(address, value)` entries with an index from address to
//! position.
use vstd::prelude::*;
use crate::address::H160;

verus! {

/// The position an index records for `a`, if it records one.
pub open spec fn index_of(lookup: Seq<(H160, usize)>, a: H160) -> Option<usize> {
    if exists|j: int| 0 <= j < lookup.len() && lookup[j].0 == a {
        Some(lookup[choose|j: int| 0 <= j < lookup.len() && lookup[j].0 == a].1)
    } else {
        None
    }
}

/// No address appears twice in an index.
pub open spec fn unique_keys(lookup: Seq<(H160, usize)>) -> bool {
    forall|i: int, j: int| 0 <= i < j < lookup.len() ==> lookup[i].0 != lookup[j].0
}

/// With unique keys, `index_of` gives the position stored at the one entry
/// for the address.
proof fn lemma_index_of_at(lookup: Seq<(H160, usize)>, j: int)
    requires
        unique_keys(lookup),
        0 <= j < lookup.len(),
    ensures
        index_of(lookup, lookup[j].0) == Some(lookup[j].1),
{
    let a = lookup[j].0;
    let k = choose|k: int| 0 <= k < lookup.len() && lookup[k].0 == a;
    assert(0 <= k < lookup.len() && lookup[k].0 == a);
    if k != j {
        if k < j {
            assert(lookup[k].0 != lookup[j].0);
        } else {
            assert(lookup[j].0 != lookup[k].0);
        }
    }
}

/// Find the position that the index records for `a`.
fn lookup_get(lookup: &Vec<(H160, usize)>, a: &H160) -> (r: Option<usize>)
    requires
        unique_keys(lookup@),
    ensures
        r == index_of(lookup@, *a),
{
    let mut j: usize = 0;
    while j < lookup.len()
        invariant
            j <= lookup@.len(),
            unique_keys(lookup@),
            forall|k: int| 0 <= k < j ==> lookup@[k].0 != *a,
        decreases lookup.len() - j,
    {
        if lookup[j].0 == *a {
            proof {
                lemma_index_of_at(lookup@, j as int);
            }
            return Some(lookup[j].1);
        }
        j = j + 1;
    }
    None
}

/// Record position `i` for `a`, replacing what was recorded for it.
fn lookup_insert(lookup: &mut Vec<(H160, usize)>, a: H160, i: usize)
    requires
        unique_keys(old(lookup)@),
    ensures
        unique_keys(final(lookup)@),
        index_of(final(lookup)@, a) == Some(i),
        forall|b: H160| b != a ==> index_of(final(lookup)@, b) == index_of(old(lookup)@, b),
{
    let mut j: usize = 0;
    while j < lookup.len()
        invariant
            j <= lookup@.len(),
            lookup@ == old(lookup)@,
            unique_keys(lookup@),
            forall|k: int| 0 <= k < j ==> lookup@[k].0 != a,
        decreases lookup.len() - j,
    {
        if lookup[j].0 == a {
            lookup.set(j, (a, i));
            proof {
                assert(unique_keys(lookup@));
                lemma_index_of_at(lookup@, j as int);
                assert forall|b: H160| b != a implies index_of(lookup@, b) == index_of(
                    old(lookup)@,
                    b,
                ) by {
                    if exists|k: int| 0 <= k < old(lookup)@.len() && old(lookup)@[k].0 == b {
                        let k = choose|k: int| 0 <= k < old(lookup)@.len() && old(lookup)@[k].0 == b;
                        lemma_index_of_at(old(lookup)@, k);
                        lemma_index_of_at(lookup@, k);
                    } else {
                        assert(!exists|k: int| 0 <= k < lookup@.len() && lookup@[k].0 == b);
                    }
                }
            }
            return;
        }
        j = j + 1;
    }
    lookup.push((a, i));
    proof {
        assert(unique_keys(lookup@));
        lemma_index_of_at(lookup@, lookup@.len() - 1);
        assert forall|b: H160| b != a implies index_of(lookup@, b) == index_of(old(lookup)@, b) by {
            if exists|k: int| 0 <= k < old(lookup)@.len() && old(lookup)@[k].0 == b {
                let k = choose|k: int| 0 <= k < old(lookup)@.len() && old(lookup)@[k].0 == b;
                lemma_index_of_at(old(lookup)@, k);
                lemma_index_of_at(lookup@, k);
            } else {
                assert(!exists|k: int| 0 <= k < lookup@.len() && lookup@[k].0 == b);
            }
        }
    }
}

/// Forget what the index records for `a`, returning it.
fn lookup_remove(lookup: &mut Vec<(H160, usize)>, a: &H160) -> (r: Option<usize>)
    requires
        unique_keys(old(lookup)@),
    ensures
        r == index_of(old(lookup)@, *a),
        r is None ==> final(lookup)@ == old(lookup)@,
        unique_keys(final(lookup)@),
        index_of(final(lookup)@, *a) is None,
        forall|b: H160| b != *a ==> index_of(final(lookup)@, b) == index_of(old(lookup)@, b),
{
    let mut j: usize = 0;
    while j < lookup.len()
        invariant
            j <= lookup@.len(),
            lookup@ == old(lookup)@,
            unique_keys(lookup@),
            forall|k: int| 0 <= k < j ==> lookup@[k].0 != *a,
        decreases lookup.len() - j,
    {
        if lookup[j].0 == *a {
            proof {
                lemma_index_of_at(lookup@, j as int);
            }
            let (_, i) = lookup.remove(j);
            proof {
                let s = old(lookup)@;
                assert(lookup@ == s.remove(j as int));
                assert(unique_keys(lookup@));
                assert forall|k: int| 0 <= k < lookup@.len() implies lookup@[k].0 != *a by {
                    if k < j {
                        assert(lookup@[k] == s[k]);
                    } else {
                        assert(lookup@[k] == s[k + 1]);
                    }
                }
                assert forall|b: H160| b != *a implies index_of(lookup@, b) == index_of(s, b) by {
                    if exists|k: int| 0 <= k < s.len() && s[k].0 == b {
                        let k = choose|k: int| 0 <= k < s.len() && s[k].0 == b;
                        lemma_index_of_at(s, k);
                        if k < j {
                            assert(lookup@[k] == s[k]);
                            lemma_index_of_at(lookup@, k);
                        } else {
                            assert(k != j);
                            assert(lookup@[k - 1] == s[k]);
                            lemma_index_of_at(lookup@, k - 1);
                        }
                    } else {
                        assert forall|k: int| 0 <= k < lookup@.len() implies lookup@[k].0 != b by {
                            if k < j {
                                assert(lookup@[k] == s[k]);
                            } else {
                                assert(lookup@[k] == s[k + 1]);
                            }
                        }
                    }
                }
            }
            return Some(i);
        }
        j = j + 1;
    }
    None
}

/// A container that holds a Vec of (address, value) pairs and a lookup index
/// from address to position. The index always points at an entry with its
/// address; when addresses are distinct and every entry is indexed, the two
/// are in sync (`synced`), which every operation keeps.
#[derive(Clone)]
pub struct MappedVec<V> {
    entries: Vec<(H160, V)>,
    lookup: Vec<(H160, usize)>,
}

impl<V> MappedVec<V> {
    /// The entries, in order.
    pub closed spec fn entries(&self) -> Seq<(H160, V)> {
        self.entries@
    }

    /// The position that the index records for an address.
    pub closed spec fn index(&self, a: H160) -> Option<usize> {
        index_of(self.lookup@, a)
    }

    /// The index has unique keys and points at entries with the same address.
    pub closed spec fn wf(&self) -> bool {
        &&& unique_keys(self.lookup@)
        &&& forall|a: H160|
            #[trigger] self.index(a) matches Some(i) ==> i < self.entries@.len()
                && self.entries@[i as int].0 == a
    }

    /// In a well-formed container, the position the index records for an
    /// address lies within the entries and holds an entry with that address.
    pub proof fn lemma_index_in_entries(&self, a: H160)
        requires
            self.wf(),
        ensures
            self.index(a) matches Some(i) ==> i < self.entries().len() && self.entries()[i as int].0
                == a,
            self.index(a) is Some <==> self.get_spec(a) is Some,
    {
    }

    /// Entries and index in sync: addresses are distinct and each entry is
    /// indexed at its position.
    pub open spec fn synced(&self) -> bool {
        &&& self.wf()
        &&& forall|i: int, j: int|
            0 <= i < j < self.entries().len() ==> self.entries()[i].0 != self.entries()[j].0
        &&& forall|i: int|
            0 <= i < self.entries().len() ==> #[trigger] self.index(self.entries()[i].0) == Some(
                i as usize,
            )
    }

    /// The value found for an address.
    pub open spec fn get_spec(&self, a: H160) -> Option<V> {
        match self.index(a) {
            Some(i) => Some(self.entries()[i as int].1),
            None => None,
        }
    }

    /// `after` holds `v` at `a` and what `self` holds at every other
    /// address, and stays in sync when `self` is.
    pub open spec fn stored(self, a: H160, v: V, after: Self) -> bool {
        &&& after.wf()
        &&& after.get_spec(a) == Some(v)
        &&& forall|b: H160| b != a ==> #[trigger] after.get_spec(b) == self.get_spec(b)
        &&& (self.synced() ==> after.synced())
    }

    /// `after` holds nothing at `a` and what `self` holds at every other
    /// address, and is in sync.
    pub open spec fn dropped_from(self, a: H160, after: Self) -> bool {
        &&& after.wf()
        &&& after.synced()
        &&& after.get_spec(a) is None
        &&& forall|b: H160| b != a ==> #[trigger] after.get_spec(b) == self.get_spec(b)
    }

    /// Creates an empty MappedVec.
    pub fn new() -> (r: Self)
        ensures
            r.wf(),
            r.synced(),
            r.entries().len() == 0,
            forall|a: H160| r.index(a) is None,
    {
        MappedVec { entries: Vec::new(), lookup: Vec::new() }
    }

    /// Returns a reference to the value for the given address, if any.
    pub fn get(&self, addr: &H160) -> (r: Option<&V>)
        requires
            self.wf(),
        ensures
            match self.get_spec(*addr) {
                Some(v) => r matches Some(x) && *x == v,
                None => r is None,
            },
    {
        match lookup_get(&self.lookup, addr) {
            Some(i) => Some(&self.entries[i].1),
            None => None,
        }
    }

    /// Returns an iterator's worth of (address, value) pairs: the entries.
    pub fn iter(&self) -> (r: &Vec<(H160, V)>)
        ensures
            r@ == self.entries(),
    {
        &self.entries
    }
}

impl<V> MappedVec<V> {
    /// Inserts a value for the given address.
    /// If the address was already present, replaces the old value and returns it.
    pub fn insert(&mut self, addr: H160, value: V) -> (r: Option<V>)
        requires
            old(self).wf(),
        ensures
            final(self).wf(),
            r == old(self).get_spec(addr),
            final(self).get_spec(addr) == Some(value),
            forall|b: H160| b != addr ==> final(self).get_spec(b) == old(self).get_spec(b),
            old(self).index(addr) matches Some(i) ==> final(self).entries() == old(
                self,
            ).entries().update(i as int, (addr, value)),
            old(self).index(addr) is None ==> final(self).entries() == old(self).entries().push(
                (addr, value),
            ),
            final(self).entries().len() == old(self).entries().len() + (if r is None {
                1int
            } else {
                0int
            }),
            old(self).synced() ==> final(self).synced(),
            old(self).stored(addr, value, *final(self)),
    {
        match lookup_get(&self.lookup, &addr) {
            Some(idx) => {
                let mut slot = (addr, value);
                std::mem::swap(&mut self.entries[idx], &mut slot);
                let (_, old_value) = slot;
                proof {
                    assert forall|b: H160| #[trigger] self.index(b) is Some implies self.index(b)->0
                        < self.entries@.len() && self.entries@[self.index(b)->0 as int].0 == b by {
                        assert(old(self).index(b) == self.index(b));
                    }
                    assert forall|b: H160| b != addr implies self.get_spec(b) == old(
                        self,
                    ).get_spec(b) by {
                        assert(old(self).index(b) == self.index(b));
                    }
                    if old(self).synced() {
                        assert forall|i: int|
                            0 <= i < self.entries().len() implies #[trigger] self.index(
                            self.entries()[i].0,
                        ) == Some(i as usize) by {
                            assert(old(self).index(old(self).entries()[i].0) == Some(i as usize));
                        }
                    }
                }
                Some(old_value)
            },
            None => {
                let idx = self.entries.len();
                self.entries.push((addr, value));
                lookup_insert(&mut self.lookup, addr, idx);
                proof {
                    assert forall|b: H160| #[trigger] self.index(b) is Some implies self.index(b)->0
                        < self.entries@.len() && self.entries@[self.index(b)->0 as int].0 == b by {
                        if b != addr {
                            assert(old(self).index(b) == self.index(b));
                        }
                    }
                    assert forall|b: H160| b != addr implies self.get_spec(b) == old(
                        self,
                    ).get_spec(b) by {
                        assert(old(self).index(b) == self.index(b));
                    }
                    if old(self).synced() {
                        assert forall|i: int|
                            0 <= i < old(self).entries().len() implies old(self).entries()[i].0
                            != addr by {
                            assert(old(self).index(old(self).entries()[i].0) == Some(i as usize));
                        }
                        assert forall|i: int|
                            0 <= i < self.entries().len() implies #[trigger] self.index(
                            self.entries()[i].0,
                        ) == Some(i as usize) by {
                            if i < old(self).entries().len() {
                                assert(old(self).index(old(self).entries()[i].0) == Some(
                                    i as usize,
                                ));
                            }
                        }
                    }
                }
                None
            },
        }
    }
}

impl<V> MappedVec<V> {
    /// Remove the value for the given address, if present.
    /// Uses swap_remove to keep the Vec compact and updates the moved element's index.
    pub fn remove(&mut self, addr: &H160) -> (r: Option<V>)
        requires
            old(self).wf(),
        ensures
            final(self).wf(),
            r == old(self).get_spec(*addr),
            old(self).index(*addr) is None ==> final(self).entries() == old(self).entries(),
            old(self).index(*addr) is None ==> forall|b: H160|
                #[trigger] final(self).index(b) == old(self).index(b),
            old(self).index(*addr) matches Some(i) ==> final(self).entries() == old(
                self,
            ).entries().update(i as int, old(self).entries().last()).drop_last(),
            final(self).entries().len() == old(self).entries().len() - (if r is Some {
                1int
            } else {
                0int
            }),
            old(self).synced() ==> final(self).synced(),
            old(self).synced() ==> final(self).get_spec(*addr) is None,
            old(self).synced() ==> forall|b: H160|
                b != *addr ==> #[trigger] final(self).get_spec(b) == old(self).get_spec(b),
            old(self).synced() ==> old(self).dropped_from(*addr, *final(self)),
    {
        match lookup_remove(&mut self.lookup, addr) {
            Some(idx) => {
                proof {
                    assert(old(self).index(*addr) == Some(idx));
                }
                let ghost len = self.entries@.len();
                let (_, removed_val) = self.entries.swap_remove(idx);
                if idx < self.entries.len() {
                    let moved = self.entries[idx].0;
                    let ghost mid = self.lookup@;
                    lookup_insert(&mut self.lookup, moved, idx);
                    proof {
                        let oe = old(self).entries();
                        assert(oe[len - 1].0 == moved);
                        assert forall|b: H160| #[trigger] self.index(b) is Some implies self.index(
                            b,
                        )->0 < self.entries@.len() && self.entries@[self.index(b)->0 as int].0
                            == b by {
                            if b != moved {
                                assert(index_of(mid, b) == self.index(b));
                                assert(b != *addr);
                                assert(old(self).index(b) == self.index(b));
                                let j = self.index(b)->0;
                                assert(oe[j as int].0 == b);
                                assert(j != idx);
                            }
                        }
                        if old(self).synced() {
                            assert(moved != *addr);
                            assert(old(self).index(moved) == Some((len - 1) as usize));
                            assert forall|b: H160| b != *addr implies #[trigger] self.get_spec(b)
                                == old(self).get_spec(b) by {
                                if b != moved {
                                    assert(index_of(mid, b) == self.index(b));
                                    assert(old(self).index(b) == self.index(b));
                                }
                            }
                            assert forall|i: int, j: int|
                                0 <= i < j < self.entries().len() implies self.entries()[i].0
                                != self.entries()[j].0 by {
                                let i0 = if i == idx {
                                    len - 1
                                } else {
                                    i
                                };
                                let j0 = if j == idx {
                                    len - 1
                                } else {
                                    j
                                };
                                assert(self.entries()[i] == oe[i0]);
                                assert(self.entries()[j] == oe[j0]);
                                if i0 < j0 {
                                } else {
                                    assert(j0 < i0);
                                }
                            }
                            assert forall|i: int|
                                0 <= i < self.entries().len() implies #[trigger] self.index(
                                self.entries()[i].0,
                            ) == Some(i as usize) by {
                                if i != idx {
                                    let b = self.entries()[i].0;
                                    assert(b == oe[i].0);
                                    assert(old(self).index(oe[i].0) == Some(i as usize));
                                    assert(b != moved);
                                    assert(b != *addr);
                                    assert(index_of(mid, b) == self.index(b));
                                }
                            }
                        }
                    }
                } else {
                    proof {
                        let oe = old(self).entries();
                        assert forall|b: H160| #[trigger] self.index(b) is Some implies self.index(
                            b,
                        )->0 < self.entries@.len() && self.entries@[self.index(b)->0 as int].0
                            == b by {
                            assert(b != *addr);
                            assert(old(self).index(b) == self.index(b));
                            let j = self.index(b)->0;
                            assert(oe[j as int].0 == b);
                            assert(j != idx);
                        }
                        if old(self).synced() {
                            assert forall|b: H160| b != *addr implies #[trigger] self.get_spec(b)
                                == old(self).get_spec(b) by {
                                assert(old(self).index(b) == self.index(b));
                            }
                            assert forall|i: int|
                                0 <= i < self.entries().len() implies #[trigger] self.index(
                                self.entries()[i].0,
                            ) == Some(i as usize) by {
                                assert(old(self).index(oe[i].0) == Some(i as usize));
                                assert(oe[i].0 != *addr);
                            }
                        }
                    }
                }
                Some(removed_val)
            },
            None => {
                proof {
                    assert forall|b: H160| #[trigger] self.index(b) is Some implies self.index(
                        b,
                    )->0 < self.entries@.len() && self.entries@[self.index(b)->0 as int].0
                        == b by {
                        assert(old(self).index(b) == self.index(b));
                    }
                    if old(self).synced() {
                        assert forall|i: int|
                            0 <= i < self.entries().len() implies #[trigger] self.index(
                            self.entries()[i].0,
                        ) == Some(i as usize) by {
                            assert(old(self).index(self.entries()[i].0) == Some(i as usize));
                        }
                    }
                }
                None
            },
        }
    }
}

impl<V> MappedVec<V> {
    /// Same index and the same address at every position; values may differ.
    pub closed spec fn same_keys(&self, other: Self) -> bool {
        &&& self.lookup@ == other.lookup@
        &&& self.entries().len() == other.entries().len()
        &&& forall|j: int|
            0 <= j < self.entries().len() ==> (#[trigger] self.entries()[j]).0
                == other.entries()[j].0
    }

    /// Changing values in place, keeping every address where it was, keeps
    /// the container well formed and in sync.
    pub proof fn lemma_same_keys(&self, other: Self)
        requires
            self.same_keys(other),
        ensures
            forall|b: H160| #[trigger] self.index(b) == other.index(b),
            self.entries().len() == other.entries().len(),
            other.wf() ==> self.wf(),
            other.synced() ==> self.synced(),
    {
        if other.wf() {
            assert forall|b: H160| #[trigger] self.index(b) is Some implies self.index(b)->0
                < self.entries@.len() && self.entries@[self.index(b)->0 as int].0 == b by {
                assert(other.index(b) == self.index(b));
                assert(self.entries()[self.index(b)->0 as int].0 == other.entries()[self.index(
                    b,
                )->0 as int].0);
            }
        }
        if other.synced() {
            assert forall|i: int, j: int|
                0 <= i < j < self.entries().len() implies self.entries()[i].0
                != self.entries()[j].0 by {
                assert(self.entries()[i].0 == other.entries()[i].0);
                assert(self.entries()[j].0 == other.entries()[j].0);
            }
            assert forall|i: int|
                0 <= i < self.entries().len() implies #[trigger] self.index(self.entries()[i].0)
                == Some(i as usize) by {
                assert(self.entries()[i].0 == other.entries()[i].0);
                assert(other.index(other.entries()[i].0) == Some(i as usize));
            }
        }
    }

    /// Replacing the value at the position indexed for an address changes
    /// what a read finds at that address only.
    pub proof fn lemma_value_replaced(&self, before: Self, j: usize)
        requires
            before.wf(),
            self.same_keys(before),
            j < before.entries().len(),
            before.index(before.entries()[j as int].0) == Some(j),
            forall|k: int|
                0 <= k < before.entries().len() && k != j ==> #[trigger] self.entries()[k]
                    == before.entries()[k],
        ensures
            self.wf(),
            forall|b: H160| #[trigger] self.index(b) == before.index(b),
            self.get_spec(before.entries()[j as int].0) == Some(self.entries()[j as int].1),
            forall|b: H160|
                b != before.entries()[j as int].0 ==> #[trigger] self.get_spec(b) == before.get_spec(b),
    {
        self.lemma_same_keys(before);
        assert(self.index(before.entries()[j as int].0) == before.index(before.entries()[j as int].0));
        assert forall|b: H160| b != before.entries()[j as int].0 implies #[trigger] self.get_spec(b)
            == before.get_spec(b) by {
            if before.index(b) is Some {
                let i = before.index(b)->0 as int;
                assert(before.entries()[i].0 == b);
                assert(i != j);
            }
        }
    }

    /// Returns a mutable reference to the value for the given address, if any.
    pub fn get_mut(&mut self, addr: &H160) -> (r: Option<&mut V>)
        requires
            old(self).wf(),
        ensures
            old(self).index(*addr) is None ==> r is None && final(self).entries() == old(
                self,
            ).entries(),
            old(self).index(*addr) matches Some(i) ==> r matches Some(x) && *x == old(
                self,
            ).entries()[i as int].1 && final(self).entries() == old(self).entries().update(
                i as int,
                (*addr, *final(x)),
            ),
            forall|b: H160| #[trigger] final(self).index(b) == old(self).index(b),
            final(self).same_keys(*old(self)),
    {
        match lookup_get(&self.lookup, addr) {
            Some(i) => {
                let entry = &mut self.entries[i];
                Some(&mut entry.1)
            },
            None => None,
        }
    }

    /// Builds a MappedVec from a slice of (address, value) pairs, cloning the
    /// values; when an address occurs twice, the index points at its last
    /// occurrence.
    pub fn from_array(entries: &[(H160, V)]) -> (r: Self) where V: Clone
        ensures
            r.wf(),
            r.entries().len() == entries@.len(),
            forall|i: int|
                0 <= i < entries@.len() ==> (#[trigger] r.entries()[i]).0 == entries@[i].0
                    && cloned(entries@[i].1, r.entries()[i].1),
            forall|a: H160| #[trigger]
                r.index(a) matches Some(i) ==> i < entries@.len() && entries@[i as int].0 == a
                    && forall|j: int| i < j < entries@.len() ==> entries@[j].0 != a,
            forall|a: H160|
                (#[trigger] r.index(a) is None) <==> forall|j: int|
                    0 <= j < entries@.len() ==> entries@[j].0 != a,
    {
        let mut vec: Vec<(H160, V)> = Vec::with_capacity(entries.len());
        let mut lookup: Vec<(H160, usize)> = Vec::with_capacity(entries.len());
        let mut i: usize = 0;
        while i < entries.len()
            invariant
                i <= entries@.len(),
                vec@.len() == i,
                unique_keys(lookup@),
                forall|k: int|
                    0 <= k < i ==> (#[trigger] vec@[k]).0 == entries@[k].0 && cloned(
                        entries@[k].1,
                        vec@[k].1,
                    ),
                forall|a: H160| #[trigger]
                    index_of(lookup@, a) matches Some(k) ==> k < i && entries@[k as int].0 == a
                        && forall|j: int| k < j < i ==> entries@[j].0 != a,
                forall|a: H160|
                    (#[trigger] index_of(lookup@, a) is None) <==> forall|j: int|
                        0 <= j < i ==> entries@[j].0 != a,
            decreases entries@.len() - i,
        {
            let addr = entries[i].0;
            let value = entries[i].1.clone();
            vec.push((addr, value));
            let ghost before = lookup@;
            lookup_insert(&mut lookup, addr, i);
            proof {
                assert forall|a: H160| #[trigger]
                    index_of(lookup@, a) is Some implies index_of(lookup@, a)->0 < i + 1
                    && entries@[index_of(lookup@, a)->0 as int].0 == a && forall|j: int|
                    index_of(lookup@, a)->0 < j < i + 1 ==> entries@[j].0 != a by {
                    if a != addr {
                        assert(index_of(before, a) == index_of(lookup@, a));
                    }
                }
                assert forall|a: H160|
                    (#[trigger] index_of(lookup@, a) is None) <==> forall|j: int|
                        0 <= j < i + 1 ==> entries@[j].0 != a by {
                    if a != addr {
                        assert(index_of(before, a) == index_of(lookup@, a));
                    } else {
                        assert(entries@[i as int].0 == a);
                    }
                }
                assert forall|k: int|
                    0 <= k < i + 1 implies (#[trigger] vec@[k]).0 == entries@[k].0 && cloned(
                    entries@[k].1,
                    vec@[k].1,
                ) by {}
            }
            i = i + 1;
        }
        let r = MappedVec { entries: vec, lookup };
        proof {
            assert forall|a: H160| #[trigger] r.index(a) is Some implies r.index(a)->0
                < r.entries@.len() && r.entries@[r.index(a)->0 as int].0 == a by {}
        }
        r
    }

    /// The stored addresses, in entry order.
    pub fn get_keys(&self) -> (r: Vec<&H160>)
        ensures
            r@.len() == self.entries().len(),
            forall|i: int| 0 <= i < r@.len() ==> *#[trigger] r@[i] == self.entries()[i].0,
    {
        let mut out: Vec<&H160> = Vec::new();
        let mut i: usize = 0;
        while i < self.entries.len()
            invariant
                i <= self.entries@.len(),
                out@.len() == i,
                forall|k: int| 0 <= k < i ==> *#[trigger] out@[k] == self.entries@[k].0,
            decreases self.entries@.len() - i,
        {
            out.push(&self.entries[i].0);
            i = i + 1;
        }
        out
    }

    /// The stored values, in order.
    pub fn values(&self) -> (r: Vec<&V>)
        ensures
            r@.len() == self.entries().len(),
            forall|i: int| 0 <= i < r@.len() ==> *#[trigger] r@[i] == self.entries()[i].1,
    {
        let mut out: Vec<&V> = Vec::new();
        let mut i: usize = 0;
        while i < self.entries.len()
            invariant
                i <= self.entries@.len(),
                out@.len() == i,
                forall|k: int| 0 <= k < i ==> *#[trigger] out@[k] == self.entries@[k].1,
            decreases self.entries@.len() - i,
        {
            out.push(&self.entries[i].1);
            i = i + 1;
        }
        out
    }
}

impl<V> MappedVec<V> {
    /// The position the index records for the address.
    pub fn position(&self, addr: &H160) -> (r: Option<usize>)
        requires
            self.wf(),
        ensures
            r == self.index(*addr),
            r matches Some(i) ==> i < self.entries().len() && self.entries()[i as int].0 == *addr,
    {
        lookup_get(&self.lookup, addr)
    }

    /// A mutable reference to the value at a position.
    pub fn value_at_mut(&mut self, i: usize) -> (r: &mut V)
        requires
            i < old(self).entries().len(),
        ensures
            *r == old(self).entries()[i as int].1,
            final(self).entries() == old(self).entries().update(
                i as int,
                (old(self).entries()[i as int].0, *final(r)),
            ),
            final(self).same_keys(*old(self)),
    {
        let entry = &mut self.entries[i];
        &mut entry.1
    }
}

/// A value stored at an address is what a read there finds; removing the
/// address then gives that value back, leaves the address empty and every
/// other address as it was before the value was stored.
pub proof fn lemma_store_then_remove<V>(
    m0: MappedVec<V>,
    a: H160,
    v: V,
    m1: MappedVec<V>,
    removed: Option<V>,
    m2: MappedVec<V>,
)
    requires
        m0.synced(),
        m0.stored(a, v, m1),
        removed == m1.get_spec(a),
        m1.dropped_from(a, m2),
    ensures
        m1.get_spec(a) == Some(v),
        removed == Some(v),
        m2.get_spec(a) is None,
        forall|b: H160| b != a ==> #[trigger] m2.get_spec(b) == m0.get_spec(b),
        m2.synced(),
{
    assert forall|b: H160| b != a implies #[trigger] m2.get_spec(b) == m0.get_spec(b) by {
        assert(m2.get_spec(b) == m1.get_spec(b));
        assert(m1.get_spec(b) == m0.get_spec(b));
    }
}

/// Storing at an address twice keeps the second value, and the other
/// addresses as they were.
pub proof fn lemma_store_twice<V>(
    m0: MappedVec<V>,
    a: H160,
    v: V,
    m1: MappedVec<V>,
    w: V,
    m2: MappedVec<V>,
)
    requires
        m0.stored(a, v, m1),
        m1.stored(a, w, m2),
    ensures
        m2.get_spec(a) == Some(w),
        forall|b: H160| b != a ==> #[trigger] m2.get_spec(b) == m0.get_spec(b),
{
    assert forall|b: H160| b != a implies #[trigger] m2.get_spec(b) == m0.get_spec(b) by {
        assert(m2.get_spec(b) == m1.get_spec(b));
        assert(m1.get_spec(b) == m0.get_spec(b));
    }
}

} // verus!

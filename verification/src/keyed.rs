//! Lists and values under keys (addresses or address pairs), kept as
//! vectors of entries searched in order.
use vstd::prelude::*;
use crate::address::H160;

verus! {

/// A key that can be compared in code exactly as in specifications.
pub trait Key: Copy {
    fn same(&self, other: &Self) -> (r: bool)
        ensures
            r == (*self == *other),
    ;
}

impl Key for H160 {
    fn same(&self, other: &Self) -> (r: bool) {
        *self == *other
    }
}

/// `i` is the first position whose key is `t`.
pub open spec fn is_first_key<K, X>(s: Seq<(K, X)>, t: K, i: int) -> bool {
    &&& 0 <= i < s.len()
    &&& s[i].0 == t
    &&& forall|j: int| 0 <= j < i ==> (#[trigger] s[j]).0 != t
}

/// The first position whose key is `t`, or -1.
pub open spec fn key_pos<K, X>(s: Seq<(K, X)>, t: K) -> int {
    if exists|i: int| is_first_key(s, t, i) {
        choose|i: int| is_first_key(s, t, i)
    } else {
        -1
    }
}

/// The first position with a key is where `key_pos` points.
pub proof fn lemma_key_pos<K, X>(s: Seq<(K, X)>, t: K, i: int)
    requires
        is_first_key(s, t, i),
    ensures
        key_pos(s, t) == i,
{
    let c = choose|c: int| is_first_key(s, t, c);
    assert(is_first_key(s, t, c));
    if c < i {
        assert(s[c].0 != t);
    } else if i < c {
        assert(s[i].0 != t);
    }
}

/// No position has the key.
pub proof fn lemma_key_absent<K, X>(s: Seq<(K, X)>, t: K)
    requires
        forall|j: int| 0 <= j < s.len() ==> (#[trigger] s[j]).0 != t,
    ensures
        key_pos(s, t) == -1,
{
}

/// Lists of items under keys, each list in the order its items were added;
/// a key is found at its first entry.
pub struct KeyedLists<K, T> {
    entries: Vec<(K, Vec<T>)>,
}

impl<K: Key, T> KeyedLists<K, T> {
    /// Whether the token has an entry.
    pub closed spec fn has(&self, t: K) -> bool {
        key_pos(self.entries@, t) >= 0
    }

    /// The token's pools (empty when it has no entry).
    pub closed spec fn list(&self, t: K) -> Seq<T> {
        if key_pos(self.entries@, t) >= 0 {
            self.entries@[key_pos(self.entries@, t)].1@
        } else {
            Seq::empty()
        }
    }

    /// No token has an entry.
    pub fn new() -> (r: Self)
        ensures
            forall|t: K| !r.has(t) && r.list(t) == Seq::<T>::empty(),
    {
        KeyedLists { entries: Vec::new() }
    }

    /// The position of the token's entry.
    fn find(&self, t: &K) -> (r: Option<usize>)
        ensures
            match r {
                Some(i) => is_first_key(self.entries@, *t, i as int),
                None => key_pos(self.entries@, *t) == -1 && forall|j: int|
                    0 <= j < self.entries@.len() ==> (#[trigger] self.entries@[j]).0 != *t,
            },
    {
        let mut i: usize = 0;
        while i < self.entries.len()
            invariant
                i <= self.entries@.len(),
                forall|j: int| 0 <= j < i ==> (#[trigger] self.entries@[j]).0 != *t,
            decreases self.entries@.len() - i,
        {
            if self.entries[i].0.same(t) {
                return Some(i);
            }
            i = i + 1;
        }
        proof {
            lemma_key_absent(self.entries@, *t);
        }
        None
    }

    /// The token's pools, if it has an entry.
    pub fn get(&self, t: &K) -> (r: Option<&Vec<T>>)
        ensures
            r is Some <==> self.has(*t),
            r matches Some(v) ==> v@ == self.list(*t),
            r is None ==> self.list(*t) == Seq::<T>::empty(),
    {
        match self.find(t) {
            Some(i) => {
                proof {
                    lemma_key_pos(self.entries@, *t, i as int);
                }
                Some(&self.entries[i].1)
            },
            None => None,
        }
    }

    /// Gives the token an entry, keeping any it has.
    pub fn ensure(&mut self, t: K)
        ensures
            final(self).has(t),
            forall|u: K| u != t ==> final(self).has(u) == old(self).has(u),
            forall|u: K| #[trigger] final(self).list(u) == old(self).list(u),
    {
        match self.find(&t) {
            Some(i) => {
                proof {
                    lemma_key_pos(self.entries@, t, i as int);
                }
            },
            None => {
                let ghost before = self.entries@;
                self.entries.push((t, Vec::new()));
                proof {
                    assert(is_first_key(self.entries@, t, before.len() as int));
                    lemma_key_pos(self.entries@, t, before.len() as int);
                    assert forall|u: K| u != t implies #[trigger] key_pos(self.entries@, u)
                        == key_pos(before, u) by {
                        lemma_key_pos_push(before, u, self.entries@.last());
                        assert(before.push(self.entries@.last()) =~= self.entries@);
                    }
                    assert forall|u: K| #[trigger] self.list(u) == old(self).list(u) by {
                        if u == t {
                            assert(self.entries@[before.len() as int].1@ =~= Seq::<
                                T,
                            >::empty());
                        } else {
                            if key_pos(before, u) >= 0 {
                                assert(self.entries@[key_pos(before, u)] == before[key_pos(
                                    before,
                                    u,
                                )]);
                            }
                        }
                    }
                }
            },
        }
    }

    /// Appends a pool to the token's list, giving the token an entry if it
    /// has none.
    pub fn push(&mut self, t: K, item: T)
        ensures
            final(self).has(t),
            final(self).list(t) == old(self).list(t).push(item),
            forall|u: K| u != t ==> final(self).has(u) == old(self).has(u),
            forall|u: K| u != t ==> #[trigger] final(self).list(u) == old(self).list(u),
    {
        self.ensure(t);
        let ghost mid = self.entries@;
        let ghost mid_lists = |u: K| self.list(u);
        proof {
            assert forall|u: K| #[trigger] mid_lists(u) == old(self).list(u) by {
                assert(self.list(u) == old(self).list(u));
            }
        }
        let i = match self.find(&t) {
            Some(i) => i,
            None => {
                return;
            },
        };
        proof {
            lemma_key_pos(mid, t, i as int);
        }
        let mut entry = (t, Vec::new());
        std::mem::swap(&mut self.entries[i], &mut entry);
        entry.1.push(item);
        std::mem::swap(&mut self.entries[i], &mut entry);
        proof {
            assert(self.entries@ =~= mid.update(i as int, self.entries@[i as int]));
            assert forall|j: int| 0 <= j < mid.len() implies (#[trigger] self.entries@[j]).0
                == mid[j].0 by {}
            assert forall|u: K| #[trigger] key_pos(self.entries@, u) == key_pos(mid, u) by {
                lemma_same_keys(mid, self.entries@, u);
            }
            assert(key_pos(self.entries@, t) == i);
            assert(mid_lists(t) == mid[i as int].1@);
            assert(self.list(t) == mid[i as int].1@.push(item));
            assert forall|u: K| u != t implies #[trigger] self.list(u) == old(self).list(u) by {
                assert(mid_lists(u) == old(self).list(u));
                if key_pos(mid, u) >= 0 {
                    assert(key_pos(mid, u) != i);
                    assert(self.entries@[key_pos(mid, u)] == mid[key_pos(mid, u)]);
                }
            }
        }
    }

    /// Replaces the key's list, giving the key an entry if it has none.
    pub fn set(&mut self, t: K, items: Vec<T>)
        ensures
            final(self).has(t),
            final(self).list(t) == items@,
            forall|u: K| u != t ==> final(self).has(u) == old(self).has(u),
            forall|u: K| u != t ==> #[trigger] final(self).list(u) == old(self).list(u),
    {
        self.ensure(t);
        let ghost mid = self.entries@;
        let ghost mid_lists = |u: K| self.list(u);
        proof {
            assert forall|u: K| #[trigger] mid_lists(u) == old(self).list(u) by {
                assert(self.list(u) == old(self).list(u));
            }
        }
        let i = match self.find(&t) {
            Some(i) => i,
            None => {
                return;
            },
        };
        proof {
            lemma_key_pos(mid, t, i as int);
        }
        let mut entry = (t, items);
        std::mem::swap(&mut self.entries[i], &mut entry);
        proof {
            assert(self.entries@ =~= mid.update(i as int, self.entries@[i as int]));
            assert forall|j: int| 0 <= j < mid.len() implies (#[trigger] self.entries@[j]).0
                == mid[j].0 by {}
            assert forall|u: K| #[trigger] key_pos(self.entries@, u) == key_pos(mid, u) by {
                lemma_same_keys(mid, self.entries@, u);
            }
            assert(key_pos(self.entries@, t) == i);
            assert forall|u: K| u != t implies #[trigger] self.list(u) == old(self).list(u) by {
                assert(mid_lists(u) == old(self).list(u));
                if key_pos(mid, u) >= 0 {
                    assert(key_pos(mid, u) != i);
                    assert(self.entries@[key_pos(mid, u)] == mid[key_pos(mid, u)]);
                }
            }
        }
    }
}

/// Where a key occurs, some position is its first.
pub proof fn lemma_first_key_exists<K, X>(s: Seq<(K, X)>, t: K, j: int)
    requires
        0 <= j < s.len(),
        s[j].0 == t,
    ensures
        exists|m: int| is_first_key(s, t, m),
    decreases j,
{
    if exists|q: int| 0 <= q < j && s[q].0 == t {
        let q = choose|q: int| 0 <= q < j && s[q].0 == t;
        lemma_first_key_exists(s, t, q);
    } else {
        assert(is_first_key(s, t, j));
    }
}

/// Appending an entry with another key keeps where a key is found.
pub proof fn lemma_key_pos_push<K, X>(s: Seq<(K, X)>, u: K, e: (K, X))
    requires
        e.0 != u,
    ensures
        key_pos(s.push(e), u) == key_pos(s, u),
{
    let s2 = s.push(e);
    if key_pos(s, u) >= 0 {
        let k = key_pos(s, u);
        assert(is_first_key(s, u, k));
        assert forall|j: int| 0 <= j < k implies (#[trigger] s2[j]).0 != u by {
            assert(s2[j] == s[j]);
        }
        assert(is_first_key(s2, u, k));
        lemma_key_pos(s2, u, k);
    } else if key_pos(s2, u) >= 0 {
        let k = key_pos(s2, u);
        assert(is_first_key(s2, u, k));
        assert(k < s.len());
        assert forall|j: int| 0 <= j < k implies (#[trigger] s[j]).0 != u by {
            assert(s2[j] == s[j]);
        }
        assert(is_first_key(s, u, k));
        lemma_key_pos(s, u, k);
    }
}

/// Two lists with the same keys at the same positions find keys at the same
/// positions.
pub proof fn lemma_same_keys<K, X>(a: Seq<(K, X)>, b: Seq<(K, X)>, u: K)
    requires
        a.len() == b.len(),
        forall|j: int| 0 <= j < a.len() ==> (#[trigger] b[j]).0 == a[j].0,
    ensures
        key_pos(a, u) == key_pos(b, u),
{
    if key_pos(a, u) >= 0 {
        let k = key_pos(a, u);
        assert(is_first_key(a, u, k));
        assert forall|j: int| 0 <= j < k implies (#[trigger] b[j]).0 != u by {
            assert(a[j].0 != u);
        }
        assert(is_first_key(b, u, k));
        lemma_key_pos(b, u, k);
    } else if key_pos(b, u) >= 0 {
        let k = key_pos(b, u);
        assert(is_first_key(b, u, k));
        assert forall|j: int| 0 <= j < k implies (#[trigger] a[j]).0 != u by {
            assert(b[j].0 != u);
        }
        assert(is_first_key(a, u, k));
        lemma_key_pos(a, u, k);
    }
}

/// Values under keys; a key is found at its first entry.
pub struct KeyedMap<K, V> {
    entries: Vec<(K, V)>,
}

impl<K: Key, V> KeyedMap<K, V> {
    /// The value under a key.
    pub closed spec fn get_spec(&self, t: K) -> Option<V> {
        if key_pos(self.entries@, t) >= 0 {
            Some(self.entries@[key_pos(self.entries@, t)].1)
        } else {
            None
        }
    }

    /// No key has a value.
    pub fn new() -> (r: Self)
        ensures
            forall|t: K| r.get_spec(t) is None,
    {
        KeyedMap { entries: Vec::new() }
    }

    /// The position of the key's entry.
    fn find(&self, t: &K) -> (r: Option<usize>)
        ensures
            match r {
                Some(i) => is_first_key(self.entries@, *t, i as int),
                None => key_pos(self.entries@, *t) == -1 && forall|j: int|
                    0 <= j < self.entries@.len() ==> (#[trigger] self.entries@[j]).0 != *t,
            },
    {
        let mut i: usize = 0;
        while i < self.entries.len()
            invariant
                i <= self.entries@.len(),
                forall|j: int| 0 <= j < i ==> (#[trigger] self.entries@[j]).0 != *t,
            decreases self.entries@.len() - i,
        {
            if self.entries[i].0.same(t) {
                return Some(i);
            }
            i = i + 1;
        }
        proof {
            lemma_key_absent(self.entries@, *t);
        }
        None
    }

    /// The value under a key, if any.
    pub fn get(&self, t: &K) -> (r: Option<&V>)
        ensures
            match self.get_spec(*t) {
                Some(v) => r matches Some(x) && *x == v,
                None => r is None,
            },
    {
        match self.find(t) {
            Some(i) => {
                proof {
                    lemma_key_pos(self.entries@, *t, i as int);
                }
                Some(&self.entries[i].1)
            },
            None => None,
        }
    }

    /// Sets the value under a key, replacing any it had.
    pub fn insert(&mut self, t: K, v: V)
        ensures
            final(self).get_spec(t) == Some(v),
            forall|u: K| u != t ==> #[trigger] final(self).get_spec(u) == old(self).get_spec(u),
    {
        match self.find(&t) {
            Some(i) => {
                let ghost before = self.entries@;
                proof {
                    lemma_key_pos(before, t, i as int);
                }
                let mut slot = (t, v);
                std::mem::swap(&mut self.entries[i], &mut slot);
                proof {
                    assert forall|j: int| 0 <= j < before.len() implies (
                    #[trigger] self.entries@[j]).0 == before[j].0 by {}
                    assert forall|u: K| #[trigger] key_pos(self.entries@, u) == key_pos(before, u) by {
                        lemma_same_keys(before, self.entries@, u);
                    }
                    assert forall|u: K| u != t implies #[trigger] self.get_spec(u) == old(
                        self,
                    ).get_spec(u) by {
                        if key_pos(before, u) >= 0 {
                            assert(key_pos(before, u) != i);
                        }
                    }
                }
            },
            None => {
                let ghost before = self.entries@;
                self.entries.push((t, v));
                proof {
                    assert(is_first_key(self.entries@, t, before.len() as int));
                    lemma_key_pos(self.entries@, t, before.len() as int);
                    assert forall|u: K| u != t implies #[trigger] self.get_spec(u) == old(
                        self,
                    ).get_spec(u) by {
                        lemma_key_pos_push(before, u, self.entries@.last());
                        assert(before.push(self.entries@.last()) =~= self.entries@);
                        if key_pos(before, u) >= 0 {
                            assert(self.entries@[key_pos(before, u)] == before[key_pos(before, u)]);
                        }
                    }
                }
            },
        }
    }
}

} // verus!

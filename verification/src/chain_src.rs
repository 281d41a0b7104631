//! What is known of the chain: pools, tokens and factories by address; the
//! token pairs to search; and which reported pools are new.
use vstd::prelude::*;
use crate::address::{H160, parse_address, is_address_text, hex_value, address_digits};
use crate::blockchain_db::DexModel;
use crate::factory::{AnyFactory, Factory};
use crate::mapped_vec::MappedVec;
use crate::text::text_is;
use crate::keyed::{key_pos, is_first_key, lemma_key_pos, lemma_key_pos_push, lemma_first_key_exists};

verus! {

/// The pairs `(s[i], s[j])` with `i < j`, for the given `i` and each later
/// `j` in order.
pub open spec fn pairs_from(s: Seq<H160>, i: int) -> Seq<(H160, H160)> {
    Seq::new((s.len() - i - 1) as nat, |k: int| (s[i], s[i + 1 + k]))
}

/// All pairs `(s[i], s[j])` with `i < j`, by `i` and then `j`, for the
/// first index `i` onwards.
pub open spec fn unique_pairs(s: Seq<H160>, i: int) -> Seq<(H160, H160)>
    decreases s.len() - i,
{
    if i >= s.len() {
        Seq::empty()
    } else {
        pairs_from(s, i) + unique_pairs(s, i + 1)
    }
}

/// The exchange is of a version a factory is built for: "v2" or "v3".
pub open spec fn builds_factory(d: DexModel) -> bool {
    d.version@ == "v2"@ || d.version@ == "v3"@
}

/// The configured exchanges that get a factory, in order.
pub open spec fn factory_dexes(ds: Seq<DexModel>) -> Seq<DexModel>
    decreases ds.len(),
{
    if ds.len() == 0 {
        Seq::empty()
    } else if builds_factory(ds.last()) {
        factory_dexes(ds.drop_last()).push(ds.last())
    } else {
        factory_dexes(ds.drop_last())
    }
}

/// `e` is the factory entry of the exchange `d`: the address its text
/// spells, and a V2 factory for version "v2", else a V3 one, with the
/// exchange's name and that address.
pub open spec fn factory_entry_of(d: DexModel, e: (H160, AnyFactory)) -> bool {
    &&& e.0.value() == hex_value(address_digits(d.factory@))
    &&& (e.1 is V2 <==> d.version@ == "v2"@)
    &&& e.1.name_spec() == d.dex_name@
    &&& e.1.address_spec() == e.0
}

/// What is known of the chain; pools, tokens and factories are handles of
/// types `P`, `T` and `F`.
pub struct ChainSrc<P, T, F> {
    pools: MappedVec<P>,
    pub tokens: MappedVec<T>,
    factories: MappedVec<F>,
}

/// The pairs of distinct positions of a list: every `(tokens[i], tokens[j])`
/// with `i < j`, by `i` and then `j`.
pub fn generate_unique_pairs(tokens: &[H160]) -> (r: Vec<(H160, H160)>)
    ensures
        r@ == unique_pairs(tokens@, 0),
{
    let mut pairs: Vec<(H160, H160)> = Vec::new();
    let n = tokens.len();
    let mut i: usize = 0;
    while i < n
        invariant
            i <= n,
            n == tokens@.len(),
            pairs@ + unique_pairs(tokens@, i as int) == unique_pairs(tokens@, 0),
        decreases n - i,
    {
        let ghost before = pairs@;
        let mut j: usize = i + 1;
        while j < n
            invariant
                i < n,
                i + 1 <= j <= n,
                n == tokens@.len(),
                pairs@ == before + pairs_from(tokens@, i as int).take(j - i - 1),
            decreases n - j,
        {
            pairs.push((tokens[i], tokens[j]));
            proof {
                assert(pairs_from(tokens@, i as int).take(j - i) =~= pairs_from(
                    tokens@,
                    i as int,
                ).take(j - i - 1).push((tokens@[i as int], tokens@[j as int])));
            }
            j = j + 1;
        }
        proof {
            assert(pairs_from(tokens@, i as int).take(n - i - 1) =~= pairs_from(tokens@, i as int));
            assert(unique_pairs(tokens@, i as int) == pairs_from(tokens@, i as int) + unique_pairs(
                tokens@,
                i + 1,
            ));
            assert(before + unique_pairs(tokens@, i as int) =~= pairs@ + unique_pairs(
                tokens@,
                i + 1,
            ));
        }
        i = i + 1;
    }
    proof {
        assert(pairs@ + unique_pairs(tokens@, n as int) =~= pairs@);
    }
    pairs
}

/// The factories of the configured exchanges, by address, skipping those
/// of another version than "v2" and "v3"; `None` when an exchange's factory
/// is not an address (the case in which building the source stops).
pub fn factory_entries(dexes: &Vec<DexModel>) -> (r: Option<Vec<(H160, AnyFactory)>>)
    ensures
        r is None <==> exists|i: int|
            0 <= i < dexes@.len() && !is_address_text(#[trigger] dexes@[i].factory@),
        r matches Some(v) ==> {
            &&& v@.len() == factory_dexes(dexes@).len()
            &&& forall|k: int|
                0 <= k < v@.len() ==> factory_entry_of(factory_dexes(dexes@)[k], #[trigger] v@[k])
        },
{
    let mut out: Vec<(H160, AnyFactory)> = Vec::new();
    let mut i: usize = 0;
    while i < dexes.len()
        invariant
            i <= dexes@.len(),
            forall|k: int| 0 <= k < i ==> is_address_text(#[trigger] dexes@[k].factory@),
            out@.len() == factory_dexes(dexes@.take(i as int)).len(),
            forall|k: int|
                0 <= k < out@.len() ==> factory_entry_of(
                    factory_dexes(dexes@.take(i as int))[k],
                    #[trigger] out@[k],
                ),
        decreases dexes@.len() - i,
    {
        let d = &dexes[i];
        let ghost pre = dexes@.take(i as int);
        proof {
            assert(dexes@.take(i + 1).drop_last() =~= pre);
            assert(dexes@.take(i + 1).last() == dexes@[i as int]);
        }
        let add = match parse_address(d.factory.as_str()) {
            Some(a) => a,
            None => {
                return None;
            },
        };
        if text_is(d.version.as_str(), "v2") {
            out.push((add, AnyFactory::new(d.dex_name.clone(), true, add)));
        } else if text_is(d.version.as_str(), "v3") {
            out.push((add, AnyFactory::new(d.dex_name.clone(), false, add)));
        }
        i = i + 1;
    }
    proof {
        assert(dexes@.take(dexes@.len() as int) =~= dexes@);
    }
    Some(out)
}

/// Whether a pool of this version is built as a V2 pool.
pub fn is_v2_version(version: &str) -> (r: bool)
    ensures
        r == (version@ == "v2"@),
{
    text_is(version, "v2")
}

impl<P, T, F> ChainSrc<P, T, F> {
    /// The three maps are well formed.
    pub closed spec fn wf(&self) -> bool {
        &&& self.pools.wf()
        &&& self.tokens.wf()
        &&& self.factories.wf()
    }

    /// The pool known at an address.
    pub closed spec fn pool_at(&self, a: H160) -> Option<P> {
        self.pools.get_spec(a)
    }

    /// The token known at an address.
    pub closed spec fn token_at(&self, a: H160) -> Option<T> {
        self.tokens.get_spec(a)
    }

    /// The factory known at an address.
    pub closed spec fn factory_at(&self, a: H160) -> Option<F> {
        self.factories.get_spec(a)
    }

    /// No pools and no tokens; the factories given, under their addresses
    /// (the last of two with one address wins).
    pub fn new(factories: Vec<(H160, F)>) -> (r: Self) where F: Clone
        ensures
            r.wf(),
            forall|a: H160| r.pool_at(a) is None && r.token_at(a) is None,
            forall|a: H160|
                (#[trigger] r.factory_at(a) is None) <==> forall|j: int|
                    0 <= j < factories@.len() ==> factories@[j].0 != a,
            r.factories_in_order().len() == factories@.len(),
            forall|i: int|
                0 <= i < factories@.len() ==> (#[trigger] r.factories_in_order()[i]).0
                    == factories@[i].0 && cloned(factories@[i].1, r.factories_in_order()[i].1),
            forall|a: H160|
                #[trigger] r.factory_at(a) is Some ==> exists|i: int|
                    0 <= i < factories@.len() && factories@[i].0 == a && (forall|j: int|
                        i < j < factories@.len() ==> factories@[j].0 != a) && r.factory_at(a)
                        == Some(r.factories_in_order()[i].1),
    {
        let f = MappedVec::from_array(factories.as_slice());
        let r = ChainSrc { pools: MappedVec::new(), tokens: MappedVec::new(), factories: f };
        proof {
            assert forall|a: H160| #[trigger] r.factory_at(a) is Some implies exists|i: int|
                0 <= i < factories@.len() && factories@[i].0 == a && (forall|j: int|
                    i < j < factories@.len() ==> factories@[j].0 != a) && r.factory_at(a)
                    == Some(r.factories_in_order()[i].1) by {
                let i = r.factories.index(a)->0 as int;
                assert(r.factory_at(a) == Some(r.factories.entries()[i].1));
            }
            assert forall|a: H160|
                (#[trigger] r.factory_at(a) is None) <==> forall|j: int|
                    0 <= j < factories@.len() ==> factories@[j].0 != a by {
                assert(r.factory_at(a) is None <==> r.factories.index(a) is None);
            }
        }
        r
    }

    /// A pool a factory reported is searched only when there is one and it
    /// is not known yet.
    pub fn pool_needed(&self, reported: Option<H160>) -> (r: Option<H160>)
        requires
            self.wf(),
        ensures
            r == (match reported {
                Some(a) => if self.pool_at(a) is Some {
                    None
                } else {
                    Some(a)
                },
                None => None,
            }),
    {
        match reported {
            Some(a) => match self.pools.get(&a) {
                Some(_) => None,
                None => Some(a),
            },
            None => None,
        }
    }

    /// `after` knows what `self` knew, and at each address it did not know
    /// the first pool of `found` with that address, if any.
    pub open spec fn pools_registered(&self, found: Seq<(H160, P)>, after: Self) -> bool {
        &&& forall|a: H160|
            self.pool_at(a) is Some ==> #[trigger] after.pool_at(a) == self.pool_at(a)
        &&& forall|a: H160|
            self.pool_at(a) is None ==> #[trigger] after.pool_at(a) == (if key_pos(found, a) >= 0 {
                Some(found[key_pos(found, a)].1)
            } else {
                None
            })
    }

    /// Registers the pools found, in order, each under its address unless a
    /// pool is already known there: a new address gets the first pool found
    /// for it.
    pub fn register_pools(&mut self, found: Vec<(H160, P)>)
        requires
            old(self).wf(),
        ensures
            final(self).wf(),
            forall|a: H160|
                old(self).pool_at(a) is Some ==> #[trigger] final(self).pool_at(a) == old(
                    self,
                ).pool_at(a),
            forall|a: H160|
                old(self).pool_at(a) is None ==> #[trigger] final(self).pool_at(a) == (if key_pos(
                    found@,
                    a,
                ) >= 0 {
                    Some(found@[key_pos(found@, a)].1)
                } else {
                    None
                }),
            forall|a: H160| #[trigger] final(self).token_at(a) == old(self).token_at(a),
            forall|a: H160| #[trigger] final(self).factory_at(a) == old(self).factory_at(a),
            old(self).pools_registered(found@, *final(self)),
    {
        let mut found = found;
        let ghost all = found@;
        let ghost mut i: int = 0;
        while found.len() > 0
            invariant
                self.wf(),
                0 <= i <= all.len(),
                found@ == all.skip(i),
                forall|a: H160|
                    old(self).pool_at(a) is Some ==> #[trigger] self.pools.get_spec(a) == old(self).pool_at(
                        a,
                    ),
                forall|a: H160|
                    old(self).pool_at(a) is None ==> #[trigger] self.pools.get_spec(a) == (if key_pos(
                        all.take(i),
                        a,
                    ) >= 0 {
                        Some(all[key_pos(all.take(i), a)].1)
                    } else {
                        None
                    }),
                self.tokens == old(self).tokens,
                self.factories == old(self).factories,
            decreases found@.len(),
        {
            let (addr, pool) = found.remove(0);
            let ghost prev = all.take(i);
            proof {
                assert(all[i] == (addr, pool));
                assert(all.take(i + 1) =~= prev.push(all[i]));
            }
            let ghost before = self.pools;
            let known = match self.pools.get(&addr) {
                Some(_) => true,
                None => false,
            };
            if !known {
                self.pools.insert(addr, pool);
            }
            proof {
                assert(known == before.get_spec(addr) is Some);
                assert forall|a: H160| #[trigger] self.pools.get_spec(a) == (if a == addr && !known {
                    Some(pool)
                } else {
                    before.get_spec(a)
                }) by {}
                assert forall|a: H160| old(self).pool_at(a) is None implies #[trigger] self.pools.get_spec(a)
                    == (if key_pos(all.take(i + 1), a) >= 0 {
                    Some(all[key_pos(all.take(i + 1), a)].1)
                } else {
                    None
                }) by {
                    if a != addr {
                        lemma_key_pos_push(prev, a, all[i]);
                    } else if key_pos(prev, a) >= 0 {
                        let k = key_pos(prev, a);
                        assert(is_first_key(prev, a, k));
                        assert(is_first_key(all.take(i + 1), a, k));
                        lemma_key_pos(all.take(i + 1), a, k);
                    } else {
                        assert(!exists|k: int| is_first_key(prev, a, k));
                        assert forall|j: int| 0 <= j < prev.len() implies (#[trigger] prev[j]).0 != a by {
                            if prev[j].0 == a {
                                lemma_first_key_exists(prev, a, j);
                            }
                        }
                        assert(is_first_key(all.take(i + 1), a, i));
                        lemma_key_pos(all.take(i + 1), a, i);
                    }
                }
                i = i + 1;
                assert(found@ =~= all.skip(i));
            }
        }
        proof {
            assert(all.take(i) =~= all);
        }
    }

    /// Inserts or updates a token under its address.
    pub fn add_token(&mut self, addr: H160, token: T)
        requires
            old(self).wf(),
        ensures
            final(self).wf(),
            final(self).token_at(addr) == Some(token),
            forall|a: H160| a != addr ==> #[trigger] final(self).token_at(a) == old(self).token_at(a),
            forall|a: H160| #[trigger] final(self).pool_at(a) == old(self).pool_at(a),
            forall|a: H160| #[trigger] final(self).factory_at(a) == old(self).factory_at(a),
    {
        self.tokens.insert(addr, token);
    }

    /// Inserts or updates a factory under its address.
    pub fn add_factory(&mut self, addr: H160, dex: F)
        requires
            old(self).wf(),
        ensures
            final(self).wf(),
            final(self).factory_at(addr) == Some(dex),
            forall|a: H160| a != addr ==> #[trigger] final(self).factory_at(a) == old(
                self,
            ).factory_at(a),
            forall|a: H160| #[trigger] final(self).pool_at(a) == old(self).pool_at(a),
            forall|a: H160| #[trigger] final(self).token_at(a) == old(self).token_at(a),
    {
        self.factories.insert(addr, dex);
    }

    /// The known pools with their addresses, in the order they were
    /// registered.
    pub closed spec fn pools_in_order(&self) -> Seq<(H160, P)> {
        self.pools.entries()
    }

    /// The known factories with their addresses, in order.
    pub closed spec fn factories_in_order(&self) -> Seq<(H160, F)> {
        self.factories.entries()
    }

    /// The known pools with their addresses, in the order they were
    /// registered.
    pub fn pool_list(&self) -> (r: &Vec<(H160, P)>)
        ensures
            r@ == self.pools_in_order(),
    {
        self.pools.iter()
    }

    /// The known factories with their addresses, in order.
    pub fn factory_list(&self) -> (r: &Vec<(H160, F)>)
        ensures
            r@ == self.factories_in_order(),
    {
        self.factories.iter()
    }

    /// The pool known at an address.
    pub fn get_pool(&self, addr: &H160) -> (r: Option<&P>)
        requires
            self.wf(),
        ensures
            match self.pool_at(*addr) {
                Some(p) => r matches Some(x) && *x == p,
                None => r is None,
            },
    {
        self.pools.get(addr)
    }

    /// The token known at an address.
    pub fn get_token(&self, addr: &H160) -> (r: Option<&T>)
        requires
            self.wf(),
        ensures
            match self.token_at(*addr) {
                Some(t) => r matches Some(x) && *x == t,
                None => r is None,
            },
    {
        self.tokens.get(addr)
    }

    /// The factory known at an address.
    pub fn get_factory(&self, addr: &H160) -> (r: Option<&F>)
        requires
            self.wf(),
        ensures
            match self.factory_at(*addr) {
                Some(f) => r matches Some(x) && *x == f,
                None => r is None,
            },
    {
        self.factories.get(addr)
    }
}

/// Registering the same pools twice changes nothing the second time: every
/// address keeps the pool the first registration left there.
pub proof fn lemma_register_twice<P, T, F>(
    s0: ChainSrc<P, T, F>,
    found: Seq<(H160, P)>,
    s1: ChainSrc<P, T, F>,
    s2: ChainSrc<P, T, F>,
)
    requires
        s0.pools_registered(found, s1),
        s1.pools_registered(found, s2),
    ensures
        forall|a: H160| #[trigger] s2.pool_at(a) == s1.pool_at(a),
{
    assert forall|a: H160| #[trigger] s2.pool_at(a) == s1.pool_at(a) by {
        if s1.pool_at(a) is None {
            if s0.pool_at(a) is Some {
                assert(s1.pool_at(a) == s0.pool_at(a));
            }
            assert(key_pos(found, a) < 0);
        }
    }
}

} // verus!

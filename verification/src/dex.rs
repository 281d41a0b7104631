//! Exchanges: the fee tiers each supports, and the pools found on each,
//! by token pair and by address.
use vstd::prelude::*;
use crate::address::H160;
use crate::pair::{Pair, PairKey};
use crate::keyed::{KeyedLists, KeyedMap};
use crate::text::text_is;

verus! {

/// The fee tiers (in hundredths of a basis point) an exchange supports: all
/// V2 exchanges charge 0.3%; V3 exchanges by name; none for an unknown V3
/// exchange.
pub open spec fn fee_table(v2: bool, name: Seq<char>) -> Seq<u32> {
    if v2 {
        seq![3000]
    } else if name == "pancake"@ {
        seq![500, 2500, 10000]
    } else if name == "uniswap"@ {
        seq![500, 3000, 10000]
    } else if name == "mdex"@ {
        seq![500, 2000, 10000]
    } else if name == "apeswap"@ {
        seq![500, 2500, 5000]
    } else if name == "biswap"@ {
        seq![1000, 2000, 3000]
    } else if name == "sushi"@ {
        seq![500, 3000, 10000]
    } else if name == "wault"@ {
        seq![500, 1500, 3000]
    } else if name == "cheeseswap"@ {
        seq![800, 2000, 5000]
    } else if name == "ellipsis"@ {
        seq![100, 500, 2000]
    } else if name == "belt"@ {
        seq![100, 400, 1500]
    } else if name == "alpaca"@ {
        seq![500, 2000, 5000]
    } else if name == "babyswap"@ {
        seq![500, 1500, 3000]
    } else {
        Seq::empty()
    }
}

/// The fee tiers of an exchange of the given version and name.
pub fn fees_for(v2: bool, name: &str) -> (r: Vec<u32>)
    ensures
        r@ == fee_table(v2, name@),
{
    if v2 {
        vec![3000]
    } else if text_is(name, "pancake") {
        vec![500, 2500, 10000]
    } else if text_is(name, "uniswap") {
        vec![500, 3000, 10000]
    } else if text_is(name, "mdex") {
        vec![500, 2000, 10000]
    } else if text_is(name, "apeswap") {
        vec![500, 2500, 5000]
    } else if text_is(name, "biswap") {
        vec![1000, 2000, 3000]
    } else if text_is(name, "sushi") {
        vec![500, 3000, 10000]
    } else if text_is(name, "wault") {
        vec![500, 1500, 3000]
    } else if text_is(name, "cheeseswap") {
        vec![800, 2000, 5000]
    } else if text_is(name, "ellipsis") {
        vec![100, 500, 2000]
    } else if text_is(name, "belt") {
        vec![100, 400, 1500]
    } else if text_is(name, "alpaca") {
        vec![500, 2000, 5000]
    } else if text_is(name, "babyswap") {
        vec![500, 1500, 3000]
    } else {
        Vec::new()
    }
}

/// Whether the list holds the fee.
pub fn fee_listed(fees: &Vec<u32>, fee: u32) -> (r: bool)
    ensures
        r == fees@.contains(fee),
{
    let mut i: usize = 0;
    while i < fees.len()
        invariant
            i <= fees@.len(),
            forall|k: int| 0 <= k < i ==> fees@[k] != fee,
        decreases fees@.len() - i,
    {
        if fees[i] == fee {
            assert(fees@[i as int] == fee);
            return true;
        }
        i = i + 1;
    }
    false
}

/// What the factory is asked for a pool: `getPair(a, b)` of a V2 factory,
/// `getPool(a, b, fee)` of a V3 one.
#[derive(Clone, Copy, Debug, PartialEq, Eq, Structural)]
pub struct PoolQuery {
    pub v2: bool,
    pub a: H160,
    pub b: H160,
    pub fee: u32,
}

/// The pool a factory reports: none when the call failed or the address is
/// zero.
pub open spec fn reported_pool(reply: Option<H160>) -> Option<H160> {
    match reply {
        Some(a) => if a == (H160 { hi: 0, mid: 0, lo: 0 }) {
            None
        } else {
            Some(a)
        },
        None => None,
    }
}

/// The pool a factory's reply reports.
pub fn pool_from_reply(reply: Option<H160>) -> (r: Option<H160>)
    ensures
        r == reported_pool(reply),
{
    match reply {
        Some(a) => if a == H160::zero() {
            None
        } else {
            Some(a)
        },
        None => None,
    }
}

/// An exchange: its name, and the pools found on it, by pair (the pool
/// handles of each pair in order) and by address.
pub struct Dex<P> {
    pub name: String,
    pub pools: KeyedLists<PairKey, P>,
    pub pools_by_address: KeyedMap<H160, P>,
}

/// An exchange of either version.
pub enum AnyDex<P> {
    V2(Dex<P>),
    V3(Dex<P>),
}

impl<P: Clone> AnyDex<P> {
    /// The exchange's name.
    pub open spec fn name_spec(&self) -> Seq<char> {
        match self {
            AnyDex::V2(d) => d.name@,
            AnyDex::V3(d) => d.name@,
        }
    }

    /// The exchange's pools.
    pub open spec fn dex(&self) -> Dex<P> {
        match self {
            AnyDex::V2(d) => *d,
            AnyDex::V3(d) => *d,
        }
    }

    /// The fee tiers the exchange supports.
    pub fn supported_fees(&self) -> (r: Vec<u32>)
        ensures
            r@ == fee_table(self is V2, self.name_spec()),
    {
        match self {
            AnyDex::V2(_) => fees_for(true, ""),
            AnyDex::V3(dex) => fees_for(false, dex.name.as_str()),
        }
    }

    /// An exchange with no pools yet.
    pub fn new(name: String, v2: bool) -> (r: Self)
        ensures
            r is V2 <==> v2,
            r.name_spec() == name@,
            forall|k: PairKey| !r.dex().pools.has(k),
            forall|a: H160| r.dex().pools_by_address.get_spec(a) is None,
    {
        let dex = Dex { name, pools: KeyedLists::new(), pools_by_address: KeyedMap::new() };
        if v2 {
            AnyDex::V2(dex)
        } else {
            AnyDex::V3(dex)
        }
    }

    /// The first step of looking up the pool of a pair: the factory call
    /// to make, or `None` when the exchange does not support the fee.
    pub fn pool_query(&self, pair: &Pair, fee: u32) -> (r: Option<PoolQuery>)
        ensures
            r is None <==> !fee_table(self is V2, self.name_spec()).contains(fee),
            r matches Some(q) ==> q == (PoolQuery {
                v2: self is V2,
                a: pair.a.address,
                b: pair.b.address,
                fee,
            }),
    {
        let fees = self.supported_fees();
        if !fee_listed(&fees, fee) {
            return None;
        }
        let v2 = match self {
            AnyDex::V2(_) => true,
            AnyDex::V3(_) => false,
        };
        Some(PoolQuery { v2, a: pair.a.address, b: pair.b.address, fee })
    }

    /// Records a pool found for a pair: the pair's list becomes that pool
    /// alone, and the pool is found under its address.
    pub fn record_pool(&mut self, pair: &Pair, address: H160, pool: P)
        ensures
            *final(self) is V2 <==> *old(self) is V2,
            final(self).name_spec() == old(self).name_spec(),
            final(self).dex().pools.list(pair.key_spec()).len() == 1,
            cloned(pool, final(self).dex().pools.list(pair.key_spec())[0]),
            forall|k: PairKey| k != pair.key_spec() ==> #[trigger] final(self).dex().pools.list(k)
                == old(self).dex().pools.list(k),
            final(self).dex().pools_by_address.get_spec(address) == Some(pool),
            forall|a: H160| a != address ==> #[trigger] final(self).dex().pools_by_address.get_spec(a)
                == old(self).dex().pools_by_address.get_spec(a),
    {
        let copy = pool.clone();
        let key = pair.key();
        match self {
            AnyDex::V2(dex) => {
                dex.pools.set(key, vec![copy]);
                dex.pools_by_address.insert(address, pool);
            },
            AnyDex::V3(dex) => {
                dex.pools.set(key, vec![copy]);
                dex.pools_by_address.insert(address, pool);
            },
        }
    }

    /// The pool found under an address.
    pub fn get_pool_by_address(&self, address: H160) -> (r: Option<P>)
        ensures
            r is Some <==> self.dex().pools_by_address.get_spec(address) is Some,
            r matches Some(p) ==> cloned(self.dex().pools_by_address.get_spec(address)->0, p),
    {
        match self {
            AnyDex::V2(dex) | AnyDex::V3(dex) => match dex.pools_by_address.get(&address) {
                Some(p) => Some(p.clone()),
                None => None,
            },
        }
    }

    /// Adds a pool of a pair: found under its address, and appended to the
    /// pair's list.
    pub fn add_pool(&mut self, pair: &Pair, address: H160, pool: P)
        ensures
            *final(self) is V2 <==> *old(self) is V2,
            final(self).name_spec() == old(self).name_spec(),
            final(self).dex().pools_by_address.get_spec(address) is Some,
            cloned(pool, final(self).dex().pools_by_address.get_spec(address)->0),
            forall|a: H160| a != address ==> #[trigger] final(self).dex().pools_by_address.get_spec(a)
                == old(self).dex().pools_by_address.get_spec(a),
            final(self).dex().pools.list(pair.key_spec()) == old(self).dex().pools.list(
                pair.key_spec(),
            ).push(pool),
            forall|k: PairKey| k != pair.key_spec() ==> #[trigger] final(self).dex().pools.list(k)
                == old(self).dex().pools.list(k),
    {
        let copy = pool.clone();
        let key = pair.key();
        match self {
            AnyDex::V2(dex) => {
                dex.pools_by_address.insert(address, copy);
                dex.pools.push(key, pool);
            },
            AnyDex::V3(dex) => {
                dex.pools_by_address.insert(address, copy);
                dex.pools.push(key, pool);
            },
        }
    }

    /// The exchange's name.
    pub fn get_name(&self) -> (r: &str)
        ensures
            r@ == self.name_spec(),
    {
        match self {
            AnyDex::V2(dex) | AnyDex::V3(dex) => dex.name.as_str(),
        }
    }

    /// The exchange's version: "v2" or "v3".
    pub fn get_version(&self) -> (r: &str)
        ensures
            r@ == (if self is V2 {
                "v2"@
            } else {
                "v3"@
            }),
    {
        match self {
            AnyDex::V2(_) => "v2",
            AnyDex::V3(_) => "v3",
        }
    }
}

} // verus!

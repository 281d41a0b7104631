//! Pool factories: where the pools of a token pair are looked up.
use vstd::prelude::*;
use crate::address::H160;
use crate::dex::{PoolQuery, fee_table, fees_for, fee_listed};

verus! {

/// A factory contract: the exchange's name and the contract's address.
#[derive(Clone, Debug)]
pub struct Factory {
    pub name: String,
    pub address: H160,
}

impl Factory {
    pub fn new(name: String, address: H160) -> (r: Self)
        ensures
            r.name@ == name@,
            r.address == address,
    {
        Self { name, address }
    }
}

/// A factory of either version.
#[derive(Clone, Debug)]
pub enum AnyFactory {
    V2(Factory),
    V3(Factory),
}

impl AnyFactory {
    /// The factory's exchange name.
    pub open spec fn name_spec(&self) -> Seq<char> {
        match self {
            AnyFactory::V2(f) => f.name@,
            AnyFactory::V3(f) => f.name@,
        }
    }

    /// The factory contract's address.
    pub open spec fn address_spec(&self) -> H160 {
        match self {
            AnyFactory::V2(f) => f.address,
            AnyFactory::V3(f) => f.address,
        }
    }

    /// The fee tiers the factory's exchange supports.
    pub fn supported_fees(&self) -> (r: Vec<u32>)
        ensures
            r@ == fee_table(self is V2, self.name_spec()),
    {
        match self {
            AnyFactory::V2(_) => fees_for(true, ""),
            AnyFactory::V3(f) => fees_for(false, f.name.as_str()),
        }
    }

    pub fn new(name: String, v2: bool, address: H160) -> (r: Self)
        ensures
            r is V2 <==> v2,
            r.name_spec() == name@,
            r.address_spec() == address,
    {
        let f = Factory { name, address };
        if v2 {
            Self::V2(f)
        } else {
            Self::V3(f)
        }
    }

    /// The first step of looking up a pool: the factory call to make
    /// (`getPair(token0, token1)` for V2, `getPool(token0, token1, fee)` for
    /// V3), or `None` when the fee is not supported. The tick spacing plays
    /// no part.
    pub fn pool_query(&self, token0: &H160, token1: &H160, fee: &u32, tick_spacing: &u32) -> (r:
        Option<PoolQuery>)
        ensures
            r is None <==> !fee_table(self is V2, self.name_spec()).contains(*fee),
            r matches Some(q) ==> q == (PoolQuery { v2: self is V2, a: *token0, b: *token1, fee: *fee }),
    {
        let fees = self.supported_fees();
        if !fee_listed(&fees, *fee) {
            return None;
        }
        let v2 = match self {
            AnyFactory::V2(_) => true,
            AnyFactory::V3(_) => false,
        };
        Some(PoolQuery { v2, a: *token0, b: *token1, fee: *fee })
    }

    /// The exchange's name.
    pub fn get_name(&self) -> (r: &str)
        ensures
            r@ == self.name_spec(),
    {
        match self {
            AnyFactory::V2(f) => f.name.as_str(),
            AnyFactory::V3(f) => f.name.as_str(),
        }
    }

    /// The factory's version: "v2" or "v3".
    pub fn get_version(&self) -> (r: &str)
        ensures
            r@ == (if self is V2 {
                "v2"@
            } else {
                "v3"@
            }),
    {
        match self {
            AnyFactory::V2(_) => "v2",
            AnyFactory::V3(_) => "v3",
        }
    }

    /// The factory contract's address.
    pub fn get_address(&self) -> (r: H160)
        ensures
            r == self.address_spec(),
    {
        match self {
            AnyFactory::V2(f) => f.address,
            AnyFactory::V3(f) => f.address,
        }
    }
}

} // verus!

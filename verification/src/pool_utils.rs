//! Pools as read from chain, of either version, and what is read off them.
use vstd::prelude::*;
use vstd::arithmetic::power2::pow2;
use crate::address::H160;
use crate::uint::{U256, modulus, saturating_mul, checked_div, shl, shr, lemma_pow2_values};
use crate::token::Token;
use crate::v2_pool::V2Pool;
pub use crate::tick_math::Tick;
pub use crate::trade::Trade;
pub use crate::block_decoder::AbisData;

verus! {

/// A V3 pool as read from chain: its tokens, fee, exchange, active
/// liquidity and Q64.96 square-root price.
#[derive(Debug)]
pub struct V3Pool {
    pub address: H160,
    pub token0: Token,
    pub token1: Token,
    pub exchange: String,
    pub version: String,
    pub fee: u32,
    pub liquidity: U256,
    pub x96price: U256,
}

/// A pool of either version.
#[derive(Debug)]
pub enum AnyPool {
    V2(V2Pool),
    V3(V3Pool),
}

/// `x * y` saturated at the largest 256-bit number.
pub open spec fn saturated_product(x: nat, y: nat) -> nat {
    if x * y < modulus() {
        x * y
    } else {
        (modulus() - 1) as nat
    }
}

impl AnyPool {
    /// The pool's two token addresses, token0 first.
    pub open spec fn tokens(&self) -> (H160, H160) {
        match self {
            AnyPool::V2(p) => (p.token0.address, p.token1.address),
            AnyPool::V3(p) => (p.token0.address, p.token1.address),
        }
    }

    /// The pool's address.
    pub open spec fn address(&self) -> H160 {
        match self {
            AnyPool::V2(p) => p.address,
            AnyPool::V3(p) => p.address,
        }
    }

    /// The other token of the pool, given one of its tokens; `None` for a
    /// token the pool does not hold.
    pub fn get_other(&self, token: &H160) -> (r: Option<H160>)
        ensures
            r == (if self.tokens().0 == *token {
                Some(self.tokens().1)
            } else if self.tokens().1 == *token {
                Some(self.tokens().0)
            } else {
                None
            }),
    {
        let tokens = self.get_tokens();
        if tokens[0] == *token {
            Some(tokens[1])
        } else if tokens[1] == *token {
            Some(tokens[0])
        } else {
            None
        }
    }

    /// The pool's two token addresses, token0 first.
    pub fn get_tokens(&self) -> (r: [H160; 2])
        ensures
            r@ == seq![self.tokens().0, self.tokens().1],
    {
        let r = match self {
            AnyPool::V2(p) => [p.token0.address, p.token1.address],
            AnyPool::V3(p) => [p.token0.address, p.token1.address],
        };
        proof {
            assert(r@ =~= seq![self.tokens().0, self.tokens().1]);
        }
        r
    }

    /// Whether the address is the pool's token0.
    pub fn is_0(&self, addr: &H160) -> (r: bool)
        ensures
            r == (self.tokens().0 == *addr),
    {
        match self {
            AnyPool::V2(p) => p.token0.address == *addr,
            AnyPool::V3(p) => p.token0.address == *addr,
        }
    }

    /// Whether the address is the pool's token0 (only token0 is checked).
    pub fn in_pool(&self, addr: H160) -> (r: bool)
        ensures
            r == (self.tokens().0 == addr),
    {
        match self {
            AnyPool::V2(p) => p.token0.address == addr,
            AnyPool::V3(p) => p.token0.address == addr,
        }
    }

    /// The pool's address.
    pub fn get_address(&self) -> (r: H160)
        ensures
            r == self.address(),
    {
        match self {
            AnyPool::V2(p) => p.address,
            AnyPool::V3(p) => p.address,
        }
    }

    /// The pool's fee.
    pub fn get_fee(&self) -> (r: u32)
        ensures
            r == (match self {
                AnyPool::V2(p) => p.fee,
                AnyPool::V3(p) => p.fee,
            }),
    {
        match self {
            AnyPool::V2(p) => p.fee,
            AnyPool::V3(p) => p.fee,
        }
    }

    /// The pool's version: "v2" or "v3".
    pub fn get_version(&self) -> (r: String)
        ensures
            r@ == (if self is V2 {
                "v2"@
            } else {
                "v3"@
            }),
    {
        match self {
            AnyPool::V2(_) => "v2".to_owned(),
            AnyPool::V3(_) => "v3".to_owned(),
        }
    }

    /// The pool's exchange.
    pub fn get_dex(&self) -> (r: String)
        ensures
            r@ == (match self {
                AnyPool::V2(p) => p.exchange@,
                AnyPool::V3(p) => p.exchange@,
            }),
    {
        match self {
            AnyPool::V2(p) => p.exchange.clone(),
            AnyPool::V3(p) => p.exchange.clone(),
        }
    }

    /// The pool's reserves: a V2 pool's own; for a V3 pool the virtual
    /// reserves of its liquidity `L` at square-root price `P` (Q64.96):
    /// `L * 2^96 / P` (zero when `P` is zero) and `L * P / 2^96`, each
    /// product saturated at the largest 256-bit number.
    pub fn get_reserves(&self) -> (r: Option<(U256, U256)>)
        ensures
            r is Some,
            r matches Some((r0, r1)) ==> match self {
                AnyPool::V2(p) => r0 == p.reserves0 && r1 == p.reserves1,
                AnyPool::V3(p) => {
                    &&& r0.value() == (if p.x96price.value() == 0 {
                        0
                    } else {
                        saturated_product(p.liquidity.value(), pow2(96)) / p.x96price.value()
                    })
                    &&& r1.value() == saturated_product(p.liquidity.value(), p.x96price.value())
                        / pow2(96)
                },
            },
    {
        match self {
            AnyPool::V2(p) => Some((p.reserves0, p.reserves1)),
            AnyPool::V3(p) => {
                let liquidity = p.liquidity;
                let sqrt_price_x96 = p.x96price;
                proof {
                    lemma_pow2_values();
                }
                let q96 = shl(U256::one(), 96);
                assert(q96.value() == pow2(96));
                let numerator0 = saturating_mul(liquidity, q96);
                let r0 = match checked_div(numerator0, sqrt_price_x96) {
                    Some(v) => v,
                    None => U256::zero(),
                };
                let r1 = shr(saturating_mul(liquidity, sqrt_price_x96), 96);
                Some((r0, r1))
            },
        }
    }
}

/// A pool and whether the token it is listed under is its token0.
#[derive(Clone, Debug)]
pub struct PoolDir<P> {
    pub pool: P,
    pub is0: bool,
}

impl<P> PoolDir<P> {
    pub fn new(pool: P, is0: bool) -> (r: Self)
        ensures
            r.pool == pool,
            r.is0 == is0,
    {
        Self { pool, is0 }
    }
}

/// The pools of a token.
#[derive(Debug)]
pub struct TokenPools<P> {
    pub pools: Vec<PoolDir<P>>,
}

impl<P> TokenPools<P> {
    pub fn new(pools: Vec<PoolDir<P>>) -> (r: Self)
        ensures
            r.pools@ == pools@,
    {
        TokenPools { pools }
    }

    /// Appends a pool.
    pub fn add_pool(&mut self, pool: PoolDir<P>)
        ensures
            final(self).pools@ == old(self).pools@.push(pool),
    {
        self.pools.push(pool);
    }
}

} // verus!

//! A simulated pool of either kind.
use vstd::prelude::*;
use crate::address::H160;
use crate::trade::Trade;
use crate::uint::{U256, modulus, saturating_add, saturating_sub};
use crate::arbitro::PoolUpdate;
use crate::v2_pool::{V2PoolSim, v2_quote, v2_trade_matches, v2_swapped};
use crate::v3_pool_sim::{V3PoolSim, v3_swap, v3_swapped};

verus! {

/// `a + b`, capped at 2^256 - 1.
pub open spec fn sat_add(a: nat, b: nat) -> nat {
    if a + b >= modulus() {
        (modulus() - 1) as nat
    } else {
        a + b
    }
}

/// `a - b`, floored at 0.
pub open spec fn sat_sub(a: nat, b: nat) -> nat {
    if b > a {
        0
    } else {
        (a - b) as nat
    }
}

/// A reserve after an event adds `add` and takes `take` (each step
/// saturating).
pub open spec fn moved_reserve(r: nat, add: nat, take: nat) -> nat {
    sat_sub(sat_add(r, add), take)
}

/// `q` is the pool `p` after it applies the update of an event: a V2 pool's
/// reserves take in what a swap or mint adds and give up what a swap or
/// burn takes, all else kept; a V3 simulation, whose price and liquidity the
/// amounts alone do not fix, is kept as it is.
pub open spec fn applied(p: AnyPoolSim, u: PoolUpdate, q: AnyPoolSim) -> bool {
    match p {
        AnyPoolSim::V2(a) => match q {
            AnyPoolSim::V2(b) => {
                let (add0, add1, take0, take1) = match u {
                    PoolUpdate::Swap { amount0_in, amount1_in, amount0_out, amount1_out } => (
                        amount0_in.value(),
                        amount1_in.value(),
                        amount0_out.value(),
                        amount1_out.value(),
                    ),
                    PoolUpdate::Mint { amount0, amount1 } => (amount0.value(), amount1.value(), 0, 0),
                    PoolUpdate::Burn { amount0, amount1 } => (0, 0, amount0.value(), amount1.value()),
                };
                &&& b.reserves0.value() == moved_reserve(a.reserves0.value(), add0, take0)
                &&& b.reserves1.value() == moved_reserve(a.reserves1.value(), add1, take1)
                &&& b.address == a.address
                &&& b.token0 == a.token0
                &&& b.token1 == a.token1
                &&& b.exchange == a.exchange
                &&& b.version == a.version
                &&& b.fee == a.fee
            },
            AnyPoolSim::V3(_) => false,
        },
        AnyPoolSim::V3(_) => q == p,
    }
}

/// A pool frozen for simulation, V2 or V3.
#[derive(Debug)]
pub enum AnyPoolSim {
    V2(V2PoolSim),
    V3(V3PoolSim),
}

impl AnyPoolSim {
    /// The swaps that the pool's simulation accepts without panicking: all
    /// of them for V2; for V3 those whose walk over the ticks does not panic.
    pub open spec fn trade_admitted(&self, amount_in: U256, from0: bool) -> bool {
        match self {
            AnyPoolSim::V2(_) => true,
            AnyPoolSim::V3(p) => !(v3_swap(*p, amount_in.value(), from0) is Panics),
        }
    }

    /// `r` and `after` are the quote and the pool after a swap of
    /// `amount_in`, as the V2 and V3 `trade` functions state them: the pool
    /// keeps its kind, and its state moves by the swap.
    pub open spec fn trade_step(&self, amount_in: U256, from0: bool, r: Option<Trade>, after: AnyPoolSim) -> bool {
        match self {
            AnyPoolSim::V2(p) => {
                &&& (r is None <==> v2_quote(
                    p.reserves0.value(),
                    p.reserves1.value(),
                    amount_in.value(),
                    from0,
                ) is None)
                &&& (r matches Some(t) ==> v2_trade_matches(
                    t,
                    p.exchange@,
                    p.version@,
                    p.fee,
                    p.token0.address,
                    p.token1.address,
                    p.address,
                    from0,
                    amount_in,
                    p.reserves0,
                    p.reserves1,
                ))
                &&& match after {
                    AnyPoolSim::V2(q) => v2_swapped(*p, amount_in, from0, q),
                    AnyPoolSim::V3(_) => false,
                }
            },
            AnyPoolSim::V3(p) => match after {
                AnyPoolSim::V3(q) => v3_swapped(*p, amount_in, from0, r, q),
                AnyPoolSim::V2(_) => false,
            },
        }
    }

    /// Purely synchronous AMM calculation, mutating the simulated state.
    pub fn trade(&mut self, amount_in: U256, from0: bool) -> (r: Option<Trade>)
        requires
            old(self).trade_admitted(amount_in, from0),
        ensures
            old(self).trade_step(amount_in, from0, r, *final(self)),
    {
        match self {
            AnyPoolSim::V2(sim) => sim.trade(amount_in, from0),
            AnyPoolSim::V3(sim) => sim.trade(amount_in, from0),
        }
    }

    /// Applies the update of an event to the pool (`applied`).
    pub fn apply_update(&mut self, u: PoolUpdate)
        ensures
            applied(*old(self), u, *final(self)),
            final(self).tokens() == old(self).tokens(),
            final(self).address() == old(self).address(),
    {
        let (add0, add1, take0, take1) = match u {
            PoolUpdate::Swap { amount0_in, amount1_in, amount0_out, amount1_out } => (
                amount0_in,
                amount1_in,
                amount0_out,
                amount1_out,
            ),
            PoolUpdate::Mint { amount0, amount1 } => (amount0, amount1, U256::zero(), U256::zero()),
            PoolUpdate::Burn { amount0, amount1 } => (U256::zero(), U256::zero(), amount0, amount1),
        };
        match self {
            AnyPoolSim::V2(p) => {
                p.reserves0 = saturating_sub(saturating_add(p.reserves0, add0), take0);
                p.reserves1 = saturating_sub(saturating_add(p.reserves1, add1), take1);
            },
            AnyPoolSim::V3(_) => {},
        }
    }

    /// The pool's two token addresses, token0 first.
    pub open spec fn tokens(&self) -> (H160, H160) {
        match self {
            AnyPoolSim::V2(p) => (p.token0.address, p.token1.address),
            AnyPoolSim::V3(p) => (p.token0.address, p.token1.address),
        }
    }

    /// The pool's address.
    pub open spec fn address(&self) -> H160 {
        match self {
            AnyPoolSim::V2(p) => p.address,
            AnyPoolSim::V3(p) => p.address,
        }
    }

    pub fn get_tokens(&self) -> (r: [H160; 2])
        ensures
            r@ == seq![self.tokens().0, self.tokens().1],
    {
        let r = match self {
            AnyPoolSim::V2(v2_pool) => [v2_pool.token0.address, v2_pool.token1.address],
            AnyPoolSim::V3(v3_pool) => [v3_pool.token0.address, v3_pool.token1.address],
        };
        proof {
            assert(r@ =~= seq![self.tokens().0, self.tokens().1]);
        }
        r
    }

    pub fn get_address(&self) -> (r: H160)
        ensures
            r == self.address(),
    {
        match self {
            AnyPoolSim::V2(v2_pool) => v2_pool.address,
            AnyPoolSim::V3(v3_pool) => v3_pool.address,
        }
    }

    /// Whether `token` is the pool's token0.
    pub fn is_0(&self, token: &H160) -> (r: bool)
        ensures
            r == (self.tokens().0 == *token),
    {
        match self {
            AnyPoolSim::V2(v2_pool) => v2_pool.token0.address == *token,
            AnyPoolSim::V3(v3_pool) => v3_pool.token0.address == *token,
        }
    }
}

} // verus!

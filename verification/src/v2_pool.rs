//! Constant-product (V2) pools: the on-chain view, the source record and the
//! offline simulation, which all quote swaps with the same formula.
use vstd::prelude::*;
use vstd::arithmetic::power::pow;
use crate::address::H160;
use crate::token::Token;
use crate::trade::Trade;
use crate::uint::{U256, checked_add, checked_sub, checked_mul, checked_div, pow_u256, eq, modulus};

verus! {

/// 10^18, the fixed-point scale of quoted prices.
pub open spec fn e18() -> nat {
    1_000_000_000_000_000_000nat
}

/// A V2 quote: `(amount_out, price_impact, fee_amount, raw_price)`.
///
/// With `(rin, rout)` the reserves in trade direction and
/// `a = amount_in * 997 / 1000` (the 0.3% fee taken off):
/// `amount_out = a * rout / (rin + a)`; the price before and after, scaled by
/// 10^18, are `cp = rout * 10^18 / rin` and
/// `np = (rout - amount_out) * 10^18 / (rin + a)`;
/// `price_impact = (cp - np) * 10000 / cp` (basis points);
/// `fee_amount = amount_in - a`; `raw_price = cp`. `None` when the input
/// reserve is empty or any 256-bit step overflows, underflows or divides by
/// zero.
pub open spec fn v2_quote(reserves0: nat, reserves1: nat, amount_in: nat, from0: bool) -> Option<
    (nat, nat, nat, nat),
> {
    let rin = if from0 { reserves0 } else { reserves1 };
    let rout = if from0 { reserves1 } else { reserves0 };
    if rin == 0 || amount_in * 997 >= modulus() {
        None
    } else {
        let a = (amount_in * 997) / 1000;
        if a * rout >= modulus() || rin + a >= modulus() {
            None
        } else {
            let out = (a * rout) / (rin + a);
            if rout < out || rout * e18() >= modulus() || (rout - out) * e18() >= modulus() {
                None
            } else {
                let cp = (rout * e18()) / rin;
                let np = (((rout - out) as nat) * e18()) / (rin + a);
                if cp < np || (cp - np) * 10000 >= modulus() || cp == 0 || amount_in < a {
                    None
                } else {
                    Some((out, (((cp - np) as nat) * 10000) / cp, (amount_in - a) as nat, cp))
                }
            }
        }
    }
}

/// 10^18 is `pow(10, 18)`.
proof fn lemma_pow_10_18()
    ensures
        pow(10, 18) == e18(),
{
    vstd::arithmetic::power::lemma_pow1(10);
    vstd::arithmetic::power::lemma_pow_adds(10, 1, 1);
    assert(pow(10, 2) == 100);
    vstd::arithmetic::power::lemma_pow_adds(10, 1, 2);
    assert(pow(10, 3) == 1000);
    vstd::arithmetic::power::lemma_pow_adds(10, 3, 3);
    assert(pow(10, 6) == 1_000_000);
    vstd::arithmetic::power::lemma_pow_adds(10, 3, 6);
    assert(pow(10, 9) == 1_000_000_000);
    vstd::arithmetic::power::lemma_pow_adds(10, 9, 9);
    assert(pow(10, 18) == 1_000_000_000_000_000_000);
}

/// The V2 formula on 256-bit values: `(amount_out, price_impact, fee_amount,
/// raw_price)` as `v2_quote` states. The output is always below the output
/// reserve: a swap never drains the pool.
#[verifier::rlimit(50)]
pub fn v2_trade_math(reserves0: U256, reserves1: U256, amount_in: U256, from0: bool) -> (r: Option<
    (U256, U256, U256, U256),
>)
    ensures
        match v2_quote(reserves0.value(), reserves1.value(), amount_in.value(), from0) {
            Some(q) => r matches Some(t) && t.0.value() == q.0 && t.1.value() == q.1
                && t.2.value() == q.2 && t.3.value() == q.3,
            None => r is None,
        },
        r matches Some(t) ==> t.0.value() < (if from0 {
            reserves1.value()
        } else {
            reserves0.value()
        }),
{
    if (from0 && eq(reserves0, U256::zero())) || (!from0 && eq(reserves1, U256::zero())) {
        return None;
    }
    let (reserve_in, reserve_out) = if from0 {
        (reserves0, reserves1)
    } else {
        (reserves1, reserves0)
    };
    let amount_in_less_fee = match checked_mul(amount_in, U256::from_u64(997)) {
        Some(x) => match checked_div(x, U256::from_u64(1000)) {
            Some(y) => y,
            None => return None,
        },
        None => return None,
    };
    let numerator = match checked_mul(amount_in_less_fee, reserve_out) {
        Some(x) => x,
        None => return None,
    };
    let denominator = match checked_add(reserve_in, amount_in_less_fee) {
        Some(x) => x,
        None => return None,
    };
    let amount_out = match checked_div(numerator, denominator) {
        Some(x) => x,
        None => return None,
    };
    proof {
        let a = amount_in_less_fee.value() as int;
        let ro = reserve_out.value() as int;
        let ri = reserve_in.value() as int;
        assert((a * ro) / (ri + a) < ro || ro == 0) by (nonlinear_arith)
            requires ri > 0, a >= 0, ro >= 0;
        if ro == 0 {
            assert(a * ro == 0) by (nonlinear_arith) requires ro == 0;
        }
    }
    let _current_price = match checked_div(reserve_out, reserve_in) {
        Some(x) => x,
        None => return None,
    };
    let new_reserve_in = match checked_add(reserve_in, amount_in_less_fee) {
        Some(x) => x,
        None => return None,
    };
    let new_reserve_out = match checked_sub(reserve_out, amount_out) {
        Some(x) => x,
        None => return None,
    };
    let _new_price = match checked_div(new_reserve_out, new_reserve_in) {
        Some(x) => x,
        None => return None,
    };
    proof {
        lemma_pow_10_18();
    }
    let scale = pow_u256(U256::from_u64(10), U256::from_u64(18));
    let current_price = match checked_mul(reserve_out, scale) {
        Some(x) => match checked_div(x, reserve_in) {
            Some(y) => y,
            None => return None,
        },
        None => return None,
    };
    let new_price = match checked_mul(new_reserve_out, scale) {
        Some(x) => match checked_div(x, new_reserve_in) {
            Some(y) => y,
            None => return None,
        },
        None => return None,
    };
    let price_impact = match checked_sub(current_price, new_price) {
        Some(x) => match checked_mul(x, U256::from_u64(10000)) {
            Some(y) => match checked_div(y, current_price) {
                Some(z) => z,
                None => return None,
            },
            None => return None,
        },
        None => return None,
    };
    let fee_amount = match checked_sub(amount_in, amount_in_less_fee) {
        Some(x) => x,
        None => return None,
    };
    Some((amount_out, price_impact, fee_amount, current_price))
}

/// A V2 pool as read from chain: tokens, fee and reserves.
#[derive(Debug)]
pub struct V2Pool {
    pub address: H160,
    pub token0: Token,
    pub token1: Token,
    pub exchange: String,
    pub version: String,
    pub fee: u32,
    pub reserves0: U256,
    pub reserves1: U256,
}

/// The trade a V2 pool quotes from a successful `v2_trade_math`.
pub open spec fn v2_trade_matches(
    t: Trade,
    dex: Seq<char>,
    version: Seq<char>,
    fee: u32,
    token0: H160,
    token1: H160,
    pool: H160,
    from0: bool,
    amount_in: U256,
    reserves0: U256,
    reserves1: U256,
) -> bool {
    match v2_quote(reserves0.value(), reserves1.value(), amount_in.value(), from0) {
        Some(q) => {
            &&& t.dex@ == dex
            &&& t.version@ == version
            &&& t.fee == fee
            &&& t.token0 == token0
            &&& t.token1 == token1
            &&& t.pool == pool
            &&& t.from0 == from0
            &&& t.amount_in == amount_in
            &&& t.amount_out.value() == q.0
            &&& t.price_impact.value() == q.1
            &&& t.fee_amount.value() == q.2
            &&& t.raw_price.value() == q.3
        },
        None => false,
    }
}

impl V2Pool {
    /// A pool with empty reserves (they are filled by the first update).
    pub fn new(
        exchange: String,
        version: String,
        fee: u32,
        address: H160,
        token0: Token,
        token1: Token,
    ) -> (r: Self)
        ensures
            r.exchange@ == exchange@,
            r.version@ == version@,
            r.fee == fee,
            r.address == address,
            r.token0.address == token0.address,
            r.token1.address == token1.address,
            r.reserves0.value() == 0,
            r.reserves1.value() == 0,
    {
        V2Pool {
            address,
            token0,
            token1,
            exchange,
            version,
            fee,
            reserves0: U256::zero(),
            reserves1: U256::zero(),
        }
    }

    /// The reply of `getReserves()`: on success the reserves are recorded
    /// (the result is `true`); on failure nothing changes.
    pub fn update(&mut self, reply: Option<(U256, U256)>) -> (r: bool)
        ensures
            r == reply is Some,
            reply matches Some((a, b)) ==> final(self).reserves0 == a && final(self).reserves1 == b,
            reply is None ==> final(self).reserves0 == old(self).reserves0
                && final(self).reserves1 == old(self).reserves1,
            final(self).address == old(self).address,
            final(self).fee == old(self).fee,
    {
        match reply {
            Some((reserve0, reserve1)) => {
                self.reserves0 = reserve0;
                self.reserves1 = reserve1;
                true
            },
            None => false,
        }
    }

    /// Quote a swap of `amount_in` (token0 in when `from0`).
    pub fn trade(&self, amount_in: U256, from0: bool) -> (r: Option<Trade>)
        ensures
            r is None <==> v2_quote(
                self.reserves0.value(),
                self.reserves1.value(),
                amount_in.value(),
                from0,
            ) is None,
            r matches Some(t) ==> v2_trade_matches(
                t,
                self.exchange@,
                self.version@,
                self.fee,
                self.token0.address,
                self.token1.address,
                self.address,
                from0,
                amount_in,
                self.reserves0,
                self.reserves1,
            ),
    {
        match v2_trade_math(self.reserves0, self.reserves1, amount_in, from0) {
            Some((amount_out, price_impact, fee_amount, raw_price)) => Some(
                Trade {
                    dex: self.exchange.clone(),
                    version: self.version.clone(),
                    fee: self.fee,
                    token0: self.token0.address,
                    token1: self.token1.address,
                    pool: self.address,
                    from0,
                    amount_in,
                    amount_out,
                    price_impact,
                    fee_amount,
                    raw_price,
                },
            ),
            None => None,
        }
    }
}

/// The source record of a V2 pool: its address, the addresses of its tokens,
/// fee and last known reserves. (The token records themselves and the
/// contract handle stay with the caller.)
#[derive(Debug)]
pub struct V2PoolSrc {
    pub address: H160,
    pub token0_addr: H160,
    pub token1_addr: H160,
    pub exchange: String,
    pub version: String,
    pub fee: u32,
    pub reserves0: U256,
    pub reserves1: U256,
}

impl V2PoolSrc {
    /// A pool with empty reserves (they are filled by the first update).
    pub fn new(
        exchange: String,
        version: String,
        fee: u32,
        address: H160,
        token0_addr: H160,
        token1_addr: H160,
    ) -> (r: Self)
        ensures
            r.exchange@ == exchange@,
            r.version@ == version@,
            r.fee == fee,
            r.address == address,
            r.token0_addr == token0_addr,
            r.token1_addr == token1_addr,
            r.reserves0.value() == 0,
            r.reserves1.value() == 0,
    {
        V2PoolSrc {
            address,
            token0_addr,
            token1_addr,
            exchange,
            version,
            fee,
            reserves0: U256::zero(),
            reserves1: U256::zero(),
        }
    }

    /// The reply of `getReserves()`: on success the reserves are recorded
    /// and the pool's address is the result; on failure nothing changes and
    /// the result is `None` (the call's error is the caller's).
    pub fn update(&mut self, reply: Option<(U256, U256)>) -> (r: Option<H160>)
        ensures
            reply matches Some((a, b)) ==> final(self).reserves0 == a && final(self).reserves1 == b
                && r == Some(old(self).address),
            reply is None ==> r is None && final(self).reserves0 == old(self).reserves0
                && final(self).reserves1 == old(self).reserves1,
            final(self).address == old(self).address,
            final(self).token0_addr == old(self).token0_addr,
            final(self).token1_addr == old(self).token1_addr,
            final(self).fee == old(self).fee,
    {
        match reply {
            Some((reserve0, reserve1)) => {
                self.reserves0 = reserve0;
                self.reserves1 = reserve1;
                Some(self.address)
            },
            None => None,
        }
    }

    /// Freeze the pool for simulation, with the current records of its tokens.
    pub fn into_sim(&self, token0: Token, token1: Token) -> (r: V2PoolSim)
        ensures
            r.address == self.address,
            r.token0.address == token0.address,
            r.token1.address == token1.address,
            r.exchange@ == self.exchange@,
            r.version@ == self.version@,
            r.fee == self.fee,
            r.reserves0 == self.reserves0,
            r.reserves1 == self.reserves1,
    {
        V2PoolSim {
            address: self.address,
            token0,
            token1,
            exchange: self.exchange.clone(),
            version: self.version.clone(),
            fee: self.fee,
            reserves0: self.reserves0,
            reserves1: self.reserves1,
        }
    }

    /// Quote a swap of `amount_in` (token0 in when `from0`).
    pub fn trade(&self, amount_in: U256, from0: bool) -> (r: Option<Trade>)
        ensures
            r is None <==> v2_quote(
                self.reserves0.value(),
                self.reserves1.value(),
                amount_in.value(),
                from0,
            ) is None,
            r matches Some(t) ==> v2_trade_matches(
                t,
                self.exchange@,
                self.version@,
                self.fee,
                self.token0_addr,
                self.token1_addr,
                self.address,
                from0,
                amount_in,
                self.reserves0,
                self.reserves1,
            ),
    {
        match v2_trade_math(self.reserves0, self.reserves1, amount_in, from0) {
            Some((amount_out, price_impact, fee_amount, raw_price)) => Some(
                Trade {
                    dex: self.exchange.clone(),
                    version: self.version.clone(),
                    fee: self.fee,
                    token0: self.token0_addr,
                    token1: self.token1_addr,
                    pool: self.address,
                    from0,
                    amount_in,
                    amount_out,
                    price_impact,
                    fee_amount,
                    raw_price,
                },
            ),
            None => None,
        }
    }
}

/// A V2 pool frozen for simulation.
#[derive(Debug)]
pub struct V2PoolSim {
    pub address: H160,
    pub token0: Token,
    pub token1: Token,
    pub exchange: String,
    pub version: String,
    pub fee: u32,
    pub reserves0: U256,
    pub reserves1: U256,
}

/// `q` is the simulated pool `p` after a swap of `amount_in` (token0 in
/// when `from0`): when the swap quotes, the reserves move to those the quote
/// ends with (the input reserve grows by the input less the fee, the output
/// reserve shrinks by the output) and nothing else changes; when it does
/// not, the pool is unchanged.
pub open spec fn v2_swapped(p: V2PoolSim, amount_in: U256, from0: bool, q: V2PoolSim) -> bool {
    match v2_quote(p.reserves0.value(), p.reserves1.value(), amount_in.value(), from0) {
        None => q == p,
        Some(quote) => {
            let a = (amount_in.value() * 997) / 1000;
            &&& q.address == p.address
            &&& q.token0 == p.token0
            &&& q.token1 == p.token1
            &&& q.exchange == p.exchange
            &&& q.version == p.version
            &&& q.fee == p.fee
            &&& if from0 {
                q.reserves0.value() == p.reserves0.value() + a && q.reserves1.value()
                    == p.reserves1.value() - quote.0
            } else {
                q.reserves1.value() == p.reserves1.value() + a && q.reserves0.value()
                    == p.reserves0.value() - quote.0
            }
        },
    }
}

impl V2PoolSim {
    /// Quote a swap of `amount_in` (token0 in when `from0`) and apply it to
    /// the simulated reserves.
    pub fn trade(&mut self, amount_in: U256, from0: bool) -> (r: Option<Trade>)
        ensures
            r is None <==> v2_quote(
                old(self).reserves0.value(),
                old(self).reserves1.value(),
                amount_in.value(),
                from0,
            ) is None,
            r matches Some(t) ==> v2_trade_matches(
                t,
                old(self).exchange@,
                old(self).version@,
                old(self).fee,
                old(self).token0.address,
                old(self).token1.address,
                old(self).address,
                from0,
                amount_in,
                old(self).reserves0,
                old(self).reserves1,
            ),
            v2_swapped(*old(self), amount_in, from0, *final(self)),
    {
        match v2_trade_math(self.reserves0, self.reserves1, amount_in, from0) {
            Some((amount_out, price_impact, fee_amount, raw_price)) => {
                let t = Trade {
                    dex: self.exchange.clone(),
                    version: self.version.clone(),
                    fee: self.fee,
                    token0: self.token0.address,
                    token1: self.token1.address,
                    pool: self.address,
                    from0,
                    amount_in,
                    amount_out,
                    price_impact,
                    fee_amount,
                    raw_price,
                };
                let kept = crate::uint::sub(amount_in, fee_amount);
                if from0 {
                    self.reserves0 = crate::uint::add(self.reserves0, kept);
                    self.reserves1 = crate::uint::sub(self.reserves1, amount_out);
                } else {
                    self.reserves1 = crate::uint::add(self.reserves1, kept);
                    self.reserves0 = crate::uint::sub(self.reserves0, amount_out);
                }
                Some(t)
            },
            None => None,
        }
    }
}

/// Two V2 quotes of the same swap on the same reserves agree on every
/// amount, whichever of the pool records made them.
pub proof fn lemma_v2_quotes_agree(
    t1: Trade,
    t2: Trade,
    dex: Seq<char>,
    version: Seq<char>,
    fee: u32,
    token0: H160,
    token1: H160,
    pool: H160,
    from0: bool,
    amount_in: U256,
    reserves0: U256,
    reserves1: U256,
)
    requires
        v2_trade_matches(t1, dex, version, fee, token0, token1, pool, from0, amount_in, reserves0, reserves1),
        v2_trade_matches(t2, dex, version, fee, token0, token1, pool, from0, amount_in, reserves0, reserves1),
    ensures
        t1.amount_out == t2.amount_out,
        t1.price_impact == t2.price_impact,
        t1.fee_amount == t2.fee_amount,
        t1.raw_price == t2.raw_price,
{
    crate::uint::lemma_u256_value_injective(t1.amount_out, t2.amount_out);
    crate::uint::lemma_u256_value_injective(t1.price_impact, t2.price_impact);
    crate::uint::lemma_u256_value_injective(t1.fee_amount, t2.fee_amount);
    crate::uint::lemma_u256_value_injective(t1.raw_price, t2.raw_price);
}

/// A simulated swap never lowers the product of the reserves.
pub proof fn lemma_v2_product_kept(p: V2PoolSim, amount_in: U256, from0: bool, q: V2PoolSim)
    requires
        v2_swapped(p, amount_in, from0, q),
    ensures
        q.reserves0.value() * q.reserves1.value() >= p.reserves0.value() * p.reserves1.value(),
{
    let r0 = p.reserves0.value() as int;
    let r1 = p.reserves1.value() as int;
    match v2_quote(p.reserves0.value(), p.reserves1.value(), amount_in.value(), from0) {
        None => {},
        Some(quote) => {
            let a = ((amount_in.value() * 997) / 1000) as int;
            let rin = if from0 { r0 } else { r1 };
            let rout = if from0 { r1 } else { r0 };
            let out = quote.0 as int;
            assert(rin > 0);
            assert(out == (a * rout) / (rin + a));
            assert(out * (rin + a) <= a * rout) by (nonlinear_arith)
                requires
                    out == (a * rout) / (rin + a),
                    rin + a > 0,
            ;
            assert((rin + a) * (rout - out) >= rin * rout) by (nonlinear_arith)
                requires
                    out * (rin + a) <= a * rout,
            ;
            if from0 {
                assert(q.reserves0.value() * q.reserves1.value() == (rin + a) * (rout - out));
            } else {
                assert(q.reserves0.value() * q.reserves1.value() == (rout - out) * (rin + a)) ;
                assert((rout - out) * (rin + a) == (rin + a) * (rout - out)) by (nonlinear_arith);
                assert(r0 * r1 == rin * rout) by (nonlinear_arith)
                    requires
                        rin == r1,
                        rout == r0,
                ;
            }
        },
    }
}

/// `a * b / c` grows with `a` and shrinks with `c` (floors included).
proof fn lemma_floor_ratio_mono(x1: int, d1: int, x2: int, d2: int)
    by (nonlinear_arith)
    requires
        0 <= x1,
        0 < d1,
        0 < d2,
        x1 * d2 <= x2 * d1,
    ensures
        x1 / d1 <= x2 / d2,
{
    let q = x1 / d1;
    assert(q * d1 <= x1);
    assert(q * d1 * d2 <= x1 * d2);
    assert(q * d2 * d1 <= x2 * d1);
    assert(q * d2 <= x2);
}

/// The output of a V2 quote, 0 when there is none.
pub open spec fn v2_out(reserves0: nat, reserves1: nat, amount_in: nat, from0: bool) -> nat {
    match v2_quote(reserves0, reserves1, amount_in, from0) {
        Some(q) => q.0,
        None => 0,
    }
}

/// A larger input never gets less out of the same reserves, and no quote
/// drains the output reserve.
pub proof fn lemma_v2_out_grows(reserves0: nat, reserves1: nat, a1: nat, a2: nat, from0: bool)
    requires
        a1 <= a2,
        v2_quote(reserves0, reserves1, a1, from0) is Some,
        v2_quote(reserves0, reserves1, a2, from0) is Some,
    ensures
        v2_out(reserves0, reserves1, a1, from0) <= v2_out(reserves0, reserves1, a2, from0),
        v2_out(reserves0, reserves1, a2, from0) < (if from0 {
            reserves1
        } else {
            reserves0
        }),
{
    let rin = (if from0 { reserves0 } else { reserves1 }) as int;
    let rout = (if from0 { reserves1 } else { reserves0 }) as int;
    let b1 = ((a1 * 997) / 1000) as int;
    let b2 = ((a2 * 997) / 1000) as int;
    assert(a1 * 997 <= a2 * 997) by (nonlinear_arith)
        requires
            a1 <= a2,
    ;
    lemma_floor_ratio_mono((a1 * 997) as int, 1000, (a2 * 997) as int, 1000);
    assert(b1 * rout * (rin + b2) <= b2 * rout * (rin + b1)) by (nonlinear_arith)
        requires
            0 <= b1 <= b2,
            rin > 0,
            rout >= 0,
    ;
    lemma_floor_ratio_mono(b1 * rout, rin + b1, b2 * rout, rin + b2);
    assert((b2 * rout) / (rin + b2) < rout || rout == 0) by (nonlinear_arith)
        requires
            rin > 0,
            b2 >= 0,
            rout >= 0,
    ;
    if rout == 0 {
        assert(b2 * rout == 0) by (nonlinear_arith)
            requires
                rout == 0,
        ;
    }
}

/// A quote and the pool record it was made on: `r` is what `trade` returns
/// on these fields.
pub open spec fn v2_quoted(
    r: Option<Trade>,
    dex: Seq<char>,
    version: Seq<char>,
    fee: u32,
    token0: H160,
    token1: H160,
    pool: H160,
    from0: bool,
    amount_in: U256,
    reserves0: U256,
    reserves1: U256,
) -> bool {
    &&& (r is None <==> v2_quote(reserves0.value(), reserves1.value(), amount_in.value(), from0) is None)
    &&& (r matches Some(t) ==> v2_trade_matches(
        t,
        dex,
        version,
        fee,
        token0,
        token1,
        pool,
        from0,
        amount_in,
        reserves0,
        reserves1,
    ))
}

/// The source record of a pool and the pool as read from chain quote every
/// swap alike when they hold the same reserves, fee, names and addresses:
/// both quote nothing, or both quote the same amounts.
pub proof fn lemma_src_quotes_as_pool(
    src: V2PoolSrc,
    pool: V2Pool,
    amount_in: U256,
    from0: bool,
    r1: Option<Trade>,
    r2: Option<Trade>,
)
    requires
        src.reserves0 == pool.reserves0,
        src.reserves1 == pool.reserves1,
        src.fee == pool.fee,
        src.exchange@ == pool.exchange@,
        src.version@ == pool.version@,
        src.address == pool.address,
        src.token0_addr == pool.token0.address,
        src.token1_addr == pool.token1.address,
        v2_quoted(
            r1,
            src.exchange@,
            src.version@,
            src.fee,
            src.token0_addr,
            src.token1_addr,
            src.address,
            from0,
            amount_in,
            src.reserves0,
            src.reserves1,
        ),
        v2_quoted(
            r2,
            pool.exchange@,
            pool.version@,
            pool.fee,
            pool.token0.address,
            pool.token1.address,
            pool.address,
            from0,
            amount_in,
            pool.reserves0,
            pool.reserves1,
        ),
    ensures
        r1 is None <==> r2 is None,
        r1 matches Some(t1) ==> r2 matches Some(t2) && t1.amount_out == t2.amount_out
            && t1.price_impact == t2.price_impact && t1.fee_amount == t2.fee_amount
            && t1.raw_price == t2.raw_price && t1.dex@ == t2.dex@ && t1.version@ == t2.version@
            && t1.fee == t2.fee && t1.token0 == t2.token0 && t1.token1 == t2.token1 && t1.pool
            == t2.pool && t1.from0 == t2.from0 && t1.amount_in == t2.amount_in,
{
    if r1 is Some && r2 is Some {
        lemma_v2_quotes_agree(
            r1->0,
            r2->0,
            src.exchange@,
            src.version@,
            src.fee,
            src.token0_addr,
            src.token1_addr,
            src.address,
            from0,
            amount_in,
            src.reserves0,
            src.reserves1,
        );
    }
}

} // verus!

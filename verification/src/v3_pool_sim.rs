//! Offline simulation of a concentrated-liquidity (V3) pool.
use vstd::prelude::*;
use vstd::arithmetic::power2::pow2;
use crate::address::H160;
use crate::tick_math::{
    Tick, tick_from_price, price_from_tick, min_sqrt_price, max_sqrt_price,
    abs_tick, sqrt_price_at_tick, MAX_TICK, tick_at_price,
};
use crate::token::Token;
use crate::trade::Trade;
use crate::uint::{
    U256, checked_add, checked_sub, checked_mul, checked_div, shl, shr, saturating_add,
    saturating_sub, is_zero, lt, modulus, lemma_pow2_values,
};

verus! {

/// 2^96, the scale of Q64.96 prices.
pub open spec fn q96() -> nat {
    0x1_0000_0000_0000_0000_0000_0000nat
}

/// How much input the pool absorbs before its price moves from `cur` to
/// `next`: `L * (next - cur) / (cur * next / 2^96)` selling token0 (the price
/// rises), `L * (cur - next) / 2^96` selling token1 (the price falls); `None`
/// when the price does not move in that direction or a step overflows.
pub open spec fn amount_possible(from0: bool, l: nat, cur: nat, next: nat) -> Option<nat> {
    if from0 {
        if next <= cur || cur * next >= modulus() || l * (next - cur) >= modulus() || (cur * next)
            / q96() == 0 {
            None
        } else {
            Some((l * (next - cur) as nat) / ((cur * next) / q96()))
        }
    } else {
        if cur <= next || l * (cur - next) >= modulus() {
            None
        } else {
            Some((l * (cur - next) as nat) / q96())
        }
    }
}

/// The price after `amount` of token0 moves through liquidity `l` from price
/// `cur`: `q / (q / cur ± amount)` with `q = (l << 96)`, wrapped at 2^256.
pub open spec fn price_after_amount0(amount: nat, l: nat, cur: nat, add: bool) -> Option<nat> {
    let q = (l * q96()) % modulus();
    if cur == 0 {
        None
    } else {
        let s = q / cur;
        if add {
            if s + amount >= modulus() || s + amount == 0 {
                None
            } else {
                Some(q / (s + amount))
            }
        } else {
            if s < amount || s - amount == 0 {
                None
            } else {
                Some(q / (s - amount) as nat)
            }
        }
    }
}

/// The price after `amount` of token1 moves through liquidity `l` from price
/// `cur`: `cur ± (amount << 96) / l`, the shift wrapped at 2^256.
pub open spec fn price_after_amount1(amount: nat, l: nat, cur: nat, add: bool) -> Option<nat> {
    let n_num = (amount * q96()) % modulus();
    if l == 0 {
        None
    } else {
        let n = n_num / l;
        if add {
            if cur + n >= modulus() {
                None
            } else {
                Some(cur + n)
            }
        } else {
            if cur < n {
                None
            } else {
                Some((cur - n) as nat)
            }
        }
    }
}

/// The result of a checked computation, compared with its specification.
pub open spec fn agrees(r: Option<U256>, v: Option<nat>) -> bool {
    match v {
        Some(x) => r matches Some(y) && y.value() == x,
        None => r is None,
    }
}

/// The fee step of a swap fails: the fee does not fit in 256 bits, or
/// exceeds the amount (a fee rate above one million parts).
pub open spec fn fee_step_fails(amount_in: nat, fee: nat) -> bool {
    amount_in * fee >= modulus() || amount_in < (amount_in * fee) / 1_000_000
}

/// Where a scan of `ticks` from position `i` meets `key`: `Ok` at the first
/// tick equal to it, `Err` at the first tick above it or at the end.
pub open spec fn tick_search(ticks: Seq<Tick>, key: int, i: int) -> Result<int, int>
    decreases ticks.len() - i,
{
    if i < 0 || i >= ticks.len() {
        Err(ticks.len() as int)
    } else if ticks[i].tick == key {
        Ok(i)
    } else if ticks[i].tick > key {
        Err(i)
    } else {
        tick_search(ticks, key, i + 1)
    }
}

/// `binary_search_by_key` on the tick indices of ticks sorted by index:
/// `Ok(i)` at a tick equal to `key`, else `Err(i)` with `i` the position where
/// `key` would be inserted.
pub fn search_ticks(ticks: &Vec<Tick>, key: i32) -> (r: Result<usize, usize>)
    ensures
        match r {
            Ok(i) => tick_search(ticks@, key as int, 0) == Ok::<int, int>(i as int),
            Err(i) => tick_search(ticks@, key as int, 0) == Err::<int, int>(i as int),
        },
        r matches Ok(i) ==> i < ticks@.len() && ticks@[i as int].tick == key,
        r matches Err(i) ==> i <= ticks@.len() && (forall|k: int|
            0 <= k < i ==> ticks@[k].tick < key),
        r matches Err(i) ==> (i < ticks@.len() ==> ticks@[i as int].tick > key),
{
    let mut i: usize = 0;
    while i < ticks.len()
        invariant
            i <= ticks@.len(),
            forall|k: int| 0 <= k < i ==> ticks@[k].tick < key,
            tick_search(ticks@, key as int, i as int) == tick_search(ticks@, key as int, 0),
        decreases ticks.len() - i,
    {
        if ticks[i].tick == key {
            return Ok(i);
        }
        if ticks[i].tick > key {
            return Err(i);
        }
        i = i + 1;
    }
    Err(i)
}

/// The index of the first tick a swap heads for from the tick `key` of the
/// current price: the next tick above it selling token0, the next below it
/// selling token1; `None` when there is none.
pub open spec fn walk_start(ticks: Seq<Tick>, from0: bool, key: int) -> Option<int> {
    match tick_search(ticks, key, 0) {
        Ok(i) => if from0 {
            if i + 1 >= ticks.len() {
                None
            } else {
                Some(i + 1)
            }
        } else {
            if i == 0 {
                None
            } else {
                Some(i - 1)
            }
        },
        Err(i) => if from0 {
            if i >= ticks.len() {
                None
            } else {
                Some(i)
            }
        } else {
            if i == 0 {
                None
            } else {
                Some(i - 1)
            }
        },
    }
}

/// 2^192, the scale of an inverted Q64.96 price.
pub open spec fn q192() -> nat {
    0x1_0000_0000_0000_0000_0000_0000_0000_0000_0000_0000_0000_0000nat
}

/// The output of a step that stops inside a tick range, from price `cur` to
/// `new` with liquidity `l`: `L * (new - cur) / 2^96` selling token0,
/// `L * (2^192 / cur - 2^192 / new) / 2^96` selling token1; `None` when a
/// checked step fails.
pub open spec fn partial_out(from0: bool, l: nat, cur: nat, new: nat) -> Option<nat> {
    if from0 {
        if new < cur || l * (new - cur) as nat >= modulus() {
            None
        } else {
            Some((l * (new - cur) as nat) / q96())
        }
    } else {
        if cur == 0 || new == 0 || q192() / cur < q192() / new || l * (q192() / cur - q192()
            / new) as nat >= modulus() {
            None
        } else {
            Some((l * (q192() / cur - q192() / new) as nat) / q96())
        }
    }
}

/// The output of crossing a whole tick range from price `cur` to `next`:
/// `L * |next - cur| / 2^96`; `None` when the price moves the wrong way or
/// the product overflows.
pub open spec fn cross_out(from0: bool, l: nat, cur: nat, next: nat) -> Option<nat> {
    if from0 {
        if next < cur || l * (next - cur) as nat >= modulus() {
            None
        } else {
            Some((l * (next - cur) as nat) / q96())
        }
    } else {
        if cur < next || l * (cur - next) as nat >= modulus() {
            None
        } else {
            Some((l * (cur - next) as nat) / q96())
        }
    }
}

/// The price after the rest of the input enters at price `cur`.
pub open spec fn price_after(from0: bool, amount: nat, l: nat, cur: nat) -> Option<nat> {
    if from0 {
        price_after_amount0(amount, l, cur, true)
    } else {
        price_after_amount1(amount, l, cur, true)
    }
}

/// Updating the liquidity at a crossed tick panics: negating `i128::MIN`
/// selling token0, `U256::from` of a negative amount selling token1.
pub open spec fn crossing_panics(from0: bool, net: i128) -> bool {
    if from0 {
        net == i128::MIN
    } else {
        net < 0
    }
}

/// The liquidity after crossing a tick with net liquidity `net`: plus `net`
/// selling token0, minus `net` selling token1, saturating at 0 and 2^256 - 1.
pub open spec fn liquidity_after(from0: bool, l: nat, net: i128) -> nat {
    let d = if from0 {
        net as int
    } else {
        -net
    };
    if l + d < 0 {
        0
    } else if l + d >= modulus() {
        (modulus() - 1) as nat
    } else {
        (l + d) as nat
    }
}

/// `r` is what `price_from_tick` and `V3PoolSim::tick_price` give for tick
/// `t`: the tick's price on the scale, nothing off it.
pub open spec fn tick_priced(t: i32, r: Option<U256>) -> bool {
    &&& abs_tick(t) > MAX_TICK ==> r is None
    &&& abs_tick(t) <= MAX_TICK ==> (r matches Some(p) && p.value() == sqrt_price_at_tick(t))
}

/// The pool's tick price and `price_from_tick` agree on every tick.
pub proof fn lemma_tick_price_agrees(t: i32, r1: Option<U256>, r2: Option<U256>)
    requires
        tick_priced(t, r1),
        tick_priced(t, r2),
    ensures
        r1 == r2,
{
    if abs_tick(t) <= MAX_TICK {
        crate::uint::lemma_u256_value_injective(r1->0, r2->0);
    }
}

/// How a swap through a V3 pool's ticks ends.
pub enum SwapEnd {
    /// A liquidity update panics.
    Panics,
    /// A checked step fails, or no tick lies ahead: the swap quotes nothing.
    Fails,
    /// The swap quotes `out` and leaves the pool at `price` with `liq`.
    Ends { out: nat, price: nat, liq: nat },
}

/// The walk of a swap over the ticks from index `idx`, with `remaining`
/// input left, `out` output so far, at price `price` with liquidity `liq`:
/// each step heads for the price of the next tick; if the remaining input
/// does not reach it, the price stops inside the range and the swap ends;
/// else the range is crossed whole, the tick's net liquidity applied, and the
/// walk goes on to the following tick.
#[verifier::opaque]
pub open spec fn swap_walk(
    ticks: Seq<Tick>,
    from0: bool,
    remaining: nat,
    out: nat,
    price: nat,
    liq: nat,
    idx: int,
) -> SwapEnd
    decreases (if from0 {
        ticks.len() - idx
    } else {
        idx + 1
    }),
{
    if remaining == 0 {
        SwapEnd::Ends { out, price, liq }
    } else if idx < 0 || idx >= ticks.len() {
        SwapEnd::Fails
    } else {
        let tick = ticks[idx];
        let next = sqrt_price_at_tick(tick.tick);
        if abs_tick(tick.tick) > MAX_TICK || (!from0 && idx == 0) {
            SwapEnd::Fails
        } else {
            match amount_possible(from0, liq, price, next) {
                None => SwapEnd::Fails,
                Some(possible) => if remaining < possible {
                    match price_after(from0, remaining, liq, price) {
                        None => SwapEnd::Fails,
                        Some(new_price) => match partial_out(from0, liq, price, new_price) {
                            None => SwapEnd::Fails,
                            Some(d) => if out + d >= modulus() {
                                SwapEnd::Fails
                            } else {
                                SwapEnd::Ends { out: out + d, price: new_price, liq }
                            },
                        },
                    }
                } else {
                    match cross_out(from0, liq, price, next) {
                        None => SwapEnd::Fails,
                        Some(c) => if out + c >= modulus() {
                            SwapEnd::Fails
                        } else if crossing_panics(from0, tick.liquidityNet) {
                            SwapEnd::Panics
                        } else {
                            swap_walk(
                                ticks,
                                from0,
                                (remaining - possible) as nat,
                                out + c,
                                next,
                                liquidity_after(from0, liq, tick.liquidityNet),
                                if from0 {
                                    idx + 1
                                } else {
                                    idx - 1
                                },
                            )
                        },
                    }
                },
            }
        }
    }
}

/// A walk with no input left ends where it stands.
pub proof fn lemma_walk_done(ticks: Seq<Tick>, from0: bool, out: nat, price: nat, liq: nat, idx: int)
    ensures
        swap_walk(ticks, from0, 0, out, price, liq, idx) == (SwapEnd::Ends { out, price, liq }),
{
    reveal(swap_walk);
}

/// The fee of a swap: `amount_in * fee / 1_000_000`.
pub open spec fn swap_fee(amount_in: nat, fee: nat) -> nat {
    (amount_in * fee) / 1_000_000
}

/// How a swap of `amount_in` through pool `p` ends: the fee is taken (it
/// fails when it does not fit in 256 bits or exceeds the input), the current
/// tick is read from the price (it fails off the tick scale), and the rest
/// of the input walks the ticks from the first one ahead.
pub open spec fn v3_swap(p: V3PoolSim, amount_in: nat, from0: bool) -> SwapEnd {
    let fee = swap_fee(amount_in, p.fee as nat);
    let price = p.x96price.value();
    if fee_step_fails(amount_in, p.fee as nat) {
        SwapEnd::Fails
    } else if price < min_sqrt_price() || max_sqrt_price() <= price {
        SwapEnd::Fails
    } else {
        match walk_start(p.active_ticks@, from0, tick_at_price(price)) {
            None => SwapEnd::Fails,
            Some(i) => swap_walk(
                p.active_ticks@,
                from0,
                (amount_in - fee) as nat,
                0,
                price,
                p.liquidity.value(),
                i,
            ),
        }
    }
}

/// `r` and `q` are the quote and the pool after a swap of `amount_in`
/// through `p`: when the swap ends, the quote of its output (with the fee as
/// price impact and its output as raw price) and the pool at its final price
/// and liquidity, all else kept; when it fails, no quote and the pool as it
/// was.
pub open spec fn v3_swapped(
    p: V3PoolSim,
    amount_in: U256,
    from0: bool,
    r: Option<Trade>,
    q: V3PoolSim,
) -> bool {
    match v3_swap(p, amount_in.value(), from0) {
        SwapEnd::Ends { out, price, liq } => {
            &&& r matches Some(t) && {
                &&& t.dex@ == p.exchange@
                &&& t.version@ == p.version@
                &&& t.fee == p.fee
                &&& t.token0 == p.token0.address
                &&& t.token1 == p.token1.address
                &&& t.pool == p.address
                &&& t.from0 == from0
                &&& t.amount_in == amount_in
                &&& t.amount_out.value() == out
                &&& t.fee_amount.value() == swap_fee(amount_in.value(), p.fee as nat)
                &&& t.price_impact == t.fee_amount
                &&& t.raw_price == t.amount_out
            }
            &&& q.liquidity.value() == liq
            &&& q.x96price.value() == price
            &&& q.address == p.address
            &&& q.token0 == p.token0
            &&& q.token1 == p.token1
            &&& q.exchange == p.exchange
            &&& q.version == p.version
            &&& q.fee == p.fee
            &&& q.active_ticks == p.active_ticks
            &&& q.tick_spacing == p.tick_spacing
        },
        _ => r is None && q == p,
    }
}

/// A V3 pool frozen for simulation: its tokens, fee, tick spacing, the
/// initialized ticks around the price (sorted by tick), the active liquidity
/// and the Q64.96 square-root price.
#[derive(Debug)]
pub struct V3PoolSim {
    pub address: H160,
    pub token0: Token,
    pub token1: Token,
    pub exchange: String,
    pub version: String,
    pub fee: u32,
    pub active_ticks: Vec<Tick>,
    pub tick_spacing: i32,
    pub liquidity: U256,
    pub x96price: U256,
}

impl V3PoolSim {
    pub fn new(
        address: H160,
        fee: u32,
        dex: String,
        version: String,
        token0: Token,
        token1: Token,
        tick_spacing: i32,
        active_ticks: Vec<Tick>,
        liquidity: U256,
        x96price: U256,
    ) -> (r: Self)
        ensures
            r.address == address,
            r.fee == fee,
            r.exchange@ == dex@,
            r.version@ == version@,
            r.token0.address == token0.address,
            r.token1.address == token1.address,
            r.tick_spacing == tick_spacing,
            r.active_ticks@ == active_ticks@,
            r.liquidity == liquidity,
            r.x96price == x96price,
    {
        Self {
            address,
            token0,
            token1,
            exchange: dex,
            version,
            active_ticks: active_ticks,
            fee,
            tick_spacing: tick_spacing,
            liquidity: liquidity,
            x96price: x96price,
        }
    }

    /// Quote a swap of `amount_in` (token0 in when `from0`) through the
    /// pool's ticks, moving its price and liquidity (`v3_swapped`).
    ///
    /// The fee is `amount_in * fee / 1_000_000`. The swap starts at the tick
    /// of the current price and crosses tick ranges until the input runs out;
    /// `None`, with the pool untouched, when a checked step fails or no tick
    /// lies ahead. Swaps whose walk would panic updating the liquidity
    /// (`crossing_panics`) are excluded.
    pub fn trade(&mut self, amount_in: U256, from0: bool) -> (r: Option<Trade>)
        requires
            !(v3_swap(*old(self), amount_in.value(), from0) is Panics),
        ensures
            v3_swapped(*old(self), amount_in, from0, r, *final(self)),
    {
        proof {
            lemma_pow2_values();
        }
        let ghost whole = v3_swap(*self, amount_in.value(), from0);
        let (fee_amount, mut remaining, mut next_tick_index) = match self.walk_begin(amount_in, from0) {
            Some(x) => x,
            None => return None,
        };
        let mut total_out = U256::zero();
        let mut curr_price = self.x96price;
        let mut curr_liq = self.liquidity;
        let q96 = U256::from_u128(1u128 << 96u32);
        proof {
            assert((1u128 << 96u32) == 0x1_0000_0000_0000_0000_0000_0000u128) by (bit_vector);
            assert(swap_walk(
                self.active_ticks@,
                from0,
                remaining.value(),
                total_out.value(),
                curr_price.value(),
                curr_liq.value(),
                next_tick_index as int,
            ) == whole);
        }
        loop
            invariant_except_break
                swap_walk(
                    self.active_ticks@,
                    from0,
                    remaining.value(),
                    total_out.value(),
                    curr_price.value(),
                    curr_liq.value(),
                    next_tick_index as int,
                ) == whole,
            invariant
                whole == v3_swap(*old(self), amount_in.value(), from0),
                !(whole is Panics),
                from0 ==> next_tick_index <= self.active_ticks@.len(),
                *self == *old(self),
                q96.value() == crate::v3_pool_sim::q96(),
            ensures
                whole == (SwapEnd::Ends {
                    out: total_out.value(),
                    price: curr_price.value(),
                    liq: curr_liq.value(),
                }),
                *self == *old(self),
            decreases (if from0 {
                self.active_ticks@.len() - next_tick_index
            } else {
                next_tick_index + 1
            }),
        {
            if is_zero(remaining) {
                proof {
                    lemma_walk_done(
                        self.active_ticks@,
                        from0,
                        total_out.value(),
                        curr_price.value(),
                        curr_liq.value(),
                        next_tick_index as int,
                    );
                }
                break;
            }
            match Self::walk_step(
                &self.active_ticks,
                from0,
                remaining,
                total_out,
                curr_price,
                curr_liq,
                next_tick_index,
                &q96,
            ) {
                WalkStep::Failed => {
                    return None;
                },
                WalkStep::Done(o, p, l) => {
                    total_out = o;
                    curr_price = p;
                    curr_liq = l;
                    break;
                },
                WalkStep::Next(r2, o2, p2, l2, i2) => {
                    remaining = r2;
                    total_out = o2;
                    curr_price = p2;
                    curr_liq = l2;
                    next_tick_index = i2;
                },
            }
        }
        self.liquidity = curr_liq;
        self.x96price = curr_price;
        Some(
            Trade {
                dex: self.exchange.clone(),
                version: self.version.clone(),
                fee: self.fee,
                token0: self.token0.address,
                token1: self.token1.address,
                pool: self.address,
                from0,
                amount_in,
                amount_out: total_out,
                price_impact: fee_amount,
                fee_amount,
                raw_price: total_out,
            },
        )
    }

    /// The largest input that crosses from price `current_sqrt_price` to
    /// `next_sqrt_price` with liquidity `available_liquidity`.
    pub fn compute_amount_possible(
        from0: bool,
        available_liquidity: &U256,
        current_sqrt_price: &U256,
        next_sqrt_price: &U256,
    ) -> (r: Option<U256>)
        ensures
            agrees(
                r,
                amount_possible(
                    from0,
                    available_liquidity.value(),
                    current_sqrt_price.value(),
                    next_sqrt_price.value(),
                ),
            ),
    {
        proof {
            lemma_pow2_values();
        }
        let q96 = shl(U256::one(), 96);
        if from0 {
            let diff = match checked_sub(*next_sqrt_price, *current_sqrt_price) {
                Some(d) => d,
                None => return None,
            };
            if is_zero(diff) {
                return None;
            }
            let denom = match checked_mul(*current_sqrt_price, *next_sqrt_price) {
                Some(d) => d,
                None => return None,
            };
            let liquidity_mul_diff = match checked_mul(*available_liquidity, diff) {
                Some(x) => x,
                None => return None,
            };
            let scaled = match checked_div(liquidity_mul_diff, shr(denom, 96)) {
                Some(x) => x,
                None => return None,
            };
            let result = scaled;
            Some(result)
        } else {
            let diff = match checked_sub(*current_sqrt_price, *next_sqrt_price) {
                Some(d) => d,
                None => return None,
            };
            if is_zero(diff) {
                return None;
            }
            let liquidity_mul_diff = match checked_mul(*available_liquidity, diff) {
                Some(x) => x,
                None => return None,
            };
            let result = match checked_div(liquidity_mul_diff, q96) {
                Some(x) => x,
                None => return None,
            };
            Some(result)
        }
    }

    /// The price after `amount` of token0 enters (`add`) or leaves.
    pub fn compute_price_from0(
        amount: &U256,
        available_liquidity: &U256,
        current_sqrt_price: &U256,
        add: bool,
    ) -> (r: Option<U256>)
        ensures
            agrees(
                r,
                price_after_amount0(
                    amount.value(),
                    available_liquidity.value(),
                    current_sqrt_price.value(),
                    add,
                ),
            ),
    {
        proof {
            lemma_pow2_values();
        }
        let q96l = shl(*available_liquidity, 96);
        let scaled_liquidity = match checked_div(q96l, *current_sqrt_price) {
            Some(x) => x,
            None => return None,
        };
        let denominator = if add {
            match checked_add(scaled_liquidity, *amount) {
                Some(x) => x,
                None => return None,
            }
        } else {
            match checked_sub(scaled_liquidity, *amount) {
                Some(x) => x,
                None => return None,
            }
        };
        let new_sqrt_price = match checked_div(q96l, denominator) {
            Some(x) => x,
            None => return None,
        };
        Some(new_sqrt_price)
    }

    /// The price after `amount` of token1 enters (`add`) or leaves.
    pub fn compute_price_from1(
        amount: &U256,
        available_liquidity: &U256,
        current_sqrt_price: &U256,
        add: bool,
    ) -> (r: Option<U256>)
        ensures
            agrees(
                r,
                price_after_amount1(
                    amount.value(),
                    available_liquidity.value(),
                    current_sqrt_price.value(),
                    add,
                ),
            ),
    {
        proof {
            lemma_pow2_values();
        }
        let n = match checked_div(shl(*amount, 96), *available_liquidity) {
            Some(x) => x,
            None => return None,
        };
        if add {
            checked_add(*current_sqrt_price, n)
        } else {
            checked_sub(*current_sqrt_price, n)
        }
    }

    /// The square-root price at a tick (the same computation as
    /// `tick_math::price_from_tick`).
    pub fn tick_price(target_tick: i32) -> (r: Option<U256>)
        ensures
            tick_priced(target_tick, r),
    {
        price_from_tick(target_tick)
    }

    /// Liquidity after a tick is crossed, for a non-negative net amount
    /// (`U256::from` panics on a negative one): `current - net`, `None` below
    /// zero.
    pub fn update_liquidity(current: U256, net: i128) -> (r: Option<U256>)
        requires
            net >= 0,
        ensures
            agrees(
                r,
                if net <= current.value() {
                    Some((current.value() - net) as nat)
                } else {
                    None
                },
            ),
    {
        let _net = U256::from_u128(net as u128);
        if net < 0 {
            checked_sub(current, _net)
        } else {
            checked_sub(current, _net)
        }
    }
}

/// One step of a swap's walk, as `V3PoolSim::walk_step` takes it.
enum WalkStep {
    /// A checked step failed or no tick lies ahead.
    Failed,
    /// The swap ends with this output, price and liquidity.
    Done(U256, U256, U256),
    /// A range was crossed: the remaining input, output, price, liquidity and
    /// tick index to go on from.
    Next(U256, U256, U256, U256, usize),
}

impl V3PoolSim {
    /// The start of a swap's walk: the fee, the input left after it, and the
    /// index of the first tick ahead of the current price; `None` when the
    /// swap fails before its walk.
    fn walk_begin(&self, amount_in: U256, from0: bool) -> (r: Option<(U256, U256, usize)>)
        ensures
            r is None ==> v3_swap(*self, amount_in.value(), from0) is Fails,
            r matches Some(x) ==> {
                &&& x.0.value() == swap_fee(amount_in.value(), self.fee as nat)
                &&& x.1.value() == amount_in.value() - x.0.value()
                &&& v3_swap(*self, amount_in.value(), from0) == swap_walk(
                    self.active_ticks@,
                    from0,
                    x.1.value(),
                    0,
                    self.x96price.value(),
                    self.liquidity.value(),
                    x.2 as int,
                )
                &&& (from0 ==> x.2 < self.active_ticks@.len())
            },
    {
        let fee_amount = match checked_mul(amount_in, U256::from_u64(self.fee as u64)) {
            Some(x) => match checked_div(x, U256::from_u64(1_000_000)) {
                Some(y) => y,
                None => return None,
            },
            None => return None,
        };
        let remaining = match checked_sub(amount_in, fee_amount) {
            Some(x) => x,
            None => return None,
        };
        let current_tick = match tick_from_price(self.x96price) {
            Some(t) => t,
            None => return None,
        };
        let next_tick_index: usize = match search_ticks(&self.active_ticks, current_tick) {
            Ok(i) => {
                if from0 {
                    let n = self.active_ticks.len();
                    if i + 1 >= n {
                        return None;
                    }
                    i + 1
                } else {
                    if i == 0 {
                        return None;
                    }
                    i - 1
                }
            },
            Err(i) => {
                if from0 {
                    if i >= self.active_ticks.len() {
                        return None;
                    }
                    i
                } else {
                    if i == 0 {
                        return None;
                    }
                    i - 1
                }
            },
        };
        Some((fee_amount, remaining, next_tick_index))
    }

    /// The output of a step that stops inside a tick range at `new_price`.
    fn inside_out(from0: bool, liq: &U256, price: &U256, new_price: &U256, q96: &U256) -> (r: Option<U256>)
        requires
            q96.value() == crate::v3_pool_sim::q96(),
        ensures
            agrees(r, partial_out(from0, liq.value(), price.value(), new_price.value())),
    {
        proof {
            lemma_pow2_values();
        }
        let moved = if from0 {
            match checked_sub(*new_price, *price) {
                Some(x) => x,
                None => return None,
            }
        } else {
            let one = U256::one();
            let q96_shifted = shl(one, 96);
            proof {
                vstd::arithmetic::div_mod::lemma_small_mod(
                    crate::v3_pool_sim::q96(),
                    modulus(),
                );
                assert(one.value() == 1);
                assert(q96_shifted.value() == crate::v3_pool_sim::q96());
                assert(q96_shifted.value() * q96_shifted.value() == q192());
            }
            let q192 = match checked_mul(q96_shifted, q96_shifted) {
                Some(x) => x,
                None => return None,
            };
            let inv_curr = match checked_div(q192, *price) {
                Some(x) => x,
                None => return None,
            };
            let inv_new = match checked_div(q192, *new_price) {
                Some(x) => x,
                None => return None,
            };
            match checked_sub(inv_curr, inv_new) {
                Some(x) => x,
                None => return None,
            }
        };
        match checked_mul(*liq, moved) {
            Some(x) => checked_div(x, *q96),
            None => None,
        }
    }

    /// The end of a step that stops inside a tick range: the output so far
    /// plus that of the step, and the price after the rest of the input
    /// enters.
    fn finish_inside(
        from0: bool,
        remaining: &U256,
        liq: &U256,
        price: &U256,
        out: &U256,
        q96: &U256,
    ) -> (r: Option<(U256, U256)>)
        requires
            q96.value() == crate::v3_pool_sim::q96(),
        ensures
            match price_after(from0, remaining.value(), liq.value(), price.value()) {
                None => r is None,
                Some(np) => match partial_out(from0, liq.value(), price.value(), np) {
                    None => r is None,
                    Some(d) => if out.value() + d >= modulus() {
                        r is None
                    } else {
                        r matches Some(x) && x.0.value() == out.value() + d && x.1.value() == np
                    },
                },
            },
    {
        proof {
            lemma_pow2_values();
        }
        let new_price = if from0 {
            match Self::compute_price_from0(remaining, liq, price, true) {
                Some(p) => p,
                None => return None,
            }
        } else {
            match Self::compute_price_from1(remaining, liq, price, true) {
                Some(p) => p,
                None => return None,
            }
        };
        let delta = match Self::inside_out(from0, liq, price, &new_price, q96) {
            Some(x) => x,
            None => return None,
        };
        match checked_add(*out, delta) {
            Some(x) => Some((x, new_price)),
            None => None,
        }
    }

    /// The output of crossing a whole tick range from `price` to `next`.
    fn cross_range(from0: bool, liq: &U256, price: &U256, next: &U256, q96: &U256) -> (r: Option<U256>)
        requires
            q96.value() == crate::v3_pool_sim::q96(),
        ensures
            agrees(r, cross_out(from0, liq.value(), price.value(), next.value())),
    {
        let moved = if from0 {
            match checked_sub(*next, *price) {
                Some(x) => x,
                None => return None,
            }
        } else {
            match checked_sub(*price, *next) {
                Some(x) => x,
                None => return None,
            }
        };
        match checked_mul(*liq, moved) {
            Some(x) => checked_div(x, *q96),
            None => None,
        }
    }

    /// The liquidity after crossing a tick with net liquidity `net`.
    fn cross_liquidity(from0: bool, liq: U256, net: i128) -> (r: U256)
        requires
            !crossing_panics(from0, net),
        ensures
            r.value() == liquidity_after(from0, liq.value(), net),
    {
        proof {
            lemma_pow2_values();
        }
        if from0 {
            if net > 0 {
                saturating_add(liq, U256::from_u128(net as u128))
            } else {
                saturating_sub(liq, U256::from_u128((-net) as u128))
            }
        } else {
            // `U256::from` of a negative `net` panics here; the contract
            // leaves such ticks out.
            saturating_sub(liq, U256::from_u128(net as u128))
        }
    }

    /// One step of the walk from tick index `idx` with input left.
    fn walk_step(
        ticks: &Vec<Tick>,
        from0: bool,
        remaining: U256,
        out: U256,
        price: U256,
        liq: U256,
        idx: usize,
        q96: &U256,
    ) -> (r: WalkStep)
        requires
            remaining.value() != 0,
            q96.value() == crate::v3_pool_sim::q96(),
            !(swap_walk(
                ticks@,
                from0,
                remaining.value(),
                out.value(),
                price.value(),
                liq.value(),
                idx as int,
            ) is Panics),
        ensures
            match r {
                WalkStep::Failed => swap_walk(
                    ticks@,
                    from0,
                    remaining.value(),
                    out.value(),
                    price.value(),
                    liq.value(),
                    idx as int,
                ) is Fails,
                WalkStep::Done(o, p, l) => swap_walk(
                    ticks@,
                    from0,
                    remaining.value(),
                    out.value(),
                    price.value(),
                    liq.value(),
                    idx as int,
                ) == (SwapEnd::Ends { out: o.value(), price: p.value(), liq: l.value() }),
                WalkStep::Next(r2, o2, p2, l2, i2) => {
                    &&& swap_walk(
                        ticks@,
                        from0,
                        remaining.value(),
                        out.value(),
                        price.value(),
                        liq.value(),
                        idx as int,
                    ) == swap_walk(
                        ticks@,
                        from0,
                        r2.value(),
                        o2.value(),
                        p2.value(),
                        l2.value(),
                        i2 as int,
                    )
                    &&& idx < ticks@.len()
                    &&& if from0 {
                        i2 == idx + 1
                    } else {
                        i2 + 1 == idx
                    }
                },
            },
    {
        proof {
            reveal(swap_walk);
        }
        if idx >= ticks.len() {
            return WalkStep::Failed;
        }
        let tick = ticks[idx];
        let next_price = match Self::tick_price(tick.tick) {
            Some(p) => p,
            None => return WalkStep::Failed,
        };
        let next_idx = if from0 {
            idx + 1
        } else {
            if idx == 0 {
                return WalkStep::Failed;
            }
            idx - 1
        };
        let possible = match Self::compute_amount_possible(from0, &liq, &price, &next_price) {
            Some(p) => p,
            None => return WalkStep::Failed,
        };
        if lt(remaining, possible) {
            return match Self::finish_inside(from0, &remaining, &liq, &price, &out, q96) {
                Some((o, p)) => WalkStep::Done(o, p, liq),
                None => WalkStep::Failed,
            };
        }
        let out_cross = match Self::cross_range(from0, &liq, &price, &next_price, q96) {
            Some(x) => x,
            None => return WalkStep::Failed,
        };
        let total_out = match checked_add(out, out_cross) {
            Some(x) => x,
            None => return WalkStep::Failed,
        };
        let new_liq = Self::cross_liquidity(from0, liq, tick.liquidityNet);
        let rest = match checked_sub(remaining, possible) {
            Some(x) => x,
            None => return WalkStep::Failed,
        };
        WalkStep::Next(rest, total_out, next_price, new_liq, next_idx)
    }
}

/// Crossing a tick while the price falls (selling token1) takes the tick's
/// net liquidity out of the active liquidity, floored at zero; while the
/// price rises (selling token0) it adds it, capped at 2^256 - 1.
pub proof fn lemma_crossing_moves_liquidity(l: nat, net: i128)
    requires
        l < modulus(),
    ensures
        net >= 0 ==> liquidity_after(false, l, net) == (if net <= l {
            (l - net) as nat
        } else {
            0nat
        }),
        net >= 0 && l + net < modulus() ==> liquidity_after(true, l, net) == l + net,
        net < 0 && -net <= l ==> liquidity_after(true, l, net) == l + net,
        net > 0 && l < modulus() ==> liquidity_after(false, l, net) < liquidity_after(true, l, net)
            || liquidity_after(true, l, net) == modulus() - 1 && l + net >= modulus(),
{
}

/// Crossing a tick up and then back down leaves the active liquidity as it
/// was, when neither crossing saturates.
pub proof fn lemma_crossing_back_restores(l: nat, net: i128)
    requires
        net >= 0,
        l + net < modulus(),
    ensures
        liquidity_after(false, liquidity_after(true, l, net), net) == l,
{
}

/// The liquidity that `cross_liquidity` gives and the walk quotes the rest
/// of a swap with, for a tick crossed while the price falls: the liquidity
/// before minus the tick's net liquidity, floored at zero.
pub proof fn lemma_cross_down_result(l: U256, net: i128, r: U256)
    requires
        net >= 0,
        r.value() == liquidity_after(false, l.value(), net),
    ensures
        r.value() + net == l.value() || (r.value() == 0 && net > l.value()),
        r.value() <= l.value(),
{
}

/// Selling token1 raises the price and selling token0 lowers it: the
/// price after a positive input is at least the price before when token1
/// goes in, below it when token0 goes in.
pub proof fn lemma_price_moves_with_input(from0: bool, amount: nat, l: nat, cur: nat)
    requires
        amount > 0,
    ensures
        price_after(from0, amount, l, cur) matches Some(np) ==> (if from0 {
            np < cur
        } else {
            np >= cur
        }),
{
    if from0 {
        let q = (l * q96()) % modulus();
        if cur > 0 {
            let s = q / cur;
            assert(q / (s + amount) < cur) by (nonlinear_arith)
                requires
                    cur > 0,
                    s == q / cur,
                    amount > 0,
                    q >= 0,
            {
                assert(q < (s + 1) * cur);
                assert((s + 1) * cur <= (s + amount) * cur);
                assert(q / (s + amount) * (s + amount) <= q);
            }
        }
    }
}

/// The output of crossing a whole tick range is the liquidity times the
/// price move, over 2^96, rounded down; the move is towards the next tick
/// (up selling token0, down selling token1).
pub proof fn lemma_cross_out_is_liquidity_times_move(from0: bool, l: nat, cur: nat, next: nat)
    ensures
        cross_out(from0, l, cur, next) matches Some(o) ==> {
            let moved = if from0 {
                next - cur
            } else {
                cur - next
            };
            &&& moved >= 0
            &&& o * q96() <= l * moved < (o + 1) * q96()
        },
{
    if cross_out(from0, l, cur, next) is Some {
        let moved: int = if from0 {
            next - cur
        } else {
            cur - next
        };
        assert(moved >= 0);
        let o = (l * moved) / (q96() as int);
        assert(o * q96() <= l * moved < (o + 1) * q96()) by (nonlinear_arith)
            requires
                o == (l * moved) / (q96() as int),
                q96() > 0,
        ;
    }
}

/// The input a tick range absorbs before its end is reached grows with
/// the liquidity and is positive only towards the next tick: up selling
/// token0, down selling token1.
pub proof fn lemma_amount_possible_direction(from0: bool, l: nat, cur: nat, next: nat)
    ensures
        amount_possible(from0, l, cur, next) is Some ==> (if from0 {
            cur < next
        } else {
            next < cur
        }),
        !from0 ==> (amount_possible(from0, l, cur, next) matches Some(x) ==> x * q96() <= l * (
            cur - next) < (x + 1) * q96()),
{
    if !from0 && amount_possible(from0, l, cur, next) is Some {
        let m: int = cur - next;
        let x = (l * m) / (q96() as int);
        assert(x * q96() <= l * m < (x + 1) * q96()) by (nonlinear_arith)
            requires
                x == (l * m) / (q96() as int),
                q96() > 0,
        ;
    }
}

/// Ticks in strictly increasing order.
pub open spec fn ticks_strictly_sorted(s: Seq<Tick>) -> bool {
    forall|i: int, j: int| 0 <= i < j < s.len() ==> s[i].tick < s[j].tick
}

/// Over strictly sorted ticks, a swap heads first for the nearest tick in
/// the price's direction: selling token0, the first tick above the current
/// one; selling token1, the last tick below it.
pub proof fn lemma_walk_starts_at_nearest(ticks: Seq<Tick>, from0: bool, key: int)
    requires
        ticks_strictly_sorted(ticks),
    ensures
        walk_start(ticks, from0, key) matches Some(i) ==> 0 <= i < ticks.len() && if from0 {
            &&& ticks[i].tick > key
            &&& forall|j: int| 0 <= j < i ==> ticks[j].tick <= key
        } else {
            &&& ticks[i].tick < key
            &&& forall|j: int| i < j < ticks.len() ==> ticks[j].tick >= key
        },
{
    lemma_search_ticks_spec(ticks, key, 0);
    match tick_search(ticks, key, 0) {
        Ok(i) => {
            assert forall|j: int| 0 <= j < i + 1 implies ticks[j].tick <= key by {
                if j < i {
                    assert(ticks[j].tick < ticks[i].tick);
                }
            }
            assert forall|j: int| i - 1 < j < ticks.len() implies ticks[j].tick >= key by {
                if j > i {
                    assert(ticks[i].tick < ticks[j].tick);
                }
            }
        },
        Err(i) => {
            assert forall|j: int| i - 1 < j < ticks.len() implies ticks[j].tick >= key by {
                if j > i {
                    assert(ticks[i].tick < ticks[j].tick);
                }
            }
        },
    }
}

/// Where a scan from position `i` stops: at a tick equal to the key, or
/// at the first one above it (or at the end), every tick before it being
/// below the key when the ticks before `i` are.
proof fn lemma_search_ticks_spec(ticks: Seq<Tick>, key: int, i: int)
    requires
        0 <= i,
        forall|j: int| 0 <= j < i && j < ticks.len() ==> ticks[j].tick < key,
    ensures
        match tick_search(ticks, key, i) {
            Ok(k) => i <= k < ticks.len() && ticks[k].tick == key && forall|j: int|
                0 <= j < k ==> ticks[j].tick < key,
            Err(k) => (i <= k <= ticks.len() || (i > ticks.len() && k == ticks.len())) && (k
                < ticks.len() ==> ticks[k].tick > key) && forall|j: int|
                0 <= j < k ==> ticks[j].tick < key,
        },
    decreases ticks.len() - i,
{
    if i < ticks.len() && ticks[i].tick < key {
        lemma_search_ticks_spec(ticks, key, i + 1);
    }
}

/// A step that stops inside a range where the price moved from `cur` up to
/// `new` yields the liquidity times the move of the price (selling token0)
/// or of its inverse (selling token1), over 2^96 and rounded down, whenever
/// the product fits in 256 bits; a price that does not move yields nothing.
pub proof fn lemma_partial_out_is_liquidity_times_move(from0: bool, l: nat, cur: nat, new: nat)
    requires
        0 < cur <= new,
    ensures
        from0 && l * (new - cur) < modulus() ==> (partial_out(from0, l, cur, new) matches Some(o)
            && o * q96() <= l * (new - cur) < (o + 1) * q96()),
        !from0 && l * (q192() / cur) < modulus() ==> (partial_out(from0, l, cur, new) matches Some(
            o,
        ) && o * q96() <= l * (q192() / cur - q192() / new) < (o + 1) * q96()),
        partial_out(from0, l, cur, cur) == Some(0nat),
{
    vstd::arithmetic::div_mod::lemma_div_is_ordered_by_denominator(q192() as int, cur as int, new as int);
    let inv: int = q192() / cur - q192() / new;
    assert(0 <= inv <= q192() / cur);
    assert(l * inv <= l * (q192() / cur)) by (nonlinear_arith)
        requires
            0 <= inv <= q192() / cur,
            l >= 0,
    ;
    let m: int = new - cur;
    let o1 = (l * m) / (q96() as int);
    assert(o1 * q96() <= l * m < (o1 + 1) * q96()) by (nonlinear_arith)
        requires
            o1 == (l * m) / (q96() as int),
            q96() > 0,
    ;
    let o2 = (l * inv) / (q96() as int);
    assert(o2 * q96() <= l * inv < (o2 + 1) * q96()) by (nonlinear_arith)
        requires
            o2 == (l * inv) / (q96() as int),
            q96() > 0,
    ;
    assert(l * 0 == 0);
}

} // verus!

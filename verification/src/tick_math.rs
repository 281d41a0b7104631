//! Uniswap V3 tick bitmap and tick index arithmetic.
use vstd::prelude::*;
use vstd::arithmetic::div_mod::lemma_fundamental_div_mod_converse;
use vstd::arithmetic::power2::pow2;
use crate::uint::{
    U256, is_zero, overflowing_mul, shr, shl, div, bitand, eq, lt, word2, modulus,
    lemma_pow2_values, lemma_small_value, lemma_low_bits,
};
use std::collections::HashMap;
use vstd::std_specs::iter::IteratorSpec;

verus! {

/// The Euclidean quotient is the unique `q` with `a == b * q + r` and
/// `0 <= r < |b|`.
proof fn lemma_euclid_quotient(a: int, b: int, q: int, r: int)
    requires
        b != 0,
        a == b * q + r,
        0 <= r,
        r < b || r < -b,
        b > 0 ==> r < b,
        b < 0 ==> r < -b,
    ensures
        q == a / b,
{
    if b > 0 {
        lemma_fundamental_div_mod_converse(a, b, q, r);
    } else {
        assert(q == a / b) by (nonlinear_arith)
            requires
                b < 0,
                0 <= r < -b,
                a == b * q + r,
        ;
    }
}

/// An initialized tick of a V3 pool and the liquidity that enters or leaves
/// the pool when the price crosses it.
#[derive(Clone, Copy, Debug, PartialEq, Eq)]
pub struct Tick {
    pub tick: i32,
    pub liquidityNet: i128,
}

/// `a.div_euclid(b)`: the Euclidean quotient, which panics for a zero divisor
/// and for `i32::MIN / -1`.
pub(crate) fn div_euclid(a: i32, b: i32) -> (r: i32)
    requires
        b != 0,
        !(a == i32::MIN && b == -1),
    ensures
        r == a as int / b as int,
{
    let current_tick = a;
    let tick_spacing = b;
    let a = current_tick as i64;
    let b = tick_spacing as i64;
    let ua: u64 = if a >= 0 { a as u64 } else { (-a) as u64 };
    let ub: u64 = if b >= 0 { b as u64 } else { (-b) as u64 };
    let fl = ua / ub;
    let rem = ua % ub;
    proof {
        assert(ua == ub * fl + rem) by (nonlinear_arith)
            requires ub > 0, fl == ua / ub, rem == ua % ub;
        assert(fl <= ua) by (nonlinear_arith)
            requires ub > 0, fl == ua / ub, rem == ua % ub, ua == ub * fl + rem, rem >= 0;
    }
    let q: i64 = if a >= 0 {
        if b > 0 { fl as i64 } else { -(fl as i64) }
    } else {
        let c: u64 = if rem == 0 { fl } else { fl + 1 };
        if b > 0 { -(c as i64) } else { c as i64 }
    };
    proof {
        if a >= 0 {
            if b > 0 {
                lemma_euclid_quotient(a as int, b as int, q as int, rem as int);
            } else {
                assert(a == b * q + rem) by (nonlinear_arith)
                    requires ua == ub * fl + rem, a == ua, b == -ub, q == -fl;
                lemma_euclid_quotient(a as int, b as int, q as int, rem as int);
            }
        } else {
            if rem == 0 {
                if b > 0 {
                    assert(a == b * q) by (nonlinear_arith)
                        requires ua == ub * fl, a == -ua, b == ub, q == -fl;
                } else {
                    assert(a == b * q) by (nonlinear_arith)
                        requires ua == ub * fl, a == -ua, b == -ub, q == fl;
                }
                lemma_euclid_quotient(a as int, b as int, q as int, 0);
            } else {
                assert(fl + 1 <= ua) by (nonlinear_arith)
                    requires ua == ub * fl + rem, rem > 0, ub > 0, fl >= 0;
                if b > 0 {
                    assert(a == b * q + (ub - rem)) by (nonlinear_arith)
                        requires ua == ub * fl + rem, a == -ua, b == ub, q == -(fl + 1);
                } else {
                    assert(a == b * q + (ub - rem)) by (nonlinear_arith)
                        requires ua == ub * fl + rem, a == -ua, b == -ub, q == fl + 1;
                }
                lemma_euclid_quotient(a as int, b as int, q as int, ub - rem);
            }
        }
    }
    proof {
        if b == -1 {
            assert(fl == ua) by (nonlinear_arith)
                requires ub == 1, ua == ub * fl + rem, 0 <= rem < ub;
        } else if b == 1 {
            assert(fl == ua) by (nonlinear_arith)
                requires ub == 1, ua == ub * fl + rem, 0 <= rem < ub;
        } else {
            assert(2 * fl <= ua) by (nonlinear_arith)
                requires ub >= 2, ua == ub * fl + rem, 0 <= rem, fl >= 0;
        }
    }
    q as i32
}

/// The quotient of `a` by `b` rounded towards zero.
pub open spec fn trunc_quotient(a: int, b: int) -> int {
    let q = (if a >= 0 { a } else { -a }) / (if b >= 0 { b } else { -b });
    if (a >= 0) == (b > 0) || a == 0 {
        q
    } else {
        -q
    }
}

/// Normalize a tick by tick spacing (division towards zero).
pub fn normalize_tick(current_tick: i32, tick_spacing: i32) -> (r: i32)
    requires
        tick_spacing != 0,
        !(current_tick == i32::MIN && tick_spacing == -1),
    ensures
        r == trunc_quotient(current_tick as int, tick_spacing as int),
{
    let a = current_tick as i64;
    let b = tick_spacing as i64;
    let ua: u64 = if a >= 0 { a as u64 } else { (-a) as u64 };
    let ub: u64 = if b >= 0 { b as u64 } else { (-b) as u64 };
    let q = ua / ub;
    proof {
        assert(q <= ua) by (nonlinear_arith)
            requires ub >= 1, q == ua / ub;
        if ub >= 2 {
            assert(2 * q <= ua) by (nonlinear_arith)
                requires ub >= 2, q == ua / ub;
        }
    }
    let r: i64 = if (a >= 0) == (b > 0) || a == 0 { q as i64 } else { -(q as i64) };
    r as i32
}

/// Calculate the word index in the bitmap for a normalized tick.
pub fn word_index(normalized_tick: i32) -> (r: i32)
    ensures
        r == normalized_tick as int / 256,
{
    div_euclid(normalized_tick, 256)
}

/// The word indices `center - range ..= center + range`, in increasing order.
pub open spec fn index_range(center: int, range: int) -> Seq<int> {
    Seq::new(if range < 0 { 0 } else { (2 * range + 1) as nat }, |i: int| center - range + i)
}

/// Generate a range of word indices around the current index with given range.
pub fn word_indices(center: i32, range: i32) -> (r: Vec<i32>)
    requires
        i32::MIN <= center - range <= i32::MAX,
        i32::MIN <= center + range <= i32::MAX,
    ensures
        r@.map_values(|x: i32| x as int) == index_range(center as int, range as int),
{
    let lo = center - range;
    let hi = center + range;
    let mut out: Vec<i32> = Vec::new();
    if lo > hi {
        proof {
            assert(out@.map_values(|x: i32| x as int) =~= index_range(center as int, range as int));
        }
        return out;
    }
    let mut cur: i64 = lo as i64;
    while cur <= hi as i64
        invariant
            lo <= hi,
            lo == center - range,
            hi == center + range,
            lo <= cur <= hi + 1,
            out@.len() == cur - lo,
            forall|i: int| 0 <= i < out@.len() ==> out@[i] as int == lo + i,
        decreases hi + 1 - cur,
    {
        out.push(cur as i32);
        cur = cur + 1;
    }
    proof {
        assert(out@.map_values(|x: i32| x as int) =~= index_range(center as int, range as int));
    }
    out
}

/// Whether bit `b` of `v` is set.
pub open spec fn bit_set(v: nat, b: nat) -> bool {
    (v / pow2(b)) % 2 == 1
}

/// The tick at bit `b` of the bitmap word `word_idx`.
pub open spec fn tick_at(word_idx: int, b: int, tick_spacing: int) -> int {
    (word_idx * 256 + b) * tick_spacing
}

/// The ticks of the set bits among the lowest `n` bits of a bitmap word, in
/// increasing bit order.
pub open spec fn word_ticks(v: nat, word_idx: int, tick_spacing: int, n: nat) -> Seq<int>
    decreases n,
{
    if n == 0 {
        Seq::empty()
    } else {
        let prev = word_ticks(v, word_idx, tick_spacing, (n - 1) as nat);
        if bit_set(v, (n - 1) as nat) {
            prev.push(tick_at(word_idx, n - 1, tick_spacing))
        } else {
            prev
        }
    }
}

/// For every set bit, the tick index and the tick fit in an `i32`.
pub open spec fn word_ticks_fit(v: nat, word_idx: int, tick_spacing: int) -> bool {
    forall|b: nat|
        b < 256 && #[trigger] bit_set(v, b) ==> {
            &&& i32::MIN <= word_idx * 256 <= i32::MAX
            &&& i32::MIN <= word_idx * 256 + b <= i32::MAX
            &&& i32::MIN <= tick_at(word_idx, b as int, tick_spacing) <= i32::MAX
        }
}

/// No bit of a zero word is set.
proof fn lemma_zero_word_ticks(word_idx: int, tick_spacing: int, n: nat)
    ensures
        word_ticks(0, word_idx, tick_spacing, n) == Seq::<int>::empty(),
    decreases n,
{
    if n > 0 {
        lemma_zero_word_ticks(word_idx, tick_spacing, (n - 1) as nat);
        vstd::arithmetic::power2::lemma_pow2_pos((n - 1) as nat);
        assert(0nat / pow2((n - 1) as nat) == 0) by (nonlinear_arith)
            requires pow2((n - 1) as nat) > 0;
    }
}

/// Extract initialized tick values from a single bitmap word.
pub fn extract_ticks_from_bitmap(bitmap: U256, word_idx: i32, tick_spacing: i32) -> (r: Vec<i32>)
    requires
        word_ticks_fit(bitmap.value(), word_idx as int, tick_spacing as int),
    ensures
        r@.map_values(|x: i32| x as int) == word_ticks(
            bitmap.value(),
            word_idx as int,
            tick_spacing as int,
            256,
        ),
{
    let mut ticks: Vec<i32> = Vec::new();
    if is_zero(bitmap) {
        proof {
            lemma_zero_word_ticks(word_idx as int, tick_spacing as int, 256);
            assert(ticks@.map_values(|x: i32| x as int) =~= Seq::<int>::empty());
        }
        return ticks;
    }
    let mut bit: usize = 0;
    while bit < 256
        invariant
            bit <= 256,
            word_ticks_fit(bitmap.value(), word_idx as int, tick_spacing as int),
            ticks@.map_values(|x: i32| x as int) == word_ticks(
                bitmap.value(),
                word_idx as int,
                tick_spacing as int,
                bit as nat,
            ),
        decreases 256 - bit,
    {
        let ghost before = ticks@;
        if crate::uint::bit(bitmap, bit) {
            assert(bit_set(bitmap.value(), bit as nat));
            let normalized = (word_idx * 256) + (bit as i32);
            let t = normalized * tick_spacing;
            ticks.push(t);
            proof {
                assert(ticks@.map_values(|x: i32| x as int) =~= before.map_values(
                    |x: i32| x as int,
                ).push(tick_at(word_idx as int, bit as int, tick_spacing as int)));
            }
        }
        bit = bit + 1;
    }
    ticks
}

/// Whether every set bit of a bitmap word gives a tick index and a tick that
/// fit in an `i32` (`extract_ticks_from_bitmap` needs this; its arithmetic
/// overflows otherwise).
pub fn word_ticks_fit_check(bitmap: U256, word_idx: i32, tick_spacing: i32) -> (r: bool)
    ensures
        r == word_ticks_fit(bitmap.value(), word_idx as int, tick_spacing as int),
{
    let mut b: usize = 0;
    while b < 256
        invariant
            b <= 256,
            forall|c: nat|
                c < b && #[trigger] bit_set(bitmap.value(), c) ==> {
                    &&& i32::MIN <= word_idx * 256 <= i32::MAX
                    &&& i32::MIN <= word_idx * 256 + c <= i32::MAX
                    &&& i32::MIN <= tick_at(word_idx as int, c as int, tick_spacing as int)
                        <= i32::MAX
                },
        decreases 256 - b,
    {
        if crate::uint::bit(bitmap, b) {
            assert(bit_set(bitmap.value(), b as nat));
            let base = word_idx as i64 * 256;
            let normalized = base + b as i64;
            proof {
                let n = normalized as int;
                let t = tick_spacing as int;
                assert(-0x1_0000_0000_0000_0000_0000 <= n * t <= 0x1_0000_0000_0000_0000_0000)
                    by (nonlinear_arith)
                    requires
                        -0x100_0000_0000 <= n <= 0x100_0000_0000,
                        -0x8000_0000 <= t <= 0x7fff_ffff,
                ;
            }
            let tick = normalized as i128 * tick_spacing as i128;
            if base < i32::MIN as i64 || base > i32::MAX as i64 || normalized < i32::MIN as i64
                || normalized > i32::MAX as i64 || tick < i32::MIN as i128 || tick > i32::MAX as i128 {
                return false;
            }
        }
        b = b + 1;
    }
    true
}

/// The ticks of a sequence of bitmap words, word after word.
pub open spec fn words_ticks(entries: Seq<(i32, U256)>, tick_spacing: int) -> Seq<int>
    decreases entries.len(),
{
    if entries.len() == 0 {
        Seq::empty()
    } else {
        words_ticks(entries.drop_last(), tick_spacing) + word_ticks(
            entries.last().1.value(),
            entries.last().0 as int,
            tick_spacing,
            256,
        )
    }
}

/// Given a map of word_index -> bitmap, produce all initialized ticks, sorted.
/// The map is walked in whatever order the hash map yields its entries; the
/// ticks that come out are those of all entries, whatever the order.
pub fn collect_ticks_from_map(word_map: &HashMap<i32, U256>, tick_spacing: i32) -> (r: Vec<i32>)
    requires
        forall|k: i32|
            #[trigger] word_map@.contains_key(k) ==> word_ticks_fit(
                word_map@[k].value(),
                k as int,
                tick_spacing as int,
            ),
    ensures
        sorted(r@),
        exists|entries: Seq<(i32, U256)>, unsorted: Seq<i32>|
            #![trigger entries.to_set(), unsorted.to_multiset()]
            {
                &&& entries.to_set() == word_map@.kv_pairs()
                &&& entries.no_duplicates()
                &&& unsorted.map_values(|x: i32| x as int) == words_ticks(
                    entries,
                    tick_spacing as int,
                )
                &&& r@.to_multiset() == unsorted.to_multiset()
            },
{
    broadcast use vstd::std_specs::hash::group_hash_axioms;

    let mut ticks: Vec<i32> = Vec::new();
    let ghost mut seen: Seq<(i32, U256)> = Seq::empty();
    for pair in it: word_map.iter()
        invariant
            forall|k: i32|
                #[trigger] word_map@.contains_key(k) ==> word_ticks_fit(
                    word_map@[k].value(),
                    k as int,
                    tick_spacing as int,
                ),
            it.seq() == vstd::std_specs::hash::spec_hash_map_iter(word_map).remaining(),
            seen == it.seq().take(it.index() as int).map_values(
                |p: (&i32, &U256)| (*p.0, *p.1),
            ),
            ticks@.map_values(|x: i32| x as int) == words_ticks(seen, tick_spacing as int),
    {
        let (word_idx, bitmap) = pair;
        assert(word_map@.contains_key(*word_idx));
        let mut found = extract_ticks_from_bitmap(*bitmap, *word_idx, tick_spacing);
        let ghost prev = ticks@;
        let ghost prev_seen = seen;
        let ghost found_view = found@.map_values(|x: i32| x as int);
        ticks.append(&mut found);
        proof {
            seen = seen.push((*word_idx, *bitmap));
            assert(seen.drop_last() =~= prev_seen);
            assert(ticks@.map_values(|x: i32| x as int) =~= prev.map_values(|x: i32| x as int)
                + found_view);
        }
    }
    let ghost unsorted = ticks@;
    let r = sort_ticks(ticks);
    proof {
        let full = vstd::std_specs::hash::spec_hash_map_iter(word_map).remaining();
        assert(seen =~= full.map_values(|p: (&i32, &U256)| (*p.0, *p.1)));
        assert(seen =~= full.unref());
        assert(seen.to_set() =~= word_map@.kv_pairs());
        assert(seen.no_duplicates());
    }
    r
}

/// The pairs `(i, j)` with `i < j` stand in increasing order.
pub open spec fn sorted(s: Seq<i32>) -> bool {
    forall|i: int, j: int| 0 <= i < j < s.len() ==> s[i] <= s[j]
}

/// Sort ticks in increasing order (`sort_unstable`), keeping each tick as
/// often as it occurs.
pub fn sort_ticks(v: Vec<i32>) -> (r: Vec<i32>)
    ensures
        sorted(r@),
        r@.to_multiset() == v@.to_multiset(),
{
    broadcast use vstd::seq_lib::group_to_multiset_ensures;

    let mut out: Vec<i32> = Vec::new();
    let mut i: usize = 0;
    while i < v.len()
        invariant
            i <= v.len(),
            sorted(out@),
            out@.to_multiset() == v@.subrange(0, i as int).to_multiset(),
        decreases v.len() - i,
    {
        let x = v[i];
        let mut pos: usize = 0;
        while pos < out.len() && out[pos] <= x
            invariant
                pos <= out.len(),
                forall|k: int| 0 <= k < pos ==> out@[k] <= x,
            decreases out.len() - pos,
        {
            pos = pos + 1;
        }
        let ghost old_out = out@;
        out.insert(pos, x);
        proof {
            vstd::seq_lib::to_multiset_insert(old_out, pos as int, x);
            assert(out@ == old_out.insert(pos as int, x));
            assert(v@.subrange(0, i + 1) =~= v@.subrange(0, i as int).push(x));
            v@.subrange(0, i as int).to_multiset_ensures();
            assert forall|a: int, b: int| 0 <= a < b < out@.len() implies out@[a] <= out@[b] by {
                if b < pos {
                } else if b == pos {
                } else if a < pos {
                    assert(old_out[a] <= x);
                    if pos < old_out.len() {
                        assert(old_out[pos as int] > x);
                        assert(old_out[pos as int] <= old_out[b - 1]);
                    }
                } else if a == pos {
                    assert(old_out[pos as int] > x);
                    assert(old_out[pos as int] <= old_out[b - 1]);
                } else {
                }
            }
        }
        i = i + 1;
    }
    proof {
        assert(v@.subrange(0, v@.len() as int) =~= v@);
    }
    out
}


/// The largest tick magnitude that has a price.
pub const MAX_TICK: i32 = 887272;

/// `tick.unsigned_abs()`.
pub open spec fn abs_tick(t: i32) -> u32 {
    if t < 0 {
        (-(t as int)) as u32
    } else {
        t as u32
    }
}

/// The Q128.128 ratio before any factor is applied: `2^128 / sqrt(1.0001)`
/// (Uniswap V3's constant) when bit 0 of the tick's magnitude is set, else 1.
pub open spec fn ratio_start(abs_tick: u32) -> nat {
    if abs_tick & 1 != 0 {
        340265354078544963557816517032075149313nat
    } else {
        word2()
    }
}

/// The ratio after the first `k` entries of the factor table: for each entry
/// whose bit is set in the tick's magnitude, multiply and drop 128 bits.
pub open spec fn ratio_after(abs_tick: u32, k: nat) -> nat
    decreases k,
{
    if k == 0 {
        ratio_start(abs_tick)
    } else {
        let r = ratio_after(abs_tick, (k - 1) as nat);
        if abs_tick & magic_mask((k - 1) as nat) != 0 {
            r * magic_value((k - 1) as nat) / word2()
        } else {
            r
        }
    }
}

/// The Q128.128 ratio of a tick: inverted (`(2^256 - 1) / ratio`) for
/// positive ticks.
pub open spec fn q128_ratio(t: i32) -> nat {
    let r = ratio_after(abs_tick(t), 19);
    if t > 0 {
        ((modulus() - 1) as nat) / r
    } else {
        r
    }
}

/// The Q64.96 square-root price of a tick (Uniswap V3's
/// `getSqrtRatioAtTick`): the Q128.128 ratio shifted down by 32 bits,
/// rounded up.
pub open spec fn sqrt_price_at_tick(t: i32) -> nat {
    let r = q128_ratio(t);
    r / 0x1_0000_0000 + if r % 0x1_0000_0000 != 0 {
        1nat
    } else {
        0nat
    }
}

/// Each factor is below 1 (in Q128), and `ratio_floor` follows the factors
/// down.
proof fn lemma_table_step(k: nat)
    requires
        k < 19,
    ensures
        magic_value(k) < word2(),
        ratio_floor(k + 1) * word2() <= ratio_floor(k) * magic_value(k),
        ratio_floor(k) * magic_value(k) < (ratio_floor(k + 1) + 1) * word2(),
        ratio_floor(k + 1) <= ratio_floor(k),
{
}

/// One step of the ratio keeps it within its bounds.
proof fn lemma_ratio_step(r: nat, c: nat, lo: nat, lo2: nat, w: nat)
    by (nonlinear_arith)
    requires
        lo <= r <= w,
        c < w,
        lo2 * w <= lo * c,
        w > 0,
    ensures
        lo2 <= r * c / w <= r,
        r * c < w * w,
{
    assert(lo * c <= r * c);
    assert(r * c <= r * w);
    assert(r * c / w <= r);
}

/// The ratio after `k` factors lies between `ratio_floor(k)` and 2^128.
proof fn lemma_ratio_bounds(abs_tick: u32, k: nat)
    requires
        k <= 19,
    ensures
        ratio_floor(k) <= ratio_after(abs_tick, k) <= word2(),
    decreases k,
{
    if k > 0 {
        let j = (k - 1) as nat;
        lemma_ratio_bounds(abs_tick, j);
        lemma_table_step(j);
        lemma_ratio_step(
            ratio_after(abs_tick, j),
            magic_value(j),
            ratio_floor(j),
            ratio_floor(k),
            word2(),
        );
    }
}

/// The ratio of every tick is positive, so the price of a positive tick,
/// which divides by it, is defined.
pub proof fn lemma_ratio_positive(abs_tick: u32)
    ensures
        ratio_after(abs_tick, 19) >= 5800441176149320,
        ratio_after(abs_tick, 19) <= word2(),
{
    lemma_ratio_bounds(abs_tick, 19);
}

/// The square-root price (Q64.96) at a tick, `None` beyond `MAX_TICK`.
pub fn price_from_tick(target_tick: i32) -> (r: Option<U256>)
    ensures
        abs_tick(target_tick) > MAX_TICK ==> r is None,
        abs_tick(target_tick) <= MAX_TICK ==> (r matches Some(p) && p.value()
            == sqrt_price_at_tick(target_tick)),
{
    let abs_tick: u32 = if target_tick < 0 {
        (-(target_tick as i64)) as u32
    } else {
        target_tick as u32
    };
    if abs_tick > MAX_TICK as u32 {
        return None;
    }
    proof {
        lemma_pow2_values();
    }
    let mut ratio = if abs_tick & 0x1 != 0 {
        U256 { w0: 12262481743371124737, w1: 18445821805675392311, w2: 0, w3: 0 }
    } else {
        shl(U256::one(), 128)
    };
    proof {
        crate::uint::lemma_word_powers();
    }
    let mut k: usize = 0;
    while k < 19
        invariant
            k <= 19,
            abs_tick == crate::tick_math::abs_tick(target_tick),
            ratio.value() == ratio_after(abs_tick, k as nat),
            vstd::arithmetic::power2::pow2(128) == word2(),
            modulus() == word2() * word2(),
        decreases 19 - k,
    {
        let (mask, magic) = magic_entry(k);
        proof {
            lemma_ratio_bounds(abs_tick, k as nat);
            lemma_table_step(k as nat);
            lemma_ratio_step(
                ratio.value(),
                magic.value(),
                ratio_floor(k as nat),
                ratio_floor(k as nat + 1),
                word2(),
            );
        }
        if abs_tick & mask != 0 {
            let (wrapped, _) = overflowing_mul(ratio, magic);
            proof {
                vstd::arithmetic::div_mod::lemma_small_mod(
                    (ratio.value() * magic.value()) as nat,
                    modulus(),
                );
            }
            ratio = shr(wrapped, 128);
        }
        k = k + 1;
    }
    proof {
        lemma_ratio_positive(abs_tick);
    }
    if target_tick > 0 {
        ratio = div(U256::max_value(), ratio);
    }
    let low_mask = crate::uint::sub(shl(U256::one(), 32), U256::one());
    proof {
        lemma_small_value(low_mask);
    }
    let low = bitand(ratio, low_mask);
    let shifted = shr(ratio, 32);
    proof {
        lemma_low_bits(ratio);
        crate::uint::lemma_mask_limb(ratio.w0);
        crate::uint::lemma_mask_limb(ratio.w1);
        crate::uint::lemma_mask_limb(ratio.w2);
        crate::uint::lemma_mask_limb(ratio.w3);
        crate::uint::lemma_value_bound(ratio);
    }
    let sqrt_price_x96 = if !eq(low, U256::zero()) {
        crate::uint::add(shifted, U256::one())
    } else {
        shifted
    };
    Some(sqrt_price_x96)
}

/// The lowest square-root price that `tick_from_price` places on the tick scale.
pub open spec fn min_sqrt_price() -> nat {
    4295128739nat
}

/// The first square-root price above the tick scale.
pub open spec fn max_sqrt_price() -> nat {
    1461446703485210103287273052203988822378723970342nat
}

/// The ends of the tick scale and its middle: tick `-MAX_TICK` has the
/// lowest price on it, tick `MAX_TICK` the first price above it, and tick 0
/// the price 1 (2^96 in Q64.96).
pub proof fn lemma_price_scale_ends()
    ensures
        sqrt_price_at_tick(-887272i32) == min_sqrt_price(),
        sqrt_price_at_tick(887272) == max_sqrt_price(),
        sqrt_price_at_tick(0) == 0x1_0000_0000_0000_0000_0000_0000nat,
{
    let a: u32 = 887272;
    assert(abs_tick(-887272i32) == a);
    assert(abs_tick(887272) == a);
    assert(abs_tick(0) == 0);
    assert(a & 1 == 0 && a & 0x2 == 0 && a & 0x4 == 0 && a & 0x8 != 0 && a & 0x10 == 0
        && a & 0x20 != 0 && a & 0x40 != 0 && a & 0x80 != 0 && a & 0x100 != 0 && a & 0x200 == 0
        && a & 0x400 == 0 && a & 0x800 != 0 && a & 0x1000 == 0 && a & 0x2000 == 0 && a & 0x4000
        == 0 && a & 0x8000 != 0 && a & 0x10000 != 0 && a & 0x20000 == 0 && a & 0x40000 != 0 && a
        & 0x80000 != 0) by (bit_vector)
        requires
            a == 887272,
    ;
    assert(0u32 & 1 == 0 && 0u32 & 0x2 == 0 && 0u32 & 0x4 == 0 && 0u32 & 0x8 == 0 && 0u32 & 0x10
        == 0 && 0u32 & 0x20 == 0 && 0u32 & 0x40 == 0 && 0u32 & 0x80 == 0 && 0u32 & 0x100 == 0
        && 0u32 & 0x200 == 0 && 0u32 & 0x400 == 0 && 0u32 & 0x800 == 0 && 0u32 & 0x1000 == 0
        && 0u32 & 0x2000 == 0 && 0u32 & 0x4000 == 0 && 0u32 & 0x8000 == 0 && 0u32 & 0x10000 == 0
        && 0u32 & 0x20000 == 0 && 0u32 & 0x40000 == 0 && 0u32 & 0x80000 == 0) by (bit_vector);
    assert(ratio_after(a, 0) == 340282366920938463463374607431768211456nat);
    assert(magic_mask(0) == 0x2u32 && magic_value(0) == 340248342086729790484326174814286782778nat);
    assert(ratio_after(a, 1) == 340282366920938463463374607431768211456nat);
    assert(magic_mask(1) == 0x4u32 && magic_value(1) == 340214320654664324051920982716015181260nat);
    assert(ratio_after(a, 2) == 340282366920938463463374607431768211456nat);
    assert(magic_mask(2) == 0x8u32 && magic_value(2) == 340146287995602323631171512101879684304nat);
    assert(340282366920938463463374607431768211456nat * 340146287995602323631171512101879684304nat / word2() == 340146287995602323631171512101879684304nat) by (nonlinear_arith);
    assert(ratio_after(a, 3) == 340146287995602323631171512101879684304nat);
    assert(magic_mask(3) == 0x10u32 && magic_value(3) == 340010263488231146823593991679159461444nat);
    assert(ratio_after(a, 4) == 340146287995602323631171512101879684304nat);
    assert(magic_mask(4) == 0x20u32 && magic_value(4) == 339738377640345403697157401104375502016nat);
    assert(340146287995602323631171512101879684304nat * 339738377640345403697157401104375502016nat / word2() == 339602516256333450911508783463471979131nat) by (nonlinear_arith);
    assert(ratio_after(a, 5) == 339602516256333450911508783463471979131nat);
    assert(magic_mask(5) == 0x40u32 && magic_value(5) == 339195258003219555707034227454543997025nat);
    assert(339602516256333450911508783463471979131nat * 339195258003219555707034227454543997025nat / word2() == 338517579275194439321187592667164221528nat) by (nonlinear_arith);
    assert(ratio_after(a, 6) == 338517579275194439321187592667164221528nat);
    assert(magic_mask(6) == 0x80u32 && magic_value(6) == 338111622100601834656805679988414885971nat);
    assert(338517579275194439321187592667164221528nat * 338111622100601834656805679988414885971nat / word2() == 336358092468829139771578271041138980598nat) by (nonlinear_arith);
    assert(ratio_after(a, 7) == 336358092468829139771578271041138980598nat);
    assert(magic_mask(7) == 0x100u32 && magic_value(7) == 335954724994790223023589805789778977700nat);
    assert(336358092468829139771578271041138980598nat * 335954724994790223023589805789778977700nat / word2() == 332080358666931741096696533686537939851nat) by (nonlinear_arith);
    assert(ratio_after(a, 8) == 332080358666931741096696533686537939851nat);
    assert(magic_mask(8) == 0x200u32 && magic_value(8) == 331682121138379247127172139078559817300nat);
    assert(ratio_after(a, 9) == 332080358666931741096696533686537939851nat);
    assert(magic_mask(9) == 0x400u32 && magic_value(9) == 323299236684853023288211250268160618739nat);
    assert(ratio_after(a, 10) == 332080358666931741096696533686537939851nat);
    assert(magic_mask(10) == 0x800u32 && magic_value(10) == 307163716377032989948697243942600083929nat);
    assert(332080358666931741096696533686537939851nat * 307163716377032989948697243942600083929nat / word2() == 299759984706031786325544380651874553391nat) by (nonlinear_arith);
    assert(ratio_after(a, 11) == 299759984706031786325544380651874553391nat);
    assert(magic_mask(11) == 0x1000u32 && magic_value(11) == 277268403626896220162999269216087595045nat);
    assert(ratio_after(a, 12) == 299759984706031786325544380651874553391nat);
    assert(magic_mask(12) == 0x2000u32 && magic_value(12) == 225923453940442621947126027127485391333nat);
    assert(ratio_after(a, 13) == 299759984706031786325544380651874553391nat);
    assert(magic_mask(13) == 0x4000u32 && magic_value(13) == 149997214084966997727330242082538205943nat);
    assert(ratio_after(a, 14) == 299759984706031786325544380651874553391nat);
    assert(magic_mask(14) == 0x8000u32 && magic_value(14) == 66119101136024775622716233608466517926nat);
    assert(299759984706031786325544380651874553391nat * 66119101136024775622716233608466517926nat / word2() == 58245335850494778643666308752178602959nat) by (nonlinear_arith);
    assert(ratio_after(a, 15) == 58245335850494778643666308752178602959nat);
    assert(magic_mask(15) == 0x10000u32 && magic_value(15) == 12847376061809297530290974190478138313nat);
    assert(58245335850494778643666308752178602959nat * 12847376061809297530290974190478138313nat / word2() == 2199055273679667890264176287186730611nat) by (nonlinear_arith);
    assert(ratio_after(a, 16) == 2199055273679667890264176287186730611nat);
    assert(magic_mask(16) == 0x20000u32 && magic_value(16) == 485053260817066172746253684029974020nat);
    assert(ratio_after(a, 17) == 2199055273679667890264176287186730611nat);
    assert(magic_mask(17) == 0x40000u32 && magic_value(17) == 691415978906521570653435304214168nat);
    assert(2199055273679667890264176287186730611nat * 691415978906521570653435304214168nat / word2() == 4468236096036213022677869620526nat) by (nonlinear_arith);
    assert(ratio_after(a, 18) == 4468236096036213022677869620526nat);
    assert(magic_mask(18) == 0x80000u32 && magic_value(18) == 1404880482679654955896180642nat);
    assert(4468236096036213022677869620526nat * 1404880482679654955896180642nat / word2() == 18447437462383981825nat) by (nonlinear_arith);
    assert(ratio_after(a, 19) == 18447437462383981825nat);
    assert(ratio_after(0, 0) == word2());
    assert(ratio_after(0, 1) == word2());
    assert(ratio_after(0, 2) == word2());
    assert(ratio_after(0, 3) == word2());
    assert(ratio_after(0, 4) == word2());
    assert(ratio_after(0, 5) == word2());
    assert(ratio_after(0, 6) == word2());
    assert(ratio_after(0, 7) == word2());
    assert(ratio_after(0, 8) == word2());
    assert(ratio_after(0, 9) == word2());
    assert(ratio_after(0, 10) == word2());
    assert(ratio_after(0, 11) == word2());
    assert(ratio_after(0, 12) == word2());
    assert(ratio_after(0, 13) == word2());
    assert(ratio_after(0, 14) == word2());
    assert(ratio_after(0, 15) == word2());
    assert(ratio_after(0, 16) == word2());
    assert(ratio_after(0, 17) == word2());
    assert(ratio_after(0, 18) == word2());
    assert(ratio_after(0, 19) == word2());
}

/// The tick prices grow strictly with the tick over the whole scale
/// (`lemma_prices_increasing`).
pub open spec fn prices_increasing() -> bool {
    forall|a: i32, b: i32|
        -887272 <= a < b <= 887272 ==> #[trigger] sqrt_price_at_tick(a)
            < #[trigger] sqrt_price_at_tick(b)
}

/// `t` is on the tick scale and brackets price `p`: its price is at most
/// `p` and the next tick's exceeds it.
pub open spec fn brackets(t: int, p: nat) -> bool {
    &&& -887272 <= t < 887272
    &&& sqrt_price_at_tick(t as i32) <= p < sqrt_price_at_tick((t + 1) as i32)
}

/// The tick of a price on the tick scale: the tick that brackets it (the
/// greatest tick whose price is at most it; `lemma_bracket_unique`).
pub open spec fn tick_at_price(p: nat) -> int {
    choose|t: int| brackets(t, p)
}

/// `1 << i` for the twenty bits of a tick's magnitude.
proof fn lemma_bit_masks()
    ensures
        1u32 << 0u32 == 0x1u32 && 1u32 << 1u32 == 0x2u32 && 1u32 << 2u32 == 0x4u32 && 1u32 << 3u32 == 0x8u32 && 1u32 << 4u32 == 0x10u32 && 1u32 << 5u32 == 0x20u32 && 1u32 << 6u32 == 0x40u32 && 1u32 << 7u32 == 0x80u32 && 1u32 << 8u32 == 0x100u32 && 1u32 << 9u32 == 0x200u32 && 1u32 << 10u32 == 0x400u32 && 1u32 << 11u32 == 0x800u32 && 1u32 << 12u32 == 0x1000u32 && 1u32 << 13u32 == 0x2000u32 && 1u32 << 14u32 == 0x4000u32 && 1u32 << 15u32 == 0x8000u32 && 1u32 << 16u32 == 0x10000u32 && 1u32 << 17u32 == 0x20000u32 && 1u32 << 18u32 == 0x40000u32 && 1u32 << 19u32 == 0x80000u32,
{
    assert(1u32 << 0u32 == 0x1u32 && 1u32 << 1u32 == 0x2u32 && 1u32 << 2u32 == 0x4u32 && 1u32 << 3u32 == 0x8u32 && 1u32 << 4u32 == 0x10u32 && 1u32 << 5u32 == 0x20u32 && 1u32 << 6u32 == 0x40u32 && 1u32 << 7u32 == 0x80u32 && 1u32 << 8u32 == 0x100u32 && 1u32 << 9u32 == 0x200u32 && 1u32 << 10u32 == 0x400u32 && 1u32 << 11u32 == 0x800u32 && 1u32 << 12u32 == 0x1000u32 && 1u32 << 13u32 == 0x2000u32 && 1u32 << 14u32 == 0x4000u32 && 1u32 << 15u32 == 0x8000u32 && 1u32 << 16u32 == 0x10000u32 && 1u32 << 17u32 == 0x20000u32 && 1u32 << 18u32 == 0x40000u32 && 1u32 << 19u32 == 0x80000u32) by (bit_vector);
}

/// Bit `i` of a tick's magnitude, as the ratio reads it: bit 0 chooses the
/// start, bit `i` the factor `magic_value(i - 1)`.
pub open spec fn tick_bit(a: u32, i: nat) -> bool {
    if i == 0 {
        a & 1 != 0
    } else {
        a & magic_mask((i - 1) as nat) != 0
    }
}

/// `tick_bit` tests the bit `1 << i`.
proof fn lemma_tick_bit(a: u32, i: u32)
    requires
        i < 20,
    ensures
        tick_bit(a, i as nat) == (a & (1u32 << i) != 0),
{
    lemma_bit_masks();
    if i == 0 {
        assert(1u32 << (0u32) == 0x1u32);

    } else if i == 1 {
        assert(1u32 << (1u32) == 0x2u32);

    } else if i == 2 {
        assert(1u32 << (2u32) == 0x4u32);

    } else if i == 3 {
        assert(1u32 << (3u32) == 0x8u32);

    } else if i == 4 {
        assert(1u32 << (4u32) == 0x10u32);

    } else if i == 5 {
        assert(1u32 << (5u32) == 0x20u32);

    } else if i == 6 {
        assert(1u32 << (6u32) == 0x40u32);

    } else if i == 7 {
        assert(1u32 << (7u32) == 0x80u32);

    } else if i == 8 {
        assert(1u32 << (8u32) == 0x100u32);

    } else if i == 9 {
        assert(1u32 << (9u32) == 0x200u32);

    } else if i == 10 {
        assert(1u32 << (10u32) == 0x400u32);

    } else if i == 11 {
        assert(1u32 << (11u32) == 0x800u32);

    } else if i == 12 {
        assert(1u32 << (12u32) == 0x1000u32);

    } else if i == 13 {
        assert(1u32 << (13u32) == 0x2000u32);

    } else if i == 14 {
        assert(1u32 << (14u32) == 0x4000u32);

    } else if i == 15 {
        assert(1u32 << (15u32) == 0x8000u32);

    } else if i == 16 {
        assert(1u32 << (16u32) == 0x10000u32);

    } else if i == 17 {
        assert(1u32 << (17u32) == 0x20000u32);

    } else if i == 18 {
        assert(1u32 << (18u32) == 0x40000u32);

    } else if i == 19 {
        assert(1u32 << (19u32) == 0x80000u32);
    }
}

/// The bits of `a` below `j` are set and bit `j` is clear: `a + 1` clears
/// the former and sets the latter.
pub open spec fn low_ones(a: u32, j: u32) -> bool {
    &&& a & !(0xFFFF_FFFFu32 << j) == !(0xFFFF_FFFFu32 << j)
    &&& a & (1u32 << j) == 0
}

/// Adding one to `a` flips its trailing ones and the clear bit above them,
/// and keeps every higher bit.
proof fn lemma_carry(a: u32, b: u32, j: u32, i: u32)
    by (bit_vector)
    requires
        j < 20,
        i < 20,
        a < 0xFFFFF,
        b == a + 1,
        a & !(0xFFFF_FFFFu32 << j) == !(0xFFFF_FFFFu32 << j),
        a & (1u32 << j) == 0,
    ensures
        i < j ==> a & (1u32 << i) != 0 && b & (1u32 << i) == 0,
        b & (1u32 << j) != 0,
        j < i ==> b & (1u32 << i) == a & (1u32 << i),
{
}

/// Below bit 0 nothing is to be set; a set bit `j` above set bits extends
/// them, and below 2^20 - 1 that stops before bit 19 is passed.
proof fn lemma_ones_extend(a: u32, j: u32, j1: u32)
    by (bit_vector)
    requires
        j < 20,
        j1 == j + 1,
        a < 0xFFFFF,
        a & !(0xFFFF_FFFFu32 << j) == !(0xFFFF_FFFFu32 << j),
        a & (1u32 << j) != 0,
    ensures
        j < 19,
        a & !(0xFFFF_FFFFu32 << j1) == !(0xFFFF_FFFFu32 << j1),
{
}

/// The run of trailing ones of `a`, found from bit `j` up.
proof fn lemma_trailing_ones(a: u32, j: u32) -> (k: u32)
    requires
        j < 20,
        a < 0xFFFFF,
        a & !(0xFFFF_FFFFu32 << j) == !(0xFFFF_FFFFu32 << j),
    ensures
        j <= k < 20,
        low_ones(a, k),
    decreases 20 - j,
{
    if a & (1u32 << j) == 0 {
        j
    } else {
        lemma_ones_extend(a, j, (j + 1) as u32);
        lemma_trailing_ones(a, (j + 1) as u32)
    }
}

/// `x / d` is `q` when `q * d <= x < (q + 1) * d`.
proof fn lemma_floor_is(x: int, d: int, q: int)
    by (nonlinear_arith)
    requires
        d > 0,
        q * d <= x < (q + 1) * d,
    ensures
        x / d == q,
{
}

/// `ratio_floor` is the ratio of a magnitude whose low bits are all set.
proof fn lemma_floor_chain(k: nat)
    requires
        k < 19,
    ensures
        ratio_floor(k + 1) == ratio_floor(k) * magic_value(k) / word2(),
{
    lemma_table_step(k);
    lemma_floor_is((ratio_floor(k) * magic_value(k)) as int, word2() as int, ratio_floor(k + 1) as int);
}

/// The gap kept between the ratios of two neighbouring magnitudes, in
/// parts of `ratio_gap()`.
pub open spec fn ratio_gap() -> int {
    32768
}

/// Each factor is below the ratio of all the lower factors by more than one
/// part in `ratio_gap()`: the factor of bit `k + 1` against the ratio of bits
/// `0..=k`.
proof fn lemma_table_gap(k: nat)
    requires
        k < 19,
    ensures
        magic_value(k) * ratio_gap() <= ratio_floor(k) * (ratio_gap() - 1),
{
}

/// A floor step by the same factor keeps the gap, losing at most one part.
proof fn lemma_gap_step(x: int, y: int, c: int, w: int, m: int, g: int)
    by (nonlinear_arith)
    requires
        0 <= y,
        0 <= x,
        0 < c < w,
        g > 1,
        m >= 0,
        y * g <= x * (g - 1) + m * g,
    ensures
        (y * c / w) * g <= (x * c / w) * (g - 1) + (m + 1) * g,
{
    let x2 = x * c / w;
    let y2 = y * c / w;
    assert(y2 * w <= y * c);
    assert(x * c < (x2 + 1) * w);
    assert(y2 * w * g <= y * c * g);
    assert(y * c * g <= (x * (g - 1) + m * g) * c);
    assert((x * (g - 1)) * c < (x2 + 1) * w * (g - 1));
    assert(m * g * c <= m * g * w);
    assert(y2 * w * g < (x2 + 1) * w * (g - 1) + m * g * w);
    assert(y2 * g < (x2 + 1) * (g - 1) + m * g);
}

/// Up to the run of trailing ones of `a`, `a`'s ratio follows the all-ones
/// chain and `a + 1`'s stays at 1.
proof fn lemma_below_carry(a: u32, j: u32, k: nat)
    requires
        j < 20,
        a < 0xFFFFF,
        low_ones(a, j),
        k < j,
    ensures
        ratio_after(a, k) == ratio_floor(k),
        ratio_after((a + 1) as u32, k) == word2(),
    decreases k,
{
    let b = (a + 1) as u32;
    lemma_carry(a, b, j, k as u32);
    lemma_tick_bit(a, k as u32);
    lemma_tick_bit(b, k as u32);
    if k > 0 {
        lemma_below_carry(a, j, (k - 1) as nat);
        lemma_floor_chain((k - 1) as nat);
    }
}

/// From the carry bit up, the ratio of `a + 1` stays below that of `a` by
/// the gap, less one part for each step.
proof fn lemma_above_carry(a: u32, j: u32, k: nat)
    requires
        j < 20,
        a < 0xFFFFF,
        low_ones(a, j),
        j <= k <= 19,
    ensures
        ratio_after((a + 1) as u32, k) * ratio_gap() <= ratio_after(a, k) * (ratio_gap() - 1) + (k
            - j) * ratio_gap(),
    decreases k,
{
    let b = (a + 1) as u32;
    lemma_carry(a, b, j, k as u32);
    lemma_tick_bit(a, k as u32);
    lemma_tick_bit(b, k as u32);
    if k == j {
        if j == 0 {
            assert(ratio_after(a, 0) == word2());
        } else {
            lemma_below_carry(a, j, (j - 1) as nat);
            lemma_table_gap((j - 1) as nat);
            assert(word2() * magic_value((j - 1) as nat) / word2() == magic_value((j - 1) as nat))
                by (nonlinear_arith);
        }
    } else {
        lemma_above_carry(a, j, (k - 1) as nat);
        let x = ratio_after(a, (k - 1) as nat);
        let y = ratio_after(b, (k - 1) as nat);
        if tick_bit(a, k) {
            lemma_table_step((k - 1) as nat);
            lemma_gap_step(
                x as int,
                y as int,
                magic_value((k - 1) as nat) as int,
                word2() as int,
                (k - 1 - j) as int,
                ratio_gap(),
            );
        }
    }
}

/// The ratio of `a + 1` is below that of `a` by the gap, less 19 parts.
proof fn lemma_ratio_drops(a: u32)
    requires
        a < 887272,
    ensures
        ratio_after((a + 1) as u32, 19) * ratio_gap() <= ratio_after(a, 19) * (ratio_gap() - 1) + 19
            * ratio_gap(),
{
    assert(a & !(0xFFFF_FFFFu32 << 0u32) == !(0xFFFF_FFFFu32 << 0u32)) by (bit_vector);
    let j = lemma_trailing_ones(a, 0);
    lemma_above_carry(a, j, 19);
}

/// Rounded-up prices keep an order whose gap is two units of 2^32.
proof fn lemma_ceil_order(x: int, y: int)
    by (nonlinear_arith)
    requires
        0 <= y,
        y + 2 * 0x1_0000_0000 <= x,
    ensures
        y / 0x1_0000_0000 + (if y % 0x1_0000_0000 != 0 { 1int } else { 0int }) < x / 0x1_0000_0000
            + (if x % 0x1_0000_0000 != 0 { 1int } else { 0int }),
{
    assert(y / 0x1_0000_0000 + 2 <= x / 0x1_0000_0000);
}

/// Of two ratios with the gap between them, the larger one exceeds the
/// smaller by two units of 2^32, and inverting them keeps such a gap the
/// other way round.
proof fn lemma_gap_wide(x: int, y: int)
    requires
        5800441176149320 <= y,
        5800441176149320 <= x <= word2(),
        y <= word2(),
        y * ratio_gap() <= x * (ratio_gap() - 1) + 19 * ratio_gap(),
    ensures
        y + 2 * 0x1_0000_0000 <= x,
        ((modulus() - 1) / x) + 2 * 0x1_0000_0000 <= (modulus() - 1) / y,
{
    let g = ratio_gap();
    let m = modulus() - 1;
    let w = word2() as int;
    assert(2 * g * (x - y) >= x) by (nonlinear_arith)
        requires
            y * g <= x * (g - 1) + 19 * g,
            x >= 5800441176149320,
            g == 32768,
    ;
    assert(65536 * (x - y) >= x);
    let qx = m / x;
    let qy = m / y;
    assert(qx * x <= m && m < (qy + 1) * y) by (nonlinear_arith)
        requires
            x > 0,
            y > 0,
            qx == m / x,
            qy == m / y,
    ;
    assert((qy + 1 - qx) * x * y > m * (x - y)) by (nonlinear_arith)
        requires
            qx * x <= m,
            m < (qy + 1) * y,
            x > 0,
            y > 0,
    ;
    assert((qy + 1 - qx) * y * 2 * g > m) by (nonlinear_arith)
        requires
            (qy + 1 - qx) * x * y > m * (x - y),
            2 * g * (x - y) >= x,
            x > 0,
            y > 0,
            g > 0,
            m > 0,
    ;
    assert(qy + 1 - qx > 2 * 0x1_0000_0000 + 1) by (nonlinear_arith)
        requires
            (qy + 1 - qx) * y * 2 * g > m,
            0 < y <= w,
            g == 32768,
            w == 0x1_0000_0000_0000_0000_0000_0000_0000_0000,
            m == 0x1_0000_0000_0000_0000_0000_0000_0000_0000_0000_0000_0000_0000_0000_0000_0000_0000 - 1,
    ;
}

/// The price of a tick is below that of the next one.
proof fn lemma_price_step(t: i32)
    requires
        -887272 <= t < 887272,
    ensures
        sqrt_price_at_tick(t) < sqrt_price_at_tick((t + 1) as i32),
{
    if t < 0 {
        let a = abs_tick((t + 1) as i32);
        assert(abs_tick(t) == (a + 1) as u32);
        lemma_ratio_drops(a);
        lemma_ratio_bounds(a, 19);
        lemma_ratio_bounds((a + 1) as u32, 19);
        let x = ratio_after(a, 19);
        let y = ratio_after((a + 1) as u32, 19);
        lemma_gap_wide(x as int, y as int);
        lemma_ceil_order(x as int, y as int);
    } else if t == 0 {
        lemma_price_at_one();
        lemma_price_scale_ends();
    } else {
        let a = abs_tick(t);
        assert(abs_tick((t + 1) as i32) == (a + 1) as u32);
        lemma_ratio_drops(a);
        lemma_ratio_bounds(a, 19);
        lemma_ratio_bounds((a + 1) as u32, 19);
        let x = ratio_after(a, 19);
        let y = ratio_after((a + 1) as u32, 19);
        lemma_gap_wide(x as int, y as int);
        lemma_ceil_order(((modulus() - 1) as nat / y) as int, ((modulus() - 1) as nat / x) as int);
    }
}

/// Prices grow along the scale: by steps from `a` to `b`.
proof fn lemma_price_order(a: i32, b: i32)
    requires
        -887272 <= a < b <= 887272,
    ensures
        sqrt_price_at_tick(a) < sqrt_price_at_tick(b),
    decreases b - a,
{
    lemma_price_step((b - 1) as i32);
    if a < b - 1 {
        lemma_price_order(a, (b - 1) as i32);
    }
}

/// The square-root price grows strictly with the tick over the whole scale.
pub proof fn lemma_prices_increasing()
    ensures
        prices_increasing(),
{
    assert forall|a: i32, b: i32| -887272 <= a < b <= 887272 implies #[trigger] sqrt_price_at_tick(a)
        < #[trigger] sqrt_price_at_tick(b) by {
        lemma_price_order(a, b);
    }
}

/// The price of tick 1: `2^256 - 1` over the factor of bit 0, in Q64.96.
proof fn lemma_price_at_one()
    ensures
        sqrt_price_at_tick(1) == 79232123823359799118286999568nat,
{
    assert(1u32 & 1u32 != 0 && 1u32 & 0x2u32 == 0 && 1u32 & 0x4u32 == 0 && 1u32 & 0x8u32 == 0 && 1u32 & 0x10u32 == 0 && 1u32 & 0x20u32 == 0 && 1u32 & 0x40u32 == 0 && 1u32 & 0x80u32 == 0 && 1u32 & 0x100u32 == 0 && 1u32 & 0x200u32 == 0 && 1u32 & 0x400u32 == 0 && 1u32 & 0x800u32 == 0 && 1u32 & 0x1000u32 == 0 && 1u32 & 0x2000u32 == 0 && 1u32 & 0x4000u32 == 0 && 1u32 & 0x8000u32 == 0 && 1u32 & 0x10000u32 == 0 && 1u32 & 0x20000u32 == 0 && 1u32 & 0x40000u32 == 0 && 1u32 & 0x80000u32 == 0) by (bit_vector);
    assert(abs_tick(1) == 1);
    assert(magic_mask(0) == 0x2u32);
    assert(magic_mask(1) == 0x4u32);
    assert(magic_mask(2) == 0x8u32);
    assert(magic_mask(3) == 0x10u32);
    assert(magic_mask(4) == 0x20u32);
    assert(magic_mask(5) == 0x40u32);
    assert(magic_mask(6) == 0x80u32);
    assert(magic_mask(7) == 0x100u32);
    assert(magic_mask(8) == 0x200u32);
    assert(magic_mask(9) == 0x400u32);
    assert(magic_mask(10) == 0x800u32);
    assert(magic_mask(11) == 0x1000u32);
    assert(magic_mask(12) == 0x2000u32);
    assert(magic_mask(13) == 0x4000u32);
    assert(magic_mask(14) == 0x8000u32);
    assert(magic_mask(15) == 0x10000u32);
    assert(magic_mask(16) == 0x20000u32);
    assert(magic_mask(17) == 0x40000u32);
    assert(magic_mask(18) == 0x80000u32);
    assert(ratio_after(1, 0) == 340265354078544963557816517032075149313nat);
    assert(ratio_after(1, 1) == 340265354078544963557816517032075149313nat);
    assert(ratio_after(1, 2) == 340265354078544963557816517032075149313nat);
    assert(ratio_after(1, 3) == 340265354078544963557816517032075149313nat);
    assert(ratio_after(1, 4) == 340265354078544963557816517032075149313nat);
    assert(ratio_after(1, 5) == 340265354078544963557816517032075149313nat);
    assert(ratio_after(1, 6) == 340265354078544963557816517032075149313nat);
    assert(ratio_after(1, 7) == 340265354078544963557816517032075149313nat);
    assert(ratio_after(1, 8) == 340265354078544963557816517032075149313nat);
    assert(ratio_after(1, 9) == 340265354078544963557816517032075149313nat);
    assert(ratio_after(1, 10) == 340265354078544963557816517032075149313nat);
    assert(ratio_after(1, 11) == 340265354078544963557816517032075149313nat);
    assert(ratio_after(1, 12) == 340265354078544963557816517032075149313nat);
    assert(ratio_after(1, 13) == 340265354078544963557816517032075149313nat);
    assert(ratio_after(1, 14) == 340265354078544963557816517032075149313nat);
    assert(ratio_after(1, 15) == 340265354078544963557816517032075149313nat);
    assert(ratio_after(1, 16) == 340265354078544963557816517032075149313nat);
    assert(ratio_after(1, 17) == 340265354078544963557816517032075149313nat);
    assert(ratio_after(1, 18) == 340265354078544963557816517032075149313nat);
    assert(ratio_after(1, 19) == 340265354078544963557816517032075149313nat);
    assert(q128_ratio(1) == 340299380613952818054172298683778356828nat) by {
        assert(((modulus() - 1) as nat) / 340265354078544963557816517032075149313nat == 340299380613952818054172298683778356828nat) by (nonlinear_arith);
    }
    assert(340299380613952818054172298683778356828nat / 0x1_0000_0000 == 79232123823359799118286999567nat) by (nonlinear_arith);
    assert(340299380613952818054172298683778356828nat % 0x1_0000_0000 == 1547195996nat) by (nonlinear_arith);
}

/// Convert a Q64.96 square-root price to its tick (Uniswap V3's
/// `getTickAtSqrtRatio`): `None` for a price outside
/// `[min_sqrt_price(), max_sqrt_price())`, else the greatest tick `t` whose
/// price is at most the given price (`t < MAX_TICK`, and the price of `t + 1`
/// exceeds it), found by bisecting the tick scale.
pub fn tick_from_price(sqrt_price_x96: U256) -> (r: Option<i32>)
    ensures
        r is None <==> (sqrt_price_x96.value() < min_sqrt_price() || max_sqrt_price()
            <= sqrt_price_x96.value()),
        r matches Some(t) ==> t == tick_at_price(sqrt_price_x96.value()),
        r matches Some(t) ==> -887272 <= t < 887272 && sqrt_price_at_tick(t)
            <= sqrt_price_x96.value() < sqrt_price_at_tick((t + 1) as i32),
        r matches Some(t) ==> forall|u: i32|
            t < u <= 887272 ==> sqrt_price_x96.value() < #[trigger] sqrt_price_at_tick(u),
{
    let min_sqrt = U256::from_u64(4295128739);
    let max_sqrt = U256 { w0: 6743328256752651558, w1: 17280870778742802505, w2: 4294805859, w3: 0 };
    proof {
        crate::uint::lemma_word_powers();
    }
    if lt(sqrt_price_x96, min_sqrt) || !lt(sqrt_price_x96, max_sqrt) {
        return None;
    }
    let ghost p = sqrt_price_x96.value();
    proof {
        lemma_price_scale_ends();
    }
    let mut lo: i32 = -887272;
    let mut hi: i32 = 887272;
    while hi - lo > 1
        invariant
            -887272 <= lo < hi <= 887272,
            sqrt_price_at_tick(lo) <= p < sqrt_price_at_tick(hi),
            p == sqrt_price_x96.value(),
        decreases hi - lo,
    {
        let mid: i32 = lo + (hi - lo) / 2;
        let price = match price_from_tick(mid) {
            Some(price) => price,
            None => {
                return None;
            },
        };
        if lt(sqrt_price_x96, price) {
            hi = mid;
        } else {
            lo = mid;
        }
    }
    proof {
        assert(brackets(lo as int, p));
        lemma_bracket_unique(p, lo as int, tick_at_price(p));
        assert forall|u: i32| lo < u <= 887272 implies p < #[trigger] sqrt_price_at_tick(u) by {
            lemma_bracket_is_greatest(p, lo, u);
        }
    }
    Some(lo)
}

/// The tick that brackets a price is the greatest tick whose price is at
/// most that price: every later tick's price exceeds it.
pub proof fn lemma_bracket_is_greatest(p: nat, t: i32, u: i32)
    requires
        -887272 <= t < 887272,
        sqrt_price_at_tick(t) <= p < sqrt_price_at_tick((t + 1) as i32),
        t < u <= 887272,
    ensures
        p < sqrt_price_at_tick(u),
{
    lemma_prices_increasing();
    if u > t + 1 {
        assert(sqrt_price_at_tick((t + 1) as i32) < sqrt_price_at_tick(u));
    }
}

/// The price of a tick is bracketed by that tick alone, so `tick_from_price`
/// gives back the tick of every price that `price_from_tick` gives on
/// `[-MAX_TICK, MAX_TICK)`.
pub proof fn lemma_tick_price_round_trip(t: i32, u: i32)
    requires
        -887272 <= t < 887272,
        -887272 <= u < 887272,
        sqrt_price_at_tick(u) <= sqrt_price_at_tick(t) < sqrt_price_at_tick((u + 1) as i32),
    ensures
        u == t,
{
    lemma_prices_increasing();
    if u < t {
        if u + 1 < t {
            assert(sqrt_price_at_tick((u + 1) as i32) < sqrt_price_at_tick(t));
        }
    } else if t < u {
        assert(sqrt_price_at_tick(t) < sqrt_price_at_tick(u));
    }
}

/// The tick read back from a tick's own price is that tick, for every tick
/// in `[-MAX_TICK, MAX_TICK)`; so `tick_from_price` of what `price_from_tick`
/// gives there is the tick it started from.
pub proof fn lemma_tick_at_own_price(t: i32)
    requires
        -887272 <= t < 887272,
    ensures
        min_sqrt_price() <= sqrt_price_at_tick(t) < max_sqrt_price(),
        tick_at_price(sqrt_price_at_tick(t)) == t,
{
    let p = sqrt_price_at_tick(t);
    lemma_prices_increasing();
    lemma_price_scale_ends();
    if t > -887272 {
        assert(sqrt_price_at_tick(-887272i32) < p);
    }
    assert(p < sqrt_price_at_tick(887272i32));
    assert(p < sqrt_price_at_tick((t + 1) as i32));
    assert(brackets(t as int, p));
    lemma_bracket_unique(p, t as int, tick_at_price(p));
}

/// A price has at most one bracketing tick, and where it has one,
/// `tick_at_price` is that tick.
pub proof fn lemma_bracket_unique(p: nat, t: int, u: int)
    requires
        brackets(t, p),
        u == tick_at_price(p),
    ensures
        brackets(u, p),
        u == t,
{
    lemma_prices_increasing();
    assert(brackets(u, p));
    if u < t {
        if u + 1 < t {
            assert(sqrt_price_at_tick((u + 1) as i32) < sqrt_price_at_tick(t as i32));
        }
    } else if t < u {
        if t + 1 < u {
            assert(sqrt_price_at_tick((t + 1) as i32) < sqrt_price_at_tick(u as i32));
        }
    }
}

/// The bit of the tick's magnitude that entry `k` of the factor table
/// stands for, lowest first (`0x2` to `0x80000`).
pub open spec fn magic_mask(k: nat) -> u32 {
    if k == 0 {
        0x2
    } else if k == 1 {
        0x4
    } else if k == 2 {
        0x8
    } else if k == 3 {
        0x10
    } else if k == 4 {
        0x20
    } else if k == 5 {
        0x40
    } else if k == 6 {
        0x80
    } else if k == 7 {
        0x100
    } else if k == 8 {
        0x200
    } else if k == 9 {
        0x400
    } else if k == 10 {
        0x800
    } else if k == 11 {
        0x1000
    } else if k == 12 {
        0x2000
    } else if k == 13 {
        0x4000
    } else if k == 14 {
        0x8000
    } else if k == 15 {
        0x10000
    } else if k == 16 {
        0x20000
    } else if k == 17 {
        0x40000
    } else {
        0x80000
    }
}

/// Uniswap V3's Q128 factor for the bit `magic_mask(k)`: `2^128 /
/// 1.0001^(magic_mask(k) / 2)`, rounded as its `getSqrtRatioAtTick` has it.
pub open spec fn magic_value(k: nat) -> nat {
    if k == 0 {
        340248342086729790484326174814286782778nat
    } else if k == 1 {
        340214320654664324051920982716015181260nat
    } else if k == 2 {
        340146287995602323631171512101879684304nat
    } else if k == 3 {
        340010263488231146823593991679159461444nat
    } else if k == 4 {
        339738377640345403697157401104375502016nat
    } else if k == 5 {
        339195258003219555707034227454543997025nat
    } else if k == 6 {
        338111622100601834656805679988414885971nat
    } else if k == 7 {
        335954724994790223023589805789778977700nat
    } else if k == 8 {
        331682121138379247127172139078559817300nat
    } else if k == 9 {
        323299236684853023288211250268160618739nat
    } else if k == 10 {
        307163716377032989948697243942600083929nat
    } else if k == 11 {
        277268403626896220162999269216087595045nat
    } else if k == 12 {
        225923453940442621947126027127485391333nat
    } else if k == 13 {
        149997214084966997727330242082538205943nat
    } else if k == 14 {
        66119101136024775622716233608466517926nat
    } else if k == 15 {
        12847376061809297530290974190478138313nat
    } else if k == 16 {
        485053260817066172746253684029974020nat
    } else if k == 17 {
        691415978906521570653435304214168nat
    } else {
        1404880482679654955896180642nat
    }
}

/// A lower bound of the ratio after `k` factors: the ratio of a tick whose
/// bits are all set, which every factor lowers.
pub open spec fn ratio_floor(k: nat) -> nat {
    if k == 0 {
        340265354078544963557816517032075149313nat
    } else if k == 1 {
        340231330945450418515964920540021147198nat
    } else if k == 2 {
        340163294884840501567246455576441303173nat
    } else if k == 3 {
        340027263576413978334042125129128142263nat
    } else if k == 4 {
        339755364134575681238502878529008278326nat
    } else if k == 5 {
        339212217342146842559531600927033253847nat
    } else if k == 6 {
        338128527259088467778511436198880488164nat
    } else if k == 7 {
        335971522311117552149334092109581418674nat
    } else if k == 8 {
        331698704829854243503582989311158516586nat
    } else if k == 9 {
        323315401242583425022802937239550140918nat
    } else if k == 10 {
        307179074178916392659402722612948179612nat
    } else if k == 11 {
        277282266700509388632609933215391170106nat
    } else if k == 12 {
        225934749830749445986089663015556949343nat
    } else if k == 13 {
        150004713758184102711002566140788444796nat
    } else if k == 14 {
        66122407008436832627027740713496573148nat
    } else if k == 15 {
        12848018414553970828728179856918040433nat
    } else if k == 16 {
        485077512873820763967752669154895175nat
    } else if k == 17 {
        691450548841240133896843047535567nat
    } else if k == 18 {
        1404950724947776134837143967nat
    } else {
        5800441176149320nat
    }
}

/// Entry `k` of the factor table: its bit and its factor.
fn magic_entry(k: usize) -> (r: (u32, U256))
    requires
        k < 19,
    ensures
        r.0 == magic_mask(k as nat),
        r.1.value() == magic_value(k as nat),
 {
    if k == 0 {
        (0x2, U256 { w0: 6459403834229662010, w1: 18444899583751176498, w2: 0, w3: 0 })
    } else if k == 1 {
        (0x4, U256 { w0: 17226890335427755468, w1: 18443055278223354162, w2: 0, w3: 0 })
    } else if k == 2 {
        (0x8, U256 { w0: 2032852871939366096, w1: 18439367220385604838, w2: 0, w3: 0 })
    } else if k == 3 {
        (0x10, U256 { w0: 14545316742740207172, w1: 18431993317065449817, w2: 0, w3: 0 })
    } else if k == 4 {
        (0x20, U256 { w0: 5129152022828963008, w1: 18417254355718160513, w2: 0, w3: 0 })
    } else if k == 5 {
        (0x40, U256 { w0: 4894419605888772193, w1: 18387811781193591352, w2: 0, w3: 0 })
    } else if k == 6 {
        (0x80, U256 { w0: 1280255884321894483, w1: 18329067761203520168, w2: 0, w3: 0 })
    } else if k == 7 {
        (0x100, U256 { w0: 15924666964335305636, w1: 18212142134806087854, w2: 0, w3: 0 })
    } else if k == 8 {
        (0x200, U256 { w0: 8010504389359918676, w1: 17980523815641551639, w2: 0, w3: 0 })
    } else if k == 9 {
        (0x400, U256 { w0: 10668036004952895731, w1: 17526086738831147013, w2: 0, w3: 0 })
    } else if k == 10 {
        (0x800, U256 { w0: 4878133418470705625, w1: 16651378430235024244, w2: 0, w3: 0 })
    } else if k == 11 {
        (0x1000, U256 { w0: 9537173718739605541, w1: 15030750278693429944, w2: 0, w3: 0 })
    } else if k == 12 {
        (0x2000, U256 { w0: 9972618978014552549, w1: 12247334978882834399, w2: 0, w3: 0 })
    } else if k == 13 {
        (0x4000, U256 { w0: 10428997489610666743, w1: 8131365268884726200, w2: 0, w3: 0 })
    } else if k == 14 {
        (0x8000, U256 { w0: 9305304367709015974, w1: 3584323654723342297, w2: 0, w3: 0 })
    } else if k == 15 {
        (0x10000, U256 { w0: 14301143598189091785, w1: 696457651847595233, w2: 0, w3: 0 })
    } else if k == 16 {
        (0x20000, U256 { w0: 7393154844743099908, w1: 26294789957452057, w2: 0, w3: 0 })
    } else if k == 17 {
        (0x40000, U256 { w0: 2209338891292245656, w1: 37481735321082, w2: 0, w3: 0 })
    } else {
        (0x80000, U256 { w0: 10518117631919034274, w1: 76158723, w2: 0, w3: 0 })
    }
}


} // verus!

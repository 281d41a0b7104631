//! 256-bit unsigned and signed integers as plain limbs, with the arithmetic
//! of `ethers::types::U256` behind small trusted wrappers.
use vstd::prelude::*;
use vstd::arithmetic::power2::{pow2, lemma2_to64, lemma_pow2_adds};
use vstd::arithmetic::power::pow;
use crate::address::{be_nat, lemma_be_nat_concat, lemma_pow256_values, lemma_digits_unique, u64_from_be};

verus! {

/// 2^64 as a mathematical integer.
pub open spec fn word() -> nat {
    0x1_0000_0000_0000_0000nat
}

/// 2^128.
pub open spec fn word2() -> nat {
    0x1_0000_0000_0000_0000_0000_0000_0000_0000nat
}

/// 2^192.
pub open spec fn word3() -> nat {
    0x1_0000_0000_0000_0000_0000_0000_0000_0000_0000_0000_0000_0000nat
}

/// 2^256, the modulus of 256-bit arithmetic.
pub open spec fn modulus() -> nat {
    0x1_0000_0000_0000_0000_0000_0000_0000_0000_0000_0000_0000_0000_0000_0000_0000_0000nat
}

/// An unsigned 256-bit integer as four 64-bit limbs, `w0` the least
/// significant (the layout of `ethers::types::U256`).
#[derive(Clone, Copy, Debug, PartialEq, Eq, Structural)]
pub struct U256 {
    pub w0: u64,
    pub w1: u64,
    pub w2: u64,
    pub w3: u64,
}

impl U256 {
    /// The number the limbs denote.
    pub open spec fn value(self) -> nat {
        self.w0 as nat + self.w1 as nat * word() + self.w2 as nat * word2() + self.w3 as nat
            * word3()
    }

    pub fn zero() -> (r: U256)
        ensures
            r.value() == 0,
    {
        U256 { w0: 0, w1: 0, w2: 0, w3: 0 }
    }

    pub fn one() -> (r: U256)
        ensures
            r.value() == 1,
    {
        U256 { w0: 1, w1: 0, w2: 0, w3: 0 }
    }

    /// `U256::from(x)` for an unsigned 64-bit `x`.
    pub fn from_u64(x: u64) -> (r: U256)
        ensures
            r.value() == x,
    {
        U256 { w0: x, w1: 0, w2: 0, w3: 0 }
    }

    /// `U256::from(x)` for an unsigned 128-bit `x`.
    pub fn from_u128(x: u128) -> (r: U256)
        ensures
            r.value() == x,
    {
        let lo = x as u64;
        let hi = (x >> 64u32) as u64;
        proof {
            assert(lo == x % 0x1_0000_0000_0000_0000) by (bit_vector)
                requires lo == x as u64;
            assert(hi == x / 0x1_0000_0000_0000_0000) by (bit_vector)
                requires hi == (x >> 64u32) as u64;
            vstd::arithmetic::div_mod::lemma_fundamental_div_mod(x as int, 0x1_0000_0000_0000_0000);
        }
        U256 { w0: lo, w1: hi, w2: 0, w3: 0 }
    }

    /// `U256::MAX`.
    pub fn max_value() -> (r: U256)
        ensures
            r.value() == modulus() - 1,
    {
        U256 {
            w0: 0xffff_ffff_ffff_ffff,
            w1: 0xffff_ffff_ffff_ffff,
            w2: 0xffff_ffff_ffff_ffff,
            w3: 0xffff_ffff_ffff_ffff,
        }
    }
}

impl U256 {
    /// `U256::from_big_endian` on 32 bytes.
    pub fn from_be_bytes(s: &[u8]) -> (r: U256)
        requires
            s@.len() == 32,
        ensures
            r.value() == be_nat(s@),
    {
        let w3 = u64_from_be(s, 0);
        let w2 = u64_from_be(s, 8);
        let w1 = u64_from_be(s, 16);
        let w0 = u64_from_be(s, 24);
        proof {
            let a = s@.subrange(0, 8);
            let b = s@.subrange(8, 16);
            let c = s@.subrange(16, 24);
            let d = s@.subrange(24, 32);
            lemma_be_nat_concat(a, b);
            lemma_be_nat_concat(a + b, c);
            lemma_be_nat_concat(a + b + c, d);
            lemma_pow256_values();
            assert(a + b + c + d =~= s@);
            let w = 0x1_0000_0000_0000_0000nat;
            assert(be_nat(a + b) == w3 as nat * w + w2 as nat);
            assert(be_nat(a + b + c) == be_nat(a + b) * w + w1 as nat);
            assert(be_nat(s@) == be_nat(a + b + c) * w + w0 as nat);
            let x = be_nat(a + b);
            let y = be_nat(a + b + c);
            let z = be_nat(s@);
            assert(z == w0 as nat + w1 as nat * word() + w2 as nat * word2() + w3 as nat * word3())
                by (nonlinear_arith)
                requires
                    x == w3 as nat * w + w2 as nat,
                    y == x * w + w1 as nat,
                    z == y * w + w0 as nat,
                    w == word(),
                    word2() == w * w,
                    word3() == w * w * w,
            ;
        }
        U256 { w0, w1, w2, w3 }
    }
}

/// Distinct limbs denote distinct numbers.
pub proof fn lemma_u256_value_injective(a: U256, b: U256)
    requires
        a.value() == b.value(),
    ensures
        a == b,
{
    let w = 0x1_0000_0000_0000_0000int;
    let a2 = a.w3 as int * w + a.w2 as int;
    let b2 = b.w3 as int * w + b.w2 as int;
    let a3 = a2 * w + a.w1 as int;
    let b3 = b2 * w + b.w1 as int;
    assert(a.value() == a3 * w + a.w0 as int);
    assert(b.value() == b3 * w + b.w0 as int);
    lemma_digits_unique(a3, a.w0 as int, b3, b.w0 as int, w);
    lemma_digits_unique(a2, a.w1 as int, b2, b.w1 as int, w);
    lemma_digits_unique(a.w3 as int, a.w2 as int, b.w3 as int, b.w2 as int, w);
}

/// A signed 256-bit integer (`ethers::types::I256`) in two's complement: the
/// 256 bits are those of `raw`.
#[derive(Clone, Copy, Debug, PartialEq, Eq, Structural)]
pub struct I256 {
    pub raw: U256,
}

impl I256 {
    /// The number a two's-complement word denotes.
    pub open spec fn value(self) -> int {
        if self.raw.value() >= modulus() / 2 {
            self.raw.value() - modulus()
        } else {
            self.raw.value() as int
        }
    }
}

impl I256 {
    /// `I256::as_i64`, which panics when the number lies outside the range
    /// of `i64`.
    #[verifier::external_body]
    pub(crate) fn as_i64(&self) -> (r: i64)
        requires
            i64::MIN <= self.value() <= i64::MAX,
        ensures
            r == self.value(),
    {
        let u = ethers::types::U256([self.raw.w0, self.raw.w1, self.raw.w2, self.raw.w3]);
        ethers::types::I256::from_raw(u).as_i64()
    }
}

/// The limb weights are the powers of 2^64.
pub proof fn lemma_word_powers()
    ensures
        word2() == word() * word(),
        word3() == word() * word() * word(),
        modulus() == word() * word() * word() * word(),
{
    assert(word2() == word() * word());
    assert(word3() == word2() * word());
    assert(modulus() == word3() * word());
}

/// The powers of two that the fixed-point formats use.
pub proof fn lemma_pow2_values()
    ensures
        pow2(1) == 2,
        pow2(32) == 0x1_0000_0000,
        pow2(64) == word(),
        pow2(96) == 0x1_0000_0000_0000_0000_0000_0000nat,
        pow2(127) == 0x8000_0000_0000_0000_0000_0000_0000_0000nat,
        pow2(128) == word2(),
        pow2(192) == word3(),
        pow2(256) == modulus(),
{
    lemma2_to64();
    lemma_pow2_adds(32, 32);
    lemma_pow2_adds(64, 32);
    lemma_pow2_adds(64, 64);
    lemma_pow2_adds(64, 63);
    lemma_pow2_adds(32, 31);
    lemma_pow2_adds(128, 64);
    lemma_pow2_adds(128, 128);
    assert(word2() * word2() == modulus());
    assert(word2() * word() == word3());
}

/// A value below 2^64 lives in the lowest limb alone.
pub proof fn lemma_small_value(x: U256)
    requires
        x.value() < word(),
    ensures
        x.w0 == x.value(),
        x.w1 == 0,
        x.w2 == 0,
        x.w3 == 0,
{
}

/// The remainder of a value by 2^32 is that of its lowest limb.
pub proof fn lemma_low_bits(x: U256)
    ensures
        x.value() % 0x1_0000_0000 == x.w0 % 0x1_0000_0000,
{
    let k = x.w1 as int * 0x1_0000_0000 + x.w2 as int * 0x1_0000_0000_0000_0000_0000_0000 + x.w3 as int
        * 0x1_0000_0000_0000_0000_0000_0000_0000_0000_0000_0000;
    assert(x.value() == x.w0 + k * 0x1_0000_0000);
    vstd::arithmetic::div_mod::lemma_mod_multiples_vanish(k, x.w0 as int, 0x1_0000_0000);
    assert((0x1_0000_0000 * k + x.w0) % 0x1_0000_0000 == x.w0 % 0x1_0000_0000);
}

/// Masking a limb with `0xffff_ffff` keeps its remainder by 2^32; masking
/// with zero clears it.
pub proof fn lemma_mask_limb(x: u64)
    ensures
        x & 0xffff_ffff == x % 0x1_0000_0000,
        x & 0 == 0,
{
    assert(x & 0xffff_ffff == x % 0x1_0000_0000) by (bit_vector);
    assert(x & 0 == 0) by (bit_vector);
}

/// Every `U256` denotes a number below 2^256.
pub proof fn lemma_value_bound(x: U256)
    ensures
        x.value() < modulus(),
{
    let a = x.w0 as int;
    let b = x.w1 as int;
    let c = x.w2 as int;
    let d = x.w3 as int;
    let w = word() as int;
    lemma_word_powers();
    assert(a + b * w + c * (w * w) + d * (w * w * w) < w * w * w * w) by (nonlinear_arith)
        requires
            0 <= a < w,
            0 <= b < w,
            0 <= c < w,
            0 <= d < w,
            w == 0x1_0000_0000_0000_0000,
    {
        assert(b * w <= (w - 1) * w);
        assert(c * (w * w) <= (w - 1) * (w * w));
        assert(d * (w * w * w) <= (w - 1) * (w * w * w));
    }
}

/// `U256::checked_add`: the sum, or `None` when it does not fit in 256 bits.
#[verifier::external_body]
pub(crate) fn checked_add(a: U256, b: U256) -> (r: Option<U256>)
    ensures
        r.is_some() <==> a.value() + b.value() < modulus(),
        r matches Some(c) ==> c.value() == a.value() + b.value(),
{
    let x = ethers::types::U256([a.w0, a.w1, a.w2, a.w3]);
    match x.checked_add(ethers::types::U256([b.w0, b.w1, b.w2, b.w3])) {
        Some(c) => Some(U256 { w0: c.0[0], w1: c.0[1], w2: c.0[2], w3: c.0[3] }),
        None => None,
    }
}

/// `U256::checked_sub`: the difference, or `None` when `b` exceeds `a`.
#[verifier::external_body]
pub(crate) fn checked_sub(a: U256, b: U256) -> (r: Option<U256>)
    ensures
        r.is_some() <==> b.value() <= a.value(),
        r matches Some(c) ==> c.value() == a.value() - b.value(),
{
    let x = ethers::types::U256([a.w0, a.w1, a.w2, a.w3]);
    match x.checked_sub(ethers::types::U256([b.w0, b.w1, b.w2, b.w3])) {
        Some(c) => Some(U256 { w0: c.0[0], w1: c.0[1], w2: c.0[2], w3: c.0[3] }),
        None => None,
    }
}

/// `U256::checked_mul`: the product, or `None` when it does not fit in 256 bits.
#[verifier::external_body]
pub(crate) fn checked_mul(a: U256, b: U256) -> (r: Option<U256>)
    ensures
        r.is_some() <==> a.value() * b.value() < modulus(),
        r matches Some(c) ==> c.value() == a.value() * b.value(),
{
    let x = ethers::types::U256([a.w0, a.w1, a.w2, a.w3]);
    match x.checked_mul(ethers::types::U256([b.w0, b.w1, b.w2, b.w3])) {
        Some(c) => Some(U256 { w0: c.0[0], w1: c.0[1], w2: c.0[2], w3: c.0[3] }),
        None => None,
    }
}

/// `U256::checked_div`: the floor quotient, or `None` when `b` is zero.
#[verifier::external_body]
pub(crate) fn checked_div(a: U256, b: U256) -> (r: Option<U256>)
    ensures
        r.is_some() <==> b.value() != 0,
        r matches Some(c) ==> c.value() == a.value() / b.value(),
{
    let x = ethers::types::U256([a.w0, a.w1, a.w2, a.w3]);
    match x.checked_div(ethers::types::U256([b.w0, b.w1, b.w2, b.w3])) {
        Some(c) => Some(U256 { w0: c.0[0], w1: c.0[1], w2: c.0[2], w3: c.0[3] }),
        None => None,
    }
}

/// `U256::overflowing_mul`: the product modulo 2^256 and whether it wrapped.
#[verifier::external_body]
pub(crate) fn overflowing_mul(a: U256, b: U256) -> (r: (U256, bool))
    ensures
        r.0.value() == (a.value() * b.value()) % modulus(),
        r.1 == (a.value() * b.value() >= modulus()),
{
    let x = ethers::types::U256([a.w0, a.w1, a.w2, a.w3]);
    let (c, o) = x.overflowing_mul(ethers::types::U256([b.w0, b.w1, b.w2, b.w3]));
    (U256 { w0: c.0[0], w1: c.0[1], w2: c.0[2], w3: c.0[3] }, o)
}

/// `U256::overflowing_add`: the sum modulo 2^256 and whether it wrapped.
#[verifier::external_body]
pub(crate) fn overflowing_add(a: U256, b: U256) -> (r: (U256, bool))
    ensures
        r.0.value() == (a.value() + b.value()) % modulus(),
        r.1 == (a.value() + b.value() >= modulus()),
{
    let x = ethers::types::U256([a.w0, a.w1, a.w2, a.w3]);
    let (c, o) = x.overflowing_add(ethers::types::U256([b.w0, b.w1, b.w2, b.w3]));
    (U256 { w0: c.0[0], w1: c.0[1], w2: c.0[2], w3: c.0[3] }, o)
}

/// `U256::saturating_add`: the sum, capped at 2^256 - 1.
#[verifier::external_body]
pub(crate) fn saturating_add(a: U256, b: U256) -> (r: U256)
    ensures
        r.value() == if a.value() + b.value() < modulus() {
            a.value() + b.value()
        } else {
            (modulus() - 1) as nat
        },
{
    let x = ethers::types::U256([a.w0, a.w1, a.w2, a.w3]);
    let c = x.saturating_add(ethers::types::U256([b.w0, b.w1, b.w2, b.w3]));
    U256 { w0: c.0[0], w1: c.0[1], w2: c.0[2], w3: c.0[3] }
}

/// `U256::saturating_sub`: the difference, or zero when `b` exceeds `a`.
#[verifier::external_body]
pub(crate) fn saturating_sub(a: U256, b: U256) -> (r: U256)
    ensures
        r.value() == if b.value() <= a.value() {
            (a.value() - b.value()) as nat
        } else {
            0
        },
{
    let x = ethers::types::U256([a.w0, a.w1, a.w2, a.w3]);
    let c = x.saturating_sub(ethers::types::U256([b.w0, b.w1, b.w2, b.w3]));
    U256 { w0: c.0[0], w1: c.0[1], w2: c.0[2], w3: c.0[3] }
}

/// `U256::saturating_mul`: the product, capped at 2^256 - 1.
#[verifier::external_body]
pub(crate) fn saturating_mul(a: U256, b: U256) -> (r: U256)
    ensures
        r.value() == if a.value() * b.value() < modulus() {
            a.value() * b.value()
        } else {
            (modulus() - 1) as nat
        },
{
    let x = ethers::types::U256([a.w0, a.w1, a.w2, a.w3]);
    let c = x.saturating_mul(ethers::types::U256([b.w0, b.w1, b.w2, b.w3]));
    U256 { w0: c.0[0], w1: c.0[1], w2: c.0[2], w3: c.0[3] }
}

/// `U256 + U256` (the `Add` operator), which panics on overflow.
#[verifier::external_body]
pub(crate) fn add(a: U256, b: U256) -> (r: U256)
    requires
        a.value() + b.value() < modulus(),
    ensures
        r.value() == a.value() + b.value(),
{
    let c = ethers::types::U256([a.w0, a.w1, a.w2, a.w3]) + ethers::types::U256([b.w0, b.w1, b.w2, b.w3]);
    U256 { w0: c.0[0], w1: c.0[1], w2: c.0[2], w3: c.0[3] }
}

/// `U256 - U256` (the `Sub` operator), which panics on underflow.
#[verifier::external_body]
pub(crate) fn sub(a: U256, b: U256) -> (r: U256)
    requires
        b.value() <= a.value(),
    ensures
        r.value() == a.value() - b.value(),
{
    let c = ethers::types::U256([a.w0, a.w1, a.w2, a.w3]) - ethers::types::U256([b.w0, b.w1, b.w2, b.w3]);
    U256 { w0: c.0[0], w1: c.0[1], w2: c.0[2], w3: c.0[3] }
}

/// `U256 / U256` (the `Div` operator), which panics on a zero divisor.
#[verifier::external_body]
pub(crate) fn div(a: U256, b: U256) -> (r: U256)
    requires
        b.value() != 0,
    ensures
        r.value() == a.value() / b.value(),
{
    let c = ethers::types::U256([a.w0, a.w1, a.w2, a.w3]) / ethers::types::U256([b.w0, b.w1, b.w2, b.w3]);
    U256 { w0: c.0[0], w1: c.0[1], w2: c.0[2], w3: c.0[3] }
}

/// `U256 << s`: the value times 2^s, modulo 2^256 (zero once `s` reaches 256).
#[verifier::external_body]
pub(crate) fn shl(a: U256, s: u32) -> (r: U256)
    ensures
        r.value() == (a.value() * pow2(s as nat)) % modulus(),
{
    let c = ethers::types::U256([a.w0, a.w1, a.w2, a.w3]) << s;
    U256 { w0: c.0[0], w1: c.0[1], w2: c.0[2], w3: c.0[3] }
}

/// `U256 >> s`: the floor quotient by 2^s.
#[verifier::external_body]
pub(crate) fn shr(a: U256, s: u32) -> (r: U256)
    ensures
        r.value() == a.value() / pow2(s as nat),
{
    let c = ethers::types::U256([a.w0, a.w1, a.w2, a.w3]) >> s;
    U256 { w0: c.0[0], w1: c.0[1], w2: c.0[2], w3: c.0[3] }
}

/// `U256 & U256`: limb-wise bitwise and.
#[verifier::external_body]
pub(crate) fn bitand(a: U256, b: U256) -> (r: U256)
    ensures
        r.w0 == a.w0 & b.w0,
        r.w1 == a.w1 & b.w1,
        r.w2 == a.w2 & b.w2,
        r.w3 == a.w3 & b.w3,
{
    let c = ethers::types::U256([a.w0, a.w1, a.w2, a.w3]) & ethers::types::U256([b.w0, b.w1, b.w2, b.w3]);
    U256 { w0: c.0[0], w1: c.0[1], w2: c.0[2], w3: c.0[3] }
}

/// `U256 | U256`: limb-wise bitwise or.
#[verifier::external_body]
pub(crate) fn bitor(a: U256, b: U256) -> (r: U256)
    ensures
        r.w0 == a.w0 | b.w0,
        r.w1 == a.w1 | b.w1,
        r.w2 == a.w2 | b.w2,
        r.w3 == a.w3 | b.w3,
{
    let c = ethers::types::U256([a.w0, a.w1, a.w2, a.w3]) | ethers::types::U256([b.w0, b.w1, b.w2, b.w3]);
    U256 { w0: c.0[0], w1: c.0[1], w2: c.0[2], w3: c.0[3] }
}

/// `!U256`: limb-wise bitwise complement.
#[verifier::external_body]
pub(crate) fn not(a: U256) -> (r: U256)
    ensures
        r.w0 == !a.w0,
        r.w1 == !a.w1,
        r.w2 == !a.w2,
        r.w3 == !a.w3,
{
    let c = !ethers::types::U256([a.w0, a.w1, a.w2, a.w3]);
    U256 { w0: c.0[0], w1: c.0[1], w2: c.0[2], w3: c.0[3] }
}

/// `U256::pow`, which panics when the power does not fit in 256 bits.
#[verifier::external_body]
pub(crate) fn pow_u256(a: U256, e: U256) -> (r: U256)
    requires
        pow(a.value() as int, e.value()) < modulus(),
    ensures
        r.value() == pow(a.value() as int, e.value()),
{
    let c = ethers::types::U256([a.w0, a.w1, a.w2, a.w3]).pow(ethers::types::U256([e.w0, e.w1, e.w2, e.w3]));
    U256 { w0: c.0[0], w1: c.0[1], w2: c.0[2], w3: c.0[3] }
}

/// `U256::is_zero`.
#[verifier::external_body]
pub(crate) fn is_zero(a: U256) -> (r: bool)
    ensures
        r == (a.value() == 0),
{
    ethers::types::U256([a.w0, a.w1, a.w2, a.w3]).is_zero()
}

/// `U256 < U256`.
#[verifier::external_body]
pub(crate) fn lt(a: U256, b: U256) -> (r: bool)
    ensures
        r == (a.value() < b.value()),
{
    ethers::types::U256([a.w0, a.w1, a.w2, a.w3]) < ethers::types::U256([b.w0, b.w1, b.w2, b.w3])
}

/// `U256 == U256`.
#[verifier::external_body]
pub(crate) fn eq(a: U256, b: U256) -> (r: bool)
    ensures
        r == (a.value() == b.value()),
{
    ethers::types::U256([a.w0, a.w1, a.w2, a.w3]) == ethers::types::U256([b.w0, b.w1, b.w2, b.w3])
}

/// `U256::leading_zeros`: the number of zero bits above the highest set bit.
#[verifier::external_body]
pub(crate) fn leading_zeros(a: U256) -> (r: u32)
    ensures
        r <= 256,
        a.value() == 0 ==> r == 256,
        a.value() != 0 ==> pow2((255 - r) as nat) <= a.value() < pow2((256 - r) as nat),
{
    ethers::types::U256([a.w0, a.w1, a.w2, a.w3]).leading_zeros()
}

/// `U256::bit`: whether bit `i` is set; it panics for `i` of 256 or more.
#[verifier::external_body]
pub(crate) fn bit(a: U256, i: usize) -> (r: bool)
    requires
        i < 256,
    ensures
        r == ((a.value() / pow2(i as nat)) % 2 == 1),
{
    ethers::types::U256([a.w0, a.w1, a.w2, a.w3]).bit(i)
}

/// `U256::as_u32`, which panics when the value exceeds `u32::MAX`.
#[verifier::external_body]
pub(crate) fn as_u32(a: U256) -> (r: u32)
    requires
        a.value() <= u32::MAX,
    ensures
        r == a.value(),
{
    ethers::types::U256([a.w0, a.w1, a.w2, a.w3]).as_u32()
}

/// `U256::as_u64`, which panics when the value exceeds `u64::MAX`.
#[verifier::external_body]
pub(crate) fn as_u64(a: U256) -> (r: u64)
    requires
        a.value() <= u64::MAX,
    ensures
        r == a.value(),
{
    ethers::types::U256([a.w0, a.w1, a.w2, a.w3]).as_u64()
}

} // verus!

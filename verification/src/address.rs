//! 20-byte account addresses and 32-byte hashes, held as big-endian words.
use vstd::prelude::*;
use vstd::arithmetic::power::pow;

verus! {

/// The number that a byte string denotes when read big-endian.
pub open spec fn be_nat(s: Seq<u8>) -> nat
    decreases s.len(),
{
    if s.len() == 0 {
        0
    } else {
        be_nat(s.drop_last()) * 256 + s.last() as nat
    }
}

/// Reading the concatenation of two byte strings big-endian.
pub proof fn lemma_be_nat_concat(a: Seq<u8>, b: Seq<u8>)
    ensures
        be_nat(a + b) == be_nat(a) * pow(256, b.len()) + be_nat(b),
    decreases b.len(),
{
    if b.len() == 0 {
        assert(a + b =~= a);
        vstd::arithmetic::power::lemma_pow0(256);
    } else {
        let b1 = b.drop_last();
        lemma_be_nat_concat(a, b1);
        assert((a + b).drop_last() =~= a + b1);
        assert((a + b).last() == b.last());
        vstd::arithmetic::power::lemma_pow_adds(256, b1.len(), 1);
        vstd::arithmetic::power::lemma_pow1(256);
        let p = pow(256, b1.len());
        assert(be_nat(a + b) == (be_nat(a) * p + be_nat(b1)) * 256 + b.last());
        assert((be_nat(a) * p + be_nat(b1)) * 256 == be_nat(a) * (p * 256) + be_nat(b1) * 256)
            by (nonlinear_arith);
    }
}

/// The powers of 256 that byte widths 4, 8, 12 and 16 give.
pub proof fn lemma_pow256_values()
    ensures
        pow(256, 4) == 0x1_0000_0000,
        pow(256, 8) == 0x1_0000_0000_0000_0000,
        pow(256, 12) == 0x1_0000_0000_0000_0000_0000_0000nat,
        pow(256, 16) == 0x1_0000_0000_0000_0000_0000_0000_0000_0000nat,
        pow(256, 24) == 0x1_0000_0000_0000_0000_0000_0000_0000_0000_0000_0000_0000_0000nat,
{
    reveal_with_fuel(pow, 5);
    assert(pow(256, 4) == 0x1_0000_0000);
    vstd::arithmetic::power::lemma_pow_adds(256, 4, 4);
    vstd::arithmetic::power::lemma_pow_adds(256, 8, 4);
    vstd::arithmetic::power::lemma_pow_adds(256, 8, 8);
    vstd::arithmetic::power::lemma_pow_adds(256, 16, 8);
    assert(pow(256, 8) == 0x1_0000_0000_0000_0000);
    assert(pow(256, 16) == 0x1_0000_0000_0000_0000_0000_0000_0000_0000nat);
}

/// Eight bytes read big-endian, as a 64-bit word.
pub fn u64_from_be(s: &[u8], at: usize) -> (r: u64)
    requires
        at + 8 <= s@.len(),
    ensures
        r == be_nat(s@.subrange(at as int, at + 8)),
{
    let b0 = s[at];
    let b1 = s[at + 1];
    let b2 = s[at + 2];
    let b3 = s[at + 3];
    let b4 = s[at + 4];
    let b5 = s[at + 5];
    let b6 = s[at + 6];
    let b7 = s[at + 7];
    let r: u64 = ((b0 as u64) << 56u64) | ((b1 as u64) << 48u64) | ((b2 as u64) << 40u64) | ((
    b3 as u64) << 32u64) | ((b4 as u64) << 24u64) | ((b5 as u64) << 16u64) | ((b6 as u64)
        << 8u64) | (b7 as u64);
    proof {
        assert(r == b0 as int * 0x100_0000_0000_0000 + b1 as int * 0x1_0000_0000_0000 + b2 as int
            * 0x100_0000_0000 + b3 as int * 0x1_0000_0000 + b4 as int * 0x100_0000 + b5 as int
            * 0x1_0000 + b6 as int * 0x100 + b7 as int) by (bit_vector)
            requires
                r == ((b0 as u64) << 56u64) | ((b1 as u64) << 48u64) | ((b2 as u64) << 40u64) | ((
                b3 as u64) << 32u64) | ((b4 as u64) << 24u64) | ((b5 as u64) << 16u64) | ((
                b6 as u64) << 8u64) | (b7 as u64),
        ;
        let w = s@.subrange(at as int, at + 8);
        reveal_with_fuel(be_nat, 9);
        assert(w.drop_last().drop_last().drop_last().drop_last().drop_last().drop_last().drop_last().drop_last().len() == 0);
    }
    r
}

/// Four bytes read big-endian, as a 32-bit word.
pub fn u32_from_be(s: &[u8], at: usize) -> (r: u32)
    requires
        at + 4 <= s@.len(),
    ensures
        r == be_nat(s@.subrange(at as int, at + 4)),
{
    let b0 = s[at];
    let b1 = s[at + 1];
    let b2 = s[at + 2];
    let b3 = s[at + 3];
    let r: u32 = ((b0 as u32) << 24u32) | ((b1 as u32) << 16u32) | ((b2 as u32) << 8u32) | (
    b3 as u32);
    proof {
        assert(r == b0 as int * 0x100_0000 + b1 as int * 0x1_0000 + b2 as int * 0x100 + b3 as int)
            by (bit_vector)
            requires
                r == ((b0 as u32) << 24u32) | ((b1 as u32) << 16u32) | ((b2 as u32) << 8u32) | (
                b3 as u32),
        ;
        let w = s@.subrange(at as int, at + 4);
        reveal_with_fuel(be_nat, 5);
        assert(w.drop_last().drop_last().drop_last().drop_last().len() == 0);
    }
    r
}

/// An account or contract address (`ethers::types::H160`): its 20 bytes read
/// big-endian as a 4-byte word `hi` and two 8-byte words `mid` and `lo`.
#[derive(Clone, Copy, Debug, PartialEq, Eq, Structural)]
pub struct H160 {
    pub hi: u32,
    pub mid: u64,
    pub lo: u64,
}

/// A 32-byte hash or log topic (`ethers::types::H256`), as four big-endian
/// 8-byte words, `w0` holding the first bytes.
#[derive(Clone, Copy, Debug, PartialEq, Eq, Structural)]
pub struct H256 {
    pub w0: u64,
    pub w1: u64,
    pub w2: u64,
    pub w3: u64,
}

/// Two-digit numerals in base `w` are equal only digit by digit.
pub proof fn lemma_digits_unique(x1: int, x0: int, y1: int, y0: int, w: int)
    requires
        w > 0,
        0 <= x0 < w,
        0 <= y0 < w,
        x1 * w + x0 == y1 * w + y0,
    ensures
        x1 == y1,
        x0 == y0,
{
    if x1 < y1 {
        assert(x1 * w + w <= y1 * w) by (nonlinear_arith)
            requires
                x1 < y1,
                w > 0,
        ;
    } else if y1 < x1 {
        assert(y1 * w + w <= x1 * w) by (nonlinear_arith)
            requires
                y1 < x1,
                w > 0,
        ;
    }
}

impl H160 {
    /// The number the 20 address bytes denote, read big-endian.
    pub open spec fn value(self) -> nat {
        self.hi as nat * 0x1_0000_0000_0000_0000_0000_0000_0000_0000nat + self.mid as nat
            * 0x1_0000_0000_0000_0000nat + self.lo as nat
    }

    /// The address whose 20 bytes are `s`.
    pub fn from_bytes(s: &[u8]) -> (r: H160)
        requires
            s@.len() == 20,
        ensures
            r.value() == be_nat(s@),
    {
        let hi = u32_from_be(s, 0);
        let mid = u64_from_be(s, 4);
        let lo = u64_from_be(s, 12);
        proof {
            let a = s@.subrange(0, 4);
            let b = s@.subrange(4, 12);
            let c = s@.subrange(12, 20);
            lemma_be_nat_concat(a, b);
            lemma_be_nat_concat(a + b, c);
            lemma_pow256_values();
            assert(a + b + c =~= s@);
            assert(be_nat(a + b) == hi as nat * 0x1_0000_0000_0000_0000nat + mid as nat);
            assert(be_nat(s@) == be_nat(a + b) * 0x1_0000_0000_0000_0000nat + lo as nat);
        }
        H160 { hi, mid, lo }
    }
}

/// The 20 bytes of an address, big-endian.
pub fn h160_bytes(a: H160) -> (r: [u8; 20])
    ensures
        be_nat(r@) == a.value(),
{
    let hi = a.hi;
    let mid = a.mid;
    let lo = a.lo;
    let r: [u8; 20] = [
        (hi >> 24u32) as u8,
        (hi >> 16u32) as u8,
        (hi >> 8u32) as u8,
        hi as u8,
        (mid >> 56u64) as u8,
        (mid >> 48u64) as u8,
        (mid >> 40u64) as u8,
        (mid >> 32u64) as u8,
        (mid >> 24u64) as u8,
        (mid >> 16u64) as u8,
        (mid >> 8u64) as u8,
        mid as u8,
        (lo >> 56u64) as u8,
        (lo >> 48u64) as u8,
        (lo >> 40u64) as u8,
        (lo >> 32u64) as u8,
        (lo >> 24u64) as u8,
        (lo >> 16u64) as u8,
        (lo >> 8u64) as u8,
        lo as u8,
    ];
    proof {
        let s = r@;
        assert(hi == ((hi >> 24u32) as u8) as int * 0x100_0000 + ((hi >> 16u32) as u8) as int
            * 0x1_0000 + ((hi >> 8u32) as u8) as int * 0x100 + (hi as u8) as int) by (bit_vector);
        assert(mid == ((mid >> 56u64) as u8) as int * 0x100_0000_0000_0000 + ((mid >> 48u64) as u8) as int
            * 0x1_0000_0000_0000 + ((mid >> 40u64) as u8) as int * 0x100_0000_0000 + ((mid >> 32u64) as u8) as int
            * 0x1_0000_0000 + ((mid >> 24u64) as u8) as int * 0x100_0000 + ((mid >> 16u64) as u8) as int
            * 0x1_0000 + ((mid >> 8u64) as u8) as int * 0x100 + (mid as u8) as int) by (bit_vector);
        assert(lo == ((lo >> 56u64) as u8) as int * 0x100_0000_0000_0000 + ((lo >> 48u64) as u8) as int
            * 0x1_0000_0000_0000 + ((lo >> 40u64) as u8) as int * 0x100_0000_0000 + ((lo >> 32u64) as u8) as int
            * 0x1_0000_0000 + ((lo >> 24u64) as u8) as int * 0x100_0000 + ((lo >> 16u64) as u8) as int
            * 0x1_0000 + ((lo >> 8u64) as u8) as int * 0x100 + (lo as u8) as int) by (bit_vector);
        let a4 = s.subrange(0, 4);
        let b8 = s.subrange(4, 12);
        let c8 = s.subrange(12, 20);
        reveal_with_fuel(be_nat, 9);
        assert(a4.drop_last().drop_last().drop_last().drop_last().len() == 0);
        assert(b8.drop_last().drop_last().drop_last().drop_last().drop_last().drop_last().drop_last().drop_last().len() == 0);
        assert(c8.drop_last().drop_last().drop_last().drop_last().drop_last().drop_last().drop_last().drop_last().len() == 0);
        assert(be_nat(a4) == hi);
        assert(be_nat(b8) == mid);
        assert(be_nat(c8) == lo);
        lemma_be_nat_concat(a4, b8);
        lemma_be_nat_concat(a4 + b8, c8);
        lemma_pow256_values();
        assert(a4 + b8 + c8 =~= s);
        assert(be_nat(a4 + b8) == hi as nat * 0x1_0000_0000_0000_0000nat + mid as nat);
        assert(be_nat(s) == be_nat(a4 + b8) * 0x1_0000_0000_0000_0000nat + lo as nat);
    }
    r
}

/// Distinct addresses denote distinct numbers.
pub proof fn lemma_h160_value_injective(a: H160, b: H160)
    requires
        a.value() == b.value(),
    ensures
        a == b,
{
    let w = 0x1_0000_0000_0000_0000int;
    assert(a.value() == (a.hi as int * w + a.mid as int) * w + a.lo as int);
    assert(b.value() == (b.hi as int * w + b.mid as int) * w + b.lo as int);
    lemma_digits_unique(a.hi as int * w + a.mid as int, a.lo as int, b.hi as int * w + b.mid as int, b.lo as int, w);
    lemma_digits_unique(a.hi as int, a.mid as int, b.hi as int, b.mid as int, w);
}

impl H256 {
    /// The number the 32 bytes denote, read big-endian.
    pub open spec fn value(self) -> nat {
        self.w0 as nat * 0x1_0000_0000_0000_0000_0000_0000_0000_0000_0000_0000_0000_0000nat
            + self.w1 as nat * 0x1_0000_0000_0000_0000_0000_0000_0000_0000nat + self.w2 as nat
            * 0x1_0000_0000_0000_0000nat + self.w3 as nat
    }

    /// The hash whose 32 bytes are `s`.
    pub fn from_bytes(s: &[u8]) -> (r: H256)
        requires
            s@.len() == 32,
        ensures
            r.value() == be_nat(s@),
    {
        let w0 = u64_from_be(s, 0);
        let w1 = u64_from_be(s, 8);
        let w2 = u64_from_be(s, 16);
        let w3 = u64_from_be(s, 24);
        proof {
            let a = s@.subrange(0, 8);
            let b = s@.subrange(8, 16);
            let c = s@.subrange(16, 24);
            let d = s@.subrange(24, 32);
            lemma_be_nat_concat(a, b);
            lemma_be_nat_concat(a + b, c);
            lemma_be_nat_concat(a + b + c, d);
            lemma_pow256_values();
            assert(a + b + c + d =~= s@);
        }
        H256 { w0, w1, w2, w3 }
    }
}

/// Distinct hashes denote distinct numbers.
pub proof fn lemma_h256_value_injective(a: H256, b: H256)
    requires
        a.value() == b.value(),
    ensures
        a == b,
{
    let w = 0x1_0000_0000_0000_0000int;
    let a2 = a.w0 as int * w + a.w1 as int;
    let b2 = b.w0 as int * w + b.w1 as int;
    let a3 = a2 * w + a.w2 as int;
    let b3 = b2 * w + b.w2 as int;
    assert(a.value() == a3 * w + a.w3 as int);
    assert(b.value() == b3 * w + b.w3 as int);
    lemma_digits_unique(a3, a.w3 as int, b3, b.w3 as int, w);
    lemma_digits_unique(a2, a.w2 as int, b2, b.w2 as int, w);
    lemma_digits_unique(a.w0 as int, a.w1 as int, b.w0 as int, b.w1 as int, w);
}

/// The byte order of addresses: lexicographic on the 20 bytes, which is the
/// order of the words `(hi, mid, lo)`.
pub open spec fn addr_lt(a: H160, b: H160) -> bool {
    a.hi < b.hi || (a.hi == b.hi && (a.mid < b.mid || (a.mid == b.mid && a.lo < b.lo)))
}

impl H160 {
    /// `H160::zero()`.
    pub fn zero() -> (r: H160)
        ensures
            r == (H160 { hi: 0, mid: 0, lo: 0 }),
    {
        H160 { hi: 0, mid: 0, lo: 0 }
    }

    /// `self < other` in the byte order of addresses.
    pub fn lt(&self, other: &H160) -> (r: bool)
        ensures
            r == addr_lt(*self, *other),
    {
        if self.hi != other.hi {
            self.hi < other.hi
        } else if self.mid != other.mid {
            self.mid < other.mid
        } else {
            self.lo < other.lo
        }
    }
}

/// The byte order of addresses is a strict total order.
pub proof fn lemma_addr_order(a: H160, b: H160, c: H160)
    ensures
        !addr_lt(a, a),
        a != b ==> (addr_lt(a, b) || addr_lt(b, a)),
        addr_lt(a, b) ==> !addr_lt(b, a),
        addr_lt(a, b) && addr_lt(b, c) ==> addr_lt(a, c),
{
}

/// A hexadecimal digit, either case.
pub open spec fn is_hex_digit(c: char) -> bool {
    (48 <= c as int <= 57) || (97 <= c as int <= 102) || (65 <= c as int <= 70)
}

/// The value of a hexadecimal digit.
pub open spec fn hex_digit_value(c: char) -> nat {
    if 48 <= c as int <= 57 {
        (c as int - 48) as nat
    } else if 97 <= c as int <= 102 {
        (c as int - 87) as nat
    } else {
        (c as int - 55) as nat
    }
}

/// The blanks that hexadecimal text may hold between digits: space,
/// carriage return, line feed and tab.
pub open spec fn is_hex_blank(c: char) -> bool {
    c == ' ' || c == '\r' || c == '\n' || c == '\t'
}

/// The characters of an address text that count: without a leading `0x`,
/// and without blanks.
pub open spec fn address_digits(text: Seq<char>) -> Seq<char> {
    let t = if text.len() >= 2 && text[0] == '0' && text[1] == 'x' {
        text.skip(2)
    } else {
        text
    };
    t.filter(|c: char| !is_hex_blank(c))
}

/// The number that hexadecimal digits denote.
pub open spec fn hex_value(d: Seq<char>) -> nat
    decreases d.len(),
{
    if d.len() == 0 {
        0
    } else {
        hex_value(d.drop_last()) * 16 + hex_digit_value(d.last())
    }
}

/// A text is an address when, leaving out a leading `0x` and blanks, it
/// is 40 hexadecimal digits.
pub open spec fn is_address_text(text: Seq<char>) -> bool {
    let d = address_digits(text);
    d.len() == 40 && forall|i: int| 0 <= i < 40 ==> #[trigger] is_hex_digit(d[i])
}

/// `H160::from_str` (`ethers::types::H160`): the address a text spells,
/// read as the source of `fixed-hash` and `rustc-hex` reads it: a leading
/// `0x` is dropped, blanks are skipped, and the rest must be exactly 40
/// hexadecimal digits; anything else is an error (`None`).
#[verifier::external_body]
pub(crate) fn parse_address(text: &str) -> (r: Option<H160>)
    ensures
        r is Some <==> is_address_text(text@),
        r matches Some(a) ==> a.value() == hex_value(address_digits(text@)),
{
    match <ethers::types::H160 as std::str::FromStr>::from_str(text) {
        Ok(a) => Some(H160::from_bytes(a.as_bytes())),
        Err(_) => None,
    }
}

} // verus!

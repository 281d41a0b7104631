//! The input of the forge script that replays a trade path on a forked
//! chain: each trade as an ABI tuple (pool, pool key, pool type, direction)
//! and the amount in, ABI-encoded; and the token forms of its parts.
use vstd::prelude::*;
use crate::address::{H160, H256};
use crate::uint::{U256, modulus, not, overflowing_add, lemma_value_bound};
use crate::abi::{AbiValue, abi_encode, encode};
use crate::trade::Trade;
use crate::text::{text_is, to_lowercase, lowercase};

verus! {

/// The state of a forked node a test runs against.
pub struct AnvilTest {
    pub chain_id: u64,
    pub block_number: u64,
    pub block_hash: H256,
    pub block_timestamp: u64,
    pub block_gas_limit: u64,
    pub block_base_fee_per_gas: Option<U256>,
}

/// The kind of pool a trade goes through, as the script numbers them.
#[allow(non_camel_case_types)]
#[derive(Clone, Copy, Debug, PartialEq, Eq, Structural)]
pub enum PoolType {
    UNISWAP_V2,
    PANCAKE_V2,
    UNISWAP_V3,
    PANCAKE_V3,
    UNISWAP_V4,
    PANCAKE_V4,
}

/// A currency of a pool key.
#[derive(Clone, Copy, Debug, PartialEq, Eq, Structural)]
pub struct Currency {
    pub is_token: bool,
    pub value: H160,
}

/// A V4-style pool key: two currencies, the fee (24 bits), the tick
/// spacing (24 bits) and the hooks contract.
#[allow(non_snake_case)]
#[derive(Clone, Copy, Debug, PartialEq, Eq, Structural)]
pub struct PoolKey {
    pub currency0: Currency,
    pub currency1: Currency,
    pub fee: u32,
    pub tickSpacing: i32,
    pub hooks: H160,
}

/// A pool of the path: its address, key, type and direction.
#[derive(Clone, Copy, Debug, PartialEq, Eq, Structural)]
pub struct PoolSpec {
    pub addr: H160,
    pub key: PoolKey,
    pub pool_typ: PoolType,
    pub from0: bool,
}

/// A hooks contract.
#[derive(Clone, Copy, Debug, PartialEq, Eq, Structural)]
pub struct Hooks(pub H160);

/// A token that does not have the expected form, with what is wrong.
#[derive(Debug)]
pub struct InvalidOutputType(pub String);

/// Why a trade cannot be put in the script's input: a fee beyond 24 bits,
/// or a version and exchange with no pool type.
#[derive(Debug, PartialEq, Eq, Structural)]
pub enum ForgeInputError {
    FeeTooLarge(u32),
    InvalidVersionDex,
}

/// The largest 24-bit number.
pub open spec fn uint24_max() -> u32 {
    0xFF_FFFF
}

/// The script's number of a pool type.
pub open spec fn pool_type_number(t: PoolType) -> nat {
    match t {
        PoolType::UNISWAP_V2 => 0,
        PoolType::PANCAKE_V2 => 1,
        PoolType::UNISWAP_V3 => 2,
        PoolType::PANCAKE_V3 => 3,
        PoolType::UNISWAP_V4 => 4,
        PoolType::PANCAKE_V4 => 5,
    }
}

/// The pool type of a version and exchange name: PancakeSwap (in any
/// case) or another exchange, for versions "v2", "v3" and "v4".
pub open spec fn pool_type_code_of(version: Seq<char>, dex: Seq<char>) -> Option<u8> {
    let pancake = lowercase(dex) == "pancake"@;
    if version == "v2"@ {
        Some(if pancake { 1u8 } else { 0u8 })
    } else if version == "v3"@ {
        Some(if pancake { 3u8 } else { 2u8 })
    } else if version == "v4"@ {
        Some(if pancake { 5u8 } else { 4u8 })
    } else {
        None
    }
}

/// The 256-bit two's complement of a 32-bit integer.
pub open spec fn twos_complement(x: i32) -> nat {
    if x >= 0 {
        x as nat
    } else {
        (modulus() + x) as nat
    }
}

/// `x` if it is at most `max`, else an error naming the field.
pub fn require_range_u32(x: u32, max: u32, name: &str) -> (r: Result<u32, InvalidOutputType>)
    ensures
        r is Ok <==> x <= max,
        r matches Ok(v) ==> v == x,
        r matches Err(e) ==> e.0@ == name@ + " out of uint24 range"@,
{
    if x <= max {
        Ok(x)
    } else {
        Err(InvalidOutputType(range_message(name, " out of uint24 range")))
    }
}

/// `x` if it lies in `lo..=hi`, else an error naming the field.
pub fn require_range_i32(x: i32, lo: i32, hi: i32, name: &str) -> (r: Result<i32, InvalidOutputType>)
    ensures
        r is Ok <==> lo <= x <= hi,
        r matches Ok(v) ==> v == x,
        r matches Err(e) ==> e.0@ == name@ + " out of int24 range"@,
{
    if lo <= x && x <= hi {
        Ok(x)
    } else {
        Err(InvalidOutputType(range_message(name, " out of int24 range")))
    }
}

/// The two texts one after the other.
fn range_message(name: &str, rest: &str) -> (r: String)
    ensures
        r@ == name@ + rest@,
{
    let mut s = name.to_owned();
    s.append(rest);
    s
}

/// The 256-bit two's complement of a 32-bit integer (the magnitude's
/// complement plus one, for a negative integer). The magnitude of
/// `i32::MIN` does not fit in an `i32`, so that input is left out.
pub fn int_to_uint256(x: i32) -> (r: U256)
    requires
        x != i32::MIN,
    ensures
        r.value() == twos_complement(x),
{
    if x >= 0 {
        U256::from_u64(x as u64)
    } else {
        let mag = U256::from_u64((-x) as u64);
        let c = not(mag);
        proof {
            lemma_not_value(mag, c);
        }
        let (r, _) = overflowing_add(c, U256::one());
        proof {
            lemma_value_bound(r);
        }
        r
    }
}

/// The complement of a 256-bit number is its distance to the largest one.
proof fn lemma_not_value(a: U256, c: U256)
    requires
        c.w0 == !a.w0,
        c.w1 == !a.w1,
        c.w2 == !a.w2,
        c.w3 == !a.w3,
    ensures
        c.value() == modulus() - 1 - a.value(),
{
    let (a0, a1, a2, a3) = (a.w0, a.w1, a.w2, a.w3);
    assert(!a0 == 0xffff_ffff_ffff_ffffu64 - a0) by (bit_vector);
    assert(!a1 == 0xffff_ffff_ffff_ffffu64 - a1) by (bit_vector);
    assert(!a2 == 0xffff_ffff_ffff_ffffu64 - a2) by (bit_vector);
    assert(!a3 == 0xffff_ffff_ffff_ffffu64 - a3) by (bit_vector);
    crate::uint::lemma_word_powers();
}

/// The pool type of a trade's version and exchange, `None` for a version
/// other than "v2", "v3" and "v4".
pub fn pool_type_code(version: &str, dex: &str) -> (r: Option<u8>)
    ensures
        r == pool_type_code_of(version@, dex@),
{
    let lower = to_lowercase(dex);
    let pancake = text_is(lower.as_str(), "pancake");
    if text_is(version, "v2") {
        Some(if pancake { 1u8 } else { 0u8 })
    } else if text_is(version, "v3") {
        Some(if pancake { 3u8 } else { 2u8 })
    } else if text_is(version, "v4") {
        Some(if pancake { 5u8 } else { 4u8 })
    } else {
        None
    }
}

/// `v` is the script's tuple for a trade of pool type `code`: the pool's
/// address; the key (token0, token1, the fee, a zero tick spacing and no
/// hooks); the pool type; the direction.
pub open spec fn is_pool_spec_value(v: AbiValue, t: Trade, code: u8) -> bool {
    v matches AbiValue::Tuple(items) && {
        let it = items@;
        &&& it.len() == 4
        &&& it[0] == AbiValue::Address(t.pool)
        &&& it[1] matches AbiValue::Tuple(key) && {
            let k = key@;
            &&& k.len() == 5
            &&& k[0] == AbiValue::Address(t.token0)
            &&& k[1] == AbiValue::Address(t.token1)
            &&& k[2] matches AbiValue::Uint(f) && f.value() == t.fee
            &&& k[3] matches AbiValue::Int(s) && s.value() == 0
            &&& k[4] == AbiValue::Address(H160 { hi: 0, mid: 0, lo: 0 })
        }
        &&& it[2] matches AbiValue::Uint(c) && c.value() == code
        &&& it[3] == AbiValue::Bool(t.from0)
    }
}

/// The first trade of the path that cannot be encoded, and why.
pub open spec fn first_bad_trade(path: Seq<Trade>, n: int) -> Option<ForgeInputError>
    decreases n,
{
    if n <= 0 {
        None
    } else {
        match first_bad_trade(path, n - 1) {
            Some(e) => Some(e),
            None => {
                let t = path[n - 1];
                if t.fee > uint24_max() {
                    Some(ForgeInputError::FeeTooLarge(t.fee))
                } else if pool_type_code_of(t.version@, t.dex@) is None {
                    Some(ForgeInputError::InvalidVersionDex)
                } else {
                    None
                }
            },
        }
    }
}

/// The script's tuple for a trade of a given pool type.
fn pool_spec_value(t: &Trade, code: u8) -> (r: AbiValue)
    ensures
        is_pool_spec_value(r, *t, code),
{
    let mut key: Vec<AbiValue> = Vec::new();
    key.push(AbiValue::Address(t.token0));
    key.push(AbiValue::Address(t.token1));
    key.push(AbiValue::Uint(U256::from_u64(t.fee as u64)));
    key.push(AbiValue::Int(U256::zero()));
    key.push(AbiValue::Address(H160::zero()));
    let mut items: Vec<AbiValue> = Vec::new();
    items.push(AbiValue::Address(t.pool));
    items.push(AbiValue::Tuple(key));
    items.push(AbiValue::Uint(U256::from_u64(code as u64)));
    items.push(AbiValue::Bool(t.from0));
    AbiValue::Tuple(items)
}

/// The script's input for a trade path and amount: the ABI encoding of
/// the array of the trades' tuples and the amount; an error for the first
/// trade with a fee beyond 24 bits or a version and exchange without a
/// pool type (the cases in which the run stops).
pub fn encode_forge_input(path: &Vec<Trade>, amount_in: U256) -> (r: Result<Vec<u8>, ForgeInputError>)
    ensures
        match first_bad_trade(path@, path@.len() as int) {
            Some(e) => r == Err::<Vec<u8>, ForgeInputError>(e),
            None => r matches Ok(bytes) && exists|args: Seq<AbiValue>| {
                &&& bytes@ == abi_encode(args)
                &&& args.len() == 2
                &&& args[1] == AbiValue::Uint(amount_in)
                &&& args[0] matches AbiValue::Array(rows) && rows@.len() == path@.len() && forall|i: int|
                    0 <= i < path@.len() ==> is_pool_spec_value(
                        #[trigger] rows@[i],
                        path@[i],
                        pool_type_code_of(path@[i].version@, path@[i].dex@)->0,
                    )
            },
        },
{
    let mut rows: Vec<AbiValue> = Vec::new();
    let mut i: usize = 0;
    while i < path.len()
        invariant
            i <= path@.len(),
            first_bad_trade(path@, i as int) is None,
            rows@.len() == i,
            forall|k: int|
                0 <= k < i ==> is_pool_spec_value(
                    #[trigger] rows@[k],
                    path@[k],
                    pool_type_code_of(path@[k].version@, path@[k].dex@)->0,
                ),
        decreases path@.len() - i,
    {
        let t = &path[i];
        if t.fee > 16_777_215 {
            proof {
                lemma_first_bad_later(path@, i as int + 1, path@.len() as int);
            }
            return Err(ForgeInputError::FeeTooLarge(t.fee));
        }
        let code = match pool_type_code(t.version.as_str(), t.dex.as_str()) {
            Some(c) => c,
            None => {
                proof {
                    lemma_first_bad_later(path@, i as int + 1, path@.len() as int);
                }
                return Err(ForgeInputError::InvalidVersionDex);
            },
        };
        rows.push(pool_spec_value(t, code));
        i = i + 1;
    }
    let ghost rows_view = rows@;
    let mut args: Vec<AbiValue> = Vec::new();
    args.push(AbiValue::Array(rows));
    args.push(AbiValue::Uint(amount_in));
    let bytes = encode(&args);
    proof {
        assert(args@[0] matches AbiValue::Array(r) && r@ == rows_view);
    }
    Ok(bytes)
}

/// Once a trade of the first `n` is bad, the first bad trade of a longer
/// prefix is the same.
proof fn lemma_first_bad_later(path: Seq<Trade>, n: int, m: int)
    requires
        0 <= n <= m,
        first_bad_trade(path, n) is Some,
    ensures
        first_bad_trade(path, m) == first_bad_trade(path, n),
    decreases m - n,
{
    if m > n {
        lemma_first_bad_later(path, n, m - 1);
    }
}

/// A conversion's outcome with the error taken by its message.
pub open spec fn outcome<T>(r: Result<T, InvalidOutputType>) -> Result<T, Seq<char>> {
    match r {
        Ok(x) => Ok(x),
        Err(e) => Err(e.0@),
    }
}

/// The pool type of a script number, if it is one.
pub open spec fn pool_type_of_number(n: nat) -> Option<PoolType> {
    if n == 0 {
        Some(PoolType::UNISWAP_V2)
    } else if n == 1 {
        Some(PoolType::PANCAKE_V2)
    } else if n == 2 {
        Some(PoolType::UNISWAP_V3)
    } else if n == 3 {
        Some(PoolType::PANCAKE_V3)
    } else if n == 4 {
        Some(PoolType::UNISWAP_V4)
    } else if n == 5 {
        Some(PoolType::PANCAKE_V4)
    } else {
        None
    }
}

/// Reading a pool type from a token: an unsigned integer from 0 to 5.
pub open spec fn pool_type_of(v: AbiValue) -> Result<PoolType, Seq<char>> {
    match v {
        AbiValue::Uint(u) => match pool_type_of_number(u.value()) {
            Some(t) => Ok(t),
            None => Err("Invalid PoolType"@),
        },
        _ => Err("Expected uint for PoolType"@),
    }
}

/// Reading a pool type does not reach a number beyond `u32::MAX`, on which
/// the reading panics.
pub open spec fn pool_type_fits(v: AbiValue) -> bool {
    v matches AbiValue::Uint(u) ==> u.value() <= u32::MAX
}

/// `v` is the token of a pool type: its number as an unsigned integer.
pub open spec fn is_pool_type_token(v: AbiValue, t: PoolType) -> bool {
    v matches AbiValue::Uint(u) && u.value() == pool_type_number(t)
}

/// Reading a currency from a token: a tuple whose first two elements are a
/// flag and an address (more are ignored).
pub open spec fn currency_of(v: AbiValue) -> Result<Currency, Seq<char>> {
    match v {
        AbiValue::Tuple(items) => {
            let it = items@;
            if it.len() < 1 {
                Err("Missing is_token"@)
            } else if !(it[0] is Bool) {
                Err("Invalid is_token type"@)
            } else if it.len() < 2 {
                Err("Missing value"@)
            } else if !(it[1] is Address) {
                Err("Invalid value type"@)
            } else {
                Ok(Currency { is_token: it[0]->Bool_0, value: it[1]->Address_0 })
            }
        },
        _ => Err("Expected tuple for Currency"@),
    }
}

/// `v` is the token of a currency: a tuple of its flag and its address.
pub open spec fn is_currency_token(v: AbiValue, c: Currency) -> bool {
    v matches AbiValue::Tuple(items) && items@ == seq![AbiValue::Bool(c.is_token), AbiValue::Address(c.value)]
}

/// The tick spacing read from a signed-integer token: the low 64 bits of
/// its word, taken as `u64` and cast to `i32`.
pub open spec fn tick_spacing_read(u: U256) -> i32 {
    (u.value() as u64) as i32
}

/// Reading a pool key from a token: a tuple of two currencies, a fee
/// within 24 bits, a tick spacing within the signed 24-bit range and the
/// hooks' address (more elements are ignored).
pub open spec fn pool_key_of(v: AbiValue) -> Result<PoolKey, Seq<char>> {
    match v {
        AbiValue::Tuple(items) => {
            let it = items@;
            if it.len() < 1 {
                Err("Missing currency0"@)
            } else if currency_of(it[0]) is Err {
                Err(currency_of(it[0])->Err_0)
            } else if it.len() < 2 {
                Err("Missing currency1"@)
            } else if currency_of(it[1]) is Err {
                Err(currency_of(it[1])->Err_0)
            } else if it.len() < 3 || !(it[2] is Uint) {
                Err("Missing or invalid `fee`"@)
            } else if it[2]->Uint_0.value() > uint24_max() {
                Err("fee out of uint24 range"@)
            } else if it.len() < 4 || !(it[3] is Int) {
                Err("Missing or invalid `tickSpacing`"@)
            } else if !(-0x800000 <= tick_spacing_read(it[3]->Int_0) <= 0x7F_FFFF) {
                Err("tickSpacing out of int24 range"@)
            } else if it.len() < 5 || !(it[4] is Address) {
                Err("Missing or invalid `hooks`"@)
            } else {
                Ok(
                    PoolKey {
                        currency0: currency_of(it[0])->Ok_0,
                        currency1: currency_of(it[1])->Ok_0,
                        fee: it[2]->Uint_0.value() as u32,
                        tickSpacing: tick_spacing_read(it[3]->Int_0),
                        hooks: it[4]->Address_0,
                    },
                )
            }
        },
        _ => Err("Expected tuple for PoolKey"@),
    }
}

/// Reading a pool key does not reach a fee beyond `u32::MAX` or a tick
/// spacing word beyond `u64::MAX`, on which the reading panics.
pub open spec fn pool_key_fits(v: AbiValue) -> bool {
    v matches AbiValue::Tuple(items) ==> {
        let it = items@;
        (it.len() >= 3 && currency_of(it[0]) is Ok && currency_of(it[1]) is Ok && it[2] is Uint) ==> {
            &&& it[2]->Uint_0.value() <= u32::MAX
            &&& (it[2]->Uint_0.value() <= uint24_max() && it.len() >= 4 && it[3] is Int)
                ==> it[3]->Int_0.value() <= u64::MAX
        }
    }
}

/// `v` is the token of a pool key: a tuple of the currencies' tokens, the
/// fee, the tick spacing's two's complement and the hooks' address.
pub open spec fn is_pool_key_token(v: AbiValue, k: PoolKey) -> bool {
    v matches AbiValue::Tuple(items) && {
        let it = items@;
        &&& it.len() == 5
        &&& is_currency_token(it[0], k.currency0)
        &&& is_currency_token(it[1], k.currency1)
        &&& it[2] matches AbiValue::Uint(f) && f.value() == k.fee
        &&& it[3] matches AbiValue::Int(t) && t.value() == twos_complement(k.tickSpacing)
        &&& it[4] == AbiValue::Address(k.hooks)
    }
}

/// Reading a pool spec from a token: a tuple of an address, a pool key, a
/// pool type and a flag (more elements are ignored).
pub open spec fn pool_spec_of(v: AbiValue) -> Result<PoolSpec, Seq<char>> {
    match v {
        AbiValue::Tuple(items) => {
            let it = items@;
            if it.len() < 1 {
                Err("Missing addr"@)
            } else if !(it[0] is Address) {
                Err("Invalid addr type"@)
            } else if it.len() < 2 {
                Err("Missing key"@)
            } else if pool_key_of(it[1]) is Err {
                Err(pool_key_of(it[1])->Err_0)
            } else if it.len() < 3 {
                Err("Missing pool_typ"@)
            } else if pool_type_of(it[2]) is Err {
                Err(pool_type_of(it[2])->Err_0)
            } else if it.len() < 4 {
                Err("Missing from0"@)
            } else if !(it[3] is Bool) {
                Err("Invalid from0 type"@)
            } else {
                Ok(
                    PoolSpec {
                        addr: it[0]->Address_0,
                        key: pool_key_of(it[1])->Ok_0,
                        pool_typ: pool_type_of(it[2])->Ok_0,
                        from0: it[3]->Bool_0,
                    },
                )
            }
        },
        _ => Err("Expected tuple for PoolSpec"@),
    }
}

/// Reading a pool spec does not reach a number on which a reading panics.
pub open spec fn pool_spec_fits(v: AbiValue) -> bool {
    v matches AbiValue::Tuple(items) ==> {
        let it = items@;
        &&& (it.len() >= 2 && it[0] is Address) ==> pool_key_fits(it[1])
        &&& (it.len() >= 3 && it[0] is Address && pool_key_of(it[1]) is Ok) ==> pool_type_fits(it[2])
    }
}

/// `v` is the token of a pool spec.
pub open spec fn is_pool_spec_token(v: AbiValue, p: PoolSpec) -> bool {
    v matches AbiValue::Tuple(items) && {
        let it = items@;
        &&& it.len() == 4
        &&& it[0] == AbiValue::Address(p.addr)
        &&& is_pool_key_token(it[1], p.key)
        &&& is_pool_type_token(it[2], p.pool_typ)
        &&& it[3] == AbiValue::Bool(p.from0)
    }
}

impl PoolType {
    /// The pool type's token: its number as an unsigned integer.
    pub fn into_token(self) -> (r: AbiValue)
        ensures
            is_pool_type_token(r, self),
    {
        let n: u64 = match self {
            PoolType::UNISWAP_V2 => 0,
            PoolType::PANCAKE_V2 => 1,
            PoolType::UNISWAP_V3 => 2,
            PoolType::PANCAKE_V3 => 3,
            PoolType::UNISWAP_V4 => 4,
            PoolType::PANCAKE_V4 => 5,
        };
        AbiValue::Uint(U256::from_u64(n))
    }

    /// The pool type of a token: an unsigned integer from 0 to 5. (Reading
    /// the number panics beyond `u32::MAX`, so such tokens are left out.)
    pub fn from_token(v: &AbiValue) -> (r: Result<PoolType, InvalidOutputType>)
        requires
            pool_type_fits(*v),
        ensures
            outcome(r) == pool_type_of(*v),
    {
        match v {
            AbiValue::Uint(u) => {
                let n = crate::uint::as_u32(*u);
                if n == 0 {
                    Ok(PoolType::UNISWAP_V2)
                } else if n == 1 {
                    Ok(PoolType::PANCAKE_V2)
                } else if n == 2 {
                    Ok(PoolType::UNISWAP_V3)
                } else if n == 3 {
                    Ok(PoolType::PANCAKE_V3)
                } else if n == 4 {
                    Ok(PoolType::UNISWAP_V4)
                } else if n == 5 {
                    Ok(PoolType::PANCAKE_V4)
                } else {
                    Err(InvalidOutputType("Invalid PoolType".to_owned()))
                }
            },
            _ => Err(InvalidOutputType("Expected uint for PoolType".to_owned())),
        }
    }
}

impl Currency {
    /// The currency's token: a tuple of its flag and its address.
    pub fn into_token(self) -> (r: AbiValue)
        ensures
            is_currency_token(r, self),
    {
        let mut items: Vec<AbiValue> = Vec::new();
        items.push(AbiValue::Bool(self.is_token));
        items.push(AbiValue::Address(self.value));
        let ghost it = items@;
        proof {
            assert(it =~= seq![AbiValue::Bool(self.is_token), AbiValue::Address(self.value)]);
        }
        AbiValue::Tuple(items)
    }

    /// The currency of a token: a tuple whose first two elements are a flag
    /// and an address (more are ignored).
    pub fn from_token(v: &AbiValue) -> (r: Result<Currency, InvalidOutputType>)
        ensures
            outcome(r) == currency_of(*v),
    {
        match v {
            AbiValue::Tuple(items) => {
                if items.len() < 1 {
                    return Err(InvalidOutputType("Missing is_token".to_owned()));
                }
                let is_token = match &items[0] {
                    AbiValue::Bool(b) => *b,
                    _ => {
                        return Err(InvalidOutputType("Invalid is_token type".to_owned()));
                    },
                };
                if items.len() < 2 {
                    return Err(InvalidOutputType("Missing value".to_owned()));
                }
                let value = match &items[1] {
                    AbiValue::Address(a) => *a,
                    _ => {
                        return Err(InvalidOutputType("Invalid value type".to_owned()));
                    },
                };
                Ok(Currency { is_token, value })
            },
            _ => Err(InvalidOutputType("Expected tuple for Currency".to_owned())),
        }
    }
}

impl PoolKey {
    /// The key's token: the currencies' tokens, the fee, the tick spacing
    /// as a 256-bit two's complement and the hooks' address. (Negating
    /// `i32::MIN` overflows, so that spacing is left out.)
    pub fn into_token(self) -> (r: AbiValue)
        requires
            self.tickSpacing != i32::MIN,
        ensures
            is_pool_key_token(r, self),
    {
        let mut items: Vec<AbiValue> = Vec::new();
        items.push(self.currency0.into_token());
        items.push(self.currency1.into_token());
        items.push(AbiValue::Uint(U256::from_u64(self.fee as u64)));
        items.push(AbiValue::Int(int_to_uint256(self.tickSpacing)));
        items.push(AbiValue::Address(self.hooks));
        AbiValue::Tuple(items)
    }

    /// The pool key of a token. (Reading the fee panics beyond `u32::MAX`
    /// and reading the tick spacing beyond `u64::MAX`, so such tokens are
    /// left out.)
    pub fn from_token(v: &AbiValue) -> (r: Result<PoolKey, InvalidOutputType>)
        requires
            pool_key_fits(*v),
        ensures
            outcome(r) == pool_key_of(*v),
    {
        match v {
            AbiValue::Tuple(items) => {
                if items.len() < 1 {
                    return Err(InvalidOutputType("Missing currency0".to_owned()));
                }
                let c0 = match Currency::from_token(&items[0]) {
                    Ok(c) => c,
                    Err(e) => {
                        return Err(e);
                    },
                };
                if items.len() < 2 {
                    return Err(InvalidOutputType("Missing currency1".to_owned()));
                }
                let c1 = match Currency::from_token(&items[1]) {
                    Ok(c) => c,
                    Err(e) => {
                        return Err(e);
                    },
                };
                if items.len() < 3 {
                    return Err(InvalidOutputType("Missing or invalid `fee`".to_owned()));
                }
                let raw_fee = match &items[2] {
                    AbiValue::Uint(u) => crate::uint::as_u32(*u),
                    _ => {
                        return Err(InvalidOutputType("Missing or invalid `fee`".to_owned()));
                    },
                };
                let fee = match require_range_u32(raw_fee, 0xFF_FFFF, "fee") {
                    Ok(f) => f,
                    Err(e) => {
                        proof {
                            reveal_strlit("fee");
                            reveal_strlit(" out of uint24 range");
                            reveal_strlit("fee out of uint24 range");
                            assert("fee"@ + " out of uint24 range"@ =~= "fee out of uint24 range"@);
                        }
                        return Err(e);
                    },
                };
                if items.len() < 4 {
                    return Err(InvalidOutputType("Missing or invalid `tickSpacing`".to_owned()));
                }
                let raw_tick = match &items[3] {
                    AbiValue::Int(u) => #[verifier::truncate] (crate::uint::as_u64(*u) as i32),
                    _ => {
                        return Err(InvalidOutputType("Missing or invalid `tickSpacing`".to_owned()));
                    },
                };
                let tick_spacing = match require_range_i32(raw_tick, -0x800000, 0x7F_FFFF, "tickSpacing") {
                    Ok(t) => t,
                    Err(e) => {
                        proof {
                            reveal_strlit("tickSpacing");
                            reveal_strlit(" out of int24 range");
                            reveal_strlit("tickSpacing out of int24 range");
                            assert("tickSpacing"@ + " out of int24 range"@ =~= "tickSpacing out of int24 range"@);
                        }
                        return Err(e);
                    },
                };
                if items.len() < 5 {
                    return Err(InvalidOutputType("Missing or invalid `hooks`".to_owned()));
                }
                let hooks = match &items[4] {
                    AbiValue::Address(a) => *a,
                    _ => {
                        return Err(InvalidOutputType("Missing or invalid `hooks`".to_owned()));
                    },
                };
                Ok(PoolKey { currency0: c0, currency1: c1, fee, tickSpacing: tick_spacing, hooks })
            },
            _ => Err(InvalidOutputType("Expected tuple for PoolKey".to_owned())),
        }
    }
}

impl PoolSpec {
    /// The pool spec's token: the address, the key's token, the pool type's
    /// token and the direction.
    pub fn into_token(self) -> (r: AbiValue)
        requires
            self.key.tickSpacing != i32::MIN,
        ensures
            is_pool_spec_token(r, self),
    {
        let mut items: Vec<AbiValue> = Vec::new();
        items.push(AbiValue::Address(self.addr));
        items.push(self.key.into_token());
        items.push(self.pool_typ.into_token());
        items.push(AbiValue::Bool(self.from0));
        AbiValue::Tuple(items)
    }

    /// The pool spec of a token. (Tokens on which reading a number panics
    /// are left out.)
    pub fn from_token(v: &AbiValue) -> (r: Result<PoolSpec, InvalidOutputType>)
        requires
            pool_spec_fits(*v),
        ensures
            outcome(r) == pool_spec_of(*v),
    {
        match v {
            AbiValue::Tuple(items) => {
                if items.len() < 1 {
                    return Err(InvalidOutputType("Missing addr".to_owned()));
                }
                let addr = match &items[0] {
                    AbiValue::Address(a) => *a,
                    _ => {
                        return Err(InvalidOutputType("Invalid addr type".to_owned()));
                    },
                };
                if items.len() < 2 {
                    return Err(InvalidOutputType("Missing key".to_owned()));
                }
                let key = match PoolKey::from_token(&items[1]) {
                    Ok(k) => k,
                    Err(e) => {
                        return Err(e);
                    },
                };
                if items.len() < 3 {
                    return Err(InvalidOutputType("Missing pool_typ".to_owned()));
                }
                let pool_typ = match PoolType::from_token(&items[2]) {
                    Ok(t) => t,
                    Err(e) => {
                        return Err(e);
                    },
                };
                if items.len() < 4 {
                    return Err(InvalidOutputType("Missing from0".to_owned()));
                }
                let from0 = match &items[3] {
                    AbiValue::Bool(b) => *b,
                    _ => {
                        return Err(InvalidOutputType("Invalid from0 type".to_owned()));
                    },
                };
                Ok(PoolSpec { addr, key, pool_typ, from0 })
            },
            _ => Err(InvalidOutputType("Expected tuple for PoolSpec".to_owned())),
        }
    }
}

impl Hooks {
    /// The hooks' token: their address.
    pub fn into_token(self) -> (r: AbiValue)
        ensures
            r == AbiValue::Address(self.0),
    {
        AbiValue::Address(self.0)
    }

    /// The hooks of a token: an address.
    pub fn from_token(v: &AbiValue) -> (r: Result<Hooks, InvalidOutputType>)
        ensures
            outcome(r) == (match *v {
                AbiValue::Address(a) => Ok(Hooks(a)),
                _ => Err(""@),
            }),
    {
        match v {
            AbiValue::Address(a) => Ok(Hooks(*a)),
            _ => Err(InvalidOutputType("".to_owned())),
        }
    }

    /// The hooks contract at an address.
    pub fn from(addr: H160) -> (r: Hooks)
        ensures
            r.0 == addr,
    {
        Hooks(addr)
    }
}

/// Reading a pool type's token gives the pool type back.
pub proof fn lemma_pool_type_round_trip(t: PoolType, v: AbiValue)
    requires
        is_pool_type_token(v, t),
    ensures
        pool_type_fits(v),
        pool_type_of(v) == Ok::<PoolType, Seq<char>>(t),
{
}

/// Reading a currency's token gives the currency back.
pub proof fn lemma_currency_round_trip(c: Currency, v: AbiValue)
    requires
        is_currency_token(v, c),
    ensures
        currency_of(v) == Ok::<Currency, Seq<char>>(c),
{
}

/// Reading a pool key's token gives the key back, when the fee is within
/// 24 bits and the tick spacing lies in `0..=0x7FFFFF` (a negative spacing's
/// word exceeds `u64::MAX`, on which reading it panics).
pub proof fn lemma_pool_key_round_trip(k: PoolKey, v: AbiValue)
    requires
        is_pool_key_token(v, k),
        k.fee <= uint24_max(),
        0 <= k.tickSpacing <= 0x7F_FFFF,
    ensures
        pool_key_fits(v),
        pool_key_of(v) == Ok::<PoolKey, Seq<char>>(k),
{
    let it = v->Tuple_0@;
    lemma_currency_round_trip(k.currency0, it[0]);
    lemma_currency_round_trip(k.currency1, it[1]);
    let t = k.tickSpacing;
    let w = t as u64;
    assert(w as i32 == t) by (bit_vector)
        requires
            0 <= t <= 0x7F_FFFF,
            w == t,
    ;
}

/// Reading a pool spec's token gives the spec back, under the conditions
/// of the key's round trip.
pub proof fn lemma_pool_spec_round_trip(p: PoolSpec, v: AbiValue)
    requires
        is_pool_spec_token(v, p),
        p.key.fee <= uint24_max(),
        0 <= p.key.tickSpacing <= 0x7F_FFFF,
    ensures
        pool_spec_fits(v),
        pool_spec_of(v) == Ok::<PoolSpec, Seq<char>>(p),
{
    let it = v->Tuple_0@;
    lemma_pool_key_round_trip(p.key, it[1]);
    lemma_pool_type_round_trip(p.pool_typ, it[2]);
}

/// Each encoded pool spec carries its trade's own direction: the fourth
/// element is `Bool(from0)`, so two trades that differ in direction never
/// encode alike.
pub proof fn lemma_pool_spec_direction(v1: AbiValue, t1: Trade, v2: AbiValue, t2: Trade, code: u8)
    requires
        is_pool_spec_value(v1, t1, code),
        is_pool_spec_value(v2, t2, code),
    ensures
        v1 matches AbiValue::Tuple(items) && items@.len() == 4 && items@[3] == AbiValue::Bool(t1.from0)
            && items@[0] == AbiValue::Address(t1.pool),
        t1.from0 != t2.from0 ==> v1 != v2,
{
    if t1.from0 != t2.from0 && v1 == v2 {
        assert(AbiValue::Bool(t1.from0) == AbiValue::Bool(t2.from0));
    }
}

/// Two trades encode alike only when they have the same pool, the same two
/// tokens in the same order, the same fee and the same direction.
pub proof fn lemma_pool_spec_distinguishes(v1: AbiValue, t1: Trade, v2: AbiValue, t2: Trade, code: u8)
    requires
        is_pool_spec_value(v1, t1, code),
        is_pool_spec_value(v2, t2, code),
        v1 == v2,
    ensures
        t1.pool == t2.pool,
        t1.token0 == t2.token0,
        t1.token1 == t2.token1,
        t1.fee == t2.fee,
        t1.from0 == t2.from0,
{
    let it = v1->Tuple_0@;
    let k1 = it[1]->Tuple_0@;
    assert(AbiValue::Address(t1.pool) == AbiValue::Address(t2.pool));
    assert(AbiValue::Address(t1.token0) == AbiValue::Address(t2.token0));
    assert(AbiValue::Address(t1.token1) == AbiValue::Address(t2.token1));
    assert(AbiValue::Bool(t1.from0) == AbiValue::Bool(t2.from0));
}

} // verus!

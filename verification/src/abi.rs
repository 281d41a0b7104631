//! Solidity ABI types and values, and the calls into `ethers::abi` and
//! `ethers::utils` that decode call data and log data and hash signatures.
use vstd::prelude::*;
use crate::address::{H160, H256, be_nat};
use crate::uint::U256;
use ethers::abi::Token as EthToken;
use ethers::abi::ParamType as Pt;
use ethers::types::U256 as EthU256;
use ethers::types::H160 as EthH160;

verus! {

/// `ethers::abi::ParamType`, carried opaquely to the decoder.
#[verifier::external_type_specification]
#[verifier::external_body]
pub struct ExParamType(ethers::abi::ParamType);

/// `ethers::types::U256`, converted to and from the library's `U256`.
#[verifier::external_type_specification]
#[verifier::external_body]
pub struct ExEthU256(EthU256);

/// `ethers::types::H160`, converted from the library's `H160`.
#[verifier::external_type_specification]
#[verifier::external_body]
pub struct ExEthH160(EthH160);

/// `ethers::abi::Token`, carried opaquely out of the decoder.
#[verifier::external_type_specification]
#[verifier::external_body]
pub struct ExToken(EthToken);

/// A Solidity parameter type, one variant for each of `ethers::abi::ParamType`.
#[derive(Debug)]
pub enum AbiKind {
    Address,
    Bytes,
    Int(usize),
    Uint(usize),
    Bool,
    String,
    FixedBytes(usize),
    Array(Box<AbiKind>),
    FixedArray(Box<AbiKind>, usize),
    Tuple(Vec<AbiKind>),
}

/// A decoded Solidity value, one variant for each of `ethers::abi::Token`.
/// `Int` holds the 256 bits of the two's-complement word.
#[derive(Debug)]
pub enum AbiValue {
    Address(H160),
    FixedBytes(Vec<u8>),
    Bytes(Vec<u8>),
    Int(U256),
    Uint(U256),
    Bool(bool),
    String(String),
    FixedArray(Vec<AbiValue>),
    Array(Vec<AbiValue>),
    Tuple(Vec<AbiValue>),
}

/// Kinds that occupy exactly one 32-byte word and are read without checks.
pub open spec fn is_word_kind(k: AbiKind) -> bool {
    k is Address || k is Int || k is Uint
}

/// Every kind of the list is a word kind.
pub open spec fn all_word_kinds(kinds: Seq<AbiKind>) -> bool {
    forall|i: int| 0 <= i < kinds.len() ==> #[trigger] is_word_kind(kinds[i])
}

/// The `i`-th 32-byte word of `data`.
pub open spec fn word_at(data: Seq<u8>, i: int) -> Seq<u8> {
    data.subrange(32 * i, 32 * i + 32)
}

/// The address in the low 20 bytes of the `i`-th word.
pub open spec fn word_address(data: Seq<u8>, i: int) -> nat {
    be_nat(data.subrange(32 * i + 12, 32 * i + 32))
}

/// The `i`-th word read as an unsigned big-endian number.
pub open spec fn word_uint(data: Seq<u8>, i: int) -> nat {
    be_nat(word_at(data, i))
}

/// `v` is the value that a word of kind `k` decodes to, the word being the
/// `i`-th of `data`.
pub open spec fn word_decodes(k: AbiKind, data: Seq<u8>, i: int, v: AbiValue) -> bool {
    match k {
        AbiKind::Address => v matches AbiValue::Address(a) && a.value() == word_address(data, i),
        AbiKind::Int(_) => v matches AbiValue::Int(u) && u.value() == word_uint(data, i),
        AbiKind::Uint(_) => v matches AbiValue::Uint(u) && u.value() == word_uint(data, i),
        _ => false,
    }
}

/// `vals` are the values that the words of `data` decode to, one per kind.
pub open spec fn words_decode(kinds: Seq<AbiKind>, data: Seq<u8>, vals: Seq<AbiValue>) -> bool {
    &&& vals.len() == kinds.len()
    &&& forall|i: int| 0 <= i < kinds.len() ==> #[trigger] word_decodes(kinds[i], data, i, vals[i])
}

/// What `ethers::abi::decode` returns for these kinds and bytes.
pub uninterp spec fn abi_decode(kinds: Seq<AbiKind>, data: Seq<u8>) -> Option<Seq<AbiValue>>;

/// What `ethers::utils::keccak256` returns for the bytes of a text.
pub uninterp spec fn keccak256(text: Seq<char>) -> Seq<u8>;

/// What `ethers::abi::short_signature` returns for a function name and its
/// parameter kinds.
pub uninterp spec fn short_signature(name: Seq<char>, kinds: Seq<AbiKind>) -> Seq<u8>;

/// The `ethers::abi::ParamType` of a kind; a one-to-one conversion.
#[verifier::external_body]
fn param_type(k: &AbiKind) -> Pt {
    match k {
        AbiKind::Address => Pt::Address,
        AbiKind::Bytes => Pt::Bytes,
        AbiKind::Int(n) => Pt::Int(*n),
        AbiKind::Uint(n) => Pt::Uint(*n),
        AbiKind::Bool => Pt::Bool,
        AbiKind::String => Pt::String,
        AbiKind::FixedBytes(n) => Pt::FixedBytes(*n),
        AbiKind::Array(k) => Pt::Array(Box::new(param_type(k))),
        AbiKind::FixedArray(k, n) => Pt::FixedArray(Box::new(param_type(k)), *n),
        AbiKind::Tuple(ks) => Pt::Tuple(ks.iter().map(param_type).collect()),
    }
}

/// An `ethers` 256-bit number as the library's; a one-to-one conversion.
#[verifier::external_body]
fn u256_in(u: EthU256) -> U256 {
    U256 { w0: u.0[0], w1: u.0[1], w2: u.0[2], w3: u.0[3] }
}

/// The library's 256-bit number as an `ethers` one; a one-to-one conversion.
#[verifier::external_body]
fn u256_out(u: &U256) -> EthU256 {
    EthU256([u.w0, u.w1, u.w2, u.w3])
}

/// The library's address as an `ethers` one; a one-to-one conversion.
#[verifier::external_body]
fn h160_out(a: &H160) -> EthH160 {
    EthH160::from_slice(&crate::address::h160_bytes(*a))
}

/// The value of an `ethers::abi::Token`; a one-to-one conversion.
#[verifier::external_body]
fn abi_value(t: EthToken) -> AbiValue {
    match t {
        EthToken::Address(a) => AbiValue::Address(H160::from_bytes(a.as_bytes())),
        EthToken::FixedBytes(b) => AbiValue::FixedBytes(b),
        EthToken::Bytes(b) => AbiValue::Bytes(b),
        EthToken::Int(u) => AbiValue::Int(u256_in(u)),
        EthToken::Uint(u) => AbiValue::Uint(u256_in(u)),
        EthToken::Bool(b) => AbiValue::Bool(b),
        EthToken::String(s) => AbiValue::String(s),
        EthToken::FixedArray(v) => AbiValue::FixedArray(abi_values(v)),
        EthToken::Array(v) => AbiValue::Array(abi_values(v)),
        EthToken::Tuple(v) => AbiValue::Tuple(abi_values(v)),
    }
}

/// The values of a list of `ethers::abi::Token`s; a one-to-one conversion.
#[verifier::external_body]
fn abi_values(v: Vec<EthToken>) -> Vec<AbiValue> {
    v.into_iter().map(abi_value).collect()
}

/// The `ethers::abi::Token`s of a list of values; a one-to-one conversion.
#[verifier::external_body]
fn eth_tokens(v: &Vec<AbiValue>) -> Vec<EthToken> {
    v.iter().map(eth_token).collect()
}

/// The `ethers::abi::Token` of a value; a one-to-one conversion.
#[verifier::external_body]
fn eth_token(v: &AbiValue) -> EthToken {
    match v {
        AbiValue::Address(a) => EthToken::Address(h160_out(a)),
        AbiValue::FixedBytes(b) => EthToken::FixedBytes(b.clone()),
        AbiValue::Bytes(b) => EthToken::Bytes(b.clone()),
        AbiValue::Int(u) => EthToken::Int(u256_out(u)),
        AbiValue::Uint(u) => EthToken::Uint(u256_out(u)),
        AbiValue::Bool(b) => EthToken::Bool(*b),
        AbiValue::String(s) => EthToken::String(s.clone()),
        AbiValue::FixedArray(v) => EthToken::FixedArray(eth_tokens(v)),
        AbiValue::Array(v) => EthToken::Array(eth_tokens(v)),
        AbiValue::Tuple(v) => EthToken::Tuple(eth_tokens(v)),
    }
}

/// What `ethers::abi::encode` returns for these values.
pub uninterp spec fn abi_encode(values: Seq<AbiValue>) -> Seq<u8>;

/// `ethers::abi::encode`: the ABI encoding of the values; its result is
/// named `abi_encode`.
#[verifier::external_body]
pub(crate) fn encode(values: &Vec<AbiValue>) -> (r: Vec<u8>)
    ensures
        r@ == abi_encode(values@),
{
    let tokens: Vec<EthToken> = values.iter().map(eth_token).collect();
    ethers::abi::encode(&tokens)
}

/// `ethers::abi::decode`: the values that `data` encodes for the given
/// kinds, or `None` where the decoder fails. Its result is named
/// `abi_decode`. What its source shows for kinds that are each one word
/// (address, int, uint) is stated too: the call succeeds exactly when there
/// is a word for each kind (extra bytes are ignored), the address being the
/// low 20 bytes of its word and the integers the whole word read big-endian,
/// with no check of padding or width. For other kinds the contract says no
/// more than the name.
#[verifier::external_body]
pub(crate) fn decode(kinds: &[AbiKind], data: &[u8]) -> (r: Option<Vec<AbiValue>>)
    ensures
        match r {
            Some(v) => abi_decode(kinds@, data@) == Some(v@),
            None => abi_decode(kinds@, data@) is None,
        },
        all_word_kinds(kinds@) ==> (r is Some <==> 32 * kinds@.len() <= data@.len()),
        all_word_kinds(kinds@) ==> (r matches Some(v) ==> words_decode(kinds@, data@, v@)),
{
    let types: Vec<ethers::abi::ParamType> = kinds.iter().map(param_type).collect();
    match ethers::abi::decode(&types, data) {
        Ok(tokens) => Some(tokens.into_iter().map(abi_value).collect()),
        Err(_) => None,
    }
}

/// `ethers::utils::keccak256` of the UTF-8 bytes of a text, as a hash; its
/// result is named `keccak256`.
#[verifier::external_body]
pub(crate) fn keccak_text(text: &str) -> (r: H256)
    ensures
        r.value() == be_nat(keccak256(text@)),
{
    H256::from_bytes(&ethers::utils::keccak256(text.as_bytes()))
}

/// `ethers::abi::short_signature`: the 4-byte selector of a function with
/// this name and these parameter kinds; its result is named
/// `short_signature`.
#[verifier::external_body]
pub(crate) fn selector_of(name: &str, kinds: &[AbiKind]) -> (r: [u8; 4])
    ensures
        r@ == short_signature(name@, kinds@),
{
    let types: Vec<ethers::abi::ParamType> = kinds.iter().map(param_type).collect();
    ethers::abi::short_signature(name, &types)
}

} // verus!

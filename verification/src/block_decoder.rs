//! Decoding pending transactions: the call data against the known ABIs, and
//! the decoded pool calls into pool actions.
use vstd::prelude::*;
use crate::address::H160;
use crate::uint::{U256, I256};
use crate::abi::{AbiKind, AbiValue, abi_decode, decode, selector_of, short_signature};
use crate::pool_action::PoolAction;
use crate::text::text_is;

verus! {

/// A function of an ABI: its name and the kinds of its inputs.
pub struct AbiFunction {
    pub name: String,
    pub inputs: Vec<AbiKind>,
}

/// The functions of the ABIs the decoder knows, each list in the order in
/// which `ethers::abi::Contract::functions` yields them.
pub struct AbisData {
    pub v2_factory: Vec<AbiFunction>,
    pub v2_pool: Vec<AbiFunction>,
    pub v3_factory: Vec<AbiFunction>,
    pub v3_pool: Vec<AbiFunction>,
    pub bep_20: Vec<AbiFunction>,
}

/// What the decoder reads of a transaction: its recipient and its input.
pub struct Transaction {
    pub to: Option<H160>,
    pub input: Vec<u8>,
}

/// A transaction's call data decoded against the known ABIs.
#[derive(Debug)]
pub enum DecodedTx {
    V2 { func: String, tokens: Vec<AbiValue> },
    V3 { func: String, tokens: Vec<AbiValue> },
    Token { func: String, tokens: Vec<AbiValue> },
    Unknown { selector: [u8; 4], to: H160 },
}

/// The decoder, which holds no state.
pub struct Decoder();

/// A code for the variant of a decoded value: 0 an address, 1 an unsigned
/// integer, 2 a signed integer, 3 anything else.
pub open spec fn token_code(v: AbiValue) -> int {
    match v {
        AbiValue::Address(_) => 0,
        AbiValue::Uint(_) => 1,
        AbiValue::Int(_) => 2,
        _ => 3,
    }
}

/// The values have exactly the variants that `shape` lists.
pub open spec fn has_shape(t: Seq<AbiValue>, shape: Seq<int>) -> bool {
    &&& t.len() == shape.len()
    &&& forall|i: int| 0 <= i < t.len() ==> #[trigger] token_code(t[i]) == shape[i]
}

/// The address a value holds (zero for other variants).
pub open spec fn tok_addr(v: AbiValue) -> H160 {
    match v {
        AbiValue::Address(a) => a,
        _ => H160 { hi: 0, mid: 0, lo: 0 },
    }
}

/// The word an integer value holds (zero for other variants).
pub open spec fn tok_word(v: AbiValue) -> U256 {
    match v {
        AbiValue::Uint(u) => u,
        AbiValue::Int(u) => u,
        _ => U256 { w0: 0, w1: 0, w2: 0, w3: 0 },
    }
}

/// The signed number a signed value holds.
pub open spec fn tok_signed(v: AbiValue) -> int {
    I256 { raw: tok_word(v) }.value()
}

/// The signed value fits in an `i64`.
pub open spec fn tok_fits_i64(v: AbiValue) -> bool {
    i64::MIN <= tok_signed(v) <= i64::MAX
}

/// A tick: the signed value as an `i64`, truncated to 32 bits.
pub open spec fn tok_tick(v: AbiValue) -> i32 {
    (tok_signed(v) as i64) as i32
}

pub open spec fn swap_v2_shape() -> Seq<int> {
    seq![0, 1, 1, 1, 1, 0]
}

pub open spec fn mint_v2_shape() -> Seq<int> {
    seq![0, 1, 1]
}

pub open spec fn burn_v2_shape() -> Seq<int> {
    seq![0, 1, 1, 0]
}

pub open spec fn swap_v3_shape() -> Seq<int> {
    seq![0, 0, 2, 2, 1, 1, 2]
}

pub open spec fn mint_v3_shape() -> Seq<int> {
    seq![0, 0, 2, 2, 1, 1, 1]
}

pub open spec fn burn_v3_shape() -> Seq<int> {
    seq![0, 2, 2, 1, 1, 1]
}

/// The pool action a decoded call stands for: a V2 or V3 pool's `swap`,
/// `mint` or `burn` whose values have the expected variants.
pub open spec fn action_of(d: DecodedTx) -> Option<PoolAction> {
    match d {
        DecodedTx::V2 { func, tokens } => {
            let t = tokens@;
            if func@ == "swap"@ && has_shape(t, swap_v2_shape()) {
                Some(
                    PoolAction::SwapV2 {
                        sender: tok_addr(t[0]),
                        amount0_in: tok_word(t[1]),
                        amount1_in: tok_word(t[2]),
                        amount0_out: tok_word(t[3]),
                        amount1_out: tok_word(t[4]),
                        to: tok_addr(t[5]),
                    },
                )
            } else if func@ == "mint"@ && has_shape(t, mint_v2_shape()) {
                Some(
                    PoolAction::MintV2 {
                        sender: tok_addr(t[0]),
                        amount0: tok_word(t[1]),
                        amount1: tok_word(t[2]),
                    },
                )
            } else if func@ == "burn"@ && has_shape(t, burn_v2_shape()) {
                Some(
                    PoolAction::BurnV2 {
                        sender: tok_addr(t[0]),
                        amount0: tok_word(t[1]),
                        amount1: tok_word(t[2]),
                        to: tok_addr(t[3]),
                    },
                )
            } else {
                None
            }
        },
        DecodedTx::V3 { func, tokens } => {
            let t = tokens@;
            if func@ == "swap"@ && has_shape(t, swap_v3_shape()) {
                Some(
                    PoolAction::SwapV3 {
                        sender: tok_addr(t[0]),
                        recipient: tok_addr(t[1]),
                        amount0: I256 { raw: tok_word(t[2]) },
                        amount1: I256 { raw: tok_word(t[3]) },
                        sqrt_price_x96: tok_word(t[4]),
                        liquidity: tok_word(t[5]),
                        tick: tok_tick(t[6]),
                    },
                )
            } else if func@ == "mint"@ && has_shape(t, mint_v3_shape()) {
                Some(
                    PoolAction::MintV3 {
                        sender: tok_addr(t[0]),
                        owner: tok_addr(t[1]),
                        tick_lower: tok_tick(t[2]),
                        tick_upper: tok_tick(t[3]),
                        amount: tok_word(t[4]),
                        amount0: tok_word(t[5]),
                        amount1: tok_word(t[6]),
                    },
                )
            } else if func@ == "burn"@ && has_shape(t, burn_v3_shape()) {
                Some(
                    PoolAction::BurnV3 {
                        owner: tok_addr(t[0]),
                        tick_lower: tok_tick(t[1]),
                        tick_upper: tok_tick(t[2]),
                        amount: tok_word(t[3]),
                        amount0: tok_word(t[4]),
                        amount1: tok_word(t[5]),
                    },
                )
            } else {
                None
            }
        },
        _ => None,
    }
}

/// The ticks that turning a decoded V3 call into an action reads fit in an
/// `i64` (outside that range the conversion panics).
pub open spec fn ticks_fit(d: DecodedTx) -> bool {
    match d {
        DecodedTx::V3 { func, tokens } => {
            let t = tokens@;
            &&& (func@ == "swap"@ && has_shape(t, swap_v3_shape())) ==> tok_fits_i64(t[6])
            &&& (func@ == "mint"@ && has_shape(t, mint_v3_shape())) ==> tok_fits_i64(t[2])
                && tok_fits_i64(t[3])
            &&& (func@ == "burn"@ && has_shape(t, burn_v3_shape())) ==> tok_fits_i64(t[1])
                && tok_fits_i64(t[2])
        },
        _ => true,
    }
}

/// Whether a string is the given literal.
fn is_named(s: &String, lit: &str) -> (r: bool)
    ensures
        r == (s@ == lit@),
{
    text_is(s.as_str(), lit)
}

/// Whether the values have the listed variants.
fn check_shape(t: &Vec<AbiValue>, shape: Vec<u8>) -> (r: bool)
    ensures
        r == has_shape(t@, shape@.map_values(|c: u8| c as int)),
{
    if t.len() != shape.len() {
        return false;
    }
    let mut i: usize = 0;
    while i < t.len()
        invariant
            i <= t@.len(),
            t@.len() == shape@.len(),
            forall|k: int| 0 <= k < i ==> #[trigger] token_code(t@[k]) == shape@[k] as int,
        decreases t@.len() - i,
    {
        let code: u8 = match &t[i] {
            AbiValue::Address(_) => 0,
            AbiValue::Uint(_) => 1,
            AbiValue::Int(_) => 2,
            _ => 3,
        };
        assert(code as int == token_code(t@[i as int]));
        if code != shape[i] {
            assert(shape@.map_values(|c: u8| c as int)[i as int] == shape@[i as int] as int);
            return false;
        }
        i = i + 1;
    }
    proof {
        let m = shape@.map_values(|c: u8| c as int);
        assert forall|k: int| 0 <= k < t@.len() implies #[trigger] token_code(t@[k]) == m[k] by {}
    }
    true
}

/// The address at position `i`.
fn addr_at(t: &Vec<AbiValue>, i: usize) -> (r: H160)
    requires
        i < t@.len(),
    ensures
        r == tok_addr(t@[i as int]),
{
    match &t[i] {
        AbiValue::Address(a) => *a,
        _ => H160 { hi: 0, mid: 0, lo: 0 },
    }
}

/// The integer word at position `i`.
fn word_at(t: &Vec<AbiValue>, i: usize) -> (r: U256)
    requires
        i < t@.len(),
    ensures
        r == tok_word(t@[i as int]),
{
    match &t[i] {
        AbiValue::Uint(u) => *u,
        AbiValue::Int(u) => *u,
        _ => U256 { w0: 0, w1: 0, w2: 0, w3: 0 },
    }
}

/// The tick at position `i`: `as_i64` of the signed value, cast to `i32`.
fn tick_at(t: &Vec<AbiValue>, i: usize) -> (r: i32)
    requires
        i < t@.len(),
        tok_fits_i64(t@[i as int]),
    ensures
        r == tok_tick(t@[i as int]),
{
    let raw = word_at(t, i);
    let x = I256 { raw }.as_i64();
    x as i32
}

impl Decoder {
    /// Turns a decoded V2 or V3 pool call into the pool action it stands
    /// for; `None` when the function name and values do not have the
    /// expected shape, and for token calls and unknown calls.
    pub fn decode_tx_to_action(decoded: DecodedTx) -> (r: Option<PoolAction>)
        requires
            ticks_fit(decoded),
        ensures
            r == action_of(decoded),
    {
        proof {
            assert(swap_v2_shape() =~= seq![0u8, 1, 1, 1, 1, 0].map_values(|c: u8| c as int));
            assert(mint_v2_shape() =~= seq![0u8, 1, 1].map_values(|c: u8| c as int));
            assert(burn_v2_shape() =~= seq![0u8, 1, 1, 0].map_values(|c: u8| c as int));
            assert(swap_v3_shape() =~= seq![0u8, 0, 2, 2, 1, 1, 2].map_values(|c: u8| c as int));
            assert(mint_v3_shape() =~= seq![0u8, 0, 2, 2, 1, 1, 1].map_values(|c: u8| c as int));
            assert(burn_v3_shape() =~= seq![0u8, 2, 2, 1, 1, 1].map_values(|c: u8| c as int));
        }
        match decoded {
            DecodedTx::V2 { func, tokens } => {
                if is_named(&func, "swap") && check_shape(&tokens, vec![0u8, 1, 1, 1, 1, 0]) {
                    Some(
                        PoolAction::SwapV2 {
                            sender: addr_at(&tokens, 0),
                            amount0_in: word_at(&tokens, 1),
                            amount1_in: word_at(&tokens, 2),
                            amount0_out: word_at(&tokens, 3),
                            amount1_out: word_at(&tokens, 4),
                            to: addr_at(&tokens, 5),
                        },
                    )
                } else if is_named(&func, "mint") && check_shape(&tokens, vec![0u8, 1, 1]) {
                    Some(
                        PoolAction::MintV2 {
                            sender: addr_at(&tokens, 0),
                            amount0: word_at(&tokens, 1),
                            amount1: word_at(&tokens, 2),
                        },
                    )
                } else if is_named(&func, "burn") && check_shape(&tokens, vec![0u8, 1, 1, 0]) {
                    Some(
                        PoolAction::BurnV2 {
                            sender: addr_at(&tokens, 0),
                            amount0: word_at(&tokens, 1),
                            amount1: word_at(&tokens, 2),
                            to: addr_at(&tokens, 3),
                        },
                    )
                } else {
                    None
                }
            },
            DecodedTx::V3 { func, tokens } => {
                if is_named(&func, "swap") && check_shape(&tokens, vec![0u8, 0, 2, 2, 1, 1, 2]) {
                    Some(
                        PoolAction::SwapV3 {
                            sender: addr_at(&tokens, 0),
                            recipient: addr_at(&tokens, 1),
                            amount0: I256 { raw: word_at(&tokens, 2) },
                            amount1: I256 { raw: word_at(&tokens, 3) },
                            sqrt_price_x96: word_at(&tokens, 4),
                            liquidity: word_at(&tokens, 5),
                            tick: tick_at(&tokens, 6),
                        },
                    )
                } else if is_named(&func, "mint") && check_shape(
                    &tokens,
                    vec![0u8, 0, 2, 2, 1, 1, 1],
                ) {
                    Some(
                        PoolAction::MintV3 {
                            sender: addr_at(&tokens, 0),
                            owner: addr_at(&tokens, 1),
                            tick_lower: tick_at(&tokens, 2),
                            tick_upper: tick_at(&tokens, 3),
                            amount: word_at(&tokens, 4),
                            amount0: word_at(&tokens, 5),
                            amount1: word_at(&tokens, 6),
                        },
                    )
                } else if is_named(&func, "burn") && check_shape(&tokens, vec![0u8, 2, 2, 1, 1, 1]) {
                    Some(
                        PoolAction::BurnV3 {
                            owner: addr_at(&tokens, 0),
                            tick_lower: tick_at(&tokens, 1),
                            tick_upper: tick_at(&tokens, 2),
                            amount: word_at(&tokens, 3),
                            amount0: word_at(&tokens, 4),
                            amount1: word_at(&tokens, 5),
                        },
                    )
                } else {
                    None
                }
            },
            _ => None,
        }
    }
}

/// `r` is an unknown call with this selector and recipient.
pub open spec fn unknown_call(r: DecodedTx, sel: Seq<u8>, to: H160) -> bool {
    r matches DecodedTx::Unknown { selector, to: t } && selector@ == sel && t == to
}

/// A function of an ABI answers to a selector: its selector is `sel` and,
/// where only token transfers are wanted, its name is `transfer` or
/// `approve`.
pub open spec fn fn_matches(f: AbiFunction, sel: Seq<u8>, token_only: bool) -> bool {
    &&& (!token_only || f.name@ == "transfer"@ || f.name@ == "approve"@)
    &&& short_signature(f.name@, f.inputs@) == sel
}

/// `i` is the first position of a function that answers to the selector.
pub open spec fn is_first_match(fs: Seq<AbiFunction>, sel: Seq<u8>, token_only: bool, i: int) -> bool {
    &&& 0 <= i < fs.len()
    &&& fn_matches(fs[i], sel, token_only)
    &&& forall|j: int| 0 <= j < i ==> !fn_matches(#[trigger] fs[j], sel, token_only)
}

/// The first position of a function that answers to the selector, or -1.
pub open spec fn first_match_index(fs: Seq<AbiFunction>, sel: Seq<u8>, token_only: bool) -> int {
    if exists|i: int| is_first_match(fs, sel, token_only, i) {
        choose|i: int| is_first_match(fs, sel, token_only, i)
    } else {
        -1
    }
}

/// At most one position is the first match.
proof fn lemma_first_match_unique(fs: Seq<AbiFunction>, sel: Seq<u8>, token_only: bool, i: int)
    requires
        is_first_match(fs, sel, token_only, i),
    ensures
        first_match_index(fs, sel, token_only) == i,
{
    let c = choose|c: int| is_first_match(fs, sel, token_only, c);
    assert(is_first_match(fs, sel, token_only, c));
    if c < i {
        assert(!fn_matches(fs[c], sel, token_only));
    } else if i < c {
        assert(!fn_matches(fs[i], sel, token_only));
    }
}

/// `r` is what decoding the call data against the `i`-th function of `fs`
/// gives: the function's name and values, in the variant `which` (0 V2
/// pool, 1 V3 pool, 2 token), or an unknown call when decoding fails.
pub open spec fn decoded_with(
    r: DecodedTx,
    fs: Seq<AbiFunction>,
    i: int,
    data: Seq<u8>,
    sel: Seq<u8>,
    to: H160,
    which: int,
) -> bool {
    match abi_decode(fs[i].inputs@, data) {
        Some(t) => match r {
            DecodedTx::V2 { func, tokens } => which == 0 && func@ == fs[i].name@ && tokens@ == t,
            DecodedTx::V3 { func, tokens } => which == 1 && func@ == fs[i].name@ && tokens@ == t,
            DecodedTx::Token { func, tokens } => which == 2 && func@ == fs[i].name@ && tokens@ == t,
            DecodedTx::Unknown { .. } => false,
        },
        None => unknown_call(r, sel, to),
    }
}

/// What decoding a call with at least four bytes of input to `to` gives:
/// the V2 pool ABI is tried first, then the V3 pool ABI, then the token
/// ABI's `transfer` and `approve`; the first function whose selector is the
/// input's first four bytes decodes the rest.
pub open spec fn decoded_call(abis: AbisData, input: Seq<u8>, to: H160, r: DecodedTx) -> bool {
    let sel = input.subrange(0, 4);
    let data = input.subrange(4, input.len() as int);
    let i2 = first_match_index(abis.v2_pool@, sel, false);
    let i3 = first_match_index(abis.v3_pool@, sel, false);
    let it = first_match_index(abis.bep_20@, sel, true);
    if i2 >= 0 {
        decoded_with(r, abis.v2_pool@, i2, data, sel, to, 0)
    } else if i3 >= 0 {
        decoded_with(r, abis.v3_pool@, i3, data, sel, to, 1)
    } else if it >= 0 {
        decoded_with(r, abis.bep_20@, it, data, sel, to, 2)
    } else {
        unknown_call(r, sel, to)
    }
}

/// The four bytes are equal.
fn same_selector(a: &[u8; 4], b: &[u8; 4]) -> (r: bool)
    ensures
        r == (a@ == b@),
{
    let r = a[0] == b[0] && a[1] == b[1] && a[2] == b[2] && a[3] == b[3];
    proof {
        if r {
            assert(a@ =~= b@);
        }
    }
    r
}

/// The first function of the list that answers to the selector.
fn find_function(fs: &Vec<AbiFunction>, sel: &[u8; 4], token_only: bool) -> (r: Option<usize>)
    ensures
        match r {
            Some(i) => is_first_match(fs@, sel@, token_only, i as int),
            None => forall|j: int|
                0 <= j < fs@.len() ==> !fn_matches(#[trigger] fs@[j], sel@, token_only),
        },
{
    let mut i: usize = 0;
    while i < fs.len()
        invariant
            i <= fs@.len(),
            forall|j: int| 0 <= j < i ==> !fn_matches(#[trigger] fs@[j], sel@, token_only),
        decreases fs@.len() - i,
    {
        let f = &fs[i];
        let name_ok = !token_only || is_named(&f.name, "transfer") || is_named(&f.name, "approve");
        if name_ok {
            let s = selector_of(f.name.as_str(), f.inputs.as_slice());
            if same_selector(&s, sel) {
                return Some(i);
            }
        }
        i = i + 1;
    }
    None
}

/// Decodes the call data against the `i`-th function of the list.
fn decode_with(
    fs: &Vec<AbiFunction>,
    i: usize,
    data: &[u8],
    sel: [u8; 4],
    to: H160,
    which: u8,
) -> (r: DecodedTx)
    requires
        i < fs@.len(),
        which <= 2,
    ensures
        decoded_with(r, fs@, i as int, data@, sel@, to, which as int),
{
    let f = &fs[i];
    match decode(f.inputs.as_slice(), data) {
        Some(tokens) => {
            let func = f.name.clone();
            if which == 0 {
                DecodedTx::V2 { func, tokens }
            } else if which == 1 {
                DecodedTx::V3 { func, tokens }
            } else {
                DecodedTx::Token { func, tokens }
            }
        },
        None => DecodedTx::Unknown { selector: sel, to },
    }
}

impl Decoder {
    /// Decodes the input of a transaction against the known ABIs. Without
    /// a recipient, or with fewer than four bytes of input, the call is
    /// unknown with a zero selector; else see `decoded_call`.
    pub fn decode_tx_static(abis: &AbisData, tx: &Transaction) -> (r: DecodedTx)
        ensures
            tx.to is None ==> unknown_call(r, seq![0u8, 0u8, 0u8, 0u8], H160 { hi: 0, mid: 0, lo: 0 }),
            tx.to matches Some(to_addr) ==> (tx.input@.len() < 4 ==> unknown_call(
                r,
                seq![0u8, 0u8, 0u8, 0u8],
                to_addr,
            )),
            tx.to matches Some(to_addr) ==> (tx.input@.len() >= 4 ==> decoded_call(
                *abis,
                tx.input@,
                to_addr,
                r,
            )),
    {
        let to_addr = match tx.to {
            Some(addr) => addr,
            None => {
                let r = DecodedTx::Unknown { selector: [0u8, 0u8, 0u8, 0u8], to: H160::zero() };
                proof {
                    assert(r matches DecodedTx::Unknown { selector, .. } && selector@ =~= seq![0u8, 0u8, 0u8, 0u8]);
                }
                return r;
            },
        };
        let input = &tx.input;
        if input.len() < 4 {
            let r = DecodedTx::Unknown { selector: [0u8, 0u8, 0u8, 0u8], to: to_addr };
            proof {
                assert(r matches DecodedTx::Unknown { selector, .. } && selector@ =~= seq![0u8, 0u8, 0u8, 0u8]);
            }
            return r;
        }
        let selector: [u8; 4] = [input[0], input[1], input[2], input[3]];
        let data = vstd::slice::slice_subrange(input.as_slice(), 4, input.len());
        let ghost sel = input@.subrange(0, 4);
        proof {
            assert(selector@ =~= sel);
        }
        match find_function(&abis.v2_pool, &selector, false) {
            Some(i) => {
                proof {
                    lemma_first_match_unique(abis.v2_pool@, sel, false, i as int);
                }
                return decode_with(&abis.v2_pool, i, data, selector, to_addr, 0);
            },
            None => {},
        }
        proof {
            assert(!exists|i: int| is_first_match(abis.v2_pool@, sel, false, i));
        }
        match find_function(&abis.v3_pool, &selector, false) {
            Some(i) => {
                proof {
                    lemma_first_match_unique(abis.v3_pool@, sel, false, i as int);
                }
                return decode_with(&abis.v3_pool, i, data, selector, to_addr, 1);
            },
            None => {},
        }
        proof {
            assert(!exists|i: int| is_first_match(abis.v3_pool@, sel, false, i));
        }
        match find_function(&abis.bep_20, &selector, true) {
            Some(i) => {
                proof {
                    lemma_first_match_unique(abis.bep_20@, sel, true, i as int);
                }
                return decode_with(&abis.bep_20, i, data, selector, to_addr, 2);
            },
            None => {},
        }
        proof {
            assert(!exists|i: int| is_first_match(abis.bep_20@, sel, true, i));
        }
        DecodedTx::Unknown { selector, to: to_addr }
    }
}

/// Whether a two's-complement word denotes a number in the range of `i64`.
pub fn raw_fits_i64(raw: U256) -> (r: bool)
    ensures
        r == (i64::MIN <= (I256 { raw }).value() <= i64::MAX),
{
    let max: u64 = 0xffff_ffff_ffff_ffff;
    let r = (raw.w1 == 0 && raw.w2 == 0 && raw.w3 == 0 && raw.w0 < 0x8000_0000_0000_0000) || (
    raw.w1 == max && raw.w2 == max && raw.w3 == max && raw.w0 >= 0x8000_0000_0000_0000);
    proof {
        let w = 0x1_0000_0000_0000_0000int;
        let top = raw.w3 as int * w * w + raw.w2 as int * w + raw.w1 as int;
        crate::uint::lemma_word_powers();
        assert(raw.value() == top * w + raw.w0 as int);
        assert(0 <= top <= w * w * w - 1) by (nonlinear_arith)
            requires
                top == raw.w3 as int * w * w + raw.w2 as int * w + raw.w1 as int,
                0 <= raw.w1 < w,
                0 <= raw.w2 < w,
                0 <= raw.w3 < w,
                w == 0x1_0000_0000_0000_0000int,
        ;
        if top == 0 {
            assert(raw.w3 as int * w * w + raw.w2 as int * w + raw.w1 as int == 0);
            assert(raw.w1 == 0 && raw.w2 == 0 && raw.w3 == 0) by (nonlinear_arith)
                requires
                    raw.w3 as int * w * w + raw.w2 as int * w + raw.w1 as int == 0,
                    0 <= raw.w1 < w,
                    0 <= raw.w2 < w,
                    0 <= raw.w3 < w,
                    w > 0,
            ;
        } else if top == w * w * w - 1 {
            crate::address::lemma_digits_unique(
                raw.w3 as int * w + raw.w2 as int,
                raw.w1 as int,
                (w - 1) * w + (w - 1),
                w - 1,
                w,
            );
            crate::address::lemma_digits_unique(raw.w3 as int, raw.w2 as int, w - 1, w - 1, w);
            assert(raw.w1 == max && raw.w2 == max && raw.w3 == max);
        } else {
            assert(raw.w1 != 0 || raw.w2 != 0 || raw.w3 != 0);
            if raw.w1 == max && raw.w2 == max && raw.w3 == max {
                assert(top == w * w * w - 1);
            }
        }
    }
    r
}

/// Whether turning a decoded call into an action reads only ticks that fit
/// in an `i64`.
pub fn check_ticks_fit(d: &DecodedTx) -> (r: bool)
    ensures
        r == ticks_fit(*d),
{
    proof {
        assert(swap_v3_shape() =~= seq![0u8, 0, 2, 2, 1, 1, 2].map_values(|c: u8| c as int));
        assert(mint_v3_shape() =~= seq![0u8, 0, 2, 2, 1, 1, 1].map_values(|c: u8| c as int));
        assert(burn_v3_shape() =~= seq![0u8, 2, 2, 1, 1, 1].map_values(|c: u8| c as int));
    }
    match d {
        DecodedTx::V3 { func, tokens } => {
            let swap_ok = if is_named(func, "swap") && check_shape(tokens, vec![0u8, 0, 2, 2, 1, 1, 2]) {
                raw_fits_i64(word_at(tokens, 6))
            } else {
                true
            };
            let mint_ok = if is_named(func, "mint") && check_shape(tokens, vec![0u8, 0, 2, 2, 1, 1, 1]) {
                raw_fits_i64(word_at(tokens, 2)) && raw_fits_i64(word_at(tokens, 3))
            } else {
                true
            };
            let burn_ok = if is_named(func, "burn") && check_shape(tokens, vec![0u8, 2, 2, 1, 1, 1]) {
                raw_fits_i64(word_at(tokens, 1)) && raw_fits_i64(word_at(tokens, 2))
            } else {
                true
            };
            swap_ok && mint_ok && burn_ok
        },
        _ => true,
    }
}

/// Decoding a V2 pool call maps each ABI argument to the field of the same
/// name, in the parameter order of `swap(address,uint256,uint256,uint256,uint256,address)`,
/// `mint(address,uint256,uint256)` and `burn(address,uint256,uint256,address)`.
pub proof fn lemma_v2_call_fields(
    func: String,
    tokens: Vec<AbiValue>,
    s: H160,
    a: U256,
    b: U256,
    c: U256,
    e: U256,
    to: H160,
)
    ensures
        func@ == "swap"@ && tokens@ == seq![
            AbiValue::Address(s),
            AbiValue::Uint(a),
            AbiValue::Uint(b),
            AbiValue::Uint(c),
            AbiValue::Uint(e),
            AbiValue::Address(to),
        ] ==> action_of(DecodedTx::V2 { func, tokens }) == Some(
            PoolAction::SwapV2 {
                sender: s,
                amount0_in: a,
                amount1_in: b,
                amount0_out: c,
                amount1_out: e,
                to,
            },
        ),
        func@ == "mint"@ && tokens@ == seq![AbiValue::Address(s), AbiValue::Uint(a), AbiValue::Uint(b)]
            ==> action_of(DecodedTx::V2 { func, tokens }) == Some(
            PoolAction::MintV2 { sender: s, amount0: a, amount1: b },
        ),
        func@ == "burn"@ && tokens@ == seq![
            AbiValue::Address(s),
            AbiValue::Uint(a),
            AbiValue::Uint(b),
            AbiValue::Address(to),
        ] ==> action_of(DecodedTx::V2 { func, tokens }) == Some(
            PoolAction::BurnV2 { sender: s, amount0: a, amount1: b, to },
        ),
{
    reveal_strlit("swap");
    reveal_strlit("mint");
    reveal_strlit("burn");
    if func@ == "swap"@ && tokens@ == seq![
        AbiValue::Address(s),
        AbiValue::Uint(a),
        AbiValue::Uint(b),
        AbiValue::Uint(c),
        AbiValue::Uint(e),
        AbiValue::Address(to),
    ] {
        assert(has_shape(tokens@, swap_v2_shape()));
    }
    if func@ == "mint"@ && tokens@ == seq![AbiValue::Address(s), AbiValue::Uint(a), AbiValue::Uint(b)] {
        assert(has_shape(tokens@, mint_v2_shape()));
    }
    if func@ == "burn"@ && tokens@ == seq![
        AbiValue::Address(s),
        AbiValue::Uint(a),
        AbiValue::Uint(b),
        AbiValue::Address(to),
    ] {
        assert(has_shape(tokens@, burn_v2_shape()));
    }
}

/// Decoding a V3 pool's `burn(int24,int24,uint128)` result values and
/// `mint` values maps each to the field of the same name: the amounts in
/// their places, the ticks read as signed numbers.
pub proof fn lemma_v3_call_fields(
    func: String,
    tokens: Vec<AbiValue>,
    s: H160,
    o: H160,
    lo: U256,
    hi: U256,
    a: U256,
    b: U256,
    c: U256,
)
    ensures
        func@ == "burn"@ && tokens@ == seq![
            AbiValue::Address(o),
            AbiValue::Int(lo),
            AbiValue::Int(hi),
            AbiValue::Uint(a),
            AbiValue::Uint(b),
            AbiValue::Uint(c),
        ] ==> action_of(DecodedTx::V3 { func, tokens }) == Some(
            PoolAction::BurnV3 {
                owner: o,
                tick_lower: (I256 { raw: lo }.value() as i64) as i32,
                tick_upper: (I256 { raw: hi }.value() as i64) as i32,
                amount: a,
                amount0: b,
                amount1: c,
            },
        ),
        func@ == "mint"@ && tokens@ == seq![
            AbiValue::Address(s),
            AbiValue::Address(o),
            AbiValue::Int(lo),
            AbiValue::Int(hi),
            AbiValue::Uint(a),
            AbiValue::Uint(b),
            AbiValue::Uint(c),
        ] ==> action_of(DecodedTx::V3 { func, tokens }) == Some(
            PoolAction::MintV3 {
                sender: s,
                owner: o,
                tick_lower: (I256 { raw: lo }.value() as i64) as i32,
                tick_upper: (I256 { raw: hi }.value() as i64) as i32,
                amount: a,
                amount0: b,
                amount1: c,
            },
        ),
{
    reveal_strlit("burn");
    reveal_strlit("mint");
    reveal_strlit("swap");
    if func@ == "burn"@ && tokens@ == seq![
        AbiValue::Address(o),
        AbiValue::Int(lo),
        AbiValue::Int(hi),
        AbiValue::Uint(a),
        AbiValue::Uint(b),
        AbiValue::Uint(c),
    ] {
        assert(has_shape(tokens@, burn_v3_shape()));
    }
    if func@ == "mint"@ && tokens@ == seq![
        AbiValue::Address(s),
        AbiValue::Address(o),
        AbiValue::Int(lo),
        AbiValue::Int(hi),
        AbiValue::Uint(a),
        AbiValue::Uint(b),
        AbiValue::Uint(c),
    ] {
        assert(has_shape(tokens@, mint_v3_shape()));
        assert(!has_shape(tokens@, swap_v3_shape())) by {
            assert(token_code(tokens@[6]) == 1);
        }
    }
}

/// Decoding a V3 pool's `swap` values maps each to the field of the same
/// name: the two addresses in order, the signed amounts, the price, the
/// liquidity and the tick read as a signed number.
pub proof fn lemma_v3_swap_fields(
    func: String,
    tokens: Vec<AbiValue>,
    s: H160,
    rcp: H160,
    a0: U256,
    a1: U256,
    p: U256,
    l: U256,
    t: U256,
)
    requires
        func@ == "swap"@,
        tokens@ == seq![
            AbiValue::Address(s),
            AbiValue::Address(rcp),
            AbiValue::Int(a0),
            AbiValue::Int(a1),
            AbiValue::Uint(p),
            AbiValue::Uint(l),
            AbiValue::Int(t),
        ],
    ensures
        action_of(DecodedTx::V3 { func, tokens }) == Some(
            PoolAction::SwapV3 {
                sender: s,
                recipient: rcp,
                amount0: I256 { raw: a0 },
                amount1: I256 { raw: a1 },
                sqrt_price_x96: p,
                liquidity: l,
                tick: (I256 { raw: t }.value() as i64) as i32,
            },
        ),
{
    assert(has_shape(tokens@, swap_v3_shape()));
}

} // verus!

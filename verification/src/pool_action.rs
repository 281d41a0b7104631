//! Pool events (swaps, mints and burns of V2 and V3 pools) read from logs.
use vstd::prelude::*;
use crate::address::{H160, H256, be_nat, lemma_h256_value_injective};
use crate::uint::{U256, I256, lemma_low_bits};
use crate::abi::{
    AbiKind,
    AbiValue,
    decode,
    keccak_text,
    keccak256,
    word_address,
    word_uint,
    all_word_kinds,
    words_decode,
    word_decodes,
    is_word_kind,
};

verus! {

/// An event log (`ethers::types::Log`): the emitting contract, its topics
/// and its data.
pub struct Log {
    pub address: H160,
    pub topics: Vec<H256>,
    pub data: Vec<u8>,
}

/// What a pool event reports.
#[derive(Clone, Copy, Debug, PartialEq, Eq, Structural)]
pub enum PoolAction {
    SwapV2 {
        sender: H160,
        amount0_in: U256,
        amount1_in: U256,
        amount0_out: U256,
        amount1_out: U256,
        to: H160,
    },
    MintV2 { sender: H160, amount0: U256, amount1: U256 },
    BurnV2 { sender: H160, amount0: U256, amount1: U256, to: H160 },
    SwapV3 {
        sender: H160,
        recipient: H160,
        amount0: I256,
        amount1: I256,
        sqrt_price_x96: U256,
        liquidity: U256,
        tick: i32,
    },
    MintV3 {
        sender: H160,
        owner: H160,
        tick_lower: i32,
        tick_upper: i32,
        amount: U256,
        amount0: U256,
        amount1: U256,
    },
    BurnV3 {
        owner: H160,
        tick_lower: i32,
        tick_upper: i32,
        amount: U256,
        amount0: U256,
        amount1: U256,
    },
}

/// The canonical signature of the `k`-th pool event, in the order in which
/// a log is matched against them: V2 swap, mint, burn, then V3 swap, mint,
/// burn.
pub open spec fn event_signature(k: int) -> Seq<char> {
    if k == 0 {
        "Swap(address,uint256,uint256,uint256,uint256,address)"@
    } else if k == 1 {
        "Mint(address,uint256,uint256)"@
    } else if k == 2 {
        "Burn(address,uint256,uint256,address)"@
    } else if k == 3 {
        "Swap(address,address,int256,int256,uint160,uint128,int24)"@
    } else if k == 4 {
        "Mint(address,address,int24,int24,uint128,uint256,uint256)"@
    } else {
        "Burn(address,int24,int24,uint128,uint256,uint256)"@
    }
}

/// The first topic of a log of the `k`-th event: the keccak hash of its
/// signature, read as a number.
pub open spec fn event_topic(k: int) -> nat {
    be_nat(keccak256(event_signature(k)))
}

/// The first topics of the six events.
pub open spec fn event_topics() -> Seq<nat> {
    seq![event_topic(0), event_topic(1), event_topic(2), event_topic(3), event_topic(4), event_topic(5)]
}

/// The number of data words of the `k`-th event (none of its fields is
/// indexed).
pub open spec fn event_arity(k: int) -> nat {
    if k == 0 {
        6
    } else if k == 1 {
        3
    } else if k == 2 {
        4
    } else if k == 3 {
        7
    } else if k == 4 {
        7
    } else {
        6
    }
}

/// The first of the six signature topics that equals `t`, or -1.
pub open spec fn first_match(sigs: Seq<nat>, t: nat) -> int {
    if sigs[0] == t {
        0
    } else if sigs[1] == t {
        1
    } else if sigs[2] == t {
        2
    } else if sigs[3] == t {
        3
    } else if sigs[4] == t {
        4
    } else if sigs[5] == t {
        5
    } else {
        -1
    }
}

/// The low 32 bits of a number, read as a signed 32-bit integer.
pub open spec fn low_i32(v: nat) -> int {
    let l = v % 0x1_0000_0000;
    if l >= 0x8000_0000 {
        l - 0x1_0000_0000
    } else {
        l as int
    }
}

/// `a` is what the data words of a log of the `k`-th event decode to.
pub open spec fn decodes_as(a: PoolAction, k: int, data: Seq<u8>) -> bool {
    match a {
        PoolAction::SwapV2 { sender, amount0_in, amount1_in, amount0_out, amount1_out, to } => {
            &&& k == 0
            &&& sender.value() == word_address(data, 0)
            &&& amount0_in.value() == word_uint(data, 1)
            &&& amount1_in.value() == word_uint(data, 2)
            &&& amount0_out.value() == word_uint(data, 3)
            &&& amount1_out.value() == word_uint(data, 4)
            &&& to.value() == word_address(data, 5)
        },
        PoolAction::MintV2 { sender, amount0, amount1 } => {
            &&& k == 1
            &&& sender.value() == word_address(data, 0)
            &&& amount0.value() == word_uint(data, 1)
            &&& amount1.value() == word_uint(data, 2)
        },
        PoolAction::BurnV2 { sender, amount0, amount1, to } => {
            &&& k == 2
            &&& sender.value() == word_address(data, 0)
            &&& amount0.value() == word_uint(data, 1)
            &&& amount1.value() == word_uint(data, 2)
            &&& to.value() == word_address(data, 3)
        },
        PoolAction::SwapV3 {
            sender,
            recipient,
            amount0,
            amount1,
            sqrt_price_x96,
            liquidity,
            tick,
        } => {
            &&& k == 3
            &&& sender.value() == word_address(data, 0)
            &&& recipient.value() == word_address(data, 1)
            &&& amount0.raw.value() == word_uint(data, 2)
            &&& amount1.raw.value() == word_uint(data, 3)
            &&& sqrt_price_x96.value() == word_uint(data, 4)
            &&& liquidity.value() == word_uint(data, 5)
            &&& tick == low_i32(word_uint(data, 6))
        },
        PoolAction::MintV3 { sender, owner, tick_lower, tick_upper, amount, amount0, amount1 } => {
            &&& k == 4
            &&& sender.value() == word_address(data, 0)
            &&& owner.value() == word_address(data, 1)
            &&& tick_lower == low_i32(word_uint(data, 2))
            &&& tick_upper == low_i32(word_uint(data, 3))
            &&& amount.value() == word_uint(data, 4)
            &&& amount0.value() == word_uint(data, 5)
            &&& amount1.value() == word_uint(data, 6)
        },
        PoolAction::BurnV3 { owner, tick_lower, tick_upper, amount, amount0, amount1 } => {
            &&& k == 5
            &&& owner.value() == word_address(data, 0)
            &&& tick_lower == low_i32(word_uint(data, 1))
            &&& tick_upper == low_i32(word_uint(data, 2))
            &&& amount.value() == word_uint(data, 3)
            &&& amount0.value() == word_uint(data, 4)
            &&& amount1.value() == word_uint(data, 5)
        },
    }
}

/// The kind of the `i`-th data word of the `k`-th event: 0 an address,
/// 1 an unsigned and 2 a signed integer.
pub open spec fn slot_kind(k: int, i: int) -> int {
    if k == 0 {
        if i == 0 || i == 5 {
            0
        } else {
            1
        }
    } else if k == 1 {
        if i == 0 {
            0
        } else {
            1
        }
    } else if k == 2 {
        if i == 0 || i == 3 {
            0
        } else {
            1
        }
    } else if k == 3 {
        if i <= 1 {
            0
        } else if i == 2 || i == 3 || i == 6 {
            2
        } else {
            1
        }
    } else if k == 4 {
        if i <= 1 {
            0
        } else if i == 2 || i == 3 {
            2
        } else {
            1
        }
    } else {
        if i == 0 {
            0
        } else if i == 1 || i == 2 {
            2
        } else {
            1
        }
    }
}

/// A log is one of the pool events when its only topic is one of the six
/// signature topics and its data hold a word for each field; the result is
/// which event, or -1.
pub open spec fn log_event(topics: Seq<H256>, data: Seq<u8>, sigs: Seq<nat>) -> int {
    if topics.len() == 1 && first_match(sigs, topics[0].value()) >= 0 && 32 * event_arity(
        first_match(sigs, topics[0].value()),
    ) <= data.len() {
        first_match(sigs, topics[0].value())
    } else {
        -1
    }
}

/// The parameter kinds of the `k`-th event's data, as its signature gives
/// them.
fn event_kinds(k: usize) -> (r: Vec<AbiKind>)
    requires
        k < 6,
    ensures
        r@.len() == event_arity(k as int),
        all_word_kinds(r@),
        forall|i: int|
            0 <= i < r@.len() ==> (slot_kind(k as int, i) == 0 ==> (#[trigger] r@[i]) is Address)
                && (slot_kind(k as int, i) == 1 ==> r@[i] is Uint) && (slot_kind(k as int, i) == 2
                ==> r@[i] is Int),
{
    if k == 0 {
        vec![
            AbiKind::Address,
            AbiKind::Uint(256),
            AbiKind::Uint(256),
            AbiKind::Uint(256),
            AbiKind::Uint(256),
            AbiKind::Address,
        ]
    } else if k == 1 {
        vec![AbiKind::Address, AbiKind::Uint(256), AbiKind::Uint(256)]
    } else if k == 2 {
        vec![AbiKind::Address, AbiKind::Uint(256), AbiKind::Uint(256), AbiKind::Address]
    } else if k == 3 {
        vec![
            AbiKind::Address,
            AbiKind::Address,
            AbiKind::Int(256),
            AbiKind::Int(256),
            AbiKind::Uint(160),
            AbiKind::Uint(128),
            AbiKind::Int(24),
        ]
    } else if k == 4 {
        vec![
            AbiKind::Address,
            AbiKind::Address,
            AbiKind::Int(24),
            AbiKind::Int(24),
            AbiKind::Uint(128),
            AbiKind::Uint(256),
            AbiKind::Uint(256),
        ]
    } else {
        vec![
            AbiKind::Address,
            AbiKind::Int(24),
            AbiKind::Int(24),
            AbiKind::Uint(128),
            AbiKind::Uint(256),
            AbiKind::Uint(256),
        ]
    }
}

/// The address decoded at position `i`.
fn address_at(vals: &Vec<AbiValue>, i: usize, Ghost(kinds): Ghost<Seq<AbiKind>>, Ghost(data): Ghost<Seq<u8>>) -> (r: H160)
    requires
        i < vals@.len(),
        i < kinds.len(),
        kinds[i as int] is Address,
        word_decodes(kinds[i as int], data, i as int, vals@[i as int]),
    ensures
        r.value() == word_address(data, i as int),
{
    match &vals[i] {
        AbiValue::Address(a) => *a,
        _ => H160::zero(),
    }
}

/// The word decoded at position `i`, an unsigned or a signed integer.
fn word_at_slot(vals: &Vec<AbiValue>, i: usize, Ghost(kinds): Ghost<Seq<AbiKind>>, Ghost(data): Ghost<Seq<u8>>) -> (r: U256)
    requires
        i < vals@.len(),
        i < kinds.len(),
        kinds[i as int] is Uint || kinds[i as int] is Int,
        word_decodes(kinds[i as int], data, i as int, vals@[i as int]),
    ensures
        r.value() == word_uint(data, i as int),
{
    match &vals[i] {
        AbiValue::Uint(u) => *u,
        AbiValue::Int(u) => *u,
        _ => U256 { w0: 0, w1: 0, w2: 0, w3: 0 },
    }
}

/// The low 32 bits of a word as a signed integer (`low_u128() as i32`).
pub fn low_i32_of(u: U256) -> (r: i32)
    ensures
        r == low_i32(u.value()),
{
    let lo: u32 = (u.w0 & 0xffff_ffff) as u32;
    proof {
        lemma_low_bits(u);
        let w = u.w0;
        assert(w & 0xffff_ffff == w % 0x1_0000_0000) by (bit_vector);
    }
    let r = lo as i32;
    proof {
        assert(r == (if lo >= 0x8000_0000 {
            lo as int - 0x1_0000_0000
        } else {
            lo as int
        })) by (bit_vector)
            requires
                r == lo as i32,
        ;
    }
    r
}

/// The first topics of the six pool events, computed by hashing their
/// signatures.
pub fn pool_event_signatures() -> (r: Vec<H256>)
    ensures
        r@.len() == 6,
        forall|k: int| 0 <= k < 6 ==> #[trigger] r@[k].value() == event_topics()[k],
{
    let mut r: Vec<H256> = Vec::new();
    r.push(keccak_text("Swap(address,uint256,uint256,uint256,uint256,address)"));
    r.push(keccak_text("Mint(address,uint256,uint256)"));
    r.push(keccak_text("Burn(address,uint256,uint256,address)"));
    r.push(keccak_text("Swap(address,address,int256,int256,uint160,uint128,int24)"));
    r.push(keccak_text("Mint(address,address,int24,int24,uint128,uint256,uint256)"));
    r.push(keccak_text("Burn(address,int24,int24,uint128,uint256,uint256)"));
    r
}

/// The numbers that a list of hashes denotes.
pub open spec fn topic_values(sigs: Seq<H256>) -> Seq<nat> {
    sigs.map_values(|h: H256| h.value())
}

/// Reads a pool event from a log, given the first topics of the six events
/// in order: `None` unless the log's only topic is one of them and its data
/// hold a word for each field of that event.
pub fn parse_with_signatures(log: &Log, sigs: &Vec<H256>) -> (r: Option<(PoolAction, H160)>)
    requires
        sigs@.len() == 6,
    ensures
        r is Some <==> log_event(log.topics@, log.data@, topic_values(sigs@)) >= 0,
        r matches Some((a, addr)) ==> addr == log.address && decodes_as(
            a,
            log_event(log.topics@, log.data@, topic_values(sigs@)),
            log.data@,
        ),
{
    if log.topics.len() == 0 {
        return None;
    }
    let t = log.topics[0];
    let ghost sv = topic_values(sigs@);
    proof {
        assert forall|j: int| 0 <= j < 6 implies (sigs@[j] == t <==> sv[j] == t.value()) by {
            if sv[j] == t.value() {
                lemma_h256_value_injective(sigs@[j], t);
            }
        }
    }
    let k: usize = if t == sigs[0] {
        0
    } else if t == sigs[1] {
        1
    } else if t == sigs[2] {
        2
    } else if t == sigs[3] {
        3
    } else if t == sigs[4] {
        4
    } else if t == sigs[5] {
        5
    } else {
        return None;
    };
    assert(k as int == first_match(sv, t.value()));
    if log.topics.len() != 1 {
        return None;
    }
    let kinds = event_kinds(k);
    let decoded = decode(kinds.as_slice(), log.data.as_slice());
    let vals = match decoded {
        Some(v) => v,
        None => {
            return None;
        },
    };
    let ghost data = log.data@;
    proof {
        assert(words_decode(kinds@, data, vals@));
        assert forall|i: int| 0 <= i < kinds@.len() implies #[trigger] word_decodes(
            kinds@[i],
            data,
            i,
            vals@[i],
        ) by {}
    }
    let action = if k == 0 {
        PoolAction::SwapV2 {
            sender: address_at(&vals, 0, Ghost(kinds@), Ghost(data)),
            amount0_in: word_at_slot(&vals, 1, Ghost(kinds@), Ghost(data)),
            amount1_in: word_at_slot(&vals, 2, Ghost(kinds@), Ghost(data)),
            amount0_out: word_at_slot(&vals, 3, Ghost(kinds@), Ghost(data)),
            amount1_out: word_at_slot(&vals, 4, Ghost(kinds@), Ghost(data)),
            to: address_at(&vals, 5, Ghost(kinds@), Ghost(data)),
        }
    } else if k == 1 {
        PoolAction::MintV2 {
            sender: address_at(&vals, 0, Ghost(kinds@), Ghost(data)),
            amount0: word_at_slot(&vals, 1, Ghost(kinds@), Ghost(data)),
            amount1: word_at_slot(&vals, 2, Ghost(kinds@), Ghost(data)),
        }
    } else if k == 2 {
        PoolAction::BurnV2 {
            sender: address_at(&vals, 0, Ghost(kinds@), Ghost(data)),
            amount0: word_at_slot(&vals, 1, Ghost(kinds@), Ghost(data)),
            amount1: word_at_slot(&vals, 2, Ghost(kinds@), Ghost(data)),
            to: address_at(&vals, 3, Ghost(kinds@), Ghost(data)),
        }
    } else if k == 3 {
        PoolAction::SwapV3 {
            sender: address_at(&vals, 0, Ghost(kinds@), Ghost(data)),
            recipient: address_at(&vals, 1, Ghost(kinds@), Ghost(data)),
            amount0: I256 { raw: word_at_slot(&vals, 2, Ghost(kinds@), Ghost(data)) },
            amount1: I256 { raw: word_at_slot(&vals, 3, Ghost(kinds@), Ghost(data)) },
            sqrt_price_x96: word_at_slot(&vals, 4, Ghost(kinds@), Ghost(data)),
            liquidity: word_at_slot(&vals, 5, Ghost(kinds@), Ghost(data)),
            tick: low_i32_of(word_at_slot(&vals, 6, Ghost(kinds@), Ghost(data))),
        }
    } else if k == 4 {
        PoolAction::MintV3 {
            sender: address_at(&vals, 0, Ghost(kinds@), Ghost(data)),
            owner: address_at(&vals, 1, Ghost(kinds@), Ghost(data)),
            tick_lower: low_i32_of(word_at_slot(&vals, 2, Ghost(kinds@), Ghost(data))),
            tick_upper: low_i32_of(word_at_slot(&vals, 3, Ghost(kinds@), Ghost(data))),
            amount: word_at_slot(&vals, 4, Ghost(kinds@), Ghost(data)),
            amount0: word_at_slot(&vals, 5, Ghost(kinds@), Ghost(data)),
            amount1: word_at_slot(&vals, 6, Ghost(kinds@), Ghost(data)),
        }
    } else {
        PoolAction::BurnV3 {
            owner: address_at(&vals, 0, Ghost(kinds@), Ghost(data)),
            tick_lower: low_i32_of(word_at_slot(&vals, 1, Ghost(kinds@), Ghost(data))),
            tick_upper: low_i32_of(word_at_slot(&vals, 2, Ghost(kinds@), Ghost(data))),
            amount: word_at_slot(&vals, 3, Ghost(kinds@), Ghost(data)),
            amount0: word_at_slot(&vals, 4, Ghost(kinds@), Ghost(data)),
            amount1: word_at_slot(&vals, 5, Ghost(kinds@), Ghost(data)),
        }
    };
    Some((action, log.address))
}

impl PoolAction {
    /// Reads a pool event from a log: `None` unless the log's only topic is
    /// the hash of one of the six event signatures and its data hold a word
    /// for each field of that event; else the event and the pool's address.
    pub fn parse_pool_action(log: &Log) -> (r: Option<(PoolAction, H160)>)
        ensures
            r is Some <==> log_event(log.topics@, log.data@, event_topics()) >= 0,
            r matches Some((a, addr)) ==> addr == log.address && decodes_as(
                a,
                log_event(log.topics@, log.data@, event_topics()),
                log.data@,
            ),
    {
        let sigs = pool_event_signatures();
        proof {
            assert(topic_values(sigs@) =~= event_topics());
        }
        parse_with_signatures(log, &sigs)
    }
}

/// Reading a V2 pool's logs gives each field the data word at that field's
/// position in the event signature: `Swap(address sender, uint256 amount0In,
/// uint256 amount1In, uint256 amount0Out, uint256 amount1Out, address to)`
/// takes bytes 32..64 for `amount0In`, 64..96 for `amount1In`, 96..128 for
/// `amount0Out` and 128..160 for `amount1Out`, and the low 20 bytes of the
/// first and sixth words for the addresses; `Mint(address, uint256, uint256)`
/// and `Burn(address, uint256, uint256, address)` likewise.
pub proof fn lemma_v2_event_fields(a: PoolAction, k: int, data: Seq<u8>)
    requires
        decodes_as(a, k, data),
    ensures
        a matches PoolAction::SwapV2 { sender, amount0_in, amount1_in, amount0_out, amount1_out, to }
            ==> {
            &&& k == 0
            &&& sender.value() == be_nat(data.subrange(12, 32))
            &&& amount0_in.value() == be_nat(data.subrange(32, 64))
            &&& amount1_in.value() == be_nat(data.subrange(64, 96))
            &&& amount0_out.value() == be_nat(data.subrange(96, 128))
            &&& amount1_out.value() == be_nat(data.subrange(128, 160))
            &&& to.value() == be_nat(data.subrange(172, 192))
        },
        a matches PoolAction::MintV2 { sender, amount0, amount1 } ==> {
            &&& k == 1
            &&& sender.value() == be_nat(data.subrange(12, 32))
            &&& amount0.value() == be_nat(data.subrange(32, 64))
            &&& amount1.value() == be_nat(data.subrange(64, 96))
        },
        a matches PoolAction::BurnV2 { sender, amount0, amount1, to } ==> {
            &&& k == 2
            &&& sender.value() == be_nat(data.subrange(12, 32))
            &&& amount0.value() == be_nat(data.subrange(32, 64))
            &&& amount1.value() == be_nat(data.subrange(64, 96))
            &&& to.value() == be_nat(data.subrange(108, 128))
        },
{
}

/// Reading a V3 pool's logs gives each amount the data word at that field's
/// position in the event signature: `Swap(address, address, int256 amount0,
/// int256 amount1, uint160, uint128, int24)`, `Mint(address, address, int24,
/// int24, uint128 amount, uint256 amount0, uint256 amount1)` and
/// `Burn(address owner, int24, int24, uint128 amount, uint256 amount0,
/// uint256 amount1)`.
pub proof fn lemma_v3_event_fields(a: PoolAction, k: int, data: Seq<u8>)
    requires
        decodes_as(a, k, data),
    ensures
        a matches PoolAction::SwapV3 { sender, recipient, amount0, amount1, sqrt_price_x96, liquidity, .. }
            ==> {
            &&& k == 3
            &&& sender.value() == be_nat(data.subrange(12, 32))
            &&& recipient.value() == be_nat(data.subrange(44, 64))
            &&& amount0.raw.value() == be_nat(data.subrange(64, 96))
            &&& amount1.raw.value() == be_nat(data.subrange(96, 128))
            &&& sqrt_price_x96.value() == be_nat(data.subrange(128, 160))
            &&& liquidity.value() == be_nat(data.subrange(160, 192))
        },
        a matches PoolAction::MintV3 { sender, owner, amount, amount0, amount1, .. } ==> {
            &&& k == 4
            &&& sender.value() == be_nat(data.subrange(12, 32))
            &&& owner.value() == be_nat(data.subrange(44, 64))
            &&& amount.value() == be_nat(data.subrange(128, 160))
            &&& amount0.value() == be_nat(data.subrange(160, 192))
            &&& amount1.value() == be_nat(data.subrange(192, 224))
        },
        a matches PoolAction::BurnV3 { owner, amount, amount0, amount1, .. } ==> {
            &&& k == 5
            &&& owner.value() == be_nat(data.subrange(12, 32))
            &&& amount.value() == be_nat(data.subrange(96, 128))
            &&& amount0.value() == be_nat(data.subrange(128, 160))
            &&& amount1.value() == be_nat(data.subrange(160, 192))
        },
{
}

/// The ticks of V3 events are the low 32 bits of their words, read as
/// signed: `tick` is the seventh word of a swap, `tickLower` and
/// `tickUpper` the third and fourth of a mint and the second and third of
/// a burn.
pub proof fn lemma_v3_event_ticks(a: PoolAction, k: int, data: Seq<u8>)
    requires
        decodes_as(a, k, data),
    ensures
        a matches PoolAction::SwapV3 { tick, .. } ==> tick == low_i32(be_nat(data.subrange(192, 224))),
        a matches PoolAction::MintV3 { tick_lower, tick_upper, .. } ==> tick_lower == low_i32(
            be_nat(data.subrange(64, 96)),
        ) && tick_upper == low_i32(be_nat(data.subrange(96, 128))),
        a matches PoolAction::BurnV3 { tick_lower, tick_upper, .. } ==> tick_lower == low_i32(
            be_nat(data.subrange(32, 64)),
        ) && tick_upper == low_i32(be_nat(data.subrange(64, 96))),
{
}

} // verus!

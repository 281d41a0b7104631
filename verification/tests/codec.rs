use arbitro::abi::{AbiKind, AbiValue};
use arbitro::address::{h160_bytes, H160, H256};
use arbitro::blockchain_db::TokenModel;
use arbitro::supervisor::Supervisor;
use arbitro::anvil_test::{
    encode_forge_input, pool_type_code, require_range_i32, require_range_u32, Currency,
    ForgeInputError, Hooks, PoolKey, PoolSpec, PoolType,
};
use arbitro::block_decoder::{
    check_ticks_fit, raw_fits_i64, AbiFunction, AbisData, DecodedTx, Decoder, Transaction,
};
use arbitro::pool_action::{low_i32_of, pool_event_signatures, Log, PoolAction};
use arbitro::text::text_is;
use arbitro::trade::Trade;
use arbitro::uint::U256;
use ethers::abi::{ParamType, Token};

fn u(x: u128) -> U256 {
    U256::from_u128(x)
}

fn addr(n: u64) -> H160 {
    H160 { hi: 0, mid: 0, lo: n }
}

fn word_u(x: u128) -> Vec<u8> {
    let mut w = vec![0u8; 16];
    w.extend_from_slice(&x.to_be_bytes());
    w
}

fn word_addr(a: H160) -> Vec<u8> {
    let mut w = vec![0u8; 12];
    w.extend_from_slice(&h160_bytes(a));
    w
}

fn word_neg(x: i64) -> Vec<u8> {
    let mut w = vec![if x < 0 { 0xffu8 } else { 0u8 }; 24];
    w.extend_from_slice(&x.to_be_bytes());
    w
}

fn topic(signature: &str) -> H256 {
    H256::from_bytes(&ethers::utils::keccak256(signature.as_bytes()))
}

fn selector(name: &str, kinds: &[ParamType]) -> [u8; 4] {
    ethers::abi::short_signature(name, kinds)
}

fn eth_u(x: u128) -> Token {
    Token::Uint(ethers::types::U256::from(x))
}

fn eth_addr(a: H160) -> Token {
    Token::Address(ethers::types::H160::from_slice(&h160_bytes(a)))
}

fn parse_one(text: &str) -> Option<H160> {
    let t = TokenModel { name: "n".into(), symbol: "s".into(), address: text.into(), decimals: 18 };
    Supervisor::parse_token_addresses(&vec![t]).map(|v| v[0])
}

fn empty_abis() -> AbisData {
    AbisData { v2_factory: vec![], v2_pool: vec![], v3_factory: vec![], v3_pool: vec![], bep_20: vec![] }
}

#[test]
fn keccak_of_v2_swap_signature() {
    let sigs = pool_event_signatures();
    assert_eq!(sigs.len(), 6);
    assert_eq!(
        sigs[0],
        H256 {
            w0: 0xd78ad95fa46c994b,
            w1: 0x6551d0da85fc275f,
            w2: 0xe613ce37657fb8d5,
            w3: 0xe3d130840159d822
        }
    );
    assert_eq!(sigs[1], topic("Mint(address,uint256,uint256)"));
    assert_eq!(sigs[5], topic("Burn(address,int24,int24,uint128,uint256,uint256)"));
}

#[test]
fn parse_mint_v2_log() {
    let mut data = word_addr(addr(42));
    data.extend(word_u(1000));
    data.extend(word_u(2000));
    let log = Log {
        address: addr(7),
        topics: vec![topic("Mint(address,uint256,uint256)")],
        data,
    };
    let r = PoolAction::parse_pool_action(&log);
    assert_eq!(
        r,
        Some((PoolAction::MintV2 { sender: addr(42), amount0: u(1000), amount1: u(2000) }, addr(7)))
    );
}

#[test]
fn parse_swap_v3_log() {
    let mut data = word_addr(addr(1));
    data.extend(word_addr(addr(2)));
    data.extend(word_neg(-5));
    data.extend(word_u(6));
    data.extend(word_u(1u128 << 96));
    data.extend(word_u(1000));
    data.extend(word_neg(-60));
    let log = Log {
        address: addr(3),
        topics: vec![topic("Swap(address,address,int256,int256,uint160,uint128,int24)")],
        data,
    };
    let (action, pool) = PoolAction::parse_pool_action(&log).unwrap();
    assert_eq!(pool, addr(3));
    match action {
        PoolAction::SwapV3 { sender, recipient, amount0, amount1, sqrt_price_x96, liquidity, tick } => {
            assert_eq!(sender, addr(1));
            assert_eq!(recipient, addr(2));
            assert_eq!(amount0.raw, U256 { w0: (-5i64) as u64, w1: u64::MAX, w2: u64::MAX, w3: u64::MAX });
            assert_eq!(amount1.raw, u(6));
            assert_eq!(sqrt_price_x96, u(1u128 << 96));
            assert_eq!(liquidity, u(1000));
            assert_eq!(tick, -60);
        },
        other => panic!("unexpected {:?}", other),
    }
}

#[test]
fn parse_refuses_unknown_or_short_logs() {
    let mut data = word_addr(addr(42));
    data.extend(word_u(1000));
    let short = Log {
        address: addr(7),
        topics: vec![topic("Mint(address,uint256,uint256)")],
        data: data.clone(),
    };
    assert_eq!(PoolAction::parse_pool_action(&short), None);
    let unknown = Log { address: addr(7), topics: vec![topic("Sync(uint112,uint112)")], data: data.clone() };
    assert_eq!(PoolAction::parse_pool_action(&unknown), None);
    let none = Log { address: addr(7), topics: vec![], data };
    assert_eq!(PoolAction::parse_pool_action(&none), None);
}

#[test]
fn low_i32_of_words() {
    assert_eq!(low_i32_of(u(5)), 5);
    assert_eq!(low_i32_of(U256::max_value()), -1);
    assert_eq!(low_i32_of(u(0x1_0000_0007)), 7);
}

#[test]
fn decode_tx_without_recipient_or_short_input() {
    let abis = empty_abis();
    let tx = Transaction { to: None, input: vec![1, 2, 3, 4, 5] };
    assert!(matches!(
        Decoder::decode_tx_static(&abis, &tx),
        DecodedTx::Unknown { selector: [0, 0, 0, 0], to } if to == H160::zero()
    ));
    let tx = Transaction { to: Some(addr(5)), input: vec![1, 2, 3] };
    assert!(matches!(
        Decoder::decode_tx_static(&abis, &tx),
        DecodedTx::Unknown { selector: [0, 0, 0, 0], to } if to == addr(5)
    ));
    let tx = Transaction { to: Some(addr(5)), input: vec![1, 2, 3, 4] };
    assert!(matches!(
        Decoder::decode_tx_static(&abis, &tx),
        DecodedTx::Unknown { selector: [1, 2, 3, 4], to } if to == addr(5)
    ));
}

#[test]
fn decode_tx_v2_mint_to_action() {
    let mint = AbiFunction { name: "mint".to_string(), inputs: vec![AbiKind::Address, AbiKind::Uint(256), AbiKind::Uint(256)] };
    let sel = selector("mint", &[ParamType::Address, ParamType::Uint(256), ParamType::Uint(256)]);
    let abis = AbisData { v2_factory: vec![], v2_pool: vec![mint], v3_factory: vec![], v3_pool: vec![], bep_20: vec![] };
    let mut input = sel.to_vec();
    input.extend(word_addr(addr(8)));
    input.extend(word_u(10));
    input.extend(word_u(20));
    let tx = Transaction { to: Some(addr(99)), input };
    let d = Decoder::decode_tx_static(&abis, &tx);
    assert!(matches!(&d, DecodedTx::V2 { func, tokens } if func == "mint" && tokens.len() == 3));
    assert!(check_ticks_fit(&d));
    let a = Decoder::decode_tx_to_action(d);
    assert_eq!(a, Some(PoolAction::MintV2 { sender: addr(8), amount0: u(10), amount1: u(20) }));
}

#[test]
fn decode_tx_with_bad_data_is_unknown() {
    let mint = AbiFunction { name: "mint".to_string(), inputs: vec![AbiKind::Address, AbiKind::Uint(256), AbiKind::Uint(256)] };
    let sel = selector("mint", &[ParamType::Address, ParamType::Uint(256), ParamType::Uint(256)]);
    let abis = AbisData { v2_factory: vec![], v2_pool: vec![mint], v3_factory: vec![], v3_pool: vec![], bep_20: vec![] };
    let mut input = sel.to_vec();
    input.extend(word_addr(addr(8)));
    let tx = Transaction { to: Some(addr(99)), input };
    assert!(matches!(Decoder::decode_tx_static(&abis, &tx), DecodedTx::Unknown { selector, to } if selector == sel && to == addr(99)));
}

#[test]
fn token_calls_are_not_actions() {
    let d = DecodedTx::Token { func: "transfer".to_string(), tokens: vec![AbiValue::Address(addr(1)), AbiValue::Uint(u(1))] };
    assert_eq!(Decoder::decode_tx_to_action(d), None);
    let d = DecodedTx::V2 { func: "swap".to_string(), tokens: vec![AbiValue::Address(addr(1))] };
    assert_eq!(Decoder::decode_tx_to_action(d), None);
}

#[test]
fn v3_burn_call_to_action() {
    let tokens = vec![
        AbiValue::Address(addr(4)),
        AbiValue::Int(U256 { w0: (-120i64) as u64, w1: u64::MAX, w2: u64::MAX, w3: u64::MAX }),
        AbiValue::Int(u(120)),
        AbiValue::Uint(u(5)),
        AbiValue::Uint(u(6)),
        AbiValue::Uint(u(7)),
    ];
    let d = DecodedTx::V3 { func: "burn".to_string(), tokens };
    assert!(check_ticks_fit(&d));
    assert_eq!(
        Decoder::decode_tx_to_action(d),
        Some(PoolAction::BurnV3 {
            owner: addr(4),
            tick_lower: -120,
            tick_upper: 120,
            amount: u(5),
            amount0: u(6),
            amount1: u(7)
        })
    );
}

#[test]
fn parse_addresses() {
    let a = parse_one("0x000000000000000000000000000000000000dEaD").unwrap();
    assert_eq!(a, addr(0xdead));
    let b = parse_one("55d398326f99059fF775485246999027B3197955").unwrap();
    assert_eq!(b, H160 { hi: 0x55d39832, mid: 0x6f99059ff7754852, lo: 0x46999027b3197955 });
    assert_eq!(parse_one("0x1234"), None);
    assert_eq!(parse_one("0xzz0000000000000000000000000000000000dead"), None);
}

#[test]
fn text_comparison() {
    assert!(text_is("v2", "v2"));
    assert!(!text_is("v2", "v3"));
    assert!(!text_is("v2", "v22"));
}

#[test]
fn pool_type_codes() {
    assert_eq!(pool_type_code("v2", "uniswap"), Some(0));
    assert_eq!(pool_type_code("v2", "PANCAKE"), Some(1));
    assert_eq!(pool_type_code("v3", "uniswap"), Some(2));
    assert_eq!(pool_type_code("v3", "Pancake"), Some(3));
    assert_eq!(pool_type_code("v3", "pancakeswap"), Some(2));
    assert_eq!(pool_type_code("v4", "x"), Some(4));
    assert_eq!(pool_type_code("v4", "pancake"), Some(5));
    assert_eq!(pool_type_code("v1", "pancake"), None);
}

fn trade(fee: u32, version: &str, dex: &str) -> Trade {
    Trade {
        dex: dex.to_string(),
        version: version.to_string(),
        fee,
        token0: addr(1),
        token1: addr(2),
        pool: addr(3),
        from0: true,
        amount_in: u(1),
        amount_out: u(1),
        price_impact: u(0),
        fee_amount: u(0),
        raw_price: u(1),
    }
}

#[test]
fn forge_input_errors() {
    let path = vec![trade(3000, "v2", "uniswap"), trade(0x100_0000, "v2", "uniswap")];
    assert_eq!(encode_forge_input(&path, u(10)), Err(ForgeInputError::FeeTooLarge(0x100_0000)));
    let path = vec![trade(3000, "v9", "uniswap"), trade(0x100_0000, "v2", "uniswap")];
    assert_eq!(encode_forge_input(&path, u(10)), Err(ForgeInputError::InvalidVersionDex));
}

#[test]
fn forge_input_encoding() {
    let path = vec![trade(3000, "v3", "pancake")];
    let bytes = encode_forge_input(&path, u(10)).unwrap();
    let key = Token::Tuple(vec![eth_addr(addr(1)), eth_addr(addr(2)), eth_u(3000), Token::Int(0.into()), eth_addr(H160::zero())]);
    let row = Token::Tuple(vec![eth_addr(addr(3)), key, eth_u(3), Token::Bool(true)]);
    let expect = ethers::abi::encode(&[Token::Array(vec![row]), eth_u(10)]);
    assert_eq!(bytes, expect);
    assert_eq!(encode_forge_input(&vec![], u(10)).unwrap(), ethers::abi::encode(&[Token::Array(vec![]), eth_u(10)]));
}

#[test]
fn range_checks() {
    assert_eq!(require_range_u32(5, 10, "fee").unwrap(), 5);
    assert_eq!(require_range_u32(11, 10, "fee").unwrap_err().0, "fee out of uint24 range");
    assert_eq!(require_range_i32(-5, -10, 10, "tick").unwrap(), -5);
    assert_eq!(require_range_i32(11, -10, 10, "tick").unwrap_err().0, "tick out of int24 range");
}

#[test]
fn pool_type_tokens() {
    assert!(matches!(PoolType::PANCAKE_V3.into_token(), AbiValue::Uint(x) if x == u(3)));
    assert_eq!(PoolType::from_token(&AbiValue::Uint(u(4))).unwrap(), PoolType::UNISWAP_V4);
    for t in [PoolType::UNISWAP_V2, PoolType::PANCAKE_V2, PoolType::UNISWAP_V3, PoolType::PANCAKE_V3, PoolType::UNISWAP_V4, PoolType::PANCAKE_V4] {
        assert_eq!(PoolType::from_token(&t.into_token()).unwrap(), t);
    }
    assert_eq!(PoolType::from_token(&AbiValue::Uint(u(6))).unwrap_err().0, "Invalid PoolType");
    assert_eq!(PoolType::from_token(&AbiValue::Bool(true)).unwrap_err().0, "Expected uint for PoolType");
}

#[test]
fn currency_tokens() {
    let c = Currency { is_token: true, value: addr(5) };
    assert_eq!(Currency::from_token(&c.into_token()).unwrap(), c);
    assert_eq!(Currency::from_token(&AbiValue::Tuple(vec![])).unwrap_err().0, "Missing is_token");
    assert_eq!(
        Currency::from_token(&AbiValue::Tuple(vec![AbiValue::Bool(true)])).unwrap_err().0,
        "Missing value"
    );
    assert_eq!(
        Currency::from_token(&AbiValue::Tuple(vec![AbiValue::Uint(u(1))])).unwrap_err().0,
        "Invalid is_token type"
    );
    assert_eq!(Currency::from_token(&AbiValue::Uint(u(1))).unwrap_err().0, "Expected tuple for Currency");
}

fn key(fee: u32, spacing: i32) -> PoolKey {
    PoolKey {
        currency0: Currency { is_token: true, value: addr(1) },
        currency1: Currency { is_token: false, value: addr(2) },
        fee,
        tickSpacing: spacing,
        hooks: addr(9),
    }
}

#[test]
fn pool_key_round_trip() {
    let k = key(3000, 60);
    assert_eq!(PoolKey::from_token(&k.into_token()).unwrap(), k);
    let big = key(0x100_0000, 60);
    assert_eq!(PoolKey::from_token(&big.into_token()).unwrap_err().0, "fee out of uint24 range");
    let wide = key(3000, 0x80_0000);
    assert_eq!(PoolKey::from_token(&wide.into_token()).unwrap_err().0, "tickSpacing out of int24 range");
}

#[test]
fn pool_key_missing_parts() {
    let c = Currency { is_token: true, value: addr(1) }.into_token();
    assert_eq!(PoolKey::from_token(&AbiValue::Tuple(vec![])).unwrap_err().0, "Missing currency0");
    assert_eq!(PoolKey::from_token(&AbiValue::Tuple(vec![c])).unwrap_err().0, "Missing currency1");
    let c = Currency { is_token: true, value: addr(1) }.into_token();
    let c2 = Currency { is_token: true, value: addr(2) }.into_token();
    assert_eq!(
        PoolKey::from_token(&AbiValue::Tuple(vec![c, c2, AbiValue::Bool(true)])).unwrap_err().0,
        "Missing or invalid `fee`"
    );
    assert_eq!(PoolKey::from_token(&AbiValue::Bool(true)).unwrap_err().0, "Expected tuple for PoolKey");
}

#[test]
fn pool_spec_round_trip() {
    let p = PoolSpec { addr: addr(3), key: key(500, 10), pool_typ: PoolType::UNISWAP_V3, from0: false };
    assert_eq!(PoolSpec::from_token(&p.into_token()).unwrap(), p);
    assert_eq!(PoolSpec::from_token(&AbiValue::Tuple(vec![AbiValue::Address(addr(3))])).unwrap_err().0, "Missing key");
    assert_eq!(PoolSpec::from_token(&AbiValue::Tuple(vec![AbiValue::Bool(true)])).unwrap_err().0, "Invalid addr type");
}

#[test]
fn hooks_tokens() {
    let h = Hooks::from(addr(4));
    assert_eq!(Hooks::from_token(&h.into_token()).unwrap(), h);
    assert_eq!(Hooks::from_token(&AbiValue::Bool(true)).unwrap_err().0, "");
}

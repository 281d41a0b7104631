use arbitro::address::{h160_bytes, H160};
use arbitro::arbitro::{Arbitro, PoolUpdate};
use arbitro::block_decoder::{AbisData, Transaction};
use arbitro::blockchain_db::{DexModel, TokenModel};
use arbitro::chain_src::{factory_entries, generate_unique_pairs, is_v2_version, ChainSrc};
use arbitro::chain_svc::Monitoring;
use arbitro::dex::{fee_listed, fees_for, pool_from_reply, AnyDex, PoolQuery};
use arbitro::factory::AnyFactory;
use arbitro::keyed::{KeyedLists, KeyedMap};
use arbitro::mapped_vec::MappedVec;
use arbitro::mult_provider::{available_nodes, earliest_retry, MultiProviderError, RetryStep, SendRaw};
use arbitro::pair::Pair;
use arbitro::pool_action::{pool_event_signatures, Log, PoolAction};
use arbitro::pool_utils::{AnyPool, PoolDir, TokenPools};
use arbitro::seeker::ChainObserver;
use arbitro::simulacrum::Simulacrum;
use arbitro::supervisor::{LogOutcome, PendingOutcome, Supervisor};
use arbitro::token::Token;
use arbitro::uint::U256;
use arbitro::v2_pool::{V2Pool, V2PoolSim};
use arbitro::v3_pool_src::{sort_by_tick, V3PoolSrc};
use arbitro::tick_math::Tick;
use arbitro::v_pool_sim::AnyPoolSim;
use arbitro::ws_manager::Subscriptions;

fn u(x: u128) -> U256 {
    U256::from_u128(x)
}

fn addr(n: u64) -> H160 {
    H160 { hi: 0, mid: 0, lo: n }
}

fn token(n: u64) -> Token {
    Token::new(format!("T{}", n), addr(n), format!("S{}", n), 18)
}

fn v2_sim(pool: u64, t0: u64, t1: u64, r0: u128, r1: u128) -> AnyPoolSim {
    AnyPoolSim::V2(V2PoolSim {
        address: addr(pool),
        token0: token(t0),
        token1: token(t1),
        exchange: "uniswap".to_string(),
        version: "v2".to_string(),
        fee: 3000,
        reserves0: u(r0),
        reserves1: u(r1),
    })
}

fn word_u(x: u128) -> Vec<u8> {
    let mut w = vec![0u8; 16];
    w.extend_from_slice(&x.to_be_bytes());
    w
}

fn word_addr(a: H160) -> Vec<u8> {
    let mut w = vec![0u8; 12];
    w.extend_from_slice(&h160_bytes(a));
    w
}

#[test]
fn mapped_vec_insert_get_remove() {
    let mut m: MappedVec<u32> = MappedVec::new();
    assert_eq!(m.insert(addr(1), 10), None);
    assert_eq!(m.insert(addr(2), 20), None);
    assert_eq!(m.insert(addr(1), 11), Some(10));
    assert_eq!(m.get(&addr(1)), Some(&11));
    assert_eq!(m.get(&addr(2)), Some(&20));
    assert_eq!(m.get(&addr(3)), None);
    assert_eq!(m.values(), vec![&11, &20]);
    assert_eq!(m.remove(&addr(1)), Some(11));
    assert_eq!(m.get(&addr(1)), None);
    assert_eq!(m.get(&addr(2)), Some(&20));
    assert_eq!(m.remove(&addr(1)), None);
    assert_eq!(m.iter().len(), 1);
}

#[test]
fn mapped_vec_counts_entries() {
    let mut m: MappedVec<u32> = MappedVec::new();
    m.insert(addr(1), 1);
    m.insert(addr(2), 2);
    assert_eq!(m.iter().len(), 2);
    m.insert(addr(1), 3);
    assert_eq!(m.iter().len(), 2);
    assert_eq!(m.iter()[0], (addr(1), 3));
    m.remove(&addr(7));
    assert_eq!(m.iter().len(), 2);
    m.remove(&addr(1));
    assert_eq!(m.iter().len(), 1);
    assert_eq!(m.iter()[0], (addr(2), 2));
}

#[test]
fn mapped_vec_keys_in_entry_order() {
    let mut m: MappedVec<u32> = MappedVec::new();
    m.insert(addr(3), 30);
    m.insert(addr(1), 10);
    m.insert(addr(2), 20);
    m.insert(addr(1), 11);
    assert_eq!(m.get_keys(), vec![&addr(3), &addr(1), &addr(2)]);
    let empty: MappedVec<u32> = MappedVec::new();
    assert!(empty.get_keys().is_empty());
}

#[test]
fn mapped_vec_remove_keeps_others_reachable() {
    let mut m: MappedVec<u32> = MappedVec::new();
    for i in 1..=5u64 {
        m.insert(addr(i), i as u32 * 10);
    }
    assert_eq!(m.remove(&addr(2)), Some(20));
    for i in [1u64, 3, 4, 5] {
        assert_eq!(m.get(&addr(i)), Some(&(i as u32 * 10)));
    }
    if let Some(v) = m.get_mut(&addr(4)) {
        *v = 44;
    }
    assert_eq!(m.get(&addr(4)), Some(&44));
    let p = m.position(&addr(5)).unwrap();
    *m.value_at_mut(p) = 55;
    assert_eq!(m.get(&addr(5)), Some(&55));
}

#[test]
fn mapped_vec_from_array_last_wins() {
    let m = MappedVec::from_array(&[(addr(1), 1u32), (addr(2), 2), (addr(1), 3)]);
    assert_eq!(m.get(&addr(1)), Some(&3));
    assert_eq!(m.get(&addr(2)), Some(&2));
}

#[test]
fn keyed_lists_and_map() {
    let mut l: KeyedLists<H160, u32> = KeyedLists::new();
    assert!(l.get(&addr(1)).is_none());
    l.push(addr(1), 5);
    l.push(addr(1), 6);
    l.ensure(addr(2));
    assert_eq!(l.get(&addr(1)).unwrap(), &vec![5, 6]);
    assert_eq!(l.get(&addr(2)).unwrap(), &Vec::<u32>::new());
    l.set(addr(2), vec![9]);
    assert_eq!(l.get(&addr(2)).unwrap(), &vec![9]);
    let mut m: KeyedMap<H160, u32> = KeyedMap::new();
    m.insert(addr(1), 1);
    m.insert(addr(1), 2);
    assert_eq!(m.get(&addr(1)), Some(&2));
    assert_eq!(m.get(&addr(3)), None);
}

#[test]
fn unique_pairs_of_three() {
    let r = generate_unique_pairs(&[addr(1), addr(2), addr(3)]);
    assert_eq!(r, vec![(addr(1), addr(2)), (addr(1), addr(3)), (addr(2), addr(3))]);
    assert_eq!(generate_unique_pairs(&[addr(1)]), vec![]);
}

#[test]
fn pair_is_ordered_and_symmetric() {
    let p = Pair::new(token(5), token(2));
    assert_eq!(p.a.address, addr(2));
    assert_eq!(p.b.address, addr(5));
    let q = Pair::new(token(2), token(5));
    assert!(p.eq(&q));
    assert_eq!(p.key(), q.key());
    let hi = H160 { hi: 1, mid: 0, lo: 0 };
    let r = Pair::new(Token::new("a".into(), hi, "a".into(), 6), token(u64::MAX));
    assert_eq!(r.a.address, addr(u64::MAX));
}

#[test]
fn fee_tables() {
    assert_eq!(fees_for(true, "anything"), vec![3000]);
    assert_eq!(fees_for(false, "pancake"), vec![500, 2500, 10000]);
    assert_eq!(fees_for(false, "uniswap"), vec![500, 3000, 10000]);
    assert_eq!(fees_for(false, "biswap"), vec![1000, 2000, 3000]);
    assert_eq!(fees_for(false, "unknown"), Vec::<u32>::new());
    assert!(fee_listed(&vec![500, 3000], 3000));
    assert!(!fee_listed(&vec![500, 3000], 100));
}

#[test]
fn pool_replies() {
    assert_eq!(pool_from_reply(None), None);
    assert_eq!(pool_from_reply(Some(H160::zero())), None);
    assert_eq!(pool_from_reply(Some(addr(4))), Some(addr(4)));
}

#[test]
fn dex_queries_and_pools() {
    let mut d: AnyDex<u32> = AnyDex::new("uniswap".to_string(), false);
    assert_eq!(d.get_name(), "uniswap");
    assert_eq!(d.get_version(), "v3");
    assert_eq!(d.supported_fees(), vec![500, 3000, 10000]);
    let p = Pair::new(token(3), token(1));
    assert_eq!(d.pool_query(&p, 3000), Some(PoolQuery { v2: false, a: addr(1), b: addr(3), fee: 3000 }));
    assert_eq!(d.pool_query(&p, 7), None);
    assert_eq!(d.get_pool_by_address(addr(50)), None);
    d.add_pool(&p, addr(50), 77);
    assert_eq!(d.get_pool_by_address(addr(50)), Some(77));
    let v2: AnyDex<u32> = AnyDex::new("pancake".to_string(), true);
    assert_eq!(v2.get_version(), "v2");
    assert_eq!(v2.pool_query(&p, 3000), Some(PoolQuery { v2: true, a: addr(1), b: addr(3), fee: 3000 }));
    assert_eq!(v2.pool_query(&p, 1), None);
}

#[test]
fn factories_of_the_configuration() {
    let dexes = vec![
        DexModel { dex_name: "uni".into(), factory: "0x0000000000000000000000000000000000000011".into(), version: "v2".into() },
        DexModel { dex_name: "other".into(), factory: "0x0000000000000000000000000000000000000012".into(), version: "v4".into() },
        DexModel { dex_name: "pan".into(), factory: "0x0000000000000000000000000000000000000013".into(), version: "v3".into() },
    ];
    let f = factory_entries(&dexes).unwrap();
    assert_eq!(f.len(), 2);
    assert_eq!(f[0].0, addr(0x11));
    assert_eq!(f[0].1.get_version(), "v2");
    assert_eq!(f[1].0, addr(0x13));
    assert_eq!(f[1].1.get_name(), "pan");
    assert_eq!(f[1].1.get_version(), "v3");
    assert_eq!(f[1].1.get_address(), addr(0x13));
    let bad = vec![DexModel { dex_name: "x".into(), factory: "nope".into(), version: "v2".into() }];
    assert!(factory_entries(&bad).is_none());
    assert!(is_v2_version("v2"));
    assert!(!is_v2_version("v3"));
}

#[test]
fn factory_pool_query() {
    let f = AnyFactory::new("uniswap".into(), false, addr(1));
    assert_eq!(f.supported_fees(), vec![500, 3000, 10000]);
    assert!(f.pool_query(&addr(2), &addr(3), &500, &0).is_some());
    assert!(f.pool_query(&addr(2), &addr(3), &7, &0).is_none());
}

#[test]
fn chain_src_registers_first_pool_found() {
    let mut src: ChainSrc<u32, u32, u32> = ChainSrc::new(vec![(addr(1), 100), (addr(1), 101)]);
    assert_eq!(src.get_factory(&addr(1)), Some(&101));
    assert_eq!(src.pool_needed(Some(addr(9))), Some(addr(9)));
    src.register_pools(vec![(addr(9), 1), (addr(8), 2), (addr(9), 3)]);
    assert_eq!(src.get_pool(&addr(9)), Some(&1));
    assert_eq!(src.get_pool(&addr(8)), Some(&2));
    assert_eq!(src.pool_needed(Some(addr(9))), None);
    assert_eq!(src.pool_needed(None), None);
    src.register_pools(vec![(addr(9), 4)]);
    assert_eq!(src.get_pool(&addr(9)), Some(&1));
    src.register_pools(vec![(addr(9), 1), (addr(8), 2), (addr(9), 3)]);
    assert_eq!(src.get_pool(&addr(9)), Some(&1));
    assert_eq!(src.get_pool(&addr(8)), Some(&2));
    assert_eq!(src.pool_list().len(), 2);
    assert_eq!(src.factory_list().len(), 2);
    src.add_token(addr(5), 50);
    assert_eq!(src.get_token(&addr(5)), Some(&50));
    src.add_factory(addr(6), 60);
    assert_eq!(src.get_factory(&addr(6)), Some(&60));
}

#[test]
fn chain_src_keeps_factories_in_order() {
    let src: ChainSrc<u32, u32, u32> =
        ChainSrc::new(vec![(addr(3), 30), (addr(1), 10), (addr(2), 20), (addr(1), 11)]);
    assert_eq!(src.factory_list(), &vec![(addr(3), 30), (addr(1), 10), (addr(2), 20), (addr(1), 11)]);
    assert_eq!(src.get_factory(&addr(3)), Some(&30));
    assert_eq!(src.get_factory(&addr(1)), Some(&11));
    assert_eq!(src.get_factory(&addr(2)), Some(&20));
    assert_eq!(src.get_factory(&addr(4)), None);
}

#[test]
fn chain_observer_maps() {
    let mut o: ChainObserver<u32, u32, u32> = ChainObserver::new();
    o.add_pool(addr(1), 1);
    o.add_token(addr(2), 2);
    o.add_factory(addr(3), 3);
    o.add_pool(addr(1), 4);
    assert_eq!(o.get_pool(&addr(1)), Some(&4));
    assert_eq!(o.get_token(&addr(2)), Some(&2));
    assert_eq!(o.get_factory(&addr(3)), Some(&3));
    assert_eq!(o.get_pool(&addr(2)), None);
}

#[test]
fn monitoring_collapses_after_six_chunks() {
    let mut m = Monitoring::new();
    for i in 1..=6u64 {
        assert!(!m.add_pool(addr(i), i as u128));
    }
    assert!(m.check(100).is_none());
    assert!(m.add_pool(addr(2), 7));
    m.chunks[0].tombstones.push(addr(3));
    let c = m.check(100).unwrap();
    assert_eq!(c.removed, vec![1, 2, 3, 4, 5, 6, 7]);
    assert_eq!(c.chunk.id, 100);
    let mut got = c.chunk.addrs.clone();
    got.sort_by_key(|a| a.lo);
    assert_eq!(got, vec![addr(1), addr(2), addr(4), addr(5), addr(6)]);
    assert_eq!(m.chunks.len(), 1);
    assert_eq!(m.chunks[0].id, 100);
    assert!(m.check(200).is_none());
    assert_eq!(m.chunks[0].id, 100);
}

#[test]
fn monitoring_collapse_keeps_watched_addresses() {
    let mut m = Monitoring::new();
    for i in 1..=7u64 {
        m.add_pool(addr(i % 4), i as u128);
    }
    m.chunks[2].tombstones.push(addr(1));
    // watched before: addresses 0..=3 less the tombstone 1
    let c = m.check(9).unwrap();
    let mut got = c.chunk.addrs.clone();
    got.sort_by_key(|a| a.lo);
    assert_eq!(got, vec![addr(0), addr(2), addr(3)]);
    assert!(m.chunks[0].tombstones.is_empty());
}

#[test]
fn subscriptions_removed_by_pool() {
    let mut s: Subscriptions<&str> = Subscriptions::new();
    s.add_subscription(1, "a", vec![addr(1), addr(2)]);
    s.add_subscription(2, "b", vec![addr(3)]);
    s.add_subscription(3, "c", vec![addr(2)]);
    let gone = s.remove_subscription(&addr(2));
    assert_eq!(gone, vec!["a", "c"]);
    assert_eq!(s.subs.len(), 1);
    assert_eq!(s.subs[0].receiver_id, 2);
    assert_eq!(s.remove_subscription(&addr(9)), Vec::<&str>::new());
    assert_eq!(s.remove_subscription(&addr(2)), Vec::<&str>::new());
    assert_eq!(s.subs.len(), 1);
}

#[test]
fn node_availability() {
    let f = vec![None, Some(100), Some(10)];
    assert_eq!(available_nodes(&f, 50, 30), vec![0, 2]);
    assert_eq!(available_nodes(&f, 200, 30), vec![0, 1, 2]);
    assert_eq!(available_nodes(&vec![Some(100)], 50, 30), Vec::<usize>::new());
    assert_eq!(earliest_retry(&f, 30), Some(40));
    assert_eq!(earliest_retry(&vec![None, None], 30), None);
}

#[test]
fn send_raw_retry_loop() {
    assert!(SendRaw::start(0, 3).is_none());
    let mut s = SendRaw::start(2, 2).unwrap();
    let failures = vec![None, None];
    assert!(matches!(s.begin_round(&failures, 0, 10), RetryStep::Request(0)));
    assert_eq!(s.on_failure("boom".to_string()), Some(1));
    assert_eq!(s.on_failure("bang".to_string()), None);
    let busy = vec![Some(5), Some(3)];
    assert!(matches!(s.begin_round(&busy, 4, 10), RetryStep::Sleep(13)));
    match s.begin_round(&busy, 4, 10) {
        RetryStep::Fail(MultiProviderError::RequestFailed(m)) => assert_eq!(m, "bang"),
        other => panic!("unexpected {:?}", other),
    }
    let mut t = SendRaw::start(1, 1).unwrap();
    match t.begin_round(&vec![None], 0, 10) {
        RetryStep::Request(0) => {},
        other => panic!("unexpected {:?}", other),
    }
    assert!(MultiProviderError::RequestFailed("x".into()).is_error_response());
    assert!(MultiProviderError::NoProviders.is_serde_error());
    assert!(!MultiProviderError::AllBackoff.is_error_response());
}

#[test]
fn send_raw_gives_up_unknown() {
    let mut s = SendRaw::start(1, 0).unwrap();
    match s.begin_round(&vec![None], 0, 10) {
        RetryStep::Fail(MultiProviderError::RequestFailed(m)) => assert_eq!(m, "Unknown"),
        other => panic!("unexpected {:?}", other),
    }
}

#[test]
fn arbitro_indexes_pools_by_token() {
    let mut src = MappedVec::new();
    src.insert(addr(100), v2_sim(100, 1, 2, 1000, 1000));
    src.insert(addr(101), v2_sim(101, 2, 3, 1000, 2000));
    let mut a = Arbitro::new(src);
    assert_eq!(a.pools_by_token.get(&addr(2)).unwrap(), &vec![(addr(100), false), (addr(101), true)]);
    assert_eq!(a.pools_by_token.get(&addr(1)).unwrap(), &vec![(addr(100), true)]);
    assert!(a.pools_by_token.get(&addr(9)).is_none());
    assert!(a.pools.get(&addr(100)).is_none());
    a.add_pool(v2_sim(100, 1, 2, 1000, 1000));
    a.add_pool(v2_sim(101, 2, 3, 1000, 2000));
    assert!(a.pools.get(&addr(100)).is_some());
    let trades = a.evaluate_hop(&addr(2), vec![addr(100), addr(101), addr(7)], vec![], u(100));
    assert_eq!(trades.len(), 2);
    assert_eq!(trades[0].pool, addr(100));
    assert!(!trades[0].from0);
    assert_eq!(trades[0].amount_out, u(90));
    assert_eq!(trades[1].pool, addr(101));
    assert!(trades[1].from0);
    assert_eq!(trades[1].amount_out, u(180));
    // the swaps moved the simulated reserves, so the same hop now quotes less
    let again = a.evaluate_hop(&addr(2), vec![addr(100)], vec![], u(100));
    assert_eq!(again.len(), 1);
    assert_eq!(again[0].amount_out, u(75));
    // a pool listed twice is swapped twice in one hop
    let twice = a.evaluate_hop(&addr(3), vec![addr(101), addr(101)], vec![], u(100));
    assert_eq!(twice.len(), 2);
    assert_eq!(twice[0].amount_out, u(56));
    assert_eq!(twice[1].amount_out, u(51));
}

#[test]
fn arbitro_update_for_events() {
    let mut src = MappedVec::new();
    src.insert(addr(100), v2_sim(100, 1, 2, 1000, 1000));
    let mut a = Arbitro::new(src);
    a.add_pool(v2_sim(100, 1, 2, 1000, 1000));
    let up = a.update_state(&addr(100), PoolAction::MintV2 { sender: addr(5), amount0: u(3), amount1: u(4) });
    assert_eq!(up, PoolUpdate::Mint { amount0: u(3), amount1: u(4) });
    let up = a.update_state(
        &addr(100),
        PoolAction::SwapV2 { sender: addr(5), amount0_in: u(1), amount1_in: u(2), amount0_out: u(3), amount1_out: u(4), to: addr(6) },
    );
    assert_eq!(up, PoolUpdate::Swap { amount0_in: u(1), amount1_in: u(2), amount0_out: u(3), amount1_out: u(4) });
    // the mint added (3, 4), the swap (1, 2) in and (3, 4) out
    match a.pools.get(&addr(100)) {
        Some(AnyPoolSim::V2(p)) => {
            assert_eq!(p.reserves0, u(1001));
            assert_eq!(p.reserves1, u(1002));
        },
        _ => panic!("pool missing"),
    }
    a.update_state(&addr(100), PoolAction::BurnV2 { sender: addr(5), amount0: u(5000), amount1: u(2), to: addr(6) });
    match a.pools.get(&addr(100)) {
        Some(AnyPoolSim::V2(p)) => {
            assert_eq!(p.reserves0, u(0));
            assert_eq!(p.reserves1, u(1000));
        },
        _ => panic!("pool missing"),
    }
    a.add_token(addr(77));
    assert_eq!(a.pools_by_token.get(&addr(77)).unwrap(), &Vec::<(H160, bool)>::new());
}

#[test]
fn arbitro_propagates_to_other_tokens() {
    let mut src = MappedVec::new();
    src.insert(addr(100), v2_sim(100, 1, 2, 1000, 1000));
    let mut a = Arbitro::new(src);
    a.add_pool(v2_sim(100, 1, 2, 1000, 1000));
    let r = a.lazy_propagate(&addr(1));
    assert_eq!(r.len(), 1);
    assert_eq!(r[0].0, addr(1));
}

#[test]
fn supervisor_handles_logs() {
    let mut src = MappedVec::new();
    src.insert(addr(100), v2_sim(100, 1, 2, 1000, 1000));
    let mut a = Arbitro::new(src);
    a.add_pool(v2_sim(100, 1, 2, 1000, 1000));
    let mut sim = Simulacrum::new(a);
    let mut data = word_addr(addr(42));
    data.extend(word_u(10));
    data.extend(word_u(20));
    let log = Log { address: addr(100), topics: vec![pool_event_signatures()[1]], data: data.clone() };
    match Supervisor::handle_log(&mut sim, &log) {
        LogOutcome::Applied(p, PoolUpdate::Mint { amount0, amount1 }) => {
            assert_eq!(p, addr(100));
            assert_eq!(amount0, u(10));
            assert_eq!(amount1, u(20));
        },
        _ => panic!("expected an applied mint"),
    }
    let other = Log { address: addr(55), topics: vec![pool_event_signatures()[1]], data };
    assert!(matches!(Supervisor::handle_log(&mut sim, &other), LogOutcome::UnknownPool(a) if a == addr(55)));
    let junk = Log { address: addr(100), topics: vec![], data: vec![] };
    assert!(matches!(Supervisor::handle_log(&mut sim, &junk), LogOutcome::Ignored));
    assert!(sim.knows_pool(&addr(100)));
    assert!(!sim.knows_pool(&addr(101)));
    sim.add_pool(v2_sim(101, 2, 3, 500, 500));
    assert!(sim.knows_pool(&addr(101)));
    assert!(sim.knows_pool(&addr(100)));
    assert!(!sim.knows_pool(&addr(55)));
}

#[test]
fn supervisor_handles_pending_txs() {
    let a = Arbitro::new(MappedVec::new());
    let mut sim = Simulacrum::new(a);
    let abis = AbisData { v2_factory: vec![], v2_pool: vec![], v3_factory: vec![], v3_pool: vec![], bep_20: vec![] };
    let tx = Transaction { to: Some(addr(1)), input: vec![1, 2, 3, 4] };
    assert!(matches!(Supervisor::handle_pending_tx(&mut sim, &abis, &tx), PendingOutcome::NoAction));
}

#[test]
fn supervisor_parses_token_addresses() {
    let t = |a: &str| TokenModel { name: "n".into(), symbol: "s".into(), address: a.into(), decimals: 18 };
    let ok = vec![t("0x0000000000000000000000000000000000000001"), t("0x00000000000000000000000000000000000000ff")];
    assert_eq!(Supervisor::parse_token_addresses(&ok), Some(vec![addr(1), addr(0xff)]));
    let bad = vec![t("0x01"), t("0x0000000000000000000000000000000000000001")];
    assert_eq!(Supervisor::parse_token_addresses(&bad), None);
}

#[test]
fn simulacrum_phantom_states() {
    let a = Arbitro::new(MappedVec::new());
    let mut sim = Simulacrum::new(a);
    assert!(sim.get(&addr(3)).is_none());
    let printed = sim.update_phanton_state(&addr(3), PoolAction::MintV2 { sender: addr(1), amount0: u(1), amount1: u(1) });
    assert!(!printed);
}

#[test]
fn any_pool_queries() {
    let p = AnyPool::V2(V2Pool::new("uni".into(), "v2".into(), 3000, addr(9), token(1), token(2)));
    assert_eq!(p.get_other(&addr(1)), Some(addr(2)));
    assert_eq!(p.get_other(&addr(2)), Some(addr(1)));
    assert_eq!(p.get_other(&addr(5)), None);
    assert_eq!(p.get_tokens(), [addr(1), addr(2)]);
    assert!(p.is_0(&addr(1)));
    assert!(!p.is_0(&addr(2)));
    assert!(p.in_pool(addr(1)));
    assert!(!p.in_pool(addr(2)));
    assert_eq!(p.get_address(), addr(9));
    assert_eq!(p.get_fee(), 3000);
    assert_eq!(p.get_version(), "v2");
    assert_eq!(p.get_dex(), "uni");
    assert_eq!(p.get_reserves(), Some((u(0), u(0))));
    let mut tp: TokenPools<u32> = TokenPools::new(vec![]);
    tp.add_pool(PoolDir::new(5, true));
    assert_eq!(tp.pools.len(), 1);
}

#[test]
fn v3_source_updates() {
    let mut s: V3PoolSrc<u32> = V3PoolSrc::new(addr(1), 1, 2, "uniswap".into(), "v3".into(), 500);
    assert!(s.apply_tick_spacing(Some(10)));
    assert_eq!(s.tick_spacing, 10);
    assert!(!s.apply_tick_spacing(None));
    assert_eq!(s.tick_spacing, 10);
    assert_eq!(s.update(Some((u(7), -20)), None), addr(1));
    assert_eq!(s.x96price, u(7));
    assert_eq!(s.current_tick, -20);
    assert_eq!(s.liquidity, u(0));
    s.update(None, Some(u(9)));
    assert_eq!(s.liquidity, u(9));
    assert_eq!(s.current_tick, -20);
    s.update_active_ticks(vec![Tick { tick: 20, liquidityNet: 1 }, Tick { tick: -20, liquidityNet: 2 }]);
    assert_eq!(s.active_ticks, vec![Tick { tick: -20, liquidityNet: 2 }, Tick { tick: 20, liquidityNet: 1 }]);
    let sorted = sort_by_tick(vec![Tick { tick: 3, liquidityNet: 1 }, Tick { tick: 1, liquidityNet: 2 }, Tick { tick: 3, liquidityNet: 0 }]);
    assert_eq!(sorted, vec![Tick { tick: 1, liquidityNet: 2 }, Tick { tick: 3, liquidityNet: 1 }, Tick { tick: 3, liquidityNet: 0 }]);
}

use arbitro::address::H160;
use arbitro::anvil_test::int_to_uint256;
use arbitro::tick_math::{
    collect_ticks_from_map, extract_ticks_from_bitmap, normalize_tick, price_from_tick, sort_ticks,
    tick_from_price, word_index, word_indices, word_ticks_fit_check, Tick,
};
use arbitro::token::Token;
use arbitro::uint::U256;
use arbitro::v2_pool::{v2_trade_math, V2Pool, V2PoolSim, V2PoolSrc};
use arbitro::v3_pool_sim::{search_ticks, V3PoolSim};
use arbitro::v3_pool_src::nearest_word_indices;
use std::collections::HashMap;

fn u(x: u128) -> U256 {
    U256::from_u128(x)
}

/// 2^n as limbs.
fn p2(n: u32) -> U256 {
    let mut w = [0u64; 4];
    w[(n / 64) as usize] = 1u64 << (n % 64);
    U256 { w0: w[0], w1: w[1], w2: w[2], w3: w[3] }
}

fn dec(s: &str) -> U256 {
    let v = ethers::types::U256::from_dec_str(s).unwrap();
    U256 { w0: v.0[0], w1: v.0[1], w2: v.0[2], w3: v.0[3] }
}

fn less(a: U256, b: U256) -> bool {
    let x = ethers::types::U256([a.w0, a.w1, a.w2, a.w3]);
    let y = ethers::types::U256([b.w0, b.w1, b.w2, b.w3]);
    x < y
}

fn addr(n: u64) -> H160 {
    H160 { hi: 0, mid: 0, lo: n }
}

fn token(n: u64) -> Token {
    Token::new(format!("T{}", n), addr(n), format!("T{}", n), 18)
}

#[test]
fn price_at_tick_zero_is_q96() {
    assert_eq!(price_from_tick(0), Some(dec("79228162514264337593543950336")));
}

#[test]
fn price_at_small_ticks() {
    assert_eq!(price_from_tick(1), Some(dec("79232123823359799118286999568")));
    assert_eq!(price_from_tick(-1), Some(dec("79224201403219477170569942574")));
    assert_eq!(price_from_tick(60), Some(dec("79466191966197645195421774833")));
    assert_eq!(price_from_tick(-60), Some(dec("78990846045029531151608375686")));
    assert_eq!(price_from_tick(100), Some(dec("79625275426524748796330556128")));
    assert_eq!(price_from_tick(-100), Some(dec("78833030112140176575862854579")));
}

#[test]
fn price_at_extreme_ticks() {
    assert_eq!(
        price_from_tick(887272),
        Some(dec("1461446703485210103287273052203988822378723970342"))
    );
    assert_eq!(price_from_tick(-887272), Some(u(4295128739)));
    assert_eq!(price_from_tick(887273), None);
    assert_eq!(price_from_tick(-887273), None);
    assert_eq!(V3PoolSim::tick_price(887273), None);
    assert_eq!(V3PoolSim::tick_price(0), Some(dec("79228162514264337593543950336")));
}

#[test]
fn word_fit_checks() {
    let top = p2(255);
    assert!(word_ticks_fit_check(top, 1, 60));
    assert!(word_ticks_fit_check(U256::zero(), i32::MAX, i32::MAX));
    assert!(word_ticks_fit_check(top, 8_388_607, 1));
    assert!(!word_ticks_fit_check(top, 8_388_608, 1));
    assert!(!word_ticks_fit_check(u(1), 1000, 10_000));
    assert!(word_ticks_fit_check(u(1), 1000, 1000));
}

#[test]
fn tick_from_price_off_the_scale() {
    assert_eq!(tick_from_price(u(0)), None);
    assert_eq!(tick_from_price(u(4295128738)), None);
    assert_eq!(tick_from_price(dec("1461446703485210103287273052203988822378723970342")), None);
    assert_eq!(tick_from_price(U256::max_value()), None);
}

#[test]
fn tick_from_price_on_the_scale() {
    assert_eq!(tick_from_price(p2(96)), Some(0));
    assert_eq!(tick_from_price(dec("79466191966197645195421774833")), Some(60));
    assert_eq!(tick_from_price(dec("79466191966197645195421774832")), Some(59));
    assert_eq!(tick_from_price(u(4295128739)), Some(-887272));
    assert_eq!(
        tick_from_price(dec("1461446703485210103287273052203988822378723970341")),
        Some(887271)
    );
}

#[test]
fn tick_price_round_trip() {
    for t in [-887272, -100000, -12345, -61, -1, 0, 1, 60, 12345, 200000, 887271] {
        let p = price_from_tick(t).unwrap();
        assert_eq!(tick_from_price(p), Some(t));
    }
}

#[test]
fn prices_grow_with_the_tick() {
    let mut last = price_from_tick(-887272).unwrap();
    for t in (-887271..=887272).step_by(997) {
        let p = price_from_tick(t).unwrap();
        assert!(less(last, p));
        last = p;
    }
    for t in -300..300 {
        assert!(less(price_from_tick(t).unwrap(), price_from_tick(t + 1).unwrap()));
    }
}

#[test]
fn normalize_tick_rounds_towards_zero() {
    assert_eq!(normalize_tick(-5, 10), 0);
    assert_eq!(normalize_tick(5, 10), 0);
    assert_eq!(normalize_tick(-10, 10), -1);
    assert_eq!(normalize_tick(-11, 10), -1);
    assert_eq!(normalize_tick(15, -10), -1);
    assert_eq!(normalize_tick(-15, -10), 1);
    assert_eq!(normalize_tick(0, -10), 0);
    assert_eq!(normalize_tick(i32::MIN, 1), i32::MIN);
    assert_eq!(normalize_tick(i32::MIN, 2), i32::MIN / 2);
    assert_eq!(normalize_tick(i32::MAX, -1), -i32::MAX);
}

#[test]
fn word_index_of_ticks() {
    assert_eq!(word_index(-1), -1);
    assert_eq!(word_index(0), 0);
    assert_eq!(word_index(255), 0);
    assert_eq!(word_index(256), 1);
    assert_eq!(word_index(-256), -1);
    assert_eq!(word_index(-257), -2);
}

#[test]
fn word_indices_around_center() {
    assert_eq!(word_indices(0, 1), vec![-1, 0, 1]);
    assert_eq!(word_indices(5, 0), vec![5]);
    assert_eq!(word_indices(-3, 2), vec![-5, -4, -3, -2, -1]);
    assert_eq!(word_indices(0, -1), Vec::<i32>::new());
}

#[test]
fn bitmap_words_around_the_current_tick() {
    assert_eq!(nearest_word_indices(-1, 1), vec![-2, -1, 0]);
    assert_eq!(nearest_word_indices(-18000, 60), vec![-3, -2, -1]);
    assert_eq!(nearest_word_indices(15360, 60), vec![0, 1, 2]);
    assert_eq!(nearest_word_indices(100, 1), vec![-1, 0, 1]);
}

#[test]
fn ticks_of_a_bitmap_word() {
    let w = U256 { w0: 0b1001, w1: 0, w2: 0, w3: 0 };
    assert_eq!(extract_ticks_from_bitmap(w, 0, 10), vec![0, 30]);
    let top = U256 { w0: 0, w1: 0, w2: 0, w3: 1u64 << 63 };
    assert_eq!(extract_ticks_from_bitmap(top, -1, 1), vec![-1]);
    assert_eq!(extract_ticks_from_bitmap(top, 1, 60), vec![511 * 60]);
    assert_eq!(extract_ticks_from_bitmap(U256::zero(), 3, 60), Vec::<i32>::new());
    let two = U256 { w0: 0, w1: 1, w2: 0, w3: 0 };
    assert_eq!(extract_ticks_from_bitmap(two, 0, 2), vec![128]);
}

#[test]
fn ticks_of_a_word_map_sorted() {
    let mut m: HashMap<i32, U256> = HashMap::new();
    m.insert(0, U256 { w0: 1, w1: 0, w2: 0, w3: 0 });
    m.insert(-1, U256 { w0: 0, w1: 0, w2: 0, w3: 1u64 << 63 });
    m.insert(1, U256 { w0: 0b11, w1: 0, w2: 0, w3: 0 });
    assert_eq!(collect_ticks_from_map(&m, 60), vec![-60, 0, 256 * 60, 257 * 60]);
    let empty: HashMap<i32, U256> = HashMap::new();
    assert_eq!(collect_ticks_from_map(&empty, 60), Vec::<i32>::new());
}

#[test]
fn sort_ticks_keeps_duplicates() {
    assert_eq!(sort_ticks(vec![3, -1, 2, 3]), vec![-1, 2, 3, 3]);
    assert_eq!(sort_ticks(vec![]), Vec::<i32>::new());
}

#[test]
fn u256_from_be_bytes() {
    let mut b = [0u8; 32];
    b[31] = 1;
    b[0] = 0x80;
    let v = U256::from_be_bytes(&b);
    assert_eq!(v, U256 { w0: 1, w1: 0, w2: 0, w3: 0x8000_0000_0000_0000 });
    assert_eq!(U256::from_u128(u128::MAX), U256 { w0: u64::MAX, w1: u64::MAX, w2: 0, w3: 0 });
}

#[test]
fn twos_complement_of_small_ints() {
    assert_eq!(int_to_uint256(5), u(5));
    assert_eq!(int_to_uint256(0), u(0));
    assert_eq!(int_to_uint256(-1), U256::max_value());
    let minus_two = U256 { w0: u64::MAX - 1, w1: u64::MAX, w2: u64::MAX, w3: u64::MAX };
    assert_eq!(int_to_uint256(-2), minus_two);
}

#[test]
fn v2_quote_balanced_pool() {
    let r = v2_trade_math(u(1000), u(1000), u(100), true);
    assert_eq!(r, Some((u(90), u(1719), u(1), u(1_000_000_000_000_000_000))));
}

#[test]
fn v2_quote_both_directions() {
    assert_eq!(
        v2_trade_math(u(1000), u(2000), u(100), true),
        Some((u(180), u(1719), u(1), u(2_000_000_000_000_000_000)))
    );
    assert_eq!(
        v2_trade_math(u(1000), u(2000), u(100), false),
        Some((u(47), u(919), u(1), u(500_000_000_000_000_000)))
    );
    assert_eq!(
        v2_trade_math(u(1_000_000_000_000_000_000_000), u(2_000_000_000_000_000_000_000), u(1_000_000_000_000_000_000), true),
        Some((u(1992013962079806432), u(19), u(3_000_000_000_000_000), u(2_000_000_000_000_000_000)))
    );
}

#[test]
fn v2_output_grows_and_never_drains() {
    let mut last = 0u64;
    for amount in [1u128, 10, 100, 1000, 10_000, 1_000_000, 1_000_000_000] {
        let (out, _, _, _) = v2_trade_math(u(1000), u(2000), u(amount), true).unwrap();
        assert!(out.w1 == 0 && out.w0 >= last);
        assert!(out.w0 < 2000);
        last = out.w0;
    }
    assert_eq!(last, 1999);
}

#[test]
fn v2_quote_fails_on_empty_or_overflow() {
    assert_eq!(v2_trade_math(u(0), u(1000), u(100), true), None);
    assert_eq!(v2_trade_math(u(1000), u(0), u(100), false), None);
    assert_eq!(v2_trade_math(u(1000), u(1000), U256::max_value(), true), None);
    // no output: the output reserve is empty, so the price is zero
    assert_eq!(v2_trade_math(u(1000), u(0), u(100), true), None);
}

#[test]
fn v2_pool_update_and_trade() {
    let mut p = V2Pool::new("uniswap".to_string(), "v2".to_string(), 3000, addr(9), token(1), token(2));
    assert_eq!(p.trade(u(100), true), None);
    assert!(!p.update(None));
    assert!(p.update(Some((u(1000), u(2000)))));
    let t = p.trade(u(100), true).unwrap();
    assert_eq!(t.amount_out, u(180));
    assert_eq!(t.pool, addr(9));
    assert_eq!(t.token0, addr(1));
    assert_eq!(t.token1, addr(2));
    assert!(t.from0);
    assert_eq!(t.dex, "uniswap");
    assert_eq!(t.fee_amount, u(1));
}

#[test]
fn v2_source_update_and_sim() {
    let mut s = V2PoolSrc::new("pancake".to_string(), "v2".to_string(), 2500, addr(9), addr(1), addr(2));
    assert_eq!(s.update(None), None);
    assert_eq!(s.update(Some((u(1000), u(1000)))), Some(addr(9)));
    assert_eq!(s.trade(u(100), true).unwrap().amount_out, u(90));
    let mut sim: V2PoolSim = s.into_sim(token(1), token(2));
    assert_eq!(sim.reserves0, u(1000));
    let t = sim.trade(u(100), false).unwrap();
    assert_eq!(t.amount_out, u(90));
    // the swap moves the simulated reserves: 99 in (after the fee), 90 out
    assert_eq!(sim.reserves0, u(910));
    assert_eq!(sim.reserves1, u(1099));
    let again = sim.trade(u(100), false).unwrap();
    assert_eq!(again.amount_out, u(75));
    assert_eq!(sim.reserves0, u(835));
    assert_eq!(sim.reserves1, u(1198));
    // the product of the reserves never drops
    assert!(sim.reserves0.w0 as u128 * sim.reserves1.w0 as u128 >= 910 * 1099);
    assert!(910u128 * 1099 >= 1000 * 1000);
}

#[test]
fn v2_records_quote_alike() {
    let mut p = V2Pool::new("uni".to_string(), "v2".to_string(), 3000, addr(9), token(1), token(2));
    p.update(Some((u(5000), u(7000))));
    let mut s = V2PoolSrc::new("uni".to_string(), "v2".to_string(), 3000, addr(9), addr(1), addr(2));
    s.update(Some((u(5000), u(7000))));
    let mut sim = s.into_sim(token(1), token(2));
    let a = p.trade(u(321), false).unwrap();
    let b = s.trade(u(321), false).unwrap();
    let c = sim.trade(u(321), false).unwrap();
    assert_eq!(a, b);
    assert_eq!(b, c);
}

#[test]
fn v3_amount_possible() {
    let q96 = p2(96);
    let q97 = p2(97);
    assert_eq!(V3PoolSim::compute_amount_possible(false, &u(1000), &q97, &q96), Some(u(1000)));
    assert_eq!(V3PoolSim::compute_amount_possible(true, &u(1000), &q96, &q97), Some(u(500)));
    assert_eq!(V3PoolSim::compute_amount_possible(true, &u(1000), &q96, &q96), None);
    assert_eq!(V3PoolSim::compute_amount_possible(false, &u(1000), &q96, &q97), None);
}

#[test]
fn v3_price_after_amounts() {
    let q96 = p2(96);
    assert_eq!(V3PoolSim::compute_price_from1(&u(1000), &u(1000), &q96, true), Some(p2(97)));
    assert_eq!(V3PoolSim::compute_price_from1(&u(1000), &u(1000), &q96, false), Some(u(0)));
    assert_eq!(V3PoolSim::compute_price_from1(&u(1000), &u(0), &q96, true), None);
    assert_eq!(V3PoolSim::compute_price_from0(&u(1000), &u(1000), &q96, true), Some(p2(95)));
    assert_eq!(V3PoolSim::compute_price_from0(&u(1000), &u(1000), &q96, false), None);
}

#[test]
fn v3_liquidity_after_crossing() {
    assert_eq!(V3PoolSim::update_liquidity(u(1000), 400), Some(u(600)));
    assert_eq!(V3PoolSim::update_liquidity(u(1000), 2000), None);
}

#[test]
fn v3_search_ticks() {
    let ticks = vec![
        Tick { tick: -60, liquidityNet: 1 },
        Tick { tick: 0, liquidityNet: 2 },
        Tick { tick: 60, liquidityNet: 3 },
    ];
    assert_eq!(search_ticks(&ticks, 0), Ok(1));
    assert_eq!(search_ticks(&ticks, 30), Err(2));
    assert_eq!(search_ticks(&ticks, -100), Err(0));
    assert_eq!(search_ticks(&ticks, 100), Err(3));
}

#[test]
fn v3_trade_refused_cases_leave_pool() {
    let mut p = V3PoolSim::new(
        addr(7),
        2_000_000,
        "uniswap".to_string(),
        "v3".to_string(),
        token(1),
        token(2),
        60,
        vec![],
        u(1000),
        p2(96),
    );
    assert!(p.trade(u(1000), true).is_none());
    assert_eq!(p.liquidity, u(1000));
    let mut q = V3PoolSim::new(
        addr(8),
        3000,
        "uniswap".to_string(),
        "v3".to_string(),
        token(1),
        token(2),
        60,
        vec![],
        u(1000),
        u(5),
    );
    assert!(q.trade(u(1000), false).is_none());
    assert_eq!(q.x96price, u(5));
}

fn v3_pool(fee: u32, ticks: Vec<Tick>, liquidity: U256, price: U256) -> V3PoolSim {
    V3PoolSim::new(
        addr(9),
        fee,
        "uniswap".to_string(),
        "v3".to_string(),
        token(1),
        token(2),
        60,
        ticks,
        liquidity,
        price,
    )
}

fn ladder() -> Vec<Tick> {
    let l = 100_000_000_000_000_000i128;
    vec![
        Tick { tick: -180, liquidityNet: l },
        Tick { tick: -120, liquidityNet: l },
        Tick { tick: -60, liquidityNet: l },
        Tick { tick: 60, liquidityNet: -l },
        Tick { tick: 120, liquidityNet: -l },
        Tick { tick: 180, liquidityNet: -l },
    ]
}

#[test]
fn v3_trade_sells_token1_inside_a_range() {
    let mut p = v3_pool(3000, ladder(), u(1_000_000_000_000_000_000), p2(96));
    let t = p.trade(u(1_000_000_000_000_000), false).unwrap();
    assert_eq!(t.amount_in, u(1_000_000_000_000_000));
    assert_eq!(t.fee_amount, u(3_000_000_000_000));
    assert_eq!(t.price_impact, u(3_000_000_000_000));
    assert_eq!(t.amount_out, u(996006981039903));
    assert_eq!(t.raw_price, u(996006981039903));
    assert_eq!(t.pool, addr(9));
    assert_eq!(t.token0, addr(1));
    assert_eq!(t.token1, addr(2));
    assert_eq!(t.fee, 3000);
    assert!(!t.from0);
    assert_eq!(t.dex, "uniswap");
    assert_eq!(p.x96price, dec("79307152992291059138124713654"));
    assert_eq!(p.liquidity, u(1_000_000_000_000_000_000));
    assert_eq!(p.active_ticks.len(), 6);
}

#[test]
fn v3_trade_crosses_a_tick() {
    let mut p = v3_pool(0, ladder(), u(1_000_000_000_000_000_000), p2(96));
    let t = p.trade(u(2995354955910780), true).unwrap();
    assert_eq!(t.amount_out, u(3004354062741925));
    assert_eq!(t.fee_amount, u(0));
    assert_eq!(p.x96price, dec("79466191966197645195421774833"));
    assert_eq!(p.liquidity, u(900_000_000_000_000_000));
}

#[test]
fn v3_trade_fee_takes_all() {
    let mut p = v3_pool(1_000_000, ladder(), u(1_000_000_000_000_000_000), p2(96));
    let t = p.trade(u(12345), true).unwrap();
    assert_eq!(t.amount_out, u(0));
    assert_eq!(t.fee_amount, u(12345));
    assert_eq!(p.x96price, p2(96));
    assert_eq!(p.liquidity, u(1_000_000_000_000_000_000));
}

#[test]
fn v3_trade_without_ticks_or_room_quotes_nothing() {
    let mut p = v3_pool(3000, vec![], u(1_000_000_000_000_000_000), p2(96));
    assert!(p.trade(u(1_000_000_000_000_000), true).is_none());
    assert_eq!(p.x96price, p2(96));
    // selling token0 inside a range moves the price below the current one,
    // which the output step refuses
    let mut q = v3_pool(3000, ladder(), u(1_000_000_000_000_000_000), p2(96));
    assert!(q.trade(u(1_000_000_000_000_000), true).is_none());
    assert_eq!(q.x96price, p2(96));
    assert_eq!(q.liquidity, u(1_000_000_000_000_000_000));
    // the walk runs out of ticks below
    let mut r = v3_pool(3000, ladder(), u(1_000_000_000_000_000_000), p2(96));
    assert!(r.trade(u(100_000_000_000_000_000), false).is_none());
    assert_eq!(r.x96price, p2(96));
}

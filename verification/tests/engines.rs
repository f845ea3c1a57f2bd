use amms::{Address, W256};
use amms::amm::AMM;
use amms::erc_4626::ERC4626Vault;
use amms::errors::{ArithmeticError, EventLogError, SwapSimulationError};
use amms::events::{
    EventLog, PAIR_SYNC_TOPIC_HI, PAIR_SYNC_TOPIC_LO, POOL_MINT_TOPIC_HI, POOL_MINT_TOPIC_LO,
    POOL_SWAP_TOPIC_HI, POOL_SWAP_TOPIC_LO, VAULT_DEPOSIT_TOPIC_HI, VAULT_DEPOSIT_TOPIC_LO,
};
use amms::math::{Ratio, WideRatio};
use amms::uniswap_v2::UniswapV2Pool;
use amms::uniswap_v3::{UniswapV3Pool, SQRT_SCALE};

fn addr(n: u8) -> Address {
    Address { hi: 0, lo: n as u128 }
}

fn word(v: u128) -> W256 {
    W256 { hi: 0, lo: v }
}

fn v2_pool() -> UniswapV2Pool {
    let mut p = UniswapV2Pool::new(addr(9), addr(1), addr(2), 2, 2, 30);
    p.apply_reserve_snapshot(1_000_000, 2_000_000, 1);
    p
}

#[test]
fn v2_simulate_swap_scenario() {
    // floor(1000*9970*2_000_000 / (1_000_000*10000 + 1000*9970)) with exact
    // integer arithmetic
    let p = v2_pool();
    assert_eq!(p.simulate_swap(addr(1), 1_000), Ok(1_992));
}

#[test]
fn v2_simulate_swap_reverse_direction() {
    let p = v2_pool();
    assert_eq!(p.simulate_swap(addr(2), 1_000), Ok(498));
}

#[test]
fn v2_zero_liquidity_is_an_error() {
    let p = UniswapV2Pool::new(addr(9), addr(1), addr(2), 2, 2, 30);
    assert_eq!(
        p.simulate_swap(addr(1), 1_000),
        Err(SwapSimulationError::ZeroLiquidity)
    );
}

#[test]
fn v2_simulate_swap_mut_commits_reserves() {
    let mut p = v2_pool();
    assert_eq!(p.simulate_swap_mut(addr(1), 1_000), Ok(1_992));
    assert_eq!(p.reserve_0, 1_001_000);
    assert_eq!(p.reserve_1, 1_998_008);
}

#[test]
fn v2_rate_strictly_worsens() {
    let p = v2_pool();
    let out1 = p.simulate_swap(addr(1), 1_000).unwrap();
    let out2 = p.simulate_swap(addr(1), 2_000).unwrap();
    assert_eq!(out2, 3_980);
    // out1/1000 > out2/2000, by cross multiplication
    assert!(out1 * 2_000 > out2 * 1_000);
}

#[test]
fn v2_round_trip_never_profits() {
    let p = v2_pool();
    let y = p.simulate_swap(addr(1), 1_000).unwrap();
    let z = p.simulate_swap(addr(2), y).unwrap();
    assert_eq!(z, 992);
    assert!(z <= 1_000);
}

#[test]
fn v2_calculate_price_is_exact() {
    let p = v2_pool();
    assert_eq!(
        p.calculate_price(addr(1)),
        Ok(Ratio { num: 200_000_000, den: 100_000_000 })
    );
}

#[test]
fn v2_price_zero_denominator() {
    let p = UniswapV2Pool::new(addr(9), addr(1), addr(2), 2, 2, 30);
    assert_eq!(
        p.calculate_price(addr(1)),
        Err(ArithmeticError::ZeroDenominator)
    );
}

#[test]
fn v2_gradient_at_zero_matches_spot_rate() {
    // at amount zero the derivative is r_out*(10000-fee) / (r_in*10000)
    let p = v2_pool();
    let g = p.gradient(addr(1), 0).unwrap();
    assert_eq!(g.num, W256 { hi: 0, lo: 19_940_000_000 });
    assert_eq!(g.den, W256 { hi: 0, lo: 10_000_000_000 });
    // cross-multiplied equality with 2_000_000*9970 / (1_000_000*10000)
    assert_eq!(
        g.num.lo * (1_000_000u128 * 10_000),
        (2_000_000u128 * 9_970) * g.den.lo
    );
}

#[test]
fn v2_gradient_is_exact_at_positive_amounts() {
    // num = 9970*2e6*1e6*1e4, den = (1e6*1e4 + 1000*9970)^2
    let p = v2_pool();
    let g = p.gradient(addr(1), 1_000).unwrap();
    assert_eq!(g.num, W256 { hi: 0, lo: 199_400_000_000_000_000_000 });
    assert_eq!(g.den, W256 { hi: 0, lo: 10_009_970_000 * 10_009_970_000 });
}

#[test]
fn v2_gradient_defined_wherever_swap_succeeds() {
    // large-but-valid reserves: the wide ratio still carries the derivative
    let mut p = UniswapV2Pool::new(addr(9), addr(1), addr(2), 0, 0, 30);
    p.apply_reserve_snapshot(1u128 << 60, 1u128 << 60, 1);
    assert!(p.simulate_swap(addr(1), 1).is_ok());
    let g = p.gradient(addr(1), 1).unwrap();
    assert!(g.den.hi > 0 || g.den.lo > 0);
}

#[test]
fn v2_sync_from_log_applies_snapshot() {
    let mut p = v2_pool();
    let log = EventLog {
        address: addr(9),
        block_number: 7,
        topic: W256 { hi: PAIR_SYNC_TOPIC_HI, lo: PAIR_SYNC_TOPIC_LO },
        words: vec![word(111), word(222)],
    };
    assert_eq!(p.sync_from_log(log), Ok(()));
    assert_eq!(p.reserve_0, 111);
    assert_eq!(p.reserve_1, 222);
    assert_eq!(p.last_synced, 7);
}

#[test]
fn v2_sync_from_log_ignores_stale_update() {
    let mut p = v2_pool();
    let log = EventLog {
        address: addr(9),
        block_number: 0,
        topic: W256 { hi: PAIR_SYNC_TOPIC_HI, lo: PAIR_SYNC_TOPIC_LO },
        words: vec![word(111), word(222)],
    };
    assert_eq!(p.sync_from_log(log), Ok(()));
    assert_eq!(p.reserve_0, 1_000_000);
}

#[test]
fn v2_sync_from_log_unknown_topic_fails() {
    let mut p = v2_pool();
    let log = EventLog {
        address: addr(9),
        block_number: 7,
        topic: W256 { hi: 0xdead, lo: 0xbeef },
        words: vec![word(111), word(222)],
    };
    assert_eq!(
        p.sync_from_log(log),
        Err(EventLogError::InvalidEventSignature)
    );
    assert_eq!(p.reserve_0, 1_000_000);
}

#[test]
fn v2_sync_from_log_malformed_payload_fails() {
    let mut p = v2_pool();
    let log = EventLog {
        address: addr(9),
        block_number: 7,
        topic: W256 { hi: PAIR_SYNC_TOPIC_HI, lo: PAIR_SYNC_TOPIC_LO },
        words: vec![word(111)],
    };
    assert_eq!(p.sync_from_log(log), Err(EventLogError::MalformedPayload));
}

#[test]
fn v2_storage_round_trip_is_idempotent() {
    let p = v2_pool();
    let d = p.reserves();
    let mut q = p.clone();
    assert_eq!(q.sync_from_storage(&d), Some(()));
    assert!(q.reserves().equals(&d));
}

#[test]
fn v2_storage_unrecognized_diff_is_absent_not_error() {
    let mut p = v2_pool();
    let mut m = amms::storage::StorageMap::new();
    m.append(3, word(55));
    assert_eq!(p.sync_from_storage(&m), None);
    assert_eq!(p.reserve_0, 1_000_000);
}

fn vault() -> ERC4626Vault {
    let mut v = ERC4626Vault::new(addr(5), 2, addr(6), 2);
    v.apply_totals_snapshot(1_000, 2_000, 1);
    v
}

#[test]
fn vault_deposit_and_redeem_round() {
    let v = vault();
    // deposit 100 assets: floor(100*1000/2000) = 50 shares
    assert_eq!(v.simulate_swap(addr(6), 100), Ok(50));
    // redeem 50 shares: floor(50*2000/1000) = 100 assets
    assert_eq!(v.simulate_swap(addr(5), 50), Ok(100));
}

#[test]
fn vault_empty_uses_default_rate() {
    let v = ERC4626Vault::new(addr(5), 2, addr(6), 2);
    assert_eq!(v.simulate_swap(addr(6), 500), Ok(500));
    assert_eq!(
        v.simulate_swap(addr(5), 500),
        Err(SwapSimulationError::ZeroLiquidity)
    );
    assert_eq!(v.calculate_price(addr(5)), Ok(Ratio { num: 1, den: 1 }));
}

#[test]
fn vault_simulate_swap_mut_commits_totals() {
    let mut v = vault();
    assert_eq!(v.simulate_swap_mut(addr(6), 100), Ok(50));
    assert_eq!(v.vault_reserve, 1_050);
    assert_eq!(v.asset_reserve, 2_100);
}

#[test]
fn vault_gradient_is_reserve_ratio() {
    let v = vault();
    assert_eq!(
        v.gradient(addr(5), 123),
        Ok(WideRatio {
            num: W256 { hi: 0, lo: 2_000 },
            den: W256 { hi: 0, lo: 1_000 },
        })
    );
    assert_eq!(
        v.gradient(addr(6), 123),
        Ok(WideRatio {
            num: W256 { hi: 0, lo: 1_000 },
            den: W256 { hi: 0, lo: 2_000 },
        })
    );
}

#[test]
fn vault_redeem_is_capped_by_outstanding_shares() {
    let mut v = ERC4626Vault::new(addr(5), 2, addr(6), 2);
    v.apply_totals_snapshot(1, 0, 1);
    // the pure projection and the committing one agree on the whole domain
    assert_eq!(
        v.simulate_swap(addr(5), 5),
        Err(SwapSimulationError::AmountOutOfRange)
    );
    let mut w = v.clone();
    assert_eq!(
        w.simulate_swap_mut(addr(5), 5),
        Err(SwapSimulationError::AmountOutOfRange)
    );
    assert_eq!(w.vault_reserve, 1);
}

#[test]
fn vault_gradient_error_domain_matches_simulation() {
    let mut v = ERC4626Vault::new(addr(5), 2, addr(6), 2);
    v.apply_totals_snapshot(1, 2, 1);
    assert_eq!(
        v.simulate_swap(addr(5), u128::MAX),
        Err(SwapSimulationError::AmountOutOfRange)
    );
    assert_eq!(
        v.gradient(addr(5), u128::MAX),
        Err(SwapSimulationError::AmountOutOfRange)
    );
    assert!(v.gradient(addr(5), 1).is_ok());
}

#[test]
fn vault_sync_from_log_applies_totals() {
    let mut v = vault();
    let log = EventLog {
        address: addr(5),
        block_number: 9,
        topic: W256 { hi: VAULT_DEPOSIT_TOPIC_HI, lo: VAULT_DEPOSIT_TOPIC_LO },
        words: vec![word(4_000), word(9_000)],
    };
    assert_eq!(v.sync_from_log(log), Ok(()));
    assert_eq!(v.vault_reserve, 4_000);
    assert_eq!(v.asset_reserve, 9_000);
}

#[test]
fn vault_sync_from_log_unknown_topic_fails() {
    let mut v = vault();
    let log = EventLog {
        address: addr(5),
        block_number: 9,
        topic: W256 { hi: 1, lo: 2 },
        words: vec![word(4_000), word(9_000)],
    };
    assert_eq!(
        v.sync_from_log(log),
        Err(EventLogError::InvalidEventSignature)
    );
}

#[test]
fn vault_storage_round_trip_is_idempotent() {
    let v = vault();
    let d = v.reserves();
    let mut w = v.clone();
    assert_eq!(w.sync_from_storage(&d), Some(()));
    assert!(w.reserves().equals(&d));
}

fn v3_pool() -> UniswapV3Pool {
    // two known boundaries around the active range:
    //   tick -100 at sqrt price 1*SCALE with net +500
    //   tick  100 at sqrt price 3*SCALE with net -500
    // current state: tick 0, sqrt price 2*SCALE, active liquidity 1000
    let mut p = UniswapV3Pool::new(addr(9), addr(1), addr(2), 0, 0, 0, 10);
    assert!(p.load_tick(-100, SQRT_SCALE, 500));
    assert!(p.load_tick(100, 3 * SQRT_SCALE, -500));
    assert!(p.apply_slot0_snapshot(2 * SQRT_SCALE, 0, 1_000, 1));
    p
}

#[test]
fn v3_swap_within_range() {
    let p = v3_pool();
    // new sqrt = ceil(1000*S*2S / (1000*S + 100*2S)) = ceil(5S/3);
    // out = floor(1000*(2S - ceil(5S/3))/S) = 333
    assert_eq!(p.simulate_swap(addr(1), 100), Ok(333));
}

#[test]
fn v3_exact_boundary_swap_crosses_one_tick() {
    // input sized exactly to reach the lower boundary:
    // ceil(1000*S*(2S-S)/(2S*S)) = 500
    let mut p = v3_pool();
    assert_eq!(p.simulate_swap_mut(addr(1), 500), Ok(1_000));
    assert_eq!(p.sqrt_price, SQRT_SCALE);
    assert_eq!(p.tick, -101);
    // active liquidity changed by exactly that tick's liquidity-net
    assert_eq!(p.liquidity, 500);
    // the boundary itself is untouched
    assert_eq!(p.ticks[0].liquidity_net, 500);
}

#[test]
fn v3_running_past_known_ticks_fails() {
    let p = v3_pool();
    assert_eq!(
        p.simulate_swap(addr(1), 2_000),
        Err(SwapSimulationError::TickRangeExhausted)
    );
}

#[test]
fn v3_upward_swap_pays_token_zero() {
    let p = v3_pool();
    // token1 in, price rises toward 3*SCALE
    let out = p.simulate_swap(addr(2), 100).unwrap();
    // delta = floor(100*S/1000) = S/10; out = floor(1000*S*(nsq-sq)/(sq*nsq))
    assert_eq!(out, 23);
}

#[test]
fn v3_sync_from_log_swap_applies_triple() {
    let mut p = v3_pool();
    let log = EventLog {
        address: addr(9),
        block_number: 4,
        topic: W256 { hi: POOL_SWAP_TOPIC_HI, lo: POOL_SWAP_TOPIC_LO },
        words: vec![
            word(2 * SQRT_SCALE + 7),
            word(887273), // tick 0
            word(1_234),
        ],
    };
    assert_eq!(p.sync_from_log(log), Ok(()));
    assert_eq!(p.sqrt_price, 2 * SQRT_SCALE + 7);
    assert_eq!(p.tick, 0);
    assert_eq!(p.liquidity, 1_234);
}

#[test]
fn v3_sync_from_log_unknown_topic_fails() {
    let mut p = v3_pool();
    let log = EventLog {
        address: addr(9),
        block_number: 4,
        topic: W256 { hi: 77, lo: 88 },
        words: vec![word(1), word(887273), word(1)],
    };
    assert_eq!(
        p.sync_from_log(log),
        Err(EventLogError::InvalidEventSignature)
    );
}

#[test]
fn v3_mint_event_adjusts_boundary_nets_and_liquidity() {
    let mut p = v3_pool();
    let log = EventLog {
        address: addr(9),
        block_number: 4,
        topic: W256 { hi: POOL_MINT_TOPIC_HI, lo: POOL_MINT_TOPIC_LO },
        words: vec![
            word(887273 - 100), // lower tick -100
            word(887273 + 100), // upper tick 100
            word(250),
        ],
    };
    assert_eq!(p.sync_from_log(log), Ok(()));
    assert_eq!(p.ticks[0].liquidity_net, 750);
    assert_eq!(p.ticks[1].liquidity_net, -750);
    // the range straddles the current tick, so active liquidity moves too
    assert_eq!(p.liquidity, 1_250);
}

#[test]
fn v3_mint_at_unknown_boundary_fails() {
    let mut p = v3_pool();
    let log = EventLog {
        address: addr(9),
        block_number: 4,
        topic: W256 { hi: POOL_MINT_TOPIC_HI, lo: POOL_MINT_TOPIC_LO },
        words: vec![word(887273 - 55), word(887273 + 100), word(250)],
    };
    assert_eq!(p.sync_from_log(log), Err(EventLogError::MalformedPayload));
}

#[test]
fn v3_storage_round_trip_is_idempotent() {
    let p = v3_pool();
    let d = p.reserves();
    let mut q = p.clone();
    assert_eq!(q.sync_from_storage(&d), Some(()));
    assert!(q.reserves().equals(&d));
}

#[test]
fn v3_storage_rehydrates_ticks() {
    let p = v3_pool();
    let d = p.reserves();
    // a fresh mirror fed the full export reproduces price, tick, liquidity
    // and the whole sparse tick mapping
    let mut q = UniswapV3Pool::new(addr(9), addr(1), addr(2), 0, 0, 0, 10);
    assert_eq!(q.sync_from_storage(&d), Some(()));
    assert!(q.reserves().equals(&d));
    assert_eq!(q.liquidity, 1_000);
    assert_eq!(q.ticks.len(), 2);
}

#[test]
fn v3_calculate_price_squares_the_sqrt_price() {
    let p = v3_pool();
    assert_eq!(
        p.calculate_price(addr(1)),
        Ok(Ratio {
            num: 4 * SQRT_SCALE * SQRT_SCALE,
            den: SQRT_SCALE * SQRT_SCALE,
        })
    );
}

#[test]
fn v3_gradient_at_zero_is_fee_scaled_price() {
    let p = v3_pool();
    let g = p.gradient(addr(1), 0).unwrap();
    // fee 0: derivative equals the price, 4, as an exact ratio
    assert_eq!(g.num, W256 { hi: 0, lo: 1_000_000 * 4 * SQRT_SCALE * SQRT_SCALE });
    assert_eq!(g.den, W256 { hi: 0, lo: 1_000_000 * SQRT_SCALE * SQRT_SCALE });
}

#[test]
fn check_wf_accepts_valid_and_rejects_broken_mirrors() {
    assert!(v3_pool().check_wf());
    assert!(v2_pool().check_wf());
    assert!(vault().check_wf());
    let mut broken = v3_pool();
    broken.sqrt_price = 0;
    assert!(!broken.check_wf());
    let mut unsorted = v3_pool();
    unsorted.ticks.reverse();
    assert!(!unsorted.check_wf());
    assert!(AMM::UniswapV2Pool(v2_pool()).check_wf());
}

#[test]
fn dispatcher_equality_is_address_only() {
    let a = AMM::UniswapV2Pool(v2_pool());
    let mut other = v2_pool();
    other.apply_reserve_snapshot(5, 5, 2);
    let b = AMM::UniswapV2Pool(other);
    assert!(a == b);
    let c = AMM::ERC4626Vault(ERC4626Vault::new(addr(9), 2, addr(6), 2));
    assert!(a == c);
    let d = AMM::ERC4626Vault(vault());
    assert!(a != d);
}

#[test]
fn dispatcher_forwards_every_operation() {
    let mut a = AMM::UniswapV2Pool(v2_pool());
    assert_eq!(a.address(), addr(9));
    assert_eq!(a.tokens(), vec![addr(1), addr(2)]);
    assert_eq!(a.sync_on_event_signatures().len(), 1);
    assert_eq!(a.simulate_swap(addr(1), 1_000), Ok(1_992));
    assert_eq!(a.simulate_swap_mut(addr(1), 1_000), Ok(1_992));
    assert_eq!(a.get_token_out(addr(1)), addr(2));
    assert_eq!(a.opp_token(addr(2)), Some(addr(1)));
    assert_eq!(a.opp_token(addr(7)), None);
    let g = a.gradient(addr(1), 0).unwrap();
    assert!(g.den.lo > 0);
    let d = a.reserves();
    assert_eq!(a.sync_from_storage(&d), Some(()));
}

#[test]
fn dispatcher_unknown_topic_is_never_a_silent_no_op() {
    let mut a = AMM::UniswapV3Pool(v3_pool());
    let log = EventLog {
        address: addr(9),
        block_number: 4,
        topic: W256 { hi: 3, lo: 4 },
        words: vec![],
    };
    assert_eq!(
        a.sync_from_log(log),
        Err(EventLogError::InvalidEventSignature)
    );
}

#[test]
fn storage_map_lookup() {
    let mut m = amms::storage::StorageMap::new();
    m.append(1, word(10));
    m.append(8, word(80));
    assert_eq!(m.get(8), Some(word(80)));
    assert_eq!(m.get(2), None);
}

#[test]
fn v2_price_overflow_is_reported() {
    let mut p = UniswapV2Pool::new(addr(9), addr(1), addr(2), 38, 38, 30);
    p.apply_reserve_snapshot(
        100_000_000_000_000_000_000,
        100_000_000_000_000_000_000,
        1,
    );
    assert_eq!(p.calculate_price(addr(1)), Err(ArithmeticError::Overflow));
}

#[test]
fn v2_amount_out_of_range_is_reported() {
    let p = v2_pool();
    assert_eq!(
        p.simulate_swap(addr(1), u128::MAX),
        Err(SwapSimulationError::AmountOutOfRange)
    );
}

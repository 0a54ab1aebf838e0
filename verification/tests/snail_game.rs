use snail::snail_game::{
    check_current_market_cap, check_required_market_cap, initialize, touch_snail, GameState,
    SnailError, SnailTouched,
};

fn key(b: u8) -> [u8; 32] {
    [b; 32]
}

fn game(start: i64, end: i64, target: u64, curve_factor: u64) -> GameState {
    initialize(key(1), start, end, target, curve_factor, key(2), key(3), key(4)).unwrap()
}

#[test]
fn initialize_stores_the_settings() {
    let state = initialize(key(1), 1000, 2000, 1_000_000, 77, key(2), key(3), key(4)).unwrap();
    assert_eq!(
        state,
        GameState {
            owner: key(1),
            snail_start_stamp: 1000,
            snail_end_stamp: 2000,
            target_market_cap: 1_000_000,
            curve_factor: 77,
            usdc_lp: key(2),
            snail_lp: key(3),
            snail_mint: key(4),
            configured: true,
            frozen: false,
        }
    );
}

#[test]
fn initialize_rejects_a_window_that_does_not_end_after_its_start() {
    let r = initialize(key(1), 2000, 2000, 1, 0, key(2), key(3), key(4));
    assert_eq!(r, Err(SnailError::InvalidTimestamps));
    let r = initialize(key(1), 2000, 1999, 1, 0, key(2), key(3), key(4));
    assert_eq!(r, Err(SnailError::InvalidTimestamps));
    // The window is checked before the curve factor.
    let r = initialize(key(1), 5, 5, 1, 101, key(2), key(3), key(4));
    assert_eq!(r, Err(SnailError::InvalidTimestamps));
    assert!(initialize(key(1), 2000, 2001, 1, 0, key(2), key(3), key(4)).is_ok());
}

#[test]
fn initialize_rejects_a_curve_factor_above_one_hundred() {
    let r = initialize(key(1), 0, 10, 1, 101, key(2), key(3), key(4));
    assert_eq!(r, Err(SnailError::InvalidCurveFactor));
    let r = initialize(key(1), 0, 10, 1, u64::MAX, key(2), key(3), key(4));
    assert_eq!(r, Err(SnailError::InvalidCurveFactor));
    assert!(initialize(key(1), 0, 10, 1, 100, key(2), key(3), key(4)).is_ok());
}

#[test]
fn scenario_linear_curve_midpoint() {
    let state = game(1000, 2000, 1_000_000, 0);
    assert_eq!(check_required_market_cap(&state, 1500), Ok(500_000));
    assert_eq!(check_required_market_cap(&state, 999), Ok(0));
    assert_eq!(check_required_market_cap(&state, 2000), Ok(0));
}

#[test]
fn required_is_zero_at_the_start_and_outside_the_window() {
    for curve_factor in [0u64, 25, 77, 100] {
        let state = game(1000, 2000, 1_000_000, curve_factor);
        assert_eq!(check_required_market_cap(&state, 1000), Ok(0));
        assert_eq!(check_required_market_cap(&state, i64::MIN), Ok(0));
        assert_eq!(check_required_market_cap(&state, 2001), Ok(0));
        assert_eq!(check_required_market_cap(&state, i64::MAX), Ok(0));
    }
}

#[test]
fn required_is_zero_while_not_configured() {
    let mut state = game(1000, 2000, 1_000_000, 0);
    state.configured = false;
    assert_eq!(check_required_market_cap(&state, 1500), Ok(0));
}

#[test]
fn required_follows_the_curve() {
    assert_eq!(check_required_market_cap(&game(1000, 2000, 1_000_000, 100), 1500), Ok(31_250));
    assert_eq!(check_required_market_cap(&game(1000, 2000, 1_000_000, 25), 1750), Ok(562_500));
    assert_eq!(check_required_market_cap(&game(1000, 2000, 1_000_000, 77), 1999), Ok(995_926));
    assert_eq!(check_required_market_cap(&game(1000, 2000, 1_000_000, 10), 1250), Ok(175_000));
}

#[test]
fn required_with_a_window_that_ends_at_zero() {
    let state = game(-100, 0, 1000, 0);
    assert_eq!(check_required_market_cap(&state, -50), Ok(500));
    assert_eq!(check_required_market_cap(&state, 0), Ok(0));
}

#[test]
fn required_with_the_widest_window() {
    let state = game(i64::MIN, i64::MAX, u64::MAX, 100);
    assert_eq!(check_required_market_cap(&state, i64::MAX - 1), Ok(18_446_744_073_709_551_522));
    let state = game(i64::MIN, i64::MAX, u64::MAX, 0);
    assert_eq!(check_required_market_cap(&state, 0), Ok(9_223_372_036_854_775_807));
}

#[test]
fn required_does_not_fall_within_the_window() {
    for curve_factor in [0u64, 1, 33, 77, 100] {
        let state = game(1000, 2000, 987_654_321, curve_factor);
        let mut last = 0u64;
        for t in 1000..2000 {
            let v = check_required_market_cap(&state, t).unwrap();
            assert!(last <= v);
            assert!(v <= 987_654_321);
            last = v;
        }
    }
}

#[test]
fn current_market_cap_needs_a_configured_game() {
    let mut state = game(1000, 2000, 1_000_000, 0);
    state.configured = false;
    assert_eq!(check_current_market_cap(&state, 1, 1, 1), Err(SnailError::NotConfigured));
    assert_eq!(check_current_market_cap(&state, 1, 0, 1), Err(SnailError::NotConfigured));
}

#[test]
fn current_market_cap_is_zero_for_an_empty_reserve() {
    let state = game(1000, 2000, 1_000_000, 0);
    assert_eq!(check_current_market_cap(&state, 5, 0, 7), Ok(0));
}

#[test]
fn current_market_cap_is_reserve_times_supply_over_reserve() {
    let state = game(1000, 2000, 1_000_000, 0);
    assert_eq!(check_current_market_cap(&state, 10, 4, 50_000), Ok(125_000));
    assert_eq!(check_current_market_cap(&state, 7, 3, 1), Ok(2));
    assert_eq!(check_current_market_cap(&state, u64::MAX, u64::MAX, u64::MAX), Ok(u64::MAX));
}

#[test]
fn current_market_cap_is_cut_to_64_bits() {
    let state = game(1000, 2000, 1_000_000, 0);
    assert_eq!(check_current_market_cap(&state, u64::MAX, 1, u64::MAX), Ok(1));
    assert_eq!(check_current_market_cap(&state, u64::MAX, 2, 3), Ok(9_223_372_036_854_775_806));
}

#[test]
fn touch_fires_when_the_market_is_at_or_below_the_required_value() {
    let mut state = game(1000, 2000, 1_000_000, 0);
    let before = state;
    let r = touch_snail(&mut state, 1500, 10, 1, 50_000);
    assert_eq!(r, Ok(SnailTouched { current_market_cap: 500_000, required_market_cap: 500_000 }));
    assert_eq!(state, GameState { frozen: true, ..before });

    let mut state = game(1000, 2000, 1_000_000, 0);
    let r = touch_snail(&mut state, 1500, 0, 1, 50_000);
    assert_eq!(r, Ok(SnailTouched { current_market_cap: 0, required_market_cap: 500_000 }));
    assert!(state.frozen);
}

#[test]
fn touch_is_rejected_while_the_market_is_above_the_required_value() {
    let mut state = game(1000, 2000, 1_000_000, 0);
    let before = state;
    let r = touch_snail(&mut state, 1500, 500_001, 1, 1);
    assert_eq!(r, Err(SnailError::MarketCapTooHigh));
    assert_eq!(state, before);
    // The valuation is compared in full, not cut to 64 bits.
    let r = touch_snail(&mut state, 1500, u64::MAX, 1, u64::MAX);
    assert_eq!(r, Err(SnailError::MarketCapTooHigh));
    assert_eq!(state, before);
}

#[test]
fn touch_is_rejected_a_second_time() {
    let mut state = game(1000, 2000, 1_000_000, 0);
    assert!(touch_snail(&mut state, 1500, 10, 1, 50_000).is_ok());
    let frozen = state;
    assert_eq!(touch_snail(&mut state, 1500, 10, 1, 50_000), Err(SnailError::AlreadyFrozen));
    assert_eq!(touch_snail(&mut state, 1900, 0, 1, 0), Err(SnailError::AlreadyFrozen));
    assert_eq!(state, frozen);
    assert!(state.frozen);
}

#[test]
fn touch_needs_a_configured_game() {
    let mut state = game(1000, 2000, 1_000_000, 0);
    state.configured = false;
    let before = state;
    assert_eq!(touch_snail(&mut state, 1500, 10, 1, 50_000), Err(SnailError::NotConfigured));
    assert_eq!(state, before);
}

#[test]
fn touch_needs_a_reserve() {
    let mut state = game(1000, 2000, 1_000_000, 0);
    let before = state;
    assert_eq!(touch_snail(&mut state, 1500, 10, 0, 50_000), Err(SnailError::InvalidReserves));
    assert_eq!(state, before);
}

#[test]
fn touch_needs_a_required_value_above_zero() {
    let mut state = game(1000, 2000, 1_000_000, 0);
    let before = state;
    assert_eq!(touch_snail(&mut state, 999, 0, 1, 0), Err(SnailError::InvalidTimestamps));
    assert_eq!(touch_snail(&mut state, 1000, 0, 1, 0), Err(SnailError::InvalidTimestamps));
    assert_eq!(touch_snail(&mut state, 2000, 0, 1, 0), Err(SnailError::InvalidTimestamps));
    assert_eq!(state, before);
    // A target so small that the curve rounds it to nothing.
    let mut state = game(1000, 2000, 1, 0);
    assert_eq!(touch_snail(&mut state, 1500, 0, 1, 0), Err(SnailError::InvalidTimestamps));
}

//! The snail game: a target valuation that rises along a curve over a fixed
//! window, and a one-time trigger that fires once the market falls to it.

use vstd::prelude::*;
use crate::curve::{pow, pow_spec, lemma_pow_of_small_base, lemma_pow_ordered_by_base, WAD};
use crate::pubkey::Pubkey;

verus! {

/// What one tenth of a curve factor adds to the exponent: 0.04 on the scale of
/// [`WAD`].
pub const EXPONENT_STEP: u128 = 40_000_000_000_000_000;

/// The largest curve factor, which stands for 10.0.
pub const MAX_CURVE_FACTOR: u64 = 100;

/// Two to the power 64: the values a `u64` can tell apart.
pub const U64_RANGE: u128 = 0x1_0000_0000_0000_0000;

/// The game's one record.
///
/// `frozen` is the only field that changes after the record is made, once and
/// only from `false` to `true`.
#[derive(Clone, Copy, Debug, PartialEq, Eq)]
pub struct GameState {
    pub owner: Pubkey,
    pub snail_start_stamp: i64,
    pub snail_end_stamp: i64,
    pub target_market_cap: u64,
    /// In tenths: 77 stands for 7.7.
    pub curve_factor: u64,
    pub usdc_lp: Pubkey,
    pub snail_lp: Pubkey,
    pub snail_mint: Pubkey,
    pub configured: bool,
    pub frozen: bool,
}

impl GameState {
    /// The bytes that the record takes when stored, with its tag of eight
    /// bytes.
    pub const LEN: usize = 8 + 32 + 8 + 8 + 8 + 8 + 32 + 32 + 32 + 1 + 1;
}

/// What a successful touch reports: the two valuations it compared.
#[derive(Clone, Copy, Debug, PartialEq, Eq)]
pub struct SnailTouched {
    pub current_market_cap: u64,
    pub required_market_cap: u64,
}

/// Why an operation of the game was rejected.
#[derive(Clone, Copy, Debug, PartialEq, Eq)]
pub enum SnailError {
    Unauthorized,
    InvalidTimestamps,
    InvalidCurveFactor,
    NotConfigured,
    AlreadyFrozen,
    MarketCapTooHigh,
    InvalidReserves,
    MathOverflow,
}

/// The share of the window that has passed at `timestamp`, on the scale of
/// [`WAD`], for a time within the window.
pub open spec fn progress_spec(start: int, end: int, timestamp: int) -> int {
    (timestamp - start) * (WAD as int) / (end - start)
}

/// The exponent of the curve: one plus 0.04 for each tenth of the curve factor.
pub open spec fn exponent_spec(curve_factor: int) -> int {
    WAD + curve_factor * (EXPONENT_STEP as int)
}

/// The share of the target that is required at `timestamp`, on the scale of
/// [`WAD`]: the progress through the window, raised to the curve's exponent.
pub open spec fn curved_progress_spec(state: GameState, timestamp: int) -> int {
    pow_spec(
        progress_spec(state.snail_start_stamp as int, state.snail_end_stamp as int, timestamp),
        exponent_spec(state.curve_factor as int),
    )->0
}

/// Whether `timestamp` lies in the window of a configured game: from the start
/// on, and before the end.
pub open spec fn in_window(state: GameState, timestamp: int) -> bool {
    state.configured && state.snail_start_stamp <= timestamp < state.snail_end_stamp
}

/// The valuation that the game requires at `timestamp`: zero outside the
/// window, and within it the target scaled by the curved progress.
pub open spec fn required_market_cap_spec(state: GameState, timestamp: int) -> int {
    if in_window(state, timestamp) {
        state.target_market_cap * curved_progress_spec(state, timestamp) / (WAD as int)
    } else {
        0
    }
}

/// The market's valuation of the whole supply: the reserve of the quote asset
/// times the supply, divided by the reserve of the token; zero where that
/// reserve is empty.
pub open spec fn current_market_cap_spec(
    usdc_reserve: int,
    snail_reserve: int,
    total_supply: int,
) -> int {
    if snail_reserve == 0 {
        0
    } else {
        usdc_reserve * total_supply / snail_reserve
    }
}

/// The record that `initialize` makes of valid settings.
pub open spec fn configured_state(
    owner: Pubkey,
    snail_start_stamp: i64,
    snail_end_stamp: i64,
    target_market_cap: u64,
    curve_factor: u64,
    usdc_lp: Pubkey,
    snail_lp: Pubkey,
    snail_mint: Pubkey,
) -> GameState {
    GameState {
        owner,
        snail_start_stamp,
        snail_end_stamp,
        target_market_cap,
        curve_factor,
        usdc_lp,
        snail_lp,
        snail_mint,
        configured: true,
        frozen: false,
    }
}

/// Whether a record holds settings that `initialize` accepts.
pub open spec fn well_configured(state: GameState) -> bool {
    &&& state.configured
    &&& state.snail_start_stamp < state.snail_end_stamp
    &&& state.curve_factor <= MAX_CURVE_FACTOR
}

/// What a touch at `timestamp` comes to, given the reserves and the supply
/// that it reads. The checks are made in this order.
pub open spec fn touch_outcome(
    state: GameState,
    timestamp: int,
    usdc_reserve: int,
    snail_reserve: int,
    total_supply: int,
) -> Result<SnailTouched, SnailError> {
    let current = current_market_cap_spec(usdc_reserve, snail_reserve, total_supply);
    let required = required_market_cap_spec(state, timestamp);
    if !state.configured {
        Err(SnailError::NotConfigured)
    } else if state.frozen {
        Err(SnailError::AlreadyFrozen)
    } else if snail_reserve == 0 {
        Err(SnailError::InvalidReserves)
    } else if required == 0 {
        Err(SnailError::InvalidTimestamps)
    } else if current > required {
        Err(SnailError::MarketCapTooHigh)
    } else {
        Ok(
            SnailTouched {
                current_market_cap: current as u64,
                required_market_cap: required as u64,
            },
        )
    }
}

/// The record after the trigger has fired.
pub open spec fn frozen_state(state: GameState) -> GameState {
    GameState { frozen: true, ..state }
}

/// Makes the game's record. The end of the window must lie after its start, and
/// the curve factor may not exceed [`MAX_CURVE_FACTOR`].
pub fn initialize(
    owner: Pubkey,
    snail_start_stamp: i64,
    snail_end_stamp: i64,
    target_market_cap: u64,
    curve_factor: u64,
    usdc_lp: Pubkey,
    snail_lp: Pubkey,
    snail_mint: Pubkey,
) -> (r: Result<GameState, SnailError>)
    ensures
        snail_end_stamp <= snail_start_stamp ==> r == Err::<GameState, SnailError>(
            SnailError::InvalidTimestamps,
        ),
        snail_end_stamp > snail_start_stamp && curve_factor > MAX_CURVE_FACTOR ==> r == Err::<
            GameState,
            SnailError,
        >(SnailError::InvalidCurveFactor),
        snail_end_stamp > snail_start_stamp && curve_factor <= MAX_CURVE_FACTOR ==> r == Ok::<
            GameState,
            SnailError,
        >(
            configured_state(
                owner,
                snail_start_stamp,
                snail_end_stamp,
                target_market_cap,
                curve_factor,
                usdc_lp,
                snail_lp,
                snail_mint,
            ),
        ),
        r matches Ok(state) ==> well_configured(state),
{
    if snail_end_stamp <= snail_start_stamp {
        return Err(SnailError::InvalidTimestamps);
    }
    if curve_factor > MAX_CURVE_FACTOR {
        return Err(SnailError::InvalidCurveFactor);
    }
    Ok(
        GameState {
            owner,
            snail_start_stamp,
            snail_end_stamp,
            target_market_cap,
            curve_factor,
            usdc_lp,
            snail_lp,
            snail_mint,
            configured: true,
            frozen: false,
        },
    )
}

/// Within the window the progress lies below one.
proof fn lemma_progress_bounds(start: int, end: int, timestamp: int)
    requires
        start <= timestamp < end,
    ensures
        0 <= progress_spec(start, end, timestamp) < WAD,
{
    let elapsed = timestamp - start;
    let duration = end - start;
    let scaled = elapsed * (WAD as int);
    assert(0 <= scaled / duration < WAD) by (nonlinear_arith)
        requires
            0 <= scaled,
            0 < duration,
            scaled < duration * (WAD as int),
    ;
}

/// The required valuation never exceeds the target.
pub proof fn lemma_required_within_target(state: GameState, timestamp: int)
    ensures
        0 <= required_market_cap_spec(state, timestamp) <= state.target_market_cap,
{
    if in_window(state, timestamp) {
        lemma_progress_bounds(
            state.snail_start_stamp as int,
            state.snail_end_stamp as int,
            timestamp,
        );
        lemma_pow_of_small_base(
            progress_spec(state.snail_start_stamp as int, state.snail_end_stamp as int, timestamp),
            exponent_spec(state.curve_factor as int),
        );
        let curved = curved_progress_spec(state, timestamp);
        let target = state.target_market_cap as int;
        assert(0 <= target * curved <= target * (WAD as int)) by (nonlinear_arith)
            requires
                0 <= target,
                0 <= curved <= WAD,
        ;
    }
}

/// The required valuation on the curve within the window, as 128-bit numbers.
fn required_in_window(state: &GameState, timestamp: i64) -> (r: Result<u128, SnailError>)
    requires
        state.snail_start_stamp <= timestamp < state.snail_end_stamp,
    ensures
        r is Ok,
        r->Ok_0 == state.target_market_cap * curved_progress_spec(*state, timestamp as int) / (
        WAD as int),
        r->Ok_0 <= state.target_market_cap,
{
    let elapsed: u128 = (timestamp as i128 - state.snail_start_stamp as i128) as u128;
    let duration: u128 = (state.snail_end_stamp as i128 - state.snail_start_stamp as i128) as u128;
    let progress: u128 = elapsed * WAD / duration;
    let exponent: u128 = WAD + (state.curve_factor as u128) * EXPONENT_STEP;
    proof {
        lemma_progress_bounds(
            state.snail_start_stamp as int,
            state.snail_end_stamp as int,
            timestamp as int,
        );
        lemma_pow_of_small_base(progress as int, exponent as int);
    }
    let curved_progress: u128 = match pow(progress, exponent) {
        Ok(v) => v,
        Err(e) => {
            return Err(e);
        },
    };
    assert(0 <= state.target_market_cap * curved_progress <= state.target_market_cap * (
    WAD as int)) by (nonlinear_arith)
        requires
            0 <= curved_progress <= WAD,
    ;
    Ok((state.target_market_cap as u128) * curved_progress / WAD)
}

/// The valuation that the game requires at `timestamp`: zero where the game is
/// not configured, before the start and from the end on; within the window the
/// target, scaled by the progress through the window raised to the curve's
/// exponent.
pub fn check_required_market_cap(state: &GameState, timestamp: i64) -> (r: Result<u64, SnailError>)
    ensures
        r == Ok::<u64, SnailError>(required_market_cap_spec(*state, timestamp as int) as u64),
        required_market_cap_spec(*state, timestamp as int) <= u64::MAX,
{
    if !state.configured {
        return Ok(0);
    }
    if timestamp < state.snail_start_stamp || timestamp >= state.snail_end_stamp {
        return Ok(0);
    }
    match required_in_window(state, timestamp) {
        Ok(required) => Ok(required as u64),
        Err(e) => Err(e),
    }
}

/// The market's valuation of the whole supply, cut to 64 bits: the reserve of
/// the quote asset times the supply, divided by the reserve of the token, and
/// zero where that reserve is empty. An unconfigured game gives
/// `NotConfigured`.
pub fn check_current_market_cap(
    state: &GameState,
    usdc_reserve: u64,
    snail_reserve: u64,
    total_supply: u64,
) -> (r: Result<u64, SnailError>)
    ensures
        !state.configured ==> r == Err::<u64, SnailError>(SnailError::NotConfigured),
        state.configured ==> r == Ok::<u64, SnailError>(
            (current_market_cap_spec(
                usdc_reserve as int,
                snail_reserve as int,
                total_supply as int,
            ) % (U64_RANGE as int)) as u64,
        ),
{
    if !state.configured {
        return Err(SnailError::NotConfigured);
    }
    if snail_reserve == 0 {
        return Ok(0);
    }
    let market_cap: u128 = current_market_cap(usdc_reserve, snail_reserve, total_supply);
    Ok((market_cap % U64_RANGE) as u64)
}

/// The market's valuation of the whole supply in full, for a reserve of the
/// token that is not empty.
fn current_market_cap(usdc_reserve: u64, snail_reserve: u64, total_supply: u64) -> (r: u128)
    requires
        snail_reserve != 0,
    ensures
        r == current_market_cap_spec(usdc_reserve as int, snail_reserve as int, total_supply as int),
{
    assert(0 <= usdc_reserve * total_supply <= 0xFFFF_FFFF_FFFF_FFFF * 0xFFFF_FFFF_FFFF_FFFF)
        by (nonlinear_arith)
        requires
            0 <= usdc_reserve <= 0xFFFF_FFFF_FFFF_FFFF,
            0 <= total_supply <= 0xFFFF_FFFF_FFFF_FFFF,
    ;
    (usdc_reserve as u128) * (total_supply as u128) / (snail_reserve as u128)
}

/// Fires the trigger if the market has fallen to the required valuation.
///
/// The game must be configured and not yet frozen, the token's reserve must not
/// be empty, the time must lie where the required valuation is above zero, and
/// the market's valuation may not exceed the required one. Then `frozen` is
/// set, for good, and the two valuations are returned; otherwise the record
/// stays as it was.
pub fn touch_snail(
    state: &mut GameState,
    timestamp: i64,
    usdc_reserve: u64,
    snail_reserve: u64,
    total_supply: u64,
) -> (r: Result<SnailTouched, SnailError>)
    ensures
        r == touch_outcome(
            *old(state),
            timestamp as int,
            usdc_reserve as int,
            snail_reserve as int,
            total_supply as int,
        ),
        r is Ok ==> *final(state) == frozen_state(*old(state)),
        r is Err ==> *final(state) == *old(state),
        r matches Ok(event) ==> event.current_market_cap == current_market_cap_spec(
            usdc_reserve as int,
            snail_reserve as int,
            total_supply as int,
        ) && event.required_market_cap == required_market_cap_spec(*old(state), timestamp as int),
        old(state).frozen ==> final(state).frozen,
        well_configured(*old(state)) ==> well_configured(*final(state)),
{
    if !state.configured {
        return Err(SnailError::NotConfigured);
    }
    if state.frozen {
        return Err(SnailError::AlreadyFrozen);
    }
    if snail_reserve == 0 {
        return Err(SnailError::InvalidReserves);
    }
    let current_market_cap: u128 = current_market_cap(usdc_reserve, snail_reserve, total_supply);
    let required_market_cap: u128 = if timestamp < state.snail_start_stamp || timestamp
        >= state.snail_end_stamp {
        0
    } else {
        match required_in_window(state, timestamp) {
            Ok(required) => required,
            Err(e) => {
                return Err(e);
            },
        }
    };
    if required_market_cap == 0 {
        return Err(SnailError::InvalidTimestamps);
    }
    if current_market_cap > required_market_cap {
        return Err(SnailError::MarketCapTooHigh);
    }
    state.frozen = true;
    Ok(
        SnailTouched {
            current_market_cap: current_market_cap as u64,
            required_market_cap: required_market_cap as u64,
        },
    )
}

/// The required valuation is zero at the start of the window, before it, and
/// from its end on.
pub proof fn lemma_required_zero_at_edges(state: GameState, timestamp: int)
    ensures
        required_market_cap_spec(state, state.snail_start_stamp as int) == 0,
        timestamp < state.snail_start_stamp ==> required_market_cap_spec(state, timestamp) == 0,
        timestamp >= state.snail_end_stamp ==> required_market_cap_spec(state, timestamp) == 0,
{
    let start = state.snail_start_stamp as int;
    if in_window(state, start) {
        assert((start - start) * (WAD as int) == 0);
        assert(progress_spec(start, state.snail_end_stamp as int, start) == 0);
        assert(curved_progress_spec(state, start) == 0);
        assert(state.target_market_cap * 0 == 0);
    }
}

/// Within the window the required valuation does not fall as time passes.
pub proof fn lemma_required_ordered_by_time(state: GameState, earlier: int, later: int)
    requires
        state.snail_start_stamp <= earlier <= later < state.snail_end_stamp,
    ensures
        required_market_cap_spec(state, earlier) <= required_market_cap_spec(state, later),
{
    if state.configured {
        let start = state.snail_start_stamp as int;
        let end = state.snail_end_stamp as int;
        let exponent = exponent_spec(state.curve_factor as int);
        let p1 = progress_spec(start, end, earlier);
        let p2 = progress_spec(start, end, later);
        lemma_progress_bounds(start, end, earlier);
        lemma_progress_bounds(start, end, later);
        assert(p1 <= p2) by {
            vstd::arithmetic::div_mod::lemma_div_is_ordered(
                (earlier - start) * (WAD as int),
                (later - start) * (WAD as int),
                end - start,
            );
        }
        lemma_pow_of_small_base(p1, exponent);
        lemma_pow_of_small_base(p2, exponent);
        lemma_pow_ordered_by_base(p1, p2, exponent);
        let c1 = curved_progress_spec(state, earlier);
        let c2 = curved_progress_spec(state, later);
        let target = state.target_market_cap as int;
        assert(target * c1 <= target * c2) by (nonlinear_arith)
            requires
                0 <= target,
                c1 <= c2,
        ;
    }
}

/// Once the trigger has fired, every further touch is rejected, whatever the
/// time and the market.
pub proof fn lemma_touch_only_once(
    state: GameState,
    timestamp: int,
    usdc_reserve: int,
    snail_reserve: int,
    total_supply: int,
    next_timestamp: int,
    next_usdc_reserve: int,
    next_snail_reserve: int,
    next_total_supply: int,
)
    requires
        touch_outcome(state, timestamp, usdc_reserve, snail_reserve, total_supply) is Ok,
    ensures
        touch_outcome(
            frozen_state(state),
            next_timestamp,
            next_usdc_reserve,
            next_snail_reserve,
            next_total_supply,
        ) == Err::<SnailTouched, SnailError>(SnailError::AlreadyFrozen),
{
}

/// A touch of a configured game that is not frozen, with a reserve of the
/// token that is not empty, succeeds exactly when the required valuation is
/// above zero and the market's valuation does not exceed it; a valuation above
/// the required one is always rejected.
pub proof fn lemma_touch_succeeds_iff(
    state: GameState,
    timestamp: int,
    usdc_reserve: int,
    snail_reserve: int,
    total_supply: int,
)
    requires
        state.configured,
        !state.frozen,
        snail_reserve > 0,
        usdc_reserve >= 0,
        total_supply >= 0,
    ensures
        touch_outcome(state, timestamp, usdc_reserve, snail_reserve, total_supply) is Ok <==> (
        required_market_cap_spec(state, timestamp) > 0 && current_market_cap_spec(
            usdc_reserve,
            snail_reserve,
            total_supply,
        ) <= required_market_cap_spec(state, timestamp)),
        current_market_cap_spec(usdc_reserve, snail_reserve, total_supply)
            > required_market_cap_spec(state, timestamp) ==> touch_outcome(
            state,
            timestamp,
            usdc_reserve,
            snail_reserve,
            total_supply,
        ) is Err,
{
    lemma_required_within_target(state, timestamp);
}

/// No touch, accepted or rejected, takes `frozen` back, and a rejected one
/// changes nothing.
pub proof fn lemma_frozen_is_kept(
    state: GameState,
    timestamp: int,
    usdc_reserve: int,
    snail_reserve: int,
    total_supply: int,
)
    ensures
        state.frozen ==> touch_outcome(state, timestamp, usdc_reserve, snail_reserve, total_supply)
            is Err,
        frozen_state(state).frozen,
{
}

} // verus!

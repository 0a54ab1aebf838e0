//! The snail launch: one supply, minted once, and handed out through an admin
//! bucket, a timed public sale that is settled pro rata, and airdrops.

use vstd::prelude::*;
use crate::snail_game::U64_RANGE;
use crate::pubkey::{
    check_derived, default_key, derived_view, find_program_address, matching_bump, null_key,
    program_address, same_key, Pubkey,
};

verus! {

/// The whole supply in base units: one million tokens of nine decimals.
pub const MAX_SUPPLY: u64 = 1_000_000_000_000_000;

/// The admin bucket, in whole tokens: a fifth of the supply.
pub const ADMIN_LP_TOKENS: u64 = 200_000;

/// The public sale's bucket, in whole tokens: two fifths of the supply.
pub const PUBLIC_SALE_TOKENS: u64 = 400_000;

/// The seed of the authority that mints the supply: `mint_authority`.
pub const MINT_AUTHORITY_SEED: [u8; 14] = [
    109, 105, 110, 116, 95, 97, 117, 116, 104, 111, 114, 105, 116, 121,
];

/// The seed of the authority over the holding account: `treasury`.
pub const TREASURY_SEED: [u8; 8] = [116, 114, 101, 97, 115, 117, 114, 121];

/// The seed of the vault that takes the sale's proceeds: `sale_vault`.
pub const SALE_VAULT_SEED: [u8; 10] = [115, 97, 108, 101, 95, 118, 97, 117, 108, 116];

/// The launch's one record.
#[derive(Clone, Copy, Debug, PartialEq, Eq)]
pub struct LaunchState {
    pub owner: Pubkey,
    pub snail_mint: Pubkey,
    pub initialized: bool,
    pub admin_claimed: bool,
    pub sale_configured: bool,
    pub sale_start_time: i64,
    pub sale_end_time: i64,
    pub claim_stamp: i64,
    pub total_sol_raised: u64,
    pub sale_admin_claimed: bool,
}

/// What one participant has paid into the sale, and whether the share was
/// claimed.
#[derive(Clone, Copy, Debug, PartialEq, Eq)]
pub struct ContributorData {
    pub amount: u64,
    pub claimed: bool,
}

impl LaunchState {
    /// The bytes that the record takes when stored, with its tag of eight
    /// bytes.
    pub const LEN: usize = 8 + 32 + 32 + 1 + 1 + 1 + 8 + 8 + 8 + 8 + 1;
}

impl ContributorData {
    /// The bytes that the record takes when stored, with its tag of eight
    /// bytes.
    pub const LEN: usize = 8 + 8 + 1;
}

/// Why an operation of the launch was rejected.
#[derive(Clone, Copy, Debug, PartialEq, Eq)]
pub enum LaunchError {
    Unauthorized,
    AdminAlreadyClaimed,
    MathOverflow,
    SaleNotActive,
    SaleNotEnded,
    ClaimNotAvailable,
    InvalidMintAuthority,
    InvalidMint,
    InvalidTreasury,
    NoContribution,
    AlreadyClaimed,
    InvalidTimestamps,
    InvalidClaimStamp,
}

#[derive(Clone, Copy, Debug, PartialEq, Eq)]
pub struct AdminLPClaimed {
    pub owner: Pubkey,
    pub snail_amount: u64,
}

#[derive(Clone, Copy, Debug, PartialEq, Eq)]
pub struct PublicSaleConfigured {
    pub start_time: i64,
    pub end_time: i64,
    pub claim_stamp: i64,
}

#[derive(Clone, Copy, Debug, PartialEq, Eq)]
pub struct ContributionReceived {
    pub contributor: Pubkey,
    pub amount: u64,
}

#[derive(Clone, Copy, Debug, PartialEq, Eq)]
pub struct SnailClaimed {
    pub claimer: Pubkey,
    pub snail_amount: u64,
}

#[derive(Clone, Copy, Debug, PartialEq, Eq)]
pub struct AdminSolClaimed {
    pub owner: Pubkey,
    pub sol_amount: u64,
}

#[derive(Clone, Copy, Debug, PartialEq, Eq)]
pub struct AirdropSent {
    pub recipient: Pubkey,
    pub amount: u64,
}

#[derive(Clone, Copy, Debug, PartialEq, Eq)]
pub struct OwnershipRevoked {
    pub previous_owner: Pubkey,
}

#[derive(Clone, Copy, Debug, PartialEq, Eq)]
pub struct Initialized {
    pub owner: Pubkey,
    pub snail_mint: Pubkey,
    pub total_supply: u64,
}

/// Ten to the power `n`.
pub open spec fn pow10(n: nat) -> nat
    decreases n,
{
    if n == 0 {
        1
    } else {
        10 * pow10((n - 1) as nat)
    }
}

/// Ten to a higher power is not smaller, and no power of ten is zero.
proof fn lemma_pow10_ordered(m: nat, n: nat)
    requires
        m <= n,
    ensures
        1 <= pow10(m) <= pow10(n),
    decreases n,
{
    if n > 0 {
        if m < n {
            lemma_pow10_ordered(m, (n - 1) as nat);
        } else {
            lemma_pow10_ordered((m - 1) as nat, (n - 1) as nat);
        }
    }
}

/// `tokens` whole tokens in base units of a mint with `decimals` decimals, or
/// `None` where that number leaves 64 bits.
pub open spec fn token_units_spec(tokens: int, decimals: nat) -> Option<int> {
    if tokens * pow10(decimals) <= u64::MAX {
        Some(tokens * pow10(decimals))
    } else {
        None
    }
}

/// `tokens` whole tokens in base units of a mint with `decimals` decimals.
pub fn token_units(tokens: u64, decimals: u8) -> (r: Option<u64>)
    ensures
        r is Some <==> token_units_spec(tokens as int, decimals as nat) is Some,
        r matches Some(units) ==> token_units_spec(tokens as int, decimals as nat) == Some(
            units as int,
        ),
{
    if tokens == 0 {
        assert(0 * pow10(decimals as nat) == 0);
        return Some(0);
    }
    let mut scale: u64 = 1;
    let mut i: u8 = 0;
    while i < decimals
        invariant
            i <= decimals,
            tokens > 0,
            scale == pow10(i as nat),
        decreases decimals - i,
    {
        match scale.checked_mul(10) {
            Some(next) => {
                scale = next;
            },
            None => {
                proof {
                    lemma_pow10_ordered((i + 1) as nat, decimals as nat);
                    let full = pow10(decimals as nat) as int;
                    assert(tokens * full >= full) by (nonlinear_arith)
                        requires
                            tokens >= 1,
                            full >= 0,
                    ;
                }
                return None;
            },
        }
        i = i + 1;
    }
    tokens.checked_mul(scale)
}

/// Whether the sale's times are in order, once the sale is configured: the
/// window ends after it starts, and claiming opens no earlier than the window
/// ends.
pub open spec fn well_formed(state: LaunchState) -> bool {
    state.sale_configured ==> state.sale_start_time < state.sale_end_time <= state.claim_stamp
}

/// The record of a launch that has just been initialized.
pub open spec fn initialized_state(owner: Pubkey, snail_mint: Pubkey) -> LaunchState {
    LaunchState {
        owner,
        snail_mint,
        initialized: true,
        admin_claimed: false,
        sale_configured: false,
        sale_start_time: 0,
        sale_end_time: 0,
        claim_stamp: 0,
        total_sol_raised: 0,
        sale_admin_claimed: false,
    }
}

/// What initializing comes to, given what the derivation of the mint
/// authority's address gave.
pub open spec fn initialize_outcome(
    owner: Pubkey,
    snail_mint: Pubkey,
    mint_authority: Pubkey,
    derived: Option<(Seq<u8>, u8)>,
) -> Result<(LaunchState, Initialized, u8), LaunchError> {
    match matching_bump(derived, mint_authority@) {
        Some(bump) => Ok(
            (
                initialized_state(owner, snail_mint),
                Initialized { owner, snail_mint, total_supply: MAX_SUPPLY },
                bump,
            ),
        ),
        None => Err(LaunchError::InvalidMintAuthority),
    }
}

/// Initializes the launch, with the derivation of the mint authority's address
/// given: see [`initialize`].
pub fn initialize_with(
    owner: Pubkey,
    snail_mint: Pubkey,
    mint_authority: &Pubkey,
    derived: Option<(Pubkey, u8)>,
) -> (r: Result<(LaunchState, Initialized, u8), LaunchError>)
    ensures
        r == initialize_outcome(owner, snail_mint, *mint_authority, derived_view(derived)),
        r matches Ok(made) ==> well_formed(made.0),
{
    match check_derived(&derived, mint_authority) {
        Some(bump) => Ok(
            (
                LaunchState {
                    owner,
                    snail_mint,
                    initialized: true,
                    admin_claimed: false,
                    sale_configured: false,
                    sale_start_time: 0,
                    sale_end_time: 0,
                    claim_stamp: 0,
                    total_sol_raised: 0,
                    sale_admin_claimed: false,
                },
                Initialized { owner, snail_mint, total_supply: MAX_SUPPLY },
                bump,
            ),
        ),
        None => Err(LaunchError::InvalidMintAuthority),
    }
}

/// Makes the launch's record for `owner` and `snail_mint`.
///
/// `mint_authority` must be the address that the program `program_id` derives
/// from [`MINT_AUTHORITY_SEED`]; otherwise the call ends in
/// `InvalidMintAuthority`. On success the caller mints `total_supply` to the
/// holding account and then gives up the authority to mint, both signed with
/// the seed and the bump seed returned.
pub fn initialize(
    owner: Pubkey,
    snail_mint: Pubkey,
    mint_authority: &Pubkey,
    program_id: &Pubkey,
) -> (r: Result<(LaunchState, Initialized, u8), LaunchError>)
    ensures
        r == initialize_outcome(
            owner,
            snail_mint,
            *mint_authority,
            program_address(MINT_AUTHORITY_SEED@, program_id@),
        ),
        r matches Ok(made) ==> well_formed(made.0),
{
    let derived = find_program_address(&MINT_AUTHORITY_SEED, program_id);
    initialize_with(owner, snail_mint, mint_authority, derived)
}

/// What claiming the admin bucket comes to. The checks are made in this order.
pub open spec fn claim_admin_lp_outcome(
    state: LaunchState,
    owner: Pubkey,
    snail_mint: Pubkey,
    decimals: u8,
    treasury_pda: Pubkey,
    derived: Option<(Seq<u8>, u8)>,
) -> Result<(AdminLPClaimed, u8), LaunchError> {
    let units = token_units_spec(ADMIN_LP_TOKENS as int, decimals as nat);
    let bump = matching_bump(derived, treasury_pda@);
    if owner@ != state.owner@ {
        Err(LaunchError::Unauthorized)
    } else if state.admin_claimed {
        Err(LaunchError::AdminAlreadyClaimed)
    } else if snail_mint@ != state.snail_mint@ {
        Err(LaunchError::InvalidMint)
    } else if units is None {
        Err(LaunchError::MathOverflow)
    } else if bump is None {
        Err(LaunchError::InvalidTreasury)
    } else {
        Ok((AdminLPClaimed { owner, snail_amount: units->0 as u64 }, bump->0))
    }
}

/// Claims the admin bucket, with the derivation of the treasury's address
/// given: see [`claim_admin_lp`].
pub fn claim_admin_lp_with(
    state: &mut LaunchState,
    owner: &Pubkey,
    snail_mint: &Pubkey,
    decimals: u8,
    treasury_pda: &Pubkey,
    derived: Option<(Pubkey, u8)>,
) -> (r: Result<(AdminLPClaimed, u8), LaunchError>)
    ensures
        r == claim_admin_lp_outcome(
            *old(state),
            *owner,
            *snail_mint,
            decimals,
            *treasury_pda,
            derived_view(derived),
        ),
        r is Ok ==> *final(state) == (LaunchState { admin_claimed: true, ..*old(state) }),
        r is Err ==> *final(state) == *old(state),
        old(state).admin_claimed ==> final(state).admin_claimed,
        final(state).sale_admin_claimed == old(state).sale_admin_claimed,
        well_formed(*old(state)) ==> well_formed(*final(state)),
{
    if !same_key(owner, &state.owner) {
        return Err(LaunchError::Unauthorized);
    }
    if state.admin_claimed {
        return Err(LaunchError::AdminAlreadyClaimed);
    }
    if !same_key(snail_mint, &state.snail_mint) {
        return Err(LaunchError::InvalidMint);
    }
    let admin_lp_supply: u64 = match token_units(ADMIN_LP_TOKENS, decimals) {
        Some(units) => units,
        None => {
            return Err(LaunchError::MathOverflow);
        },
    };
    let treasury_bump: u8 = match check_derived(&derived, treasury_pda) {
        Some(bump) => bump,
        None => {
            return Err(LaunchError::InvalidTreasury);
        },
    };
    state.admin_claimed = true;
    Ok((AdminLPClaimed { owner: *owner, snail_amount: admin_lp_supply }, treasury_bump))
}

/// Claims the admin bucket: [`ADMIN_LP_TOKENS`] whole tokens of the mint, once.
///
/// Only the owner may claim, the mint must be the launch's, and `treasury_pda`
/// must be the address that the program derives from [`TREASURY_SEED`]. On
/// success `admin_claimed` is set, and the caller moves `snail_amount` from the
/// holding account, signed with the seed and the bump seed returned. A rejected
/// claim changes nothing.
pub fn claim_admin_lp(
    state: &mut LaunchState,
    owner: &Pubkey,
    snail_mint: &Pubkey,
    decimals: u8,
    treasury_pda: &Pubkey,
    program_id: &Pubkey,
) -> (r: Result<(AdminLPClaimed, u8), LaunchError>)
    ensures
        r == claim_admin_lp_outcome(
            *old(state),
            *owner,
            *snail_mint,
            decimals,
            *treasury_pda,
            program_address(TREASURY_SEED@, program_id@),
        ),
        r is Ok ==> *final(state) == (LaunchState { admin_claimed: true, ..*old(state) }),
        r is Err ==> *final(state) == *old(state),
        old(state).admin_claimed ==> final(state).admin_claimed,
        final(state).sale_admin_claimed == old(state).sale_admin_claimed,
        well_formed(*old(state)) ==> well_formed(*final(state)),
{
    let derived = find_program_address(&TREASURY_SEED, program_id);
    claim_admin_lp_with(state, owner, snail_mint, decimals, treasury_pda, derived)
}

/// The record after the sale's window was set: the three times are stored, the
/// sweep of the proceeds is open again, and what was raised so far stays.
pub open spec fn sale_state(
    state: LaunchState,
    start_time: i64,
    end_time: i64,
    claim_stamp: i64,
) -> LaunchState {
    LaunchState {
        sale_start_time: start_time,
        sale_end_time: end_time,
        claim_stamp,
        sale_admin_claimed: false,
        sale_configured: true,
        ..state
    }
}

/// What setting the sale's window comes to. The checks are made in this order.
pub open spec fn initialize_sale_outcome(
    state: LaunchState,
    owner: Pubkey,
    start_time: i64,
    end_time: i64,
    claim_stamp: i64,
) -> Result<PublicSaleConfigured, LaunchError> {
    if owner@ != state.owner@ {
        Err(LaunchError::Unauthorized)
    } else if end_time <= start_time {
        Err(LaunchError::InvalidTimestamps)
    } else if claim_stamp < end_time {
        Err(LaunchError::InvalidClaimStamp)
    } else {
        Ok(PublicSaleConfigured { start_time, end_time, claim_stamp })
    }
}

/// Sets the window of the public sale and the time from which shares can be
/// claimed.
///
/// Only the owner may do so; the end must lie after the start, and the claim
/// time not before the end. The window may be set again later: each time the
/// sweep of the proceeds is opened again, and the sum raised so far is kept.
pub fn initialize_sale(
    state: &mut LaunchState,
    owner: &Pubkey,
    start_time: i64,
    end_time: i64,
    claim_stamp: i64,
) -> (r: Result<PublicSaleConfigured, LaunchError>)
    ensures
        r == initialize_sale_outcome(*old(state), *owner, start_time, end_time, claim_stamp),
        r is Ok ==> *final(state) == sale_state(*old(state), start_time, end_time, claim_stamp),
        r is Err ==> *final(state) == *old(state),
        final(state).admin_claimed == old(state).admin_claimed,
        final(state).total_sol_raised == old(state).total_sol_raised,
        r is Ok ==> well_formed(*final(state)),
        well_formed(*old(state)) ==> well_formed(*final(state)),
{
    if !same_key(owner, &state.owner) {
        return Err(LaunchError::Unauthorized);
    }
    if end_time <= start_time {
        return Err(LaunchError::InvalidTimestamps);
    }
    if claim_stamp < end_time {
        return Err(LaunchError::InvalidClaimStamp);
    }
    state.sale_start_time = start_time;
    state.sale_end_time = end_time;
    state.claim_stamp = claim_stamp;
    state.sale_admin_claimed = false;
    state.sale_configured = true;
    Ok(PublicSaleConfigured { start_time, end_time, claim_stamp })
}

/// Whether a contribution of `amount` at `now` is accepted: the sale is open,
/// its ends included, and neither the participant's sum nor the launch's
/// leaves 64 bits.
pub open spec fn contribution_accepted(
    state: LaunchState,
    data: ContributorData,
    now: i64,
    amount: u64,
) -> bool {
    &&& state.sale_start_time <= now <= state.sale_end_time
    &&& data.amount + amount <= u64::MAX
    &&& state.total_sol_raised + amount <= u64::MAX
}

/// What a contribution comes to.
pub open spec fn contribute_outcome(
    state: LaunchState,
    data: ContributorData,
    contributor: Pubkey,
    now: i64,
    amount: u64,
) -> Result<ContributionReceived, LaunchError> {
    if !(state.sale_start_time <= now <= state.sale_end_time) {
        Err(LaunchError::SaleNotActive)
    } else if !contribution_accepted(state, data, now, amount) {
        Err(LaunchError::MathOverflow)
    } else {
        Ok(ContributionReceived { contributor, amount })
    }
}

/// The launch's record after a contribution: unchanged where it was rejected.
pub open spec fn state_after_contribution(
    state: LaunchState,
    data: ContributorData,
    now: i64,
    amount: u64,
) -> LaunchState {
    if contribution_accepted(state, data, now, amount) {
        LaunchState { total_sol_raised: (state.total_sol_raised + amount) as u64, ..state }
    } else {
        state
    }
}

/// The participant's record after a contribution: unchanged where it was
/// rejected.
pub open spec fn data_after_contribution(
    state: LaunchState,
    data: ContributorData,
    now: i64,
    amount: u64,
) -> ContributorData {
    if contribution_accepted(state, data, now, amount) {
        ContributorData { amount: (data.amount + amount) as u64, ..data }
    } else {
        data
    }
}

/// Records a contribution of `amount` to the public sale at the time `now`.
///
/// The sale must be open. Then the participant's sum and the launch's sum both
/// grow by `amount`, and the caller moves `amount` from the participant to the
/// sale's vault. A participant may contribute any number of times. A rejected
/// contribution changes nothing.
pub fn contribute(
    state: &mut LaunchState,
    contributor_data: &mut ContributorData,
    contributor: &Pubkey,
    now: i64,
    amount: u64,
) -> (r: Result<ContributionReceived, LaunchError>)
    ensures
        r == contribute_outcome(*old(state), *old(contributor_data), *contributor, now, amount),
        *final(state) == state_after_contribution(
            *old(state),
            *old(contributor_data),
            now,
            amount,
        ),
        *final(contributor_data) == data_after_contribution(
            *old(state),
            *old(contributor_data),
            now,
            amount,
        ),
        r is Ok <==> contribution_accepted(*old(state), *old(contributor_data), now, amount),
        r is Err ==> *final(state) == *old(state),
        r is Err ==> *final(contributor_data) == *old(contributor_data),
        final(state).total_sol_raised - old(state).total_sol_raised
            == final(contributor_data).amount - old(contributor_data).amount,
        final(state).admin_claimed == old(state).admin_claimed,
        final(state).sale_admin_claimed == old(state).sale_admin_claimed,
        final(contributor_data).claimed == old(contributor_data).claimed,
        well_formed(*old(state)) ==> well_formed(*final(state)),
{
    if !(now >= state.sale_start_time && now <= state.sale_end_time) {
        return Err(LaunchError::SaleNotActive);
    }
    let new_amount: u64 = match contributor_data.amount.checked_add(amount) {
        Some(sum) => sum,
        None => {
            return Err(LaunchError::MathOverflow);
        },
    };
    let new_total: u64 = match state.total_sol_raised.checked_add(amount) {
        Some(sum) => sum,
        None => {
            return Err(LaunchError::MathOverflow);
        },
    };
    contributor_data.amount = new_amount;
    state.total_sol_raised = new_total;
    Ok(ContributionReceived { contributor: *contributor, amount })
}

/// The share of `bucket` that falls to `amount` out of `total`, rounded down.
pub open spec fn share_spec(amount: int, bucket: int, total: int) -> int {
    amount * bucket / total
}

/// The share of `bucket` that falls to `amount` out of `total`, or `None` where
/// nothing was raised.
fn sale_share(amount: u64, bucket: u64, total: u64) -> (r: Option<u128>)
    ensures
        r is Some <==> total != 0,
        r matches Some(share) ==> share == share_spec(amount as int, bucket as int, total as int),
{
    assert(0 <= amount * bucket <= 0xFFFF_FFFF_FFFF_FFFF * 0xFFFF_FFFF_FFFF_FFFF)
        by (nonlinear_arith)
        requires
            0 <= amount <= 0xFFFF_FFFF_FFFF_FFFF,
            0 <= bucket <= 0xFFFF_FFFF_FFFF_FFFF,
    ;
    match (amount as u128).checked_mul(bucket as u128) {
        Some(product) => product.checked_div(total as u128),
        None => None,
    }
}

/// A share is never more than the bucket as long as the amount is not more
/// than the total.
pub proof fn lemma_share_within_bucket(amount: int, bucket: int, total: int)
    requires
        0 <= amount <= total,
        0 < total,
        0 <= bucket,
    ensures
        0 <= share_spec(amount, bucket, total) <= bucket,
{
    assert(0 <= amount * bucket / total <= bucket) by (nonlinear_arith)
        requires
            0 <= amount <= total,
            0 < total,
            0 <= bucket,
    {
        assert(0 <= amount * bucket <= total * bucket);
        assert(total * bucket / total == bucket);
    }
}

/// What the preview of a participant's share gives: nothing for one who paid
/// nothing or has claimed, nothing while nothing was raised, and else the share
/// of the public sale's bucket, cut to 64 bits.
pub open spec fn snail_available_outcome(
    state: LaunchState,
    data: ContributorData,
    decimals: u8,
) -> Result<u64, LaunchError> {
    let bucket = token_units_spec(PUBLIC_SALE_TOKENS as int, decimals as nat);
    if data.amount == 0 || data.claimed || state.total_sol_raised == 0 {
        Ok(0)
    } else if bucket is None {
        Err(LaunchError::MathOverflow)
    } else {
        Ok(
            (share_spec(data.amount as int, bucket->0, state.total_sol_raised as int) % (
            U64_RANGE as int)) as u64,
        )
    }
}

/// The tokens that a participant could claim now, without claiming them.
pub fn snail_available(
    state: &LaunchState,
    contributor_data: &ContributorData,
    decimals: u8,
) -> (r: Result<u64, LaunchError>)
    ensures
        r == snail_available_outcome(*state, *contributor_data, decimals),
{
    if contributor_data.amount == 0 || contributor_data.claimed {
        return Ok(0);
    }
    if state.total_sol_raised == 0 {
        return Ok(0);
    }
    let public_sale_supply: u64 = match token_units(PUBLIC_SALE_TOKENS, decimals) {
        Some(units) => units,
        None => {
            return Err(LaunchError::MathOverflow);
        },
    };
    match sale_share(contributor_data.amount, public_sale_supply, state.total_sol_raised) {
        Some(share) => Ok((share % U64_RANGE) as u64),
        None => Err(LaunchError::MathOverflow),
    }
}

/// What claiming a share of the sale comes to. The checks are made in this
/// order.
pub open spec fn claim_snail_outcome(
    state: LaunchState,
    data: ContributorData,
    contributor: Pubkey,
    now: i64,
    snail_mint: Pubkey,
    decimals: u8,
    treasury_pda: Pubkey,
    derived: Option<(Seq<u8>, u8)>,
) -> Result<(SnailClaimed, u8), LaunchError> {
    let bucket = token_units_spec(PUBLIC_SALE_TOKENS as int, decimals as nat);
    let bump = matching_bump(derived, treasury_pda@);
    if now < state.claim_stamp {
        Err(LaunchError::ClaimNotAvailable)
    } else if data.amount == 0 {
        Err(LaunchError::NoContribution)
    } else if data.claimed {
        Err(LaunchError::AlreadyClaimed)
    } else if bucket is None || state.total_sol_raised == 0 {
        Err(LaunchError::MathOverflow)
    } else if bump is None {
        Err(LaunchError::InvalidTreasury)
    } else if snail_mint@ != state.snail_mint@ {
        Err(LaunchError::InvalidMint)
    } else {
        Ok(
            (
                SnailClaimed {
                    claimer: contributor,
                    snail_amount: (share_spec(
                        data.amount as int,
                        bucket->0,
                        state.total_sol_raised as int,
                    ) % (U64_RANGE as int)) as u64,
                },
                bump->0,
            ),
        )
    }
}

/// Claims a participant's share, with the derivation of the treasury's address
/// given: see [`claim_snail`].
pub fn claim_snail_with(
    state: &LaunchState,
    contributor_data: &mut ContributorData,
    contributor: &Pubkey,
    now: i64,
    snail_mint: &Pubkey,
    decimals: u8,
    treasury_pda: &Pubkey,
    derived: Option<(Pubkey, u8)>,
) -> (r: Result<(SnailClaimed, u8), LaunchError>)
    ensures
        r == claim_snail_outcome(
            *state,
            *old(contributor_data),
            *contributor,
            now,
            *snail_mint,
            decimals,
            *treasury_pda,
            derived_view(derived),
        ),
        r is Ok ==> *final(contributor_data) == (ContributorData {
            claimed: true,
            ..*old(contributor_data)
        }),
        r is Err ==> *final(contributor_data) == *old(contributor_data),
        old(contributor_data).claimed ==> final(contributor_data).claimed,
{
    if now < state.claim_stamp {
        return Err(LaunchError::ClaimNotAvailable);
    }
    if contributor_data.amount == 0 {
        return Err(LaunchError::NoContribution);
    }
    if contributor_data.claimed {
        return Err(LaunchError::AlreadyClaimed);
    }
    let public_sale_supply: u64 = match token_units(PUBLIC_SALE_TOKENS, decimals) {
        Some(units) => units,
        None => {
            return Err(LaunchError::MathOverflow);
        },
    };
    let snail_amount: u128 = match sale_share(
        contributor_data.amount,
        public_sale_supply,
        state.total_sol_raised,
    ) {
        Some(share) => share,
        None => {
            return Err(LaunchError::MathOverflow);
        },
    };
    let treasury_bump: u8 = match check_derived(&derived, treasury_pda) {
        Some(bump) => bump,
        None => {
            return Err(LaunchError::InvalidTreasury);
        },
    };
    if !same_key(snail_mint, &state.snail_mint) {
        return Err(LaunchError::InvalidMint);
    }
    contributor_data.claimed = true;
    Ok(
        (
            SnailClaimed { claimer: *contributor, snail_amount: (snail_amount % U64_RANGE) as u64 },
            treasury_bump,
        ),
    )
}

/// Claims a participant's share of the public sale's bucket, once.
///
/// The claim time must have come, and the participant must have contributed
/// and not claimed before. The share is the participant's sum times the
/// bucket, [`PUBLIC_SALE_TOKENS`] whole tokens of the mint, divided by all that
/// was raised, rounded down and cut to 64 bits. On success `claimed` is set,
/// and the caller moves `snail_amount` from the holding account, signed with
/// [`TREASURY_SEED`] and the bump seed returned. A rejected claim changes
/// nothing.
pub fn claim_snail(
    state: &LaunchState,
    contributor_data: &mut ContributorData,
    contributor: &Pubkey,
    now: i64,
    snail_mint: &Pubkey,
    decimals: u8,
    treasury_pda: &Pubkey,
    program_id: &Pubkey,
) -> (r: Result<(SnailClaimed, u8), LaunchError>)
    ensures
        r == claim_snail_outcome(
            *state,
            *old(contributor_data),
            *contributor,
            now,
            *snail_mint,
            decimals,
            *treasury_pda,
            program_address(TREASURY_SEED@, program_id@),
        ),
        r is Ok ==> *final(contributor_data) == (ContributorData {
            claimed: true,
            ..*old(contributor_data)
        }),
        r is Err ==> *final(contributor_data) == *old(contributor_data),
        old(contributor_data).claimed ==> final(contributor_data).claimed,
{
    let derived = find_program_address(&TREASURY_SEED, program_id);
    claim_snail_with(
        state,
        contributor_data,
        contributor,
        now,
        snail_mint,
        decimals,
        treasury_pda,
        derived,
    )
}

/// What sweeping the sale's proceeds comes to. The checks are made in this
/// order.
pub open spec fn claim_admin_sol_outcome(
    state: LaunchState,
    owner: Pubkey,
    now: i64,
    sale_vault: Pubkey,
    vault_lamports: u64,
    min_rent: u64,
    derived: Option<(Seq<u8>, u8)>,
) -> Result<(AdminSolClaimed, u8), LaunchError> {
    let bump = matching_bump(derived, sale_vault@);
    if owner@ != state.owner@ {
        Err(LaunchError::Unauthorized)
    } else if now <= state.sale_end_time {
        Err(LaunchError::SaleNotEnded)
    } else if state.sale_admin_claimed {
        Err(LaunchError::AdminAlreadyClaimed)
    } else if bump is None {
        Err(LaunchError::InvalidTreasury)
    } else if vault_lamports < min_rent {
        Err(LaunchError::MathOverflow)
    } else {
        Ok((AdminSolClaimed { owner, sol_amount: (vault_lamports - min_rent) as u64 }, bump->0))
    }
}

/// Sweeps the sale's proceeds, with the derivation of the vault's address
/// given: see [`claim_admin_sol`].
pub fn claim_admin_sol_with(
    state: &mut LaunchState,
    owner: &Pubkey,
    now: i64,
    sale_vault: &Pubkey,
    vault_lamports: u64,
    min_rent: u64,
    derived: Option<(Pubkey, u8)>,
) -> (r: Result<(AdminSolClaimed, u8), LaunchError>)
    ensures
        r == claim_admin_sol_outcome(
            *old(state),
            *owner,
            now,
            *sale_vault,
            vault_lamports,
            min_rent,
            derived_view(derived),
        ),
        r is Ok ==> *final(state) == (LaunchState { sale_admin_claimed: true, ..*old(state) }),
        r is Err ==> *final(state) == *old(state),
        old(state).sale_admin_claimed ==> final(state).sale_admin_claimed,
        final(state).admin_claimed == old(state).admin_claimed,
        well_formed(*old(state)) ==> well_formed(*final(state)),
{
    if !same_key(owner, &state.owner) {
        return Err(LaunchError::Unauthorized);
    }
    if now <= state.sale_end_time {
        return Err(LaunchError::SaleNotEnded);
    }
    if state.sale_admin_claimed {
        return Err(LaunchError::AdminAlreadyClaimed);
    }
    let sale_vault_bump: u8 = match check_derived(&derived, sale_vault) {
        Some(bump) => bump,
        None => {
            return Err(LaunchError::InvalidTreasury);
        },
    };
    let transferable_lamports: u64 = match vault_lamports.checked_sub(min_rent) {
        Some(rest) => rest,
        None => {
            return Err(LaunchError::MathOverflow);
        },
    };
    state.sale_admin_claimed = true;
    Ok((AdminSolClaimed { owner: *owner, sol_amount: transferable_lamports }, sale_vault_bump))
}

/// Sweeps the sale's proceeds to the owner, once per window.
///
/// Only the owner may sweep, and only after the sale's end. `sale_vault` must
/// be the address that the program derives from [`SALE_VAULT_SEED`].
/// `vault_lamports` is the vault's balance and `min_rent` the reserve that
/// must stay in it. On success `sale_admin_claimed` is set, and the caller
/// moves `sol_amount`, the balance less the reserve, to the owner, signed with
/// the seed and the bump seed returned. A rejected sweep changes nothing.
pub fn claim_admin_sol(
    state: &mut LaunchState,
    owner: &Pubkey,
    now: i64,
    sale_vault: &Pubkey,
    vault_lamports: u64,
    min_rent: u64,
    program_id: &Pubkey,
) -> (r: Result<(AdminSolClaimed, u8), LaunchError>)
    ensures
        r == claim_admin_sol_outcome(
            *old(state),
            *owner,
            now,
            *sale_vault,
            vault_lamports,
            min_rent,
            program_address(SALE_VAULT_SEED@, program_id@),
        ),
        r is Ok ==> *final(state) == (LaunchState { sale_admin_claimed: true, ..*old(state) }),
        r is Err ==> *final(state) == *old(state),
        old(state).sale_admin_claimed ==> final(state).sale_admin_claimed,
        final(state).admin_claimed == old(state).admin_claimed,
        well_formed(*old(state)) ==> well_formed(*final(state)),
{
    let derived = find_program_address(&SALE_VAULT_SEED, program_id);
    claim_admin_sol_with(state, owner, now, sale_vault, vault_lamports, min_rent, derived)
}

/// What an airdrop comes to. The checks are made in this order.
pub open spec fn airdrop_outcome(
    state: LaunchState,
    owner: Pubkey,
    snail_mint: Pubkey,
    recipient: Pubkey,
    amount: u64,
    treasury_pda: Pubkey,
    derived: Option<(Seq<u8>, u8)>,
) -> Result<(AirdropSent, u8), LaunchError> {
    let bump = matching_bump(derived, treasury_pda@);
    if owner@ != state.owner@ {
        Err(LaunchError::Unauthorized)
    } else if snail_mint@ != state.snail_mint@ {
        Err(LaunchError::InvalidMint)
    } else if bump is None {
        Err(LaunchError::InvalidTreasury)
    } else {
        Ok((AirdropSent { recipient, amount }, bump->0))
    }
}

/// Approves an airdrop, with the derivation of the treasury's address given:
/// see [`airdrop`].
pub fn airdrop_with(
    state: &LaunchState,
    owner: &Pubkey,
    snail_mint: &Pubkey,
    recipient: &Pubkey,
    amount: u64,
    treasury_pda: &Pubkey,
    derived: Option<(Pubkey, u8)>,
) -> (r: Result<(AirdropSent, u8), LaunchError>)
    ensures
        r == airdrop_outcome(
            *state,
            *owner,
            *snail_mint,
            *recipient,
            amount,
            *treasury_pda,
            derived_view(derived),
        ),
{
    if !same_key(owner, &state.owner) {
        return Err(LaunchError::Unauthorized);
    }
    if !same_key(snail_mint, &state.snail_mint) {
        return Err(LaunchError::InvalidMint);
    }
    match check_derived(&derived, treasury_pda) {
        Some(bump) => Ok((AirdropSent { recipient: *recipient, amount }, bump)),
        None => Err(LaunchError::InvalidTreasury),
    }
}

/// Approves sending `amount` from the holding account to `recipient`.
///
/// Only the owner may send, the mint must be the launch's, and `treasury_pda`
/// must be the address that the program derives from [`TREASURY_SEED`]. The
/// owner may do so any number of times and for any amount: no sum of airdrops
/// is kept, and the record does not change. On success the caller moves
/// `amount`, signed with the seed and the bump seed returned.
pub fn airdrop(
    state: &LaunchState,
    owner: &Pubkey,
    snail_mint: &Pubkey,
    recipient: &Pubkey,
    amount: u64,
    treasury_pda: &Pubkey,
    program_id: &Pubkey,
) -> (r: Result<(AirdropSent, u8), LaunchError>)
    ensures
        r == airdrop_outcome(
            *state,
            *owner,
            *snail_mint,
            *recipient,
            amount,
            *treasury_pda,
            program_address(TREASURY_SEED@, program_id@),
        ),
{
    let derived = find_program_address(&TREASURY_SEED, program_id);
    airdrop_with(state, owner, snail_mint, recipient, amount, treasury_pda, derived)
}

/// Gives up the ownership: the owner becomes the null key, which no one can
/// sign for, so that every operation reserved to the owner is closed from then
/// on. Only the owner may do so.
pub fn revoke_ownership(state: &mut LaunchState, owner: &Pubkey) -> (r: Result<
    OwnershipRevoked,
    LaunchError,
>)
    ensures
        owner@ != old(state).owner@ ==> r == Err::<OwnershipRevoked, LaunchError>(
            LaunchError::Unauthorized,
        ) && *final(state) == *old(state),
        owner@ == old(state).owner@ ==> r == Ok::<OwnershipRevoked, LaunchError>(
            OwnershipRevoked { previous_owner: *owner },
        ) && final(state).owner@ == null_key() && *final(state) == (LaunchState {
            owner: final(state).owner,
            ..*old(state)
        }),
        final(state).admin_claimed == old(state).admin_claimed,
        final(state).sale_admin_claimed == old(state).sale_admin_claimed,
        well_formed(*old(state)) ==> well_formed(*final(state)),
{
    if !same_key(owner, &state.owner) {
        return Err(LaunchError::Unauthorized);
    }
    state.owner = default_key();
    Ok(OwnershipRevoked { previous_owner: *owner })
}

/// The sum of what the participants have contributed.
pub open spec fn total_of(records: Seq<ContributorData>) -> int
    decreases records.len(),
{
    if records.len() == 0 {
        0
    } else {
        total_of(records.drop_last()) + records.last().amount
    }
}

/// The sum of the shares of `bucket` that fall to the participants, each
/// rounded down.
pub open spec fn payouts_of(records: Seq<ContributorData>, bucket: int, total: int) -> int
    decreases records.len(),
{
    if records.len() == 0 {
        0
    } else {
        payouts_of(records.drop_last(), bucket, total) + share_spec(
            records.last().amount as int,
            bucket,
            total,
        )
    }
}

/// The launch's record and the participants' records after a list of
/// contributions, each given as the participant's place in the list, the time
/// and the amount. A rejected contribution and one of an unknown participant
/// change nothing.
pub open spec fn after_contributions(
    state: LaunchState,
    records: Seq<ContributorData>,
    steps: Seq<(int, i64, u64)>,
) -> (LaunchState, Seq<ContributorData>)
    decreases steps.len(),
{
    if steps.len() == 0 {
        (state, records)
    } else {
        let before = after_contributions(state, records, steps.drop_last());
        let (who, now, amount) = steps.last();
        if 0 <= who < before.1.len() {
            (
                state_after_contribution(before.0, before.1[who], now, amount),
                before.1.update(
                    who,
                    data_after_contribution(before.0, before.1[who], now, amount),
                ),
            )
        } else {
            before
        }
    }
}

/// Replacing one record changes the sum by the difference of the two amounts.
proof fn lemma_total_of_update(records: Seq<ContributorData>, who: int, data: ContributorData)
    requires
        0 <= who < records.len(),
    ensures
        total_of(records.update(who, data)) == total_of(records) - records[who].amount
            + data.amount,
    decreases records.len(),
{
    let updated = records.update(who, data);
    if who == records.len() - 1 {
        assert(updated.drop_last() =~= records.drop_last());
    } else {
        assert(updated.drop_last() =~= records.drop_last().update(who, data));
        lemma_total_of_update(records.drop_last(), who, data);
    }
}

/// One contribution, accepted or rejected, keeps the sum of the participants'
/// amounts equal to what the launch has raised.
pub proof fn lemma_contribution_keeps_sum(
    state: LaunchState,
    records: Seq<ContributorData>,
    who: int,
    now: i64,
    amount: u64,
)
    requires
        0 <= who < records.len(),
        total_of(records) == state.total_sol_raised,
    ensures
        total_of(records.update(who, data_after_contribution(state, records[who], now, amount)))
            == state_after_contribution(state, records[who], now, amount).total_sol_raised,
{
    lemma_total_of_update(records, who, data_after_contribution(state, records[who], now, amount));
}

/// After any list of contributions the sum of the participants' amounts is
/// what the launch has raised, if it was so before.
pub proof fn lemma_contributions_keep_sum(
    state: LaunchState,
    records: Seq<ContributorData>,
    steps: Seq<(int, i64, u64)>,
)
    requires
        total_of(records) == state.total_sol_raised,
    ensures
        total_of(after_contributions(state, records, steps).1) == after_contributions(
            state,
            records,
            steps,
        ).0.total_sol_raised,
    decreases steps.len(),
{
    if steps.len() > 0 {
        lemma_contributions_keep_sum(state, records, steps.drop_last());
        let before = after_contributions(state, records, steps.drop_last());
        let (who, now, amount) = steps.last();
        if 0 <= who < before.1.len() {
            lemma_contribution_keeps_sum(before.0, before.1, who, now, amount);
        }
    }
}

/// A participant who joins with nothing contributed, and a new window for the
/// sale, leave the sum as it is.
pub proof fn lemma_sum_kept_otherwise(
    state: LaunchState,
    records: Seq<ContributorData>,
    start_time: i64,
    end_time: i64,
    claim_stamp: i64,
)
    ensures
        total_of(records.push(ContributorData { amount: 0, claimed: false })) == total_of(
            records,
        ),
        sale_state(state, start_time, end_time, claim_stamp).total_sol_raised
            == state.total_sol_raised,
{
    let joined = records.push(ContributorData { amount: 0, claimed: false });
    assert(joined.drop_last() =~= records);
}

/// No participant has contributed more than all of them together.
pub proof fn lemma_amount_within_total(records: Seq<ContributorData>, who: int)
    requires
        0 <= who < records.len(),
    ensures
        0 <= records[who].amount <= total_of(records),
    decreases records.len(),
{
    lemma_total_of_nonnegative(records.drop_last());
    if who < records.len() - 1 {
        lemma_amount_within_total(records.drop_last(), who);
    }
}

/// A sum of amounts is not negative.
proof fn lemma_total_of_nonnegative(records: Seq<ContributorData>)
    ensures
        0 <= total_of(records),
    decreases records.len(),
{
    if records.len() > 0 {
        lemma_total_of_nonnegative(records.drop_last());
    }
}

/// The shares, multiplied out, stay within the amounts times the bucket.
proof fn lemma_payouts_scaled(records: Seq<ContributorData>, bucket: int, total: int)
    requires
        0 < total,
        0 <= bucket,
    ensures
        0 <= payouts_of(records, bucket, total),
        payouts_of(records, bucket, total) * total <= total_of(records) * bucket,
    decreases records.len(),
{
    if records.len() > 0 {
        let rest = records.drop_last();
        lemma_payouts_scaled(rest, bucket, total);
        let amount = records.last().amount as int;
        let share = share_spec(amount, bucket, total);
        let paid = payouts_of(rest, bucket, total);
        let sum = total_of(rest);
        assert(0 <= share && share * total <= amount * bucket) by (nonlinear_arith)
            requires
                share == amount * bucket / total,
                0 < total,
                0 <= bucket,
                0 <= amount,
        ;
        assert((paid + share) * total <= (sum + amount) * bucket) by (nonlinear_arith)
            requires
                paid * total <= sum * bucket,
                share * total <= amount * bucket,
        ;
    } else {
        assert(0 * total == 0 && 0 * bucket == 0);
    }
}

/// All the shares together never exceed the bucket: rounding only ever leaves
/// a rest in the holding account.
pub proof fn lemma_payouts_within_bucket(records: Seq<ContributorData>, bucket: int, total: int)
    requires
        0 < total,
        0 <= bucket,
        total_of(records) == total,
    ensures
        0 <= payouts_of(records, bucket, total) <= bucket,
{
    lemma_payouts_scaled(records, bucket, total);
    let paid = payouts_of(records, bucket, total);
    assert(paid <= bucket) by (nonlinear_arith)
        requires
            paid * total <= total * bucket,
            0 < total,
    ;
}

/// A claim that is accepted pays the exact share, nothing cut, as long as the
/// participant's amount is part of what was raised.
pub proof fn lemma_claim_pays_share(
    state: LaunchState,
    data: ContributorData,
    contributor: Pubkey,
    now: i64,
    snail_mint: Pubkey,
    decimals: u8,
    treasury_pda: Pubkey,
    derived: Option<(Seq<u8>, u8)>,
)
    requires
        data.amount <= state.total_sol_raised,
        claim_snail_outcome(
            state,
            data,
            contributor,
            now,
            snail_mint,
            decimals,
            treasury_pda,
            derived,
        ) is Ok,
    ensures
        claim_snail_outcome(
            state,
            data,
            contributor,
            now,
            snail_mint,
            decimals,
            treasury_pda,
            derived,
        )->Ok_0.0.snail_amount == share_spec(
            data.amount as int,
            token_units_spec(PUBLIC_SALE_TOKENS as int, decimals as nat)->0,
            state.total_sol_raised as int,
        ),
{
    lemma_share_within_bucket(
        data.amount as int,
        token_units_spec(PUBLIC_SALE_TOKENS as int, decimals as nat)->0,
        state.total_sol_raised as int,
    );
}

/// A latch that is set closes its operation: the admin bucket cannot be
/// claimed twice, nor the proceeds swept twice in one window, nor a share
/// claimed twice, whatever else is given.
pub proof fn lemma_latches_close(
    state: LaunchState,
    data: ContributorData,
    signer: Pubkey,
    now: i64,
    snail_mint: Pubkey,
    decimals: u8,
    account: Pubkey,
    vault_lamports: u64,
    min_rent: u64,
    derived: Option<(Seq<u8>, u8)>,
)
    ensures
        state.admin_claimed ==> claim_admin_lp_outcome(
            state,
            signer,
            snail_mint,
            decimals,
            account,
            derived,
        ) is Err,
        state.sale_admin_claimed ==> claim_admin_sol_outcome(
            state,
            signer,
            now,
            account,
            vault_lamports,
            min_rent,
            derived,
        ) is Err,
        data.claimed ==> claim_snail_outcome(
            state,
            data,
            signer,
            now,
            snail_mint,
            decimals,
            account,
            derived,
        ) is Err,
{
}

/// Contributing takes back no latch, and a new window for the sale takes back
/// none but the one of the sweep, which it opens again.
pub proof fn lemma_latches_kept(
    state: LaunchState,
    data: ContributorData,
    now: i64,
    amount: u64,
    start_time: i64,
    end_time: i64,
    claim_stamp: i64,
)
    ensures
        state_after_contribution(state, data, now, amount).admin_claimed == state.admin_claimed,
        state_after_contribution(state, data, now, amount).sale_admin_claimed
            == state.sale_admin_claimed,
        data_after_contribution(state, data, now, amount).claimed == data.claimed,
        sale_state(state, start_time, end_time, claim_stamp).admin_claimed == state.admin_claimed,
        !sale_state(state, start_time, end_time, claim_stamp).sale_admin_claimed,
{
}

/// Once the ownership is given up, every operation reserved to the owner
/// rejects every signer but the null key.
pub proof fn lemma_revoked_owner_is_locked_out(
    state: LaunchState,
    signer: Pubkey,
    now: i64,
    snail_mint: Pubkey,
    decimals: u8,
    account: Pubkey,
    recipient: Pubkey,
    amount: u64,
    vault_lamports: u64,
    min_rent: u64,
    start_time: i64,
    end_time: i64,
    claim_stamp: i64,
    derived: Option<(Seq<u8>, u8)>,
)
    requires
        state.owner@ == null_key(),
        signer@ != null_key(),
    ensures
        claim_admin_lp_outcome(state, signer, snail_mint, decimals, account, derived) == Err::<
            (AdminLPClaimed, u8),
            LaunchError,
        >(LaunchError::Unauthorized),
        initialize_sale_outcome(state, signer, start_time, end_time, claim_stamp) == Err::<
            PublicSaleConfigured,
            LaunchError,
        >(LaunchError::Unauthorized),
        claim_admin_sol_outcome(state, signer, now, account, vault_lamports, min_rent, derived)
            == Err::<(AdminSolClaimed, u8), LaunchError>(LaunchError::Unauthorized),
        airdrop_outcome(state, signer, snail_mint, recipient, amount, account, derived) == Err::<
            (AirdropSent, u8),
            LaunchError,
        >(LaunchError::Unauthorized),
{
}

} // verus!

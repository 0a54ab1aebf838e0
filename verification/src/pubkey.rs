//! Account keys and program-derived addresses.

use vstd::prelude::*;

verus! {

/// A 32-byte account key.
pub type Pubkey = [u8; 32];

/// The key that names no one: all zeroes.
pub open spec fn null_key() -> Seq<u8> {
    Seq::new(32, |i: int| 0u8)
}

/// A derived address and its bump seed, the address as its bytes.
pub open spec fn derived_view(derived: Option<(Pubkey, u8)>) -> Option<(Seq<u8>, u8)> {
    match derived {
        Some((key, bump)) => Some((key@, bump)),
        None => None,
    }
}

/// The bump seed of a derived address, where there is one and it is the
/// address of `account`.
pub open spec fn matching_bump(derived: Option<(Seq<u8>, u8)>, account: Seq<u8>) -> Option<u8> {
    match derived {
        Some((key, bump)) => if key == account {
            Some(bump)
        } else {
            None
        },
        None => None,
    }
}

/// What deriving a program address from one seed and a program's key gives:
/// the address and its bump seed, or nothing where no bump seed yields one.
pub uninterp spec fn program_address(seed: Seq<u8>, program_id: Seq<u8>) -> Option<(Seq<u8>, u8)>;

/// Calls `Pubkey::try_find_program_address` of `anchor_lang` with the single
/// seed `seed`. The contract only gives the outcome its name,
/// [`program_address`]: the search hashes the seed, a bump seed and the
/// program's key, so equal arguments give equal results.
#[verifier::external_body]
pub(crate) fn find_program_address(seed: &[u8], program_id: &Pubkey) -> (r: Option<(Pubkey, u8)>)
    ensures
        derived_view(r) == program_address(seed@, program_id@),
{
    let id = anchor_lang::prelude::Pubkey::new_from_array(*program_id);
    match anchor_lang::prelude::Pubkey::try_find_program_address(&[seed], &id) {
        Some((key, bump)) => Some((key.to_bytes(), bump)),
        None => None,
    }
}

/// Whether two keys hold the same bytes.
pub fn same_key(a: &Pubkey, b: &Pubkey) -> (r: bool)
    ensures
        r == (a@ == b@),
{
    let mut i: usize = 0;
    while i < 32
        invariant
            i <= 32,
            forall|j: int| 0 <= j < i ==> a@[j] == b@[j],
        decreases 32 - i,
    {
        if a[i] != b[i] {
            return false;
        }
        i = i + 1;
    }
    assert(a@ =~= b@);
    true
}

/// The null key, which no signer holds.
pub fn default_key() -> (r: Pubkey)
    ensures
        r@ == null_key(),
{
    let r: Pubkey = [0u8; 32];
    assert(r@ =~= null_key());
    r
}

/// Holds a derived address against the account that claims to be it, and gives
/// the bump seed where they agree.
pub fn check_derived(derived: &Option<(Pubkey, u8)>, account: &Pubkey) -> (r: Option<u8>)
    ensures
        r == matching_bump(derived_view(*derived), account@),
{
    match derived {
        Some((key, bump)) => {
            if same_key(key, account) {
                Some(*bump)
            } else {
                None
            }
        },
        None => None,
    }
}

} // verus!

use vstd::prelude::*;
use crate::error::VoteError;

verus! {

/// A voter's check record: `voted_for == 0` means "has not voted"; any
/// nonzero value is the id the voter backed, and is terminal.
#[derive(Clone, Copy, Debug, PartialEq, Eq, Structural)]
pub struct VoterCheck {
    pub voted_for: u32,
}

/// A 32-byte account address, held as plain bytes.
#[derive(Clone, Copy, Debug, PartialEq, Eq)]
pub struct Address {
    pub bytes: [u8; 32],
}

impl View for Address {
    type V = Seq<u8>;

    open spec fn view(&self) -> Seq<u8> {
        self.bytes@
    }
}

/// Byte-for-byte address comparison.
pub fn addr_eq(a: &Address, b: &Address) -> (r: bool)
    ensures
        r == (a@ == b@),
{
    let mut i: usize = 0;
    while i < 32
        invariant
            i <= 32,
            forall|j: int| 0 <= j < i ==> a@[j] == b@[j],
        decreases 32 - i,
    {
        if a.bytes[i] != b.bytes[i] {
            assert(a@[i as int] != b@[i as int]);
            return false;
        }
        i += 1;
    }
    proof {
        assert(a@ =~= b@);
    }
    true
}

/// The seed that every check-record derivation uses.
pub open spec fn check_seed() -> Seq<char> {
    "checkvote"@
}

#[verifier::external_type_specification]
#[verifier::external_body]
pub struct ExPubkeyError(solana_program::pubkey::PubkeyError);

/// What `Pubkey::create_with_seed` returns for given base bytes, seed and
/// owner bytes: `None` where the derivation itself is refused.
pub uninterp spec fn seed_derived_address(base: Seq<u8>, seed: Seq<char>, owner: Seq<u8>) -> Option<
    Seq<u8>,
>;

/// Relies on `solana_program::pubkey::Pubkey::create_with_seed`: the derived
/// address is a function of the base key, the seed and the owner key alone
/// (a sha256 digest of their bytes), and so is whether the derivation is
/// refused (an overlong seed, or an owner ending in the reserved marker).
#[verifier::external_body]
fn pubkey_create_with_seed(base: &Address, seed: &str, owner: &Address) -> (r: Result<
    Address,
    solana_program::pubkey::PubkeyError,
>)
    ensures
        r is Ok ==> seed_derived_address(base@, seed@, owner@) == Some(r->Ok_0@),
        r is Err ==> seed_derived_address(base@, seed@, owner@) is None,
{
    match solana_program::pubkey::Pubkey::create_with_seed(
        &solana_program::pubkey::Pubkey::new_from_array(base.bytes),
        seed,
        &solana_program::pubkey::Pubkey::new_from_array(owner.bytes),
    ) {
        Ok(k) => Ok(Address { bytes: k.to_bytes() }),
        Err(e) => Err(e),
    }
}

/// Recompute the check-record address that belongs to `voter` under
/// `authority`; a refused derivation means no account can authenticate.
pub fn derive_check_address(voter: &Address, authority: &Address) -> (r: Result<Address, VoteError>)
    ensures
        r is Ok ==> seed_derived_address(voter@, check_seed(), authority@) == Some(r->Ok_0@),
        r is Err ==> seed_derived_address(voter@, check_seed(), authority@) is None && r->Err_0
            == VoteError::AccountNotCheckAccount,
{
    match pubkey_create_with_seed(voter, "checkvote", authority) {
        Ok(a) => Ok(a),
        Err(_) => Err(VoteError::AccountNotCheckAccount),
    }
}

/// Accept a supplied check-record address only when it equals the one derived
/// from the voter's key: the anti-spoofing control.
pub fn authenticate(voter: &Address, check_key: &Address, authority: &Address) -> (r: Result<
    (),
    VoteError,
>)
    ensures
        r is Ok <==> seed_derived_address(voter@, check_seed(), authority@) == Some(check_key@),
        r is Err ==> r->Err_0 == VoteError::AccountNotCheckAccount,
{
    match derive_check_address(voter, authority) {
        Ok(expected) => {
            if addr_eq(&expected, check_key) {
                Ok(())
            } else {
                Err(VoteError::AccountNotCheckAccount)
            }
        },
        Err(e) => Err(e),
    }
}

/// Admit a vote only from a record that has not voted yet.
pub fn admit_vote(c: &VoterCheck) -> (r: Result<(), VoteError>)
    ensures
        r is Ok <==> c.voted_for == 0,
        r is Err ==> r->Err_0 == VoteError::AlreadyVoted,
{
    if c.voted_for == 0 {
        Ok(())
    } else {
        Err(VoteError::AlreadyVoted)
    }
}

/// The single, irreversible transition of a voter's record.
pub fn commit_vote(c: &mut VoterCheck, option_id: u32)
    requires
        old(c).voted_for == 0,
        option_id >= 1,
    ensures
        final(c).voted_for == option_id,
{
    c.voted_for = option_id;
}

} // verus!

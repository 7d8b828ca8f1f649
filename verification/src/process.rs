use vstd::prelude::*;
use vstd::pervasive::VecAdditionalExecFns;
use crate::error::VoteError;
use crate::ledger::{
    add_option, add_option_spec, ledger_wf, lemma_add_option_preserves_wf,
    lemma_record_vote_preserves_wf, record_vote, record_vote_spec, FlavourAccount,
};
use crate::codec::{
    dec_check, dec_flavours, dec_ledger, decode_check, decode_ledger, enc_ledger, encode_check,
    encode_ledger, le4, lemma_dec_flavours_len, lemma_enc_flavours_len, lemma_le4_len,
    lemma_round_trip_with_tail, lemma_u32_le_of_le4, overwrite_prefix, u32_le,
};
use crate::guard::{
    addr_eq, admit_vote, authenticate, check_seed, commit_vote, seed_derived_address, Address,
    VoterCheck,
};

verus! {

broadcast use crate::codec::lemma_le4_len, crate::codec::lemma_le8_len;

/// One externally supplied account buffer, as plain values: its address, its
/// owner, whether its key signed the invocation, and its bytes.
#[derive(Debug)]
pub struct Account {
    pub key: Address,
    pub owner: Address,
    pub is_signer: bool,
    pub data: Vec<u8>,
}

/// A request, decoded once at the boundary.
#[derive(Clone, Copy, Debug, PartialEq, Eq, Structural)]
pub enum VoteInstruction {
    AddOption,
    CastVote { option_id: u8 },
}

/// The first payload byte selects the operation: `1` adds an option, any
/// other value casts a vote for the id in the second byte.
pub open spec fn instr_is_add(d: Seq<u8>) -> bool {
    d[0] == 1
}

pub open spec fn parse_instruction_spec(d: Seq<u8>) -> VoteInstruction {
    if instr_is_add(d) {
        VoteInstruction::AddOption
    } else {
        VoteInstruction::CastVote { option_id: d[1] }
    }
}

pub fn parse_instruction(d: &Vec<u8>) -> (r: VoteInstruction)
    requires
        d@.len() >= 1,
        !instr_is_add(d@) ==> d@.len() >= 2,
    ensures
        r == parse_instruction_spec(d@),
{
    if d[0] == 1 {
        VoteInstruction::AddOption
    } else {
        VoteInstruction::CastVote { option_id: d[1] }
    }
}

/// Why adding an option to `ledger` under authority `pid` fails, or `None`
/// where it succeeds. The checks run in this order.
pub open spec fn add_option_err(pid: Seq<u8>, ledger: Account) -> Option<VoteError> {
    if ledger.owner@ != pid {
        Some(VoteError::IncorrectOwner)
    } else if dec_ledger(ledger.data@) is None {
        Some(VoteError::MalformedLedger)
    } else if dec_ledger(ledger.data@)->0.len() + 1 > u32::MAX || 4 + 16 * (dec_ledger(
        ledger.data@,
    )->0.len() + 1) > ledger.data@.len() {
        Some(VoteError::BufferOverflow)
    } else {
        None
    }
}

/// The ledger bytes after a successful add: the grown encoding over the
/// front of the buffer, the rest of the buffer untouched.
pub open spec fn added_ledger_data(old_data: Seq<u8>) -> Seq<u8> {
    let l = dec_ledger(old_data)->0;
    enc_ledger(add_option_spec(l)) + old_data.skip(4 + 16 * (l.len() + 1) as int)
}

/// Why a vote by `voter` for `option_id` fails, or `None` where it succeeds.
/// The checks run in this order: ownership of both mutable buffers, the
/// signature, the derived check-record address, the check record itself,
/// then the ledger and the requested id.
pub open spec fn vote_err(
    pid: Seq<u8>,
    ledger: Account,
    check: Account,
    voter: Account,
    option_id: u8,
) -> Option<VoteError> {
    if ledger.owner@ != pid {
        Some(VoteError::IncorrectOwner)
    } else if check.owner@ != pid {
        Some(VoteError::IncorrectOwner)
    } else if !voter.is_signer {
        Some(VoteError::MissingRequiredSignature)
    } else if seed_derived_address(voter.key@, check_seed(), pid) != Some(check.key@) {
        Some(VoteError::AccountNotCheckAccount)
    } else if dec_check(check.data@) is None {
        Some(VoteError::MalformedLedger)
    } else if dec_check(check.data@)->0 != 0 {
        Some(VoteError::AlreadyVoted)
    } else if dec_ledger(ledger.data@) is None {
        Some(VoteError::MalformedLedger)
    } else if option_id == 0 || option_id > dec_ledger(ledger.data@)->0.len() {
        Some(VoteError::UnexpectedCandidate)
    } else {
        None
    }
}

/// The ledger bytes after a successful vote: one tally bumped, same length.
pub open spec fn voted_ledger_data(old_data: Seq<u8>, option_id: u8) -> Seq<u8> {
    let l = dec_ledger(old_data)->0;
    enc_ledger(record_vote_spec(l, option_id as int)) + old_data.skip(4 + 16 * l.len() as int)
}

/// The check-record bytes after a successful vote: the id, recorded once.
pub open spec fn voted_check_data(old_data: Seq<u8>, option_id: u8) -> Seq<u8> {
    le4(option_id as u32) + old_data.skip(4)
}

/// The add-option half of `process`: grow the ledger by one option, or
/// report why not.
fn process_add(program_id: &Address, accounts: &mut Vec<Account>) -> (r: Result<(), VoteError>)
    requires
        old(accounts)@.len() >= 1,
    ensures
        final(accounts)@.len() == old(accounts)@.len(),
        r is Err ==> final(accounts)@ == old(accounts)@,
        r is Err <==> add_option_err(program_id@, old(accounts)@[0]) is Some,
        r is Err ==> Some(r->Err_0) == add_option_err(program_id@, old(accounts)@[0]),
        r is Ok ==> ({
            let a0 = old(accounts)@[0];
            &&& final(accounts)@[0].key == a0.key
            &&& final(accounts)@[0].owner == a0.owner
            &&& final(accounts)@[0].is_signer == a0.is_signer
            &&& final(accounts)@[0].data@ == added_ledger_data(a0.data@)
            &&& forall|i: int|
                1 <= i < old(accounts)@.len() ==> final(accounts)@[i] == old(accounts)@[i]
        }),
{
    if !addr_eq(&accounts[0].owner, program_id) {
        return Err(VoteError::IncorrectOwner);
    }
    let mut ledger = match decode_ledger(&accounts[0].data) {
        Ok(l) => l,
        Err(e) => { return Err(e) },
    };
    let n = ledger.flavours.len();
    if (n as u64) + 1 > u32::MAX as u64 {
        return Err(VoteError::BufferOverflow);
    }
    let needed: u64 = 4 + 16 * ((n as u64) + 1);
    if needed > accounts[0].data.len() as u64 {
        return Err(VoteError::BufferOverflow);
    }
    add_option(&mut ledger);
    let enc = encode_ledger(&ledger);
    proof {
        lemma_enc_flavours_len(ledger@);
    }
    let key = accounts[0].key;
    let owner = accounts[0].owner;
    let is_signer = accounts[0].is_signer;
    let new_data = overwrite_prefix(&accounts[0].data, &enc);
    accounts.set(0, Account { key, owner, is_signer, data: new_data });
    Ok(())
}

/// Write a successful vote's two effects back: the re-encoded ledger and
/// the voter's recorded id, each over the front of its buffer.
#[verifier::rlimit(100)]
fn write_vote_effects(
    accounts: &mut Vec<Account>,
    ledger: &FlavourAccount,
    check: &VoterCheck,
    option_id: u8,
)
    requires
        old(accounts)@.len() >= 2,
        dec_ledger(old(accounts)@[0].data@) is Some,
        dec_check(old(accounts)@[1].data@) is Some,
        1 <= option_id <= dec_ledger(old(accounts)@[0].data@)->0.len(),
        ledger@ == record_vote_spec(dec_ledger(old(accounts)@[0].data@)->0, option_id as int),
        check.voted_for == option_id as u32,
    ensures
        final(accounts)@.len() == old(accounts)@.len(),
        final(accounts)@[0].key == old(accounts)@[0].key,
        final(accounts)@[0].owner == old(accounts)@[0].owner,
        final(accounts)@[0].is_signer == old(accounts)@[0].is_signer,
        final(accounts)@[0].data@ == voted_ledger_data(old(accounts)@[0].data@, option_id),
        final(accounts)@[1].key == old(accounts)@[1].key,
        final(accounts)@[1].owner == old(accounts)@[1].owner,
        final(accounts)@[1].is_signer == old(accounts)@[1].is_signer,
        final(accounts)@[1].data@ == voted_check_data(old(accounts)@[1].data@, option_id),
        forall|i: int| 2 <= i < old(accounts)@.len() ==> final(accounts)@[i] == old(accounts)@[i],
{
    proof {
        let b0 = old(accounts)@[0].data@;
        let n = u32_le(b0.subrange(0, 4));
        assert(dec_ledger(b0) == Some(dec_flavours(b0.skip(4), n as nat)));
        lemma_dec_flavours_len(b0.skip(4), n as nat);
        assert(ledger@.len() == n);
        lemma_le4_len(n);
        lemma_enc_flavours_len(ledger@);
        assert(enc_ledger(ledger@).len() == 4 + 16 * ledger@.len());
        assert(b0.len() >= 4 + 16 * (n as int));
    }
    let enc_l = encode_ledger(ledger);
    let enc_c = encode_check(check.voted_for);
    let key0 = accounts[0].key;
    let owner0 = accounts[0].owner;
    let signer0 = accounts[0].is_signer;
    let new0 = overwrite_prefix(&accounts[0].data, &enc_l);
    accounts.set(0, Account { key: key0, owner: owner0, is_signer: signer0, data: new0 });
    let key1 = accounts[1].key;
    let owner1 = accounts[1].owner;
    let signer1 = accounts[1].is_signer;
    let new1 = overwrite_prefix(&accounts[1].data, &enc_c);
    accounts.set(1, Account { key: key1, owner: owner1, is_signer: signer1, data: new1 });
}

/// The vote half of `process`: admit, tally and record one vote, or report
/// why not.
#[verifier::rlimit(100)]
fn process_vote(program_id: &Address, accounts: &mut Vec<Account>, option_id: u8) -> (r: Result<
    (),
    VoteError,
>)
    requires
        old(accounts)@.len() >= 3,
    ensures
        final(accounts)@.len() == old(accounts)@.len(),
        r is Err ==> final(accounts)@ == old(accounts)@,
        r is Err <==> vote_err(
            program_id@,
            old(accounts)@[0],
            old(accounts)@[1],
            old(accounts)@[2],
            option_id,
        ) is Some,
        r is Err ==> Some(r->Err_0) == vote_err(
            program_id@,
            old(accounts)@[0],
            old(accounts)@[1],
            old(accounts)@[2],
            option_id,
        ),
        r is Ok ==> ({
            let a0 = old(accounts)@[0];
            let a1 = old(accounts)@[1];
            &&& final(accounts)@[0].key == a0.key
            &&& final(accounts)@[0].owner == a0.owner
            &&& final(accounts)@[0].is_signer == a0.is_signer
            &&& final(accounts)@[0].data@ == voted_ledger_data(a0.data@, option_id)
            &&& final(accounts)@[1].key == a1.key
            &&& final(accounts)@[1].owner == a1.owner
            &&& final(accounts)@[1].is_signer == a1.is_signer
            &&& final(accounts)@[1].data@ == voted_check_data(a1.data@, option_id)
            &&& forall|i: int|
                2 <= i < old(accounts)@.len() ==> final(accounts)@[i] == old(accounts)@[i]
        }),
{
    if !addr_eq(&accounts[0].owner, program_id) {
        return Err(VoteError::IncorrectOwner);
    }
    if !addr_eq(&accounts[1].owner, program_id) {
        return Err(VoteError::IncorrectOwner);
    }
    if !accounts[2].is_signer {
        return Err(VoteError::MissingRequiredSignature);
    }
    match authenticate(&accounts[2].key, &accounts[1].key, program_id) {
        Ok(()) => (),
        Err(e) => { return Err(e) },
    }
    let voted_for = match decode_check(&accounts[1].data) {
        Ok(v) => v,
        Err(e) => { return Err(e) },
    };
    let mut check = VoterCheck { voted_for };
    match admit_vote(&check) {
        Ok(()) => (),
        Err(e) => { return Err(e) },
    }
    let mut ledger = match decode_ledger(&accounts[0].data) {
        Ok(l) => l,
        Err(e) => { return Err(e) },
    };
    match record_vote(&mut ledger, option_id as u64) {
        Ok(()) => (),
        Err(e) => { return Err(e) },
    }
    commit_vote(&mut check, option_id as u32);
    write_vote_effects(accounts, &ledger, &check, option_id);
    Ok(())
}

/// The state-transition function: dispatch one request against the supplied
/// account buffers. Either every named effect applies, or an error comes
/// back and every buffer is byte-for-byte unchanged.
///
/// The accounts stand in the host's positional order: the ledger buffer
/// first; for a vote, then the voter's check-record buffer and the voter's
/// own identity.
pub fn process(
    program_id: &Address,
    accounts: &mut Vec<Account>,
    instruction_data: &Vec<u8>,
) -> (r: Result<(), VoteError>)
    requires
        instruction_data@.len() >= 1,
        old(accounts)@.len() >= 1,
        !instr_is_add(instruction_data@) ==> instruction_data@.len() >= 2 && old(
            accounts,
        )@.len() >= 3,
    ensures
        final(accounts)@.len() == old(accounts)@.len(),
        r is Err ==> final(accounts)@ == old(accounts)@,
        instr_is_add(instruction_data@) ==> ({
            let e = add_option_err(program_id@, old(accounts)@[0]);
            &&& (r is Err <==> e is Some)
            &&& (r is Err ==> Some(r->Err_0) == e)
            &&& (r is Ok ==> {
                let a0 = old(accounts)@[0];
                &&& final(accounts)@[0].key == a0.key
                &&& final(accounts)@[0].owner == a0.owner
                &&& final(accounts)@[0].is_signer == a0.is_signer
                &&& final(accounts)@[0].data@ == added_ledger_data(a0.data@)
                &&& forall|i: int|
                    1 <= i < old(accounts)@.len() ==> final(accounts)@[i] == old(accounts)@[i]
            })
        }),
        !instr_is_add(instruction_data@) ==> ({
            let id = instruction_data@[1];
            let e = vote_err(
                program_id@,
                old(accounts)@[0],
                old(accounts)@[1],
                old(accounts)@[2],
                id,
            );
            &&& (r is Err <==> e is Some)
            &&& (r is Err ==> Some(r->Err_0) == e)
            &&& (r is Ok ==> {
                let a0 = old(accounts)@[0];
                let a1 = old(accounts)@[1];
                &&& final(accounts)@[0].key == a0.key
                &&& final(accounts)@[0].owner == a0.owner
                &&& final(accounts)@[0].is_signer == a0.is_signer
                &&& final(accounts)@[0].data@ == voted_ledger_data(a0.data@, id)
                &&& final(accounts)@[1].key == a1.key
                &&& final(accounts)@[1].owner == a1.owner
                &&& final(accounts)@[1].is_signer == a1.is_signer
                &&& final(accounts)@[1].data@ == voted_check_data(a1.data@, id)
                &&& forall|i: int|
                    2 <= i < old(accounts)@.len() ==> final(accounts)@[i] == old(accounts)@[i]
            })
        }),
{
    let instr = parse_instruction(instruction_data);
    match instr {
        VoteInstruction::AddOption => process_add(program_id, accounts),
        VoteInstruction::CastVote { option_id } => process_vote(program_id, accounts, option_id),
    }
}

/// What a successful add writes back decodes to the grown ledger, and a
/// well-formed ledger stays well-formed.
pub proof fn lemma_added_data_decodes(old_data: Seq<u8>)
    requires
        dec_ledger(old_data) is Some,
        dec_ledger(old_data)->0.len() + 1 <= u32::MAX,
    ensures
        dec_ledger(added_ledger_data(old_data)) == Some(add_option_spec(dec_ledger(old_data)->0)),
        ledger_wf(dec_ledger(old_data)->0) ==> ledger_wf(
            dec_ledger(added_ledger_data(old_data))->0,
        ),
{
    let l = dec_ledger(old_data)->0;
    lemma_round_trip_with_tail(add_option_spec(l), old_data.skip(4 + 16 * (l.len() + 1) as int));
    if ledger_wf(l) {
        lemma_add_option_preserves_wf(l);
    }
}

/// What a successful vote writes back decodes to the ledger with one tally
/// bumped, and a well-formed ledger stays well-formed.
pub proof fn lemma_voted_data_decodes(old_data: Seq<u8>, option_id: u8)
    requires
        dec_ledger(old_data) is Some,
        1 <= option_id <= dec_ledger(old_data)->0.len(),
    ensures
        dec_ledger(voted_ledger_data(old_data, option_id)) == Some(
            record_vote_spec(dec_ledger(old_data)->0, option_id as int),
        ),
        ledger_wf(dec_ledger(old_data)->0) ==> ledger_wf(
            dec_ledger(voted_ledger_data(old_data, option_id))->0,
        ),
{
    let l = dec_ledger(old_data)->0;
    lemma_dec_flavours_len(old_data.skip(4), u32_le(old_data.subrange(0, 4)) as nat);
    lemma_round_trip_with_tail(
        record_vote_spec(l, option_id as int),
        old_data.skip(4 + 16 * l.len() as int),
    );
    if ledger_wf(l) {
        lemma_record_vote_preserves_wf(l, option_id as int);
    }
}

/// What a successful vote writes into the check record decodes to the id
/// that was backed.
pub proof fn lemma_voted_check_decodes(old_data: Seq<u8>, option_id: u8)
    ensures
        dec_check(voted_check_data(old_data, option_id)) == Some(option_id as u32),
{
    lemma_u32_le_of_le4(option_id as u32);
    assert(voted_check_data(old_data, option_id).subrange(0, 4) =~= le4(option_id as u32));
}

/// Double-vote rejection: whatever id is asked for, a record that already
/// carries a nonzero vote is turned away with `AlreadyVoted`, and so (by the
/// contract of `process`) neither buffer moves.
pub proof fn lemma_double_vote_rejected(
    pid: Seq<u8>,
    ledger: Account,
    check: Account,
    voter: Account,
    option_id: u8,
)
    requires
        ledger.owner@ == pid,
        check.owner@ == pid,
        voter.is_signer,
        seed_derived_address(voter.key@, check_seed(), pid) == Some(check.key@),
        dec_check(check.data@) is Some,
        dec_check(check.data@)->0 != 0,
    ensures
        vote_err(pid, ledger, check, voter, option_id) == Some(VoteError::AlreadyVoted),
{
}

/// Spoofed check-account rejection: a check-record address other than the
/// derived one is turned away with `AccountNotCheckAccount`, whatever the
/// record's content would otherwise admit.
pub proof fn lemma_spoofed_check_rejected(
    pid: Seq<u8>,
    ledger: Account,
    check: Account,
    voter: Account,
    option_id: u8,
)
    requires
        ledger.owner@ == pid,
        check.owner@ == pid,
        voter.is_signer,
        seed_derived_address(voter.key@, check_seed(), pid) != Some(check.key@),
    ensures
        vote_err(pid, ledger, check, voter, option_id) == Some(VoteError::AccountNotCheckAccount),
{
}

/// Out-of-range rejection: id `0`, and any id above the ledger's length, is
/// turned away with `UnexpectedCandidate`.
pub proof fn lemma_out_of_range_vote_rejected(
    pid: Seq<u8>,
    ledger: Account,
    check: Account,
    voter: Account,
    option_id: u8,
)
    requires
        ledger.owner@ == pid,
        check.owner@ == pid,
        voter.is_signer,
        seed_derived_address(voter.key@, check_seed(), pid) == Some(check.key@),
        dec_check(check.data@) == Some(0u32),
        dec_ledger(ledger.data@) is Some,
        option_id == 0 || option_id > dec_ledger(ledger.data@)->0.len(),
    ensures
        vote_err(pid, ledger, check, voter, option_id) == Some(VoteError::UnexpectedCandidate),
{
}

} // verus!


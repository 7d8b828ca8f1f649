use flavotes::codec::{decode_check, decode_ledger};
use flavotes::guard::derive_check_address;
use flavotes::{process, Account, Address, Flavour, VoteError};
use solana_program::pubkey::Pubkey;

const PROGRAM: [u8; 32] = [7u8; 32];
const VOTER: [u8; 32] = [9u8; 32];

fn derived_check_key() -> [u8; 32] {
    Pubkey::create_with_seed(
        &Pubkey::new_from_array(VOTER),
        "checkvote",
        &Pubkey::new_from_array(PROGRAM),
    )
    .unwrap()
    .to_bytes()
}

fn ledger_account(data: Vec<u8>) -> Account {
    Account {
        key: Address { bytes: [1u8; 32] },
        owner: Address { bytes: PROGRAM },
        is_signer: false,
        data,
    }
}

fn check_account(key: [u8; 32], data: Vec<u8>) -> Account {
    Account {
        key: Address { bytes: key },
        owner: Address { bytes: PROGRAM },
        is_signer: false,
        data,
    }
}

fn voter_account(is_signer: bool) -> Account {
    Account {
        key: Address { bytes: VOTER },
        owner: Address { bytes: [0u8; 32] },
        is_signer,
        data: Vec::new(),
    }
}

fn decoded_options(accounts: &Vec<Account>) -> Vec<Flavour> {
    decode_ledger(&accounts[0].data).unwrap().flavours
}

#[test]
fn derived_address_matches_the_host_derivation() {
    let voter = Address { bytes: VOTER };
    let authority = Address { bytes: PROGRAM };
    let derived = derive_check_address(&voter, &authority).unwrap();
    assert_eq!(derived.bytes, derived_check_key());
    // The derivation is a digest, never the voter's own key handed back.
    assert_ne!(derived.bytes, VOTER);
}

#[test]
fn full_scenario_two_adds_one_vote_then_rejected_repeat() {
    let pid = Address { bytes: PROGRAM };
    let mut accounts = vec![ledger_account(vec![0u8; 100])];

    // Two adds from the empty ledger.
    assert_eq!(process(&pid, &mut accounts, &vec![1u8]), Ok(()));
    assert_eq!(process(&pid, &mut accounts, &vec![1u8]), Ok(()));
    assert_eq!(
        decoded_options(&accounts),
        vec![
            Flavour { vote_count: 0, id: 1 },
            Flavour { vote_count: 0, id: 2 },
        ]
    );

    // A vote for id 2 with a fresh check record.
    accounts.push(check_account(derived_check_key(), vec![0u8; 4]));
    accounts.push(voter_account(true));
    assert_eq!(process(&pid, &mut accounts, &vec![0u8, 2]), Ok(()));
    assert_eq!(
        decoded_options(&accounts),
        vec![
            Flavour { vote_count: 0, id: 1 },
            Flavour { vote_count: 1, id: 2 },
        ]
    );
    assert_eq!(decode_check(&accounts[1].data).unwrap(), 2);

    // The same voter trying again is turned away and nothing moves.
    let ledger_before = accounts[0].data.clone();
    let check_before = accounts[1].data.clone();
    assert_eq!(
        process(&pid, &mut accounts, &vec![0u8, 1]),
        Err(VoteError::AlreadyVoted)
    );
    assert_eq!(accounts[0].data, ledger_before);
    assert_eq!(accounts[1].data, check_before);
}

#[test]
fn double_vote_rejected_with_record_content_three() {
    let pid = Address { bytes: PROGRAM };
    let mut accounts = vec![ledger_account(vec![0u8; 100])];
    for _ in 0..3 {
        assert_eq!(process(&pid, &mut accounts, &vec![1u8]), Ok(()));
    }
    accounts.push(check_account(derived_check_key(), vec![3u8, 0, 0, 0]));
    accounts.push(voter_account(true));
    let ledger_before = accounts[0].data.clone();
    assert_eq!(
        process(&pid, &mut accounts, &vec![0u8, 1]),
        Err(VoteError::AlreadyVoted)
    );
    assert_eq!(accounts[0].data, ledger_before);
    assert_eq!(accounts[1].data, vec![3u8, 0, 0, 0]);
}

#[test]
fn spoofed_check_account_rejected() {
    let pid = Address { bytes: PROGRAM };
    let mut accounts = vec![ledger_account(vec![0u8; 100])];
    assert_eq!(process(&pid, &mut accounts, &vec![1u8]), Ok(()));
    // The record's content would admit a vote, but its address is not the
    // derived one.
    accounts.push(check_account(VOTER, vec![0u8; 4]));
    accounts.push(voter_account(true));
    let ledger_before = accounts[0].data.clone();
    assert_eq!(
        process(&pid, &mut accounts, &vec![0u8, 1]),
        Err(VoteError::AccountNotCheckAccount)
    );
    assert_eq!(accounts[0].data, ledger_before);
    assert_eq!(accounts[1].data, vec![0u8; 4]);
}

#[test]
fn out_of_range_votes_rejected() {
    let pid = Address { bytes: PROGRAM };
    let mut accounts = vec![ledger_account(vec![0u8; 100])];
    assert_eq!(process(&pid, &mut accounts, &vec![1u8]), Ok(()));
    assert_eq!(process(&pid, &mut accounts, &vec![1u8]), Ok(()));
    accounts.push(check_account(derived_check_key(), vec![0u8; 4]));
    accounts.push(voter_account(true));
    let ledger_before = accounts[0].data.clone();
    for bad_id in [0u8, 3u8, 255u8] {
        assert_eq!(
            process(&pid, &mut accounts, &vec![0u8, bad_id]),
            Err(VoteError::UnexpectedCandidate)
        );
        assert_eq!(accounts[0].data, ledger_before);
        assert_eq!(accounts[1].data, vec![0u8; 4]);
    }
}

#[test]
fn missing_signature_rejected() {
    let pid = Address { bytes: PROGRAM };
    let mut accounts = vec![ledger_account(vec![0u8; 100])];
    assert_eq!(process(&pid, &mut accounts, &vec![1u8]), Ok(()));
    accounts.push(check_account(derived_check_key(), vec![0u8; 4]));
    accounts.push(voter_account(false));
    assert_eq!(
        process(&pid, &mut accounts, &vec![0u8, 1]),
        Err(VoteError::MissingRequiredSignature)
    );
}

#[test]
fn foreign_owned_buffers_rejected() {
    let pid = Address { bytes: PROGRAM };
    let mut foreign_ledger = ledger_account(vec![0u8; 100]);
    foreign_ledger.owner = Address { bytes: [8u8; 32] };
    let mut accounts = vec![foreign_ledger];
    assert_eq!(
        process(&pid, &mut accounts, &vec![1u8]),
        Err(VoteError::IncorrectOwner)
    );
    assert_eq!(accounts[0].data, vec![0u8; 100]);

    let mut accounts = vec![ledger_account(vec![0u8; 100])];
    assert_eq!(process(&pid, &mut accounts, &vec![1u8]), Ok(()));
    let mut foreign_check = check_account(derived_check_key(), vec![0u8; 4]);
    foreign_check.owner = Address { bytes: [8u8; 32] };
    accounts.push(foreign_check);
    accounts.push(voter_account(true));
    let ledger_before = accounts[0].data.clone();
    assert_eq!(
        process(&pid, &mut accounts, &vec![0u8, 1]),
        Err(VoteError::IncorrectOwner)
    );
    assert_eq!(accounts[0].data, ledger_before);
}

#[test]
fn malformed_check_record_rejected() {
    let pid = Address { bytes: PROGRAM };
    let mut accounts = vec![ledger_account(vec![0u8; 100])];
    assert_eq!(process(&pid, &mut accounts, &vec![1u8]), Ok(()));
    accounts.push(check_account(derived_check_key(), vec![0u8; 2]));
    accounts.push(voter_account(true));
    assert_eq!(
        process(&pid, &mut accounts, &vec![0u8, 1]),
        Err(VoteError::MalformedLedger)
    );
}

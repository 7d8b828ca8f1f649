use flavotes::codec::decode_ledger;
use flavotes::ledger::{add_option, record_vote};
use flavotes::{process, Account, Address, Flavour, FlavourAccount, VoteError};

#[test]
fn add_option_assigns_monotonic_ids() {
    let mut a = FlavourAccount::empty();
    for _ in 0..5 {
        add_option(&mut a);
    }
    for (i, f) in a.flavours.iter().enumerate() {
        assert_eq!(f.id, i as u64 + 1);
        assert_eq!(f.vote_count, 0);
    }
}

#[test]
fn add_option_persists_through_process() {
    let pid = Address { bytes: [7u8; 32] };
    let mut accounts = vec![Account {
        key: Address { bytes: [1u8; 32] },
        owner: pid,
        is_signer: false,
        data: vec![0u8; 20],
    }];
    assert_eq!(process(&pid, &mut accounts, &vec![1u8]), Ok(()));
    // The grown encoding was written back, filling the whole buffer.
    let expected = vec![
        1u8, 0, 0, 0, // one option
        0, 0, 0, 0, 0, 0, 0, 0, // its tally
        1, 0, 0, 0, 0, 0, 0, 0, // its id
    ];
    assert_eq!(accounts[0].data, expected);
    assert_eq!(
        decode_ledger(&accounts[0].data).unwrap().flavours,
        vec![Flavour { vote_count: 0, id: 1 }]
    );
}

#[test]
fn add_option_overflowing_its_buffer_fails_atomically() {
    let pid = Address { bytes: [7u8; 32] };
    let mut accounts = vec![Account {
        key: Address { bytes: [1u8; 32] },
        owner: pid,
        is_signer: false,
        data: vec![0u8; 4],
    }];
    assert_eq!(
        process(&pid, &mut accounts, &vec![1u8]),
        Err(VoteError::BufferOverflow)
    );
    assert_eq!(accounts[0].data, vec![0u8; 4]);

    // A buffer one byte short of the grown encoding fails the same way.
    accounts[0].data = vec![0u8; 19];
    assert_eq!(
        process(&pid, &mut accounts, &vec![1u8]),
        Err(VoteError::BufferOverflow)
    );
    assert_eq!(accounts[0].data, vec![0u8; 19]);
}

#[test]
fn add_option_on_malformed_buffer_fails() {
    let pid = Address { bytes: [7u8; 32] };
    let mut accounts = vec![Account {
        key: Address { bytes: [1u8; 32] },
        owner: pid,
        is_signer: false,
        data: vec![0u8; 3],
    }];
    assert_eq!(
        process(&pid, &mut accounts, &vec![1u8]),
        Err(VoteError::MalformedLedger)
    );
    assert_eq!(accounts[0].data, vec![0u8; 3]);
}

#[test]
fn record_vote_moves_exactly_one_tally() {
    let mut a = FlavourAccount::empty();
    add_option(&mut a);
    add_option(&mut a);
    add_option(&mut a);
    assert_eq!(record_vote(&mut a, 2), Ok(()));
    assert_eq!(record_vote(&mut a, 2), Ok(()));
    assert_eq!(record_vote(&mut a, 3), Ok(()));
    assert_eq!(
        a.flavours,
        vec![
            Flavour { vote_count: 0, id: 1 },
            Flavour { vote_count: 2, id: 2 },
            Flavour { vote_count: 1, id: 3 },
        ]
    );
}

#[test]
fn record_vote_rejects_ids_outside_the_range() {
    let mut a = FlavourAccount::empty();
    add_option(&mut a);
    assert_eq!(record_vote(&mut a, 0), Err(VoteError::UnexpectedCandidate));
    assert_eq!(record_vote(&mut a, 2), Err(VoteError::UnexpectedCandidate));
    assert_eq!(a.flavours, vec![Flavour { vote_count: 0, id: 1 }]);
}

#[test]
fn record_vote_saturates_at_the_maximum_tally() {
    let mut a = FlavourAccount {
        flavours: vec![Flavour { vote_count: u64::MAX, id: 1 }],
    };
    assert_eq!(record_vote(&mut a, 1), Ok(()));
    assert_eq!(a.flavours[0].vote_count, u64::MAX);
}

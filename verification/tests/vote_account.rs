use borsh::BorshSerialize;
use chain_democracy::address::find_election_address;
use chain_democracy::address::Address;
use chain_democracy::error::ElectionError;
use chain_democracy::pda_management::generate_vote_account::add_vote;
use chain_democracy::pda_management::generate_vote_account::add_vote_account;
use chain_democracy::pda_management::generate_vote_account::initialize_vote_account;
use chain_democracy::pda_management::generate_vote_account::try_update;
use chain_democracy::record::RecordHandle;
use chain_democracy::state::vote_account_state::VoteAccountState;
use chain_democracy::utilities::election_account_utilities::Timestamp;
use chain_democracy::utilities::vote_account_utilities::check_dates;

fn address(byte: u8) -> Address {
    Address { bytes: [byte; 32] }
}

fn program() -> Address {
    address(7)
}

fn start() -> Timestamp {
    Timestamp { seconds: 1_714_550_400, nanos: 0 }
}

fn end() -> Timestamp {
    Timestamp { seconds: 1_714_680_000, nanos: 0 }
}

fn created() -> Vec<RecordHandle> {
    let mut records = vec![
        RecordHandle::vacant(address(1), address(0)),
        RecordHandle::vacant(find_election_address(&program(), "mayor-2024").unwrap(), address(0)),
        RecordHandle::vacant(address(0), address(0)),
    ];
    add_vote_account(&program(), &mut records, "mayor-2024".to_string(), start(), end()).unwrap();
    records
}

#[test]
fn vote_account_round_trip() {
    let record = VoteAccountState {
        is_initialized: true,
        name: "mayor-2024".to_string(),
        start_date: "2024-05-01 08:00:00".to_string(),
        end_date: "2024-05-02 20:00:00".to_string(),
        votes: vec![(address(9), vec![address(20), address(21)]), (address(4), Vec::new())],
        is_active: true,
    };
    let bytes = record.encode().unwrap();
    assert_eq!(VoteAccountState::decode(&bytes), Ok(record));
}

#[test]
fn vote_account_with_empty_map_round_trip() {
    let record = VoteAccountState {
        is_initialized: false,
        name: String::new(),
        start_date: String::new(),
        end_date: String::new(),
        votes: Vec::new(),
        is_active: false,
    };
    let bytes = record.encode().unwrap();
    assert_eq!(bytes, vec![0u8; 18]);
    assert_eq!(VoteAccountState::decode(&bytes), Ok(record));
}

#[test]
fn vote_account_layout_matches_borsh() {
    let record = VoteAccountState {
        is_initialized: true,
        name: "mayor-2024".to_string(),
        start_date: "a".to_string(),
        end_date: "b".to_string(),
        votes: vec![(address(9), vec![address(20), address(21)]), (address(4), Vec::new())],
        is_active: true,
    };
    let votes: Vec<([u8; 32], Vec<[u8; 32]>)> = record
        .votes
        .iter()
        .map(|(candidate, voters)| (candidate.bytes, voters.iter().map(|v| v.bytes).collect()))
        .collect();
    let expected =
        (true, "mayor-2024".to_string(), "a".to_string(), "b".to_string(), votes, true)
            .try_to_vec()
            .unwrap();
    assert_eq!(record.encode().unwrap(), expected);
}

#[test]
fn vote_account_rejects_candidate_listed_twice() {
    let record = VoteAccountState {
        is_initialized: true,
        name: String::new(),
        start_date: String::new(),
        end_date: String::new(),
        votes: vec![(address(9), vec![address(20)]), (address(9), Vec::new())],
        is_active: false,
    };
    let bytes = record.encode().unwrap();
    assert_eq!(VoteAccountState::decode(&bytes), Err(ElectionError::DecodeError));
}

#[test]
fn vote_account_is_created_and_initialized() {
    let records = created();
    assert_eq!(records[1].owner, program());
    assert_eq!(records[1].data.len(), 1 + 4 * 10 + 4 * 19 + 4 * 19 + 6 * (32 + 32 * 10));
    assert_eq!(
        VoteAccountState::decode(&records[1].data),
        Ok(VoteAccountState {
            is_initialized: true,
            name: "mayor-2024".to_string(),
            start_date: "2024-05-01 08:00:00".to_string(),
            end_date: "2024-05-02 20:00:00".to_string(),
            votes: Vec::new(),
            is_active: false,
        })
    );
}

#[test]
fn vote_account_is_created_once() {
    let mut records = created();
    let before = records.clone();
    assert_eq!(
        add_vote_account(&program(), &mut records, "mayor-2024".to_string(), start(), end()),
        Err(ElectionError::AccountAlreadyInitialized)
    );
    assert_eq!(records, before);
    assert_eq!(
        initialize_vote_account(&mut records[1], "x".to_string(), "y".to_string(), "z".to_string()),
        Err(ElectionError::AccountAlreadyInitialized)
    );
    assert_eq!(records, before);
}

#[test]
fn vote_account_needs_three_records() {
    let mut records = created();
    records.truncate(2);
    records[1].data.clear();
    assert_eq!(
        add_vote_account(&program(), &mut records, "mayor-2024".to_string(), start(), end()),
        Err(ElectionError::MissingRecordArgument)
    );
}

#[test]
fn update_activates_the_election() {
    let mut records = created();
    assert_eq!(try_update(&program(), &mut records, "mayor-2024".to_string()), Ok(()));
    let election = VoteAccountState::decode(&records[1].data).unwrap();
    assert!(election.is_active);
    assert_eq!(election.name, "mayor-2024");
}

#[test]
fn update_checks_owner_address_and_state() {
    let mut records = created();
    let before = records.clone();
    assert_eq!(
        try_update(&address(8), &mut records, "mayor-2024".to_string()),
        Err(ElectionError::UnauthorizedOwner)
    );
    assert_eq!(
        try_update(&program(), &mut records, "mayor-2025".to_string()),
        Err(ElectionError::AddressMismatch)
    );
    assert_eq!(records, before);
    let mut short = vec![records[0].clone()];
    assert_eq!(
        try_update(&program(), &mut short, "mayor-2024".to_string()),
        Err(ElectionError::MissingRecordArgument)
    );
    let mut blank = records.clone();
    blank[1].data = vec![0u8; 64];
    assert_eq!(
        try_update(&program(), &mut blank, "mayor-2024".to_string()),
        Err(ElectionError::AccountNotInitialized)
    );
}

#[test]
fn voters_are_listed_by_candidate_in_order() {
    let mut records = created();
    add_vote(&mut records[1], address(50), &address(101)).unwrap();
    add_vote(&mut records[1], address(60), &address(102)).unwrap();
    add_vote(&mut records[1], address(50), &address(103)).unwrap();
    assert_eq!(
        VoteAccountState::decode(&records[1].data).unwrap().votes,
        vec![(address(50), vec![address(101), address(103)]), (address(60), vec![address(102)])]
    );
}

#[test]
fn voters_are_not_listed_in_a_record_that_is_not_initialized() {
    let mut record = RecordHandle::vacant(address(3), program());
    assert_eq!(
        add_vote(&mut record, address(50), &address(101)),
        Err(ElectionError::AccountNotInitialized)
    );
    record.data = vec![0u8; 100];
    assert_eq!(
        add_vote(&mut record, address(50), &address(101)),
        Err(ElectionError::AccountNotInitialized)
    );
    assert_eq!(record.data, vec![0u8; 100]);
}

#[test]
fn dates_of_a_vote_account_are_checked_alike() {
    let at = |seconds| Timestamp { seconds, nanos: 0 };
    assert_eq!(check_dates(at(1000), at(2200), at(5000)), Ok(()));
    assert_eq!(check_dates(at(1000), at(2201), at(5000)), Err(ElectionError::MalformedInstruction));
    assert_eq!(check_dates(at(1000), at(500), at(500)), Err(ElectionError::MalformedInstruction));
}

use borsh::BorshSerialize;
use chain_democracy::address::Address;
use chain_democracy::error::ElectionError;
use chain_democracy::state::candidate_list_state::CandidateListState;
use chain_democracy::state::candidate_state::CandidateState;
use chain_democracy::state::election_account_state::ElectionAccountState;
use chain_democracy::state::result_state::ResultState;
use chain_democracy::state::voter_account_state::VoterAccountState;
use chain_democracy::wire::read_i64;
use chain_democracy::wire::read_u32;
use chain_democracy::wire::write_i64;
use chain_democracy::wire::write_u32;

fn address(byte: u8) -> Address {
    Address { bytes: [byte; 32] }
}

fn sample_election() -> ElectionAccountState {
    ElectionAccountState {
        is_initialized: true,
        name: "mayor-2024".to_string(),
        start_date: "2024-05-01 08:00:00".to_string(),
        end_date: "2024-05-02 20:00:00".to_string(),
        votes: vec![(address(9), 3), (address(4), -1), (address(200), i64::MAX)],
        number_of_votes: 4,
        is_active: false,
    }
}

#[test]
fn candidate_record_round_trip() {
    let record = CandidateState {
        is_initialized: true,
        first_name: "Alice".to_string(),
        last_name: "Rossi".to_string(),
    };
    let bytes = record.encode().unwrap();
    assert_eq!(CandidateState::decode(&bytes), Ok(record));
}

#[test]
fn candidate_record_with_empty_names_round_trip() {
    let record =
        CandidateState { is_initialized: false, first_name: String::new(), last_name: String::new() };
    let bytes = record.encode().unwrap();
    assert_eq!(bytes, vec![0u8; 9]);
    assert_eq!(CandidateState::decode(&bytes), Ok(record));
}

#[test]
fn candidate_record_layout_matches_borsh() {
    let record = CandidateState {
        is_initialized: true,
        first_name: "Alice".to_string(),
        last_name: "Rossi".to_string(),
    };
    let expected = (true, "Alice".to_string(), "Rossi".to_string()).try_to_vec().unwrap();
    assert_eq!(record.encode().unwrap(), expected);
}

#[test]
fn candidate_record_exact_bytes() {
    let record = CandidateState {
        is_initialized: true,
        first_name: "Al".to_string(),
        last_name: "B".to_string(),
    };
    assert_eq!(record.encode().unwrap(), vec![1, 2, 0, 0, 0, b'A', b'l', 1, 0, 0, 0, b'B']);
}

#[test]
fn candidate_record_keeps_non_ascii_names() {
    let record = CandidateState {
        is_initialized: true,
        first_name: "Zoë".to_string(),
        last_name: "Müller-Łukasz".to_string(),
    };
    let bytes = record.encode().unwrap();
    assert_eq!(bytes[1], 4);
    assert_eq!(CandidateState::decode(&bytes), Ok(record));
}

#[test]
fn decoding_ignores_what_follows_the_record() {
    let record = CandidateState {
        is_initialized: true,
        first_name: "Alice".to_string(),
        last_name: "Rossi".to_string(),
    };
    let mut bytes = record.encode().unwrap();
    bytes.extend_from_slice(&[0xAB; 40]);
    assert_eq!(CandidateState::decode(&bytes), Ok(record));
}

#[test]
fn candidate_record_rejects_bad_flag() {
    assert_eq!(CandidateState::decode(&[2, 0, 0, 0, 0, 0, 0, 0, 0]), Err(ElectionError::DecodeError));
}

#[test]
fn candidate_record_rejects_short_buffer() {
    assert_eq!(CandidateState::decode(&[]), Err(ElectionError::DecodeError));
    assert_eq!(CandidateState::decode(&[1, 5, 0, 0, 0, b'A']), Err(ElectionError::DecodeError));
}

#[test]
fn candidate_record_rejects_invalid_utf8() {
    assert_eq!(
        CandidateState::decode(&[1, 2, 0, 0, 0, 0xC3, 0x28, 0, 0, 0, 0]),
        Err(ElectionError::DecodeError)
    );
}

#[test]
fn election_record_round_trip() {
    let record = sample_election();
    let bytes = record.encode().unwrap();
    assert_eq!(ElectionAccountState::decode(&bytes), Ok(record));
}

#[test]
fn election_record_with_empty_map_round_trip() {
    let record = ElectionAccountState {
        is_initialized: false,
        name: String::new(),
        start_date: String::new(),
        end_date: String::new(),
        votes: Vec::new(),
        number_of_votes: 0,
        is_active: false,
    };
    let bytes = record.encode().unwrap();
    assert_eq!(bytes, vec![0u8; 26]);
    assert_eq!(ElectionAccountState::decode(&bytes), Ok(record));
}

#[test]
fn election_record_layout_matches_borsh() {
    let record = sample_election();
    let votes: Vec<([u8; 32], i64)> = record.votes.iter().map(|(a, n)| (a.bytes, *n)).collect();
    let expected = (
        record.is_initialized,
        record.name.clone(),
        record.start_date.clone(),
        record.end_date.clone(),
        votes,
        record.number_of_votes,
        record.is_active,
    )
        .try_to_vec()
        .unwrap();
    assert_eq!(record.encode().unwrap(), expected);
}

#[test]
fn election_record_rejects_candidate_listed_twice() {
    let mut record = sample_election();
    record.votes = vec![(address(9), 3), (address(9), 5)];
    let bytes = record.encode().unwrap();
    assert_eq!(ElectionAccountState::decode(&bytes), Err(ElectionError::DecodeError));
}

#[test]
fn all_zero_buffer_decodes_as_uninitialized_election() {
    let record = ElectionAccountState::decode(&[0u8; 100]).unwrap();
    assert!(!record.is_initialized);
    assert_eq!(record.name, "");
    assert!(record.votes.is_empty());
    assert_eq!(record.number_of_votes, 0);
}

#[test]
fn candidate_list_round_trip() {
    let record = CandidateListState {
        is_initialized: true,
        candidates: vec![
            ("Bob".to_string(), address(2)),
            ("Alice".to_string(), address(1)),
            (String::new(), address(3)),
        ],
    };
    let bytes = record.encode().unwrap();
    assert_eq!(CandidateListState::decode(&bytes), Ok(record));
}

#[test]
fn candidate_list_with_empty_map_round_trip() {
    let record = CandidateListState { is_initialized: true, candidates: Vec::new() };
    let bytes = record.encode().unwrap();
    assert_eq!(bytes, vec![1, 0, 0, 0, 0]);
    assert_eq!(CandidateListState::decode(&bytes), Ok(record));
}

#[test]
fn candidate_list_layout_matches_borsh() {
    let record = CandidateListState {
        is_initialized: true,
        candidates: vec![("Alice".to_string(), address(1)), ("Bob".to_string(), address(2))],
    };
    let pairs: Vec<(String, [u8; 32])> =
        record.candidates.iter().map(|(n, a)| (n.clone(), a.bytes)).collect();
    let expected = (true, pairs).try_to_vec().unwrap();
    assert_eq!(record.encode().unwrap(), expected);
}

#[test]
fn candidate_list_rejects_name_listed_twice() {
    let record = CandidateListState {
        is_initialized: true,
        candidates: vec![("Alice".to_string(), address(1)), ("Alice".to_string(), address(2))],
    };
    let bytes = record.encode().unwrap();
    assert_eq!(CandidateListState::decode(&bytes), Err(ElectionError::DecodeError));
}

#[test]
fn candidate_list_rejects_count_beyond_buffer() {
    assert_eq!(CandidateListState::decode(&[1, 2, 0, 0, 0]), Err(ElectionError::DecodeError));
}

#[test]
fn voter_record_round_trip() {
    let record = VoterAccountState { election_card_number: "CARD-001".to_string(), voted: address(5) };
    let bytes = record.encode().unwrap();
    assert_eq!(bytes.len(), 4 + 8 + 32);
    assert_eq!(VoterAccountState::decode(&bytes), Ok(record));
}

#[test]
fn voter_record_layout_matches_borsh() {
    let record = VoterAccountState { election_card_number: "CARD-001".to_string(), voted: address(5) };
    let expected = ("CARD-001".to_string(), [5u8; 32]).try_to_vec().unwrap();
    assert_eq!(record.encode().unwrap(), expected);
}

#[test]
fn voter_record_rejects_missing_address() {
    assert_eq!(VoterAccountState::decode(&[0, 0, 0, 0, 1, 2, 3]), Err(ElectionError::DecodeError));
}

#[test]
fn result_record_round_trip() {
    let record = ResultState {
        results: vec![("Alice".to_string(), 3), ("Bob".to_string(), 1)],
        number_of_votes: 4,
    };
    let bytes = record.encode().unwrap();
    assert_eq!(ResultState::decode(&bytes), Ok(record));
}

#[test]
fn result_record_with_empty_map_round_trip() {
    let record = ResultState { results: Vec::new(), number_of_votes: 0 };
    let bytes = record.encode().unwrap();
    assert_eq!(bytes, vec![0u8; 12]);
    assert_eq!(ResultState::decode(&bytes), Ok(record));
}

#[test]
fn result_record_layout_matches_borsh() {
    let record = ResultState {
        results: vec![("Alice".to_string(), 3), ("Bob".to_string(), 1)],
        number_of_votes: 4,
    };
    let expected = (record.results.clone(), 4i64).try_to_vec().unwrap();
    assert_eq!(record.encode().unwrap(), expected);
}

#[test]
fn numbers_are_little_endian() {
    let mut out = Vec::new();
    write_u32(&mut out, 0x0403_0201);
    write_i64(&mut out, -2);
    assert_eq!(out, vec![1, 2, 3, 4, 0xFE, 0xFF, 0xFF, 0xFF, 0xFF, 0xFF, 0xFF, 0xFF]);
    assert_eq!(read_u32(&out, 0), Some((0x0403_0201, 4)));
    assert_eq!(read_i64(&out, 4), Some((-2, 12)));
    assert_eq!(read_i64(&out, 5), None);
}

#[test]
fn extreme_numbers_round_trip() {
    for value in [i64::MIN, -1, 0, 1, i64::MAX] {
        let mut out = Vec::new();
        write_i64(&mut out, value);
        assert_eq!(out, value.to_le_bytes().to_vec());
        assert_eq!(read_i64(&out, 0), Some((value, 8)));
    }
    for value in [0u32, 1, 255, 256, u32::MAX] {
        let mut out = Vec::new();
        write_u32(&mut out, value);
        assert_eq!(out, value.to_le_bytes().to_vec());
        assert_eq!(read_u32(&out, 0), Some((value, 4)));
    }
}

use chain_democracy::error::ElectionError;
use chain_democracy::instruction::ChainDemocracyInstruction;
use chain_democracy::utilities::election_account_utilities::format_record_date;
use chain_democracy::utilities::election_account_utilities::parse_instruction_date;
use chain_democracy::utilities::election_account_utilities::Timestamp;

fn text(value: &str) -> Vec<u8> {
    let mut out = (value.len() as u32).to_le_bytes().to_vec();
    out.extend_from_slice(value.as_bytes());
    out
}

fn buffer(tag: u8, texts: &[&str]) -> Vec<u8> {
    let mut out = vec![tag];
    for value in texts {
        out.extend_from_slice(&text(value));
    }
    out
}

#[test]
fn unpack_add_election_account() {
    let data = buffer(0, &["mayor-2024", "2024-05-01T08:00:00", "2024-05-02T20:30:15"]);
    assert_eq!(
        ChainDemocracyInstruction::unpack(&data),
        Ok(ChainDemocracyInstruction::AddElectionAccount {
            name: "mayor-2024".to_string(),
            start_date: Timestamp { seconds: 1_714_550_400, nanos: 0 },
            end_date: Timestamp { seconds: 1_714_681_815, nanos: 0 },
        })
    );
}

#[test]
fn unpack_add_candidate() {
    let data = buffer(1, &["Alice", "Rossi", "mayor-2024", "candidate-list"]);
    assert_eq!(
        ChainDemocracyInstruction::unpack(&data),
        Ok(ChainDemocracyInstruction::AddCandidate {
            first_name: "Alice".to_string(),
            last_name: "Rossi".to_string(),
            election_name: "mayor-2024".to_string(),
            seed: "candidate-list".to_string(),
        })
    );
}

#[test]
fn unpack_add_vote() {
    let data = buffer(2, &["CARD-001", "Alice", "Rossi", "mayor-2024", "candidate-list"]);
    assert_eq!(
        ChainDemocracyInstruction::unpack(&data),
        Ok(ChainDemocracyInstruction::AddVote {
            electoral_card_number: "CARD-001".to_string(),
            candidate_first_name: "Alice".to_string(),
            candidate_last_name: "Rossi".to_string(),
            election_name: "mayor-2024".to_string(),
            seed: "candidate-list".to_string(),
        })
    );
}

#[test]
fn unpack_counting_votes() {
    let data = buffer(3, &["mayor-2024"]);
    assert_eq!(
        ChainDemocracyInstruction::unpack(&data),
        Ok(ChainDemocracyInstruction::CountingVotes { election_name: "mayor-2024".to_string() })
    );
}

#[test]
fn unpack_rejects_unknown_tag() {
    assert_eq!(ChainDemocracyInstruction::unpack(&[0xFF]), Err(ElectionError::UnknownVariant));
    assert_eq!(
        ChainDemocracyInstruction::unpack(&buffer(4, &["mayor-2024"])),
        Err(ElectionError::UnknownVariant)
    );
}

#[test]
fn unpack_rejects_empty_buffer() {
    assert_eq!(ChainDemocracyInstruction::unpack(&[]), Err(ElectionError::MalformedInstruction));
}

#[test]
fn unpack_rejects_short_payload() {
    let data = buffer(1, &["Alice", "Rossi", "mayor-2024"]);
    assert_eq!(ChainDemocracyInstruction::unpack(&data), Err(ElectionError::MalformedInstruction));
    assert_eq!(ChainDemocracyInstruction::unpack(&[3]), Err(ElectionError::MalformedInstruction));
    assert_eq!(
        ChainDemocracyInstruction::unpack(&[3, 9, 0, 0, 0, b'x']),
        Err(ElectionError::MalformedInstruction)
    );
}

#[test]
fn unpack_rejects_trailing_bytes() {
    let mut data = buffer(3, &["mayor-2024"]);
    data.push(0);
    assert_eq!(ChainDemocracyInstruction::unpack(&data), Err(ElectionError::MalformedInstruction));
}

#[test]
fn unpack_rejects_malformed_timestamp() {
    let data = buffer(0, &["mayor-2024", "2024-05-01 08:00:00", "2024-05-02T20:30:15"]);
    assert_eq!(ChainDemocracyInstruction::unpack(&data), Err(ElectionError::MalformedInstruction));
    let data = buffer(0, &["mayor-2024", "2024-05-01T08:00:00", "tomorrow"]);
    assert_eq!(ChainDemocracyInstruction::unpack(&data), Err(ElectionError::MalformedInstruction));
    let data = buffer(0, &["mayor-2024", "2024-02-30T08:00:00", "2024-05-02T20:30:15"]);
    assert_eq!(ChainDemocracyInstruction::unpack(&data), Err(ElectionError::MalformedInstruction));
}

#[test]
fn unpack_rejects_invalid_utf8() {
    let data = vec![3, 2, 0, 0, 0, 0xC3, 0x28];
    assert_eq!(ChainDemocracyInstruction::unpack(&data), Err(ElectionError::MalformedInstruction));
}

#[test]
fn instruction_dates_are_read_by_their_format() {
    assert_eq!(
        parse_instruction_date("1970-01-01T00:00:00"),
        Some(Timestamp { seconds: 0, nanos: 0 })
    );
    assert_eq!(
        parse_instruction_date("2024-05-01T08:00:00"),
        Some(Timestamp { seconds: 1_714_550_400, nanos: 0 })
    );
    assert_eq!(parse_instruction_date("2024-05-01"), None);
    assert_eq!(parse_instruction_date(""), None);
}

#[test]
fn leap_second_is_kept_in_the_nanoseconds() {
    assert_eq!(
        parse_instruction_date("2016-12-31T23:59:60"),
        Some(Timestamp { seconds: 1_483_228_799, nanos: 1_000_000_000 })
    );
    assert_eq!(
        format_record_date(&Timestamp { seconds: 1_483_228_799, nanos: 1_000_000_000 }),
        Some("2016-12-31 23:59:60".to_string())
    );
}

#[test]
fn record_dates_are_written_by_their_format() {
    assert_eq!(
        format_record_date(&Timestamp { seconds: 1_714_550_400, nanos: 0 }),
        Some("2024-05-01 08:00:00".to_string())
    );
    assert_eq!(
        format_record_date(&Timestamp { seconds: 0, nanos: 999 }),
        Some("1970-01-01 00:00:00".to_string())
    );
}

#[test]
fn record_date_out_of_range_is_refused() {
    assert_eq!(format_record_date(&Timestamp { seconds: i64::MAX, nanos: 0 }), None);
    assert_eq!(format_record_date(&Timestamp { seconds: 0, nanos: 1_500_000_000 }), None);
}

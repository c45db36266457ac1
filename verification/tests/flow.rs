use chain_democracy::address::find_attached_address;
use chain_democracy::address::find_candidate_address;
use chain_democracy::address::find_election_address;
use chain_democracy::address::Address;
use chain_democracy::error::ElectionError;
use chain_democracy::execute;
use chain_democracy::instruction::ChainDemocracyInstruction;
use chain_democracy::pda_management::candidate_list_manager_account::retrieve_candidate_account;
use chain_democracy::pda_management::candidate_list_manager_account::retrieve_candidate_list;
use chain_democracy::pda_management::election_manager_account::compute_basis_points;
use chain_democracy::pda_management::election_manager_account::get_number_of_votes;
use chain_democracy::pda_management::election_manager_account::get_percentage_of_votes;
use chain_democracy::process_instruction;
use chain_democracy::record::RecordHandle;
use chain_democracy::state::candidate_list_state::CandidateListState;
use chain_democracy::state::candidate_state::CandidateState;
use chain_democracy::state::election_account_state::ElectionAccountState;
use chain_democracy::state::result_state::ResultState;
use chain_democracy::state::voter_account_state::VoterAccountState;

const ELECTION: &str = "mayor-2024";

fn program() -> Address {
    Address { bytes: [7; 32] }
}

fn payer() -> Address {
    Address { bytes: [1; 32] }
}

fn system() -> Address {
    Address { bytes: [0; 32] }
}

fn text(value: &str) -> Vec<u8> {
    let mut out = (value.len() as u32).to_le_bytes().to_vec();
    out.extend_from_slice(value.as_bytes());
    out
}

fn buffer(tag: u8, texts: &[&str]) -> Vec<u8> {
    let mut out = vec![tag];
    for value in texts {
        out.extend_from_slice(&text(value));
    }
    out
}

fn wallet(address: Address) -> RecordHandle {
    RecordHandle::vacant(address, system())
}

/// The records of one election as a ledger would keep them between
/// instructions.
struct Ledger {
    election: RecordHandle,
    list: RecordHandle,
    result: RecordHandle,
}

fn empty_ledger() -> Ledger {
    Ledger {
        election: wallet(find_election_address(&program(), ELECTION).unwrap()),
        list: wallet(find_attached_address(&program(), ELECTION, "candidate-list").unwrap()),
        result: wallet(find_attached_address(&program(), ELECTION, "result").unwrap()),
    }
}

fn announce(ledger: &mut Ledger) -> Result<(), ElectionError> {
    let mut records = vec![
        wallet(payer()),
        wallet(system()),
        ledger.election.clone(),
        ledger.list.clone(),
        ledger.result.clone(),
    ];
    let data = buffer(0, &[ELECTION, "2024-05-01T08:00:00", "2024-05-02T20:00:00"]);
    let before = records.clone();
    let outcome = process_instruction(&program(), &mut records, &data);
    if outcome.is_err() {
        assert_eq!(records, before);
    }
    ledger.election = records[2].clone();
    ledger.list = records[3].clone();
    ledger.result = records[4].clone();
    outcome
}

fn enroll(ledger: &mut Ledger, first: &str, last: &str) -> Result<RecordHandle, ElectionError> {
    let address = find_candidate_address(&program(), &payer(), ELECTION, first, last).unwrap();
    let mut records = vec![
        wallet(payer()),
        wallet(address),
        ledger.list.clone(),
        ledger.election.clone(),
        wallet(system()),
    ];
    let data = buffer(1, &[first, last, ELECTION, "candidate-list"]);
    let before = records.clone();
    let outcome = process_instruction(&program(), &mut records, &data);
    if outcome.is_err() {
        assert_eq!(records, before);
    }
    ledger.list = records[2].clone();
    ledger.election = records[3].clone();
    outcome.map(|_| records[1].clone())
}

fn vote_with(
    ledger: &mut Ledger,
    voter: RecordHandle,
    card: &str,
    first: &str,
    last: &str,
) -> (Result<(), ElectionError>, RecordHandle) {
    let mut records =
        vec![wallet(payer()), voter, ledger.list.clone(), ledger.election.clone(), wallet(system())];
    let data = buffer(2, &[card, first, last, ELECTION, "candidate-list"]);
    let before = records.clone();
    let outcome = process_instruction(&program(), &mut records, &data);
    if outcome.is_err() {
        assert_eq!(records, before);
    }
    ledger.list = records[2].clone();
    ledger.election = records[3].clone();
    (outcome, records[1].clone())
}

fn vote(ledger: &mut Ledger, card: &str, first: &str, last: &str) -> Result<(), ElectionError> {
    let voter = wallet(find_attached_address(&program(), ELECTION, card).unwrap());
    vote_with(ledger, voter, card, first, last).0
}

fn count(ledger: &mut Ledger) -> Result<(), ElectionError> {
    let mut records = vec![
        wallet(payer()),
        ledger.election.clone(),
        ledger.list.clone(),
        ledger.result.clone(),
        wallet(system()),
    ];
    let before = records.clone();
    let outcome = process_instruction(&program(), &mut records, &buffer(3, &[ELECTION]));
    if outcome.is_err() {
        assert_eq!(records, before);
    }
    assert_eq!(records[1], before[1]);
    assert_eq!(records[2], before[2]);
    ledger.result = records[3].clone();
    outcome
}

fn percentage(votes: i64, total: i64) -> f64 {
    compute_basis_points(votes, total) as f64 / 100.0
}

#[test]
fn announcing_an_election_creates_its_three_records() {
    let mut ledger = empty_ledger();
    assert_eq!(announce(&mut ledger), Ok(()));
    assert_eq!(ledger.election.owner, program());
    assert_eq!(ledger.election.data.len(), 1 + 4 * 10 + 4 * 19 + 4 * 19 + 10000);
    assert_eq!(
        ElectionAccountState::decode(&ledger.election.data),
        Ok(ElectionAccountState {
            is_initialized: true,
            name: ELECTION.to_string(),
            start_date: "2024-05-01 08:00:00".to_string(),
            end_date: "2024-05-02 20:00:00".to_string(),
            votes: Vec::new(),
            number_of_votes: 0,
            is_active: false,
        })
    );
    assert_eq!(ledger.list.owner, program());
    assert_eq!(ledger.list.data.len(), 1000);
    assert_eq!(
        CandidateListState::decode(&ledger.list.data),
        Ok(CandidateListState { is_initialized: true, candidates: Vec::new() })
    );
    assert_eq!(ledger.result.owner, program());
    assert_eq!(ledger.result.data, vec![0u8; 10000]);
    assert_eq!(
        ResultState::decode(&ledger.result.data),
        Ok(ResultState { results: Vec::new(), number_of_votes: 0 })
    );
}

#[test]
fn reinitializing_an_election_is_rejected() {
    let mut ledger = empty_ledger();
    assert_eq!(announce(&mut ledger), Ok(()));
    let first = ledger.election.clone();
    assert_eq!(announce(&mut ledger), Err(ElectionError::AccountAlreadyInitialized));
    assert_eq!(ledger.election, first);
}

#[test]
fn announcing_fails_as_a_whole_when_a_later_record_exists() {
    let mut ledger = empty_ledger();
    ledger.result.data = vec![0u8; 8];
    let before_election = ledger.election.clone();
    assert_eq!(announce(&mut ledger), Err(ElectionError::AccountAlreadyInitialized));
    assert_eq!(ledger.election, before_election);
    assert!(ledger.election.data.is_empty());
    assert!(ledger.list.data.is_empty());
}

#[test]
fn announcing_needs_five_records() {
    let ledger = empty_ledger();
    let data = buffer(0, &[ELECTION, "2024-05-01T08:00:00", "2024-05-02T20:00:00"]);
    for supplied in 0..5 {
        let all = vec![
            wallet(payer()),
            wallet(system()),
            ledger.election.clone(),
            ledger.list.clone(),
            ledger.result.clone(),
        ];
        let mut records: Vec<RecordHandle> = all[..supplied].to_vec();
        let before = records.clone();
        assert_eq!(
            process_instruction(&program(), &mut records, &data),
            Err(ElectionError::MissingRecordArgument)
        );
        assert_eq!(records, before);
    }
}

#[test]
fn announcing_at_a_wrong_address_is_rejected() {
    let ledger = empty_ledger();
    let data = buffer(0, &[ELECTION, "2024-05-01T08:00:00", "2024-05-02T20:00:00"]);
    for wrong in 2..5 {
        let mut records = vec![
            wallet(payer()),
            wallet(system()),
            ledger.election.clone(),
            ledger.list.clone(),
            ledger.result.clone(),
        ];
        records[wrong] = wallet(Address { bytes: [99; 32] });
        let before = records.clone();
        assert_eq!(
            process_instruction(&program(), &mut records, &data),
            Err(ElectionError::AddressMismatch)
        );
        assert_eq!(records, before);
    }
}

#[test]
fn election_name_too_long_for_a_seed_is_rejected() {
    let name = "an-election-name-of-more-than-32-bytes";
    let mut records =
        vec![wallet(payer()), wallet(system()), wallet(payer()), wallet(payer()), wallet(payer())];
    let data = buffer(0, &[name, "2024-05-01T08:00:00", "2024-05-02T20:00:00"]);
    assert_eq!(
        process_instruction(&program(), &mut records, &data),
        Err(ElectionError::AddressMismatch)
    );
}

#[test]
fn unknown_tag_changes_no_record() {
    let mut ledger = empty_ledger();
    assert_eq!(announce(&mut ledger), Ok(()));
    let mut records = vec![
        wallet(payer()),
        wallet(system()),
        ledger.election.clone(),
        ledger.list.clone(),
        ledger.result.clone(),
    ];
    let before = records.clone();
    assert_eq!(
        process_instruction(&program(), &mut records, &[0xFF]),
        Err(ElectionError::UnknownVariant)
    );
    assert_eq!(records, before);
    let mut data = buffer(0, &[ELECTION, "2024-05-01T08:00:00", "2024-05-02T20:00:00"]);
    data[0] = 0xFF;
    assert_eq!(
        process_instruction(&program(), &mut records, &data),
        Err(ElectionError::UnknownVariant)
    );
    assert_eq!(records, before);
}

#[test]
fn operations_without_a_tag_are_refused() {
    let mut records = vec![wallet(payer())];
    assert_eq!(
        execute(
            &program(),
            &mut records,
            ChainDemocracyInstruction::AddCandidateListAccount { election_name: ELECTION.to_string() }
        ),
        Err(ElectionError::MalformedInstruction)
    );
    assert_eq!(
        execute(
            &program(),
            &mut records,
            ChainDemocracyInstruction::UpdateElectionAccount { name: ELECTION.to_string() }
        ),
        Err(ElectionError::MalformedInstruction)
    );
}

#[test]
fn registering_a_candidate_fills_three_records() {
    let mut ledger = empty_ledger();
    announce(&mut ledger).unwrap();
    let candidate = enroll(&mut ledger, "Alice", "Rossi").unwrap();
    assert_eq!(candidate.owner, program());
    assert_eq!(candidate.data.len(), 1 + 4 * 5 + 4 * 5);
    assert_eq!(
        CandidateState::decode(&candidate.data),
        Ok(CandidateState {
            is_initialized: true,
            first_name: "Alice".to_string(),
            last_name: "Rossi".to_string(),
        })
    );
    assert_eq!(
        retrieve_candidate_list(&ledger.list),
        Ok(vec![("AliceRossi".to_string(), candidate.address)])
    );
    assert_eq!(
        retrieve_candidate_account(&ledger.list, "Alice".to_string(), "Rossi".to_string()),
        Ok(candidate.address)
    );
    assert_eq!(
        ElectionAccountState::decode(&ledger.election.data).unwrap().votes,
        vec![(candidate.address, 0)]
    );
}

#[test]
fn looking_up_an_unknown_candidate_fails() {
    let mut ledger = empty_ledger();
    announce(&mut ledger).unwrap();
    enroll(&mut ledger, "Alice", "Rossi").unwrap();
    assert_eq!(
        retrieve_candidate_account(&ledger.list, "Bob".to_string(), "Bianchi".to_string()),
        Err(ElectionError::CandidateNotFound)
    );
}

#[test]
fn registering_a_candidate_twice_is_rejected() {
    let mut ledger = empty_ledger();
    announce(&mut ledger).unwrap();
    let candidate = enroll(&mut ledger, "Alice", "Rossi").unwrap();
    let mut records = vec![
        wallet(payer()),
        candidate,
        ledger.list.clone(),
        ledger.election.clone(),
        wallet(system()),
    ];
    let before = records.clone();
    let data = buffer(1, &["Alice", "Rossi", ELECTION, "candidate-list"]);
    assert_eq!(
        process_instruction(&program(), &mut records, &data),
        Err(ElectionError::AccountAlreadyInitialized)
    );
    assert_eq!(records, before);
}

#[test]
fn registering_before_the_election_exists_is_rejected() {
    let mut ledger = empty_ledger();
    assert_eq!(enroll(&mut ledger, "Alice", "Rossi"), Err(ElectionError::UnauthorizedOwner));
    ledger.list.owner = program();
    assert_eq!(enroll(&mut ledger, "Alice", "Rossi"), Err(ElectionError::AccountNotInitialized));
}

#[test]
fn registering_with_a_wrong_registry_seed_is_rejected() {
    let mut ledger = empty_ledger();
    announce(&mut ledger).unwrap();
    let address = find_candidate_address(&program(), &payer(), ELECTION, "Alice", "Rossi").unwrap();
    let mut records = vec![
        wallet(payer()),
        wallet(address),
        ledger.list.clone(),
        ledger.election.clone(),
        wallet(system()),
    ];
    let data = buffer(1, &["Alice", "Rossi", ELECTION, "result"]);
    assert_eq!(
        process_instruction(&program(), &mut records, &data),
        Err(ElectionError::AddressMismatch)
    );
}

#[test]
fn names_too_short_for_their_record_are_rejected() {
    let mut ledger = empty_ledger();
    announce(&mut ledger).unwrap();
    assert_eq!(enroll(&mut ledger, "A", ""), Err(ElectionError::DecodeError));
    assert_eq!(enroll(&mut ledger, "A", "B"), Err(ElectionError::RecordOverflow));
    assert!(enroll(&mut ledger, "Al", "B").is_ok());
}

#[test]
fn casting_a_vote_counts_it() {
    let mut ledger = empty_ledger();
    announce(&mut ledger).unwrap();
    let alice = enroll(&mut ledger, "Alice", "Rossi").unwrap();
    let voter = wallet(find_attached_address(&program(), ELECTION, "CARD-001").unwrap());
    let (outcome, voter) = vote_with(&mut ledger, voter, "CARD-001", "Alice", "Rossi");
    assert_eq!(outcome, Ok(()));
    assert_eq!(voter.owner, program());
    assert_eq!(voter.data.len(), 4 * 8 + 32);
    assert_eq!(
        VoterAccountState::decode(&voter.data),
        Ok(VoterAccountState { election_card_number: "CARD-001".to_string(), voted: alice.address })
    );
    let election = ElectionAccountState::decode(&ledger.election.data).unwrap();
    assert_eq!(election.votes, vec![(alice.address, 1)]);
    assert_eq!(election.number_of_votes, 1);
    assert_eq!(get_number_of_votes(&ledger.election), Ok(1));
}

#[test]
fn double_vote_is_rejected() {
    let mut ledger = empty_ledger();
    announce(&mut ledger).unwrap();
    enroll(&mut ledger, "Alice", "Rossi").unwrap();
    let voter = wallet(find_attached_address(&program(), ELECTION, "CARD-001").unwrap());
    let (first, voter) = vote_with(&mut ledger, voter, "CARD-001", "Alice", "Rossi");
    assert_eq!(first, Ok(()));
    let counted = ledger.election.clone();
    let (second, voter_after) = vote_with(&mut ledger, voter.clone(), "CARD-001", "Alice", "Rossi");
    assert_eq!(second, Err(ElectionError::AccountAlreadyInitialized));
    assert_eq!(voter_after, voter);
    assert_eq!(ledger.election, counted);
    assert_eq!(get_number_of_votes(&ledger.election), Ok(1));
}

#[test]
fn vote_for_an_unknown_candidate_is_rejected_and_leaves_no_voter_record() {
    let mut ledger = empty_ledger();
    announce(&mut ledger).unwrap();
    enroll(&mut ledger, "Alice", "Rossi").unwrap();
    let voter = wallet(find_attached_address(&program(), ELECTION, "CARD-001").unwrap());
    let (outcome, voter) = vote_with(&mut ledger, voter, "CARD-001", "Bob", "Bianchi");
    assert_eq!(outcome, Err(ElectionError::InvalidCandidate));
    assert!(voter.data.is_empty());
    let (again, _) = vote_with(&mut ledger, voter, "CARD-001", "Alice", "Rossi");
    assert_eq!(again, Ok(()));
}

#[test]
fn vote_with_a_foreign_voter_record_is_rejected() {
    let mut ledger = empty_ledger();
    announce(&mut ledger).unwrap();
    enroll(&mut ledger, "Alice", "Rossi").unwrap();
    let voter = wallet(find_attached_address(&program(), ELECTION, "CARD-002").unwrap());
    let (outcome, _) = vote_with(&mut ledger, voter, "CARD-001", "Alice", "Rossi");
    assert_eq!(outcome, Err(ElectionError::AddressMismatch));
}

#[test]
fn vote_before_the_election_exists_is_rejected() {
    let mut ledger = empty_ledger();
    assert_eq!(
        vote(&mut ledger, "CARD-001", "Alice", "Rossi"),
        Err(ElectionError::AccountNotInitialized)
    );
}

#[test]
fn tally_of_three_to_one() {
    let mut ledger = empty_ledger();
    announce(&mut ledger).unwrap();
    let bob = enroll(&mut ledger, "Bob", "").unwrap();
    let alice = enroll(&mut ledger, "Alice", "").unwrap();
    vote(&mut ledger, "CARD-001", "Alice", "").unwrap();
    vote(&mut ledger, "CARD-002", "Bob", "").unwrap();
    vote(&mut ledger, "CARD-003", "Alice", "").unwrap();
    vote(&mut ledger, "CARD-004", "Alice", "").unwrap();
    assert_eq!(count(&mut ledger), Ok(()));
    let tally = ResultState::decode(&ledger.result.data).unwrap();
    assert_eq!(tally.number_of_votes, 4);
    assert_eq!(tally.results, vec![("Alice".to_string(), 3), ("Bob".to_string(), 1)]);
    let shares: Vec<(String, f64)> = tally
        .results
        .iter()
        .map(|(name, votes)| (name.clone(), percentage(*votes, tally.number_of_votes)))
        .collect();
    assert_eq!(shares, vec![("Alice".to_string(), 75.0), ("Bob".to_string(), 25.0)]);
    assert_eq!(get_percentage_of_votes(&ledger.election, alice.address), Ok(7500));
    assert_eq!(get_percentage_of_votes(&ledger.election, bob.address), Ok(2500));
    let raw: i64 = tally.results.iter().map(|(_, votes)| *votes).sum();
    assert_eq!(raw, tally.number_of_votes);
}

#[test]
fn tally_without_votes() {
    let mut ledger = empty_ledger();
    announce(&mut ledger).unwrap();
    let alice = enroll(&mut ledger, "Alice", "").unwrap();
    enroll(&mut ledger, "Bob", "").unwrap();
    assert_eq!(count(&mut ledger), Ok(()));
    let tally = ResultState::decode(&ledger.result.data).unwrap();
    assert_eq!(tally.number_of_votes, 0);
    assert_eq!(tally.results, vec![("Alice".to_string(), 0), ("Bob".to_string(), 0)]);
    let shares: Vec<(String, f64)> = tally
        .results
        .iter()
        .map(|(name, votes)| (name.clone(), percentage(*votes, tally.number_of_votes)))
        .collect();
    assert_eq!(shares, vec![("Alice".to_string(), 0.0), ("Bob".to_string(), 0.0)]);
    assert_eq!(get_percentage_of_votes(&ledger.election, alice.address), Ok(0));
}

#[test]
fn tally_is_the_same_when_counted_again() {
    let mut ledger = empty_ledger();
    announce(&mut ledger).unwrap();
    enroll(&mut ledger, "Alice", "Rossi").unwrap();
    enroll(&mut ledger, "Bob", "Bianchi").unwrap();
    vote(&mut ledger, "CARD-001", "Bob", "Bianchi").unwrap();
    count(&mut ledger).unwrap();
    let first = ledger.result.clone();
    count(&mut ledger).unwrap();
    assert_eq!(ledger.result, first);
}

#[test]
fn tally_replaces_what_was_counted_before() {
    let mut ledger = empty_ledger();
    announce(&mut ledger).unwrap();
    enroll(&mut ledger, "Alice", "Rossi").unwrap();
    enroll(&mut ledger, "Bob", "Bianchi").unwrap();
    vote(&mut ledger, "CARD-001", "Alice", "Rossi").unwrap();
    count(&mut ledger).unwrap();
    assert_eq!(
        ResultState::decode(&ledger.result.data).unwrap().results,
        vec![("AliceRossi".to_string(), 1), ("BobBianchi".to_string(), 0)]
    );
    vote(&mut ledger, "CARD-002", "Bob", "Bianchi").unwrap();
    vote(&mut ledger, "CARD-003", "Bob", "Bianchi").unwrap();
    count(&mut ledger).unwrap();
    let tally = ResultState::decode(&ledger.result.data).unwrap();
    assert_eq!(tally.number_of_votes, 3);
    assert_eq!(
        tally.results,
        vec![("BobBianchi".to_string(), 2), ("AliceRossi".to_string(), 1)]
    );
}

#[test]
fn tied_candidates_keep_the_order_of_registration() {
    let mut ledger = empty_ledger();
    announce(&mut ledger).unwrap();
    enroll(&mut ledger, "Zed", "Last").unwrap();
    enroll(&mut ledger, "Amy", "First").unwrap();
    enroll(&mut ledger, "Max", "Mid").unwrap();
    vote(&mut ledger, "CARD-001", "Max", "Mid").unwrap();
    vote(&mut ledger, "CARD-002", "Zed", "Last").unwrap();
    vote(&mut ledger, "CARD-003", "Amy", "First").unwrap();
    vote(&mut ledger, "CARD-004", "Max", "Mid").unwrap();
    count(&mut ledger).unwrap();
    assert_eq!(
        ResultState::decode(&ledger.result.data).unwrap().results,
        vec![("MaxMid".to_string(), 2), ("ZedLast".to_string(), 1), ("AmyFirst".to_string(), 1)]
    );
}

#[test]
fn counting_before_the_election_exists_is_rejected() {
    let mut ledger = empty_ledger();
    assert_eq!(count(&mut ledger), Err(ElectionError::AccountNotInitialized));
}

#[test]
fn counting_at_a_wrong_address_is_rejected() {
    let mut ledger = empty_ledger();
    announce(&mut ledger).unwrap();
    ledger.result.address = Address { bytes: [99; 32] };
    assert_eq!(count(&mut ledger), Err(ElectionError::AddressMismatch));
}

#[test]
fn shares_in_hundredths_of_a_percent() {
    assert_eq!(compute_basis_points(3, 4), 7500);
    assert_eq!(compute_basis_points(1, 3), 3333);
    assert_eq!(compute_basis_points(2, 3), 6666);
    assert_eq!(compute_basis_points(0, 5), 0);
    assert_eq!(compute_basis_points(5, 5), 10000);
    assert_eq!(compute_basis_points(7, 0), 0);
    assert_eq!(compute_basis_points(-1, 3), -3334);
    assert_eq!(compute_basis_points(1, -3), -3334);
    assert_eq!(compute_basis_points(-1, -3), 3333);
    assert_eq!(compute_basis_points(i64::MAX, 1), 10000 * (i64::MAX as i128));
    assert_eq!(compute_basis_points(i64::MIN, -1), 10000 * (i64::MAX as i128 + 1));
}

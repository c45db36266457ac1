use chain_democracy::address::Address;
use chain_democracy::creation_seeds;
use chain_democracy::error::ElectionError;
use chain_democracy::instruction::ChainDemocracyInstruction;
use chain_democracy::pda_management::candidate_list_manager_account::add_candidate_to_candidate_list;
use chain_democracy::pda_management::candidate_list_manager_account::initialize_candidate_list;
use chain_democracy::pda_management::candidate_manager_account::intialize_candidate_account;
use chain_democracy::pda_management::election_manager_account::add_candidate_to_election;
use chain_democracy::pda_management::election_manager_account::add_vote;
use chain_democracy::pda_management::election_manager_account::get_number_of_votes;
use chain_democracy::pda_management::election_manager_account::get_percentage_of_votes;
use chain_democracy::pda_management::election_manager_account::increment_vote_counter;
use chain_democracy::pda_management::election_manager_account::initialize_election_account;
use chain_democracy::pda_management::result_manager_account::add_and_show_result;
use chain_democracy::pda_management::result_manager_account::add_number_of_votes;
use chain_democracy::pda_management::result_manager_account::rank;
use chain_democracy::pda_management::result_manager_account::sort_and_add_results;
use chain_democracy::pda_management::voter_manager_account::initialize_voter_account;
use chain_democracy::record::RecordHandle;
use chain_democracy::state::candidate_list_state::make_full_name;
use chain_democracy::state::candidate_list_state::CandidateListState;
use chain_democracy::state::candidate_state::CandidateState;
use chain_democracy::state::election_account_state::ElectionAccountState;
use chain_democracy::state::result_state::ResultState;
use chain_democracy::state::voter_account_state::VoterAccountState;
use chain_democracy::utilities::election_account_utilities::Timestamp;

fn address(byte: u8) -> Address {
    Address { bytes: [byte; 32] }
}

fn blank(size: usize) -> RecordHandle {
    RecordHandle { address: address(3), owner: address(7), data: vec![0u8; size] }
}

fn election_record() -> RecordHandle {
    let mut record = blank(300);
    initialize_election_account(
        &mut record,
        "mayor-2024".to_string(),
        "2024-05-01 08:00:00".to_string(),
        "2024-05-02 20:00:00".to_string(),
    )
    .unwrap();
    record
}

#[test]
fn record_is_created_once_with_zero_bytes() {
    let vacant = RecordHandle::vacant(address(3), address(0));
    let created = vacant.create(Some(16), &address(7)).unwrap();
    assert_eq!(created, RecordHandle { address: address(3), owner: address(7), data: vec![0; 16] });
    assert_eq!(
        created.create(Some(16), &address(7)),
        Err(ElectionError::AccountAlreadyInitialized)
    );
    assert_eq!(vacant.create(Some(0), &address(7)), Err(ElectionError::AllocationFailure));
    assert_eq!(vacant.create(None, &address(7)), Err(ElectionError::AllocationFailure));
}

#[test]
fn storing_overwrites_the_start_and_keeps_the_rest() {
    let record = RecordHandle { address: address(3), owner: address(7), data: vec![9, 9, 9, 9, 9] };
    let stored = record.store(Ok(vec![1, 2, 3])).unwrap();
    assert_eq!(stored.data, vec![1, 2, 3, 9, 9]);
    assert_eq!(stored.address, address(3));
    assert_eq!(stored.owner, address(7));
    assert_eq!(record.store(Ok(vec![1, 2, 3, 4, 5])).unwrap().data, vec![1, 2, 3, 4, 5]);
    assert_eq!(record.store(Ok(vec![1, 2, 3, 4, 5, 6])), Err(ElectionError::RecordOverflow));
    assert_eq!(
        record.store(Err(ElectionError::RecordOverflow)),
        Err(ElectionError::RecordOverflow)
    );
}

#[test]
fn election_record_is_initialized_once() {
    let mut record = election_record();
    let before = record.clone();
    assert_eq!(
        initialize_election_account(&mut record, "x".to_string(), "y".to_string(), "z".to_string()),
        Err(ElectionError::AccountAlreadyInitialized)
    );
    assert_eq!(record, before);
}

#[test]
fn election_record_too_small_is_not_initialized() {
    let mut record = blank(30);
    assert_eq!(
        initialize_election_account(
            &mut record,
            "mayor-2024".to_string(),
            String::new(),
            String::new()
        ),
        Err(ElectionError::RecordOverflow)
    );
    assert_eq!(record.data, vec![0u8; 30]);
    let mut tiny = blank(10);
    assert_eq!(
        initialize_election_account(&mut tiny, String::new(), String::new(), String::new()),
        Err(ElectionError::DecodeError)
    );
}

#[test]
fn counters_follow_the_votes() {
    let mut record = election_record();
    add_candidate_to_election(&mut record, address(50)).unwrap();
    add_candidate_to_election(&mut record, address(60)).unwrap();
    add_vote(&mut record, address(60)).unwrap();
    add_vote(&mut record, address(50)).unwrap();
    add_vote(&mut record, address(60)).unwrap();
    let election = ElectionAccountState::decode(&record.data).unwrap();
    assert_eq!(election.votes, vec![(address(50), 1), (address(60), 2)]);
    assert_eq!(election.number_of_votes, 3);
    assert_eq!(election.votes_for(&address(60)), 2);
    assert_eq!(election.votes_for(&address(70)), 0);
    assert_eq!(get_number_of_votes(&record), Ok(3));
    assert_eq!(get_percentage_of_votes(&record, address(60)), Ok(6666));
    assert_eq!(get_percentage_of_votes(&record, address(70)), Ok(0));
}

#[test]
fn vote_for_a_candidate_without_counter_starts_one() {
    let mut record = election_record();
    add_vote(&mut record, address(50)).unwrap();
    let election = ElectionAccountState::decode(&record.data).unwrap();
    assert_eq!(election.votes, vec![(address(50), 1)]);
    assert_eq!(election.number_of_votes, 1);
}

#[test]
fn adding_a_candidate_again_resets_its_counter() {
    let mut record = election_record();
    add_vote(&mut record, address(50)).unwrap();
    add_candidate_to_election(&mut record, address(50)).unwrap();
    let election = ElectionAccountState::decode(&record.data).unwrap();
    assert_eq!(election.votes, vec![(address(50), 0)]);
    assert_eq!(election.number_of_votes, 1);
}

#[test]
fn vote_counter_without_candidate() {
    let mut record = election_record();
    increment_vote_counter(&mut record).unwrap();
    increment_vote_counter(&mut record).unwrap();
    assert_eq!(get_number_of_votes(&record), Ok(2));
    assert!(ElectionAccountState::decode(&record.data).unwrap().votes.is_empty());
}

#[test]
fn counters_do_not_wrap() {
    let mut election = ElectionAccountState::decode(&election_record().data).unwrap();
    election.number_of_votes = i64::MAX;
    let before = election.clone();
    assert_eq!(election.record_vote(address(50)), Err(ElectionError::CounterOverflow));
    assert_eq!(election.count_vote(), Err(ElectionError::CounterOverflow));
    assert_eq!(election, before);
    election.number_of_votes = 0;
    election.votes = vec![(address(50), i64::MAX)];
    assert_eq!(election.record_vote(address(50)), Err(ElectionError::CounterOverflow));
    let mut record = blank(300);
    record = record.store(before.encode()).unwrap();
    let stored = record.clone();
    assert_eq!(add_vote(&mut record, address(50)), Err(ElectionError::CounterOverflow));
    assert_eq!(increment_vote_counter(&mut record), Err(ElectionError::CounterOverflow));
    assert_eq!(record, stored);
}

#[test]
fn operations_need_an_initialized_election() {
    let mut vacant = RecordHandle::vacant(address(3), address(7));
    assert_eq!(add_vote(&mut vacant, address(50)), Err(ElectionError::AccountNotInitialized));
    assert_eq!(get_number_of_votes(&vacant), Err(ElectionError::AccountNotInitialized));
    let mut zero = blank(300);
    assert_eq!(add_vote(&mut zero, address(50)), Err(ElectionError::AccountNotInitialized));
    assert_eq!(
        add_candidate_to_election(&mut zero, address(50)),
        Err(ElectionError::AccountNotInitialized)
    );
    assert_eq!(increment_vote_counter(&mut zero), Err(ElectionError::AccountNotInitialized));
    assert_eq!(
        get_percentage_of_votes(&zero, address(50)),
        Err(ElectionError::AccountNotInitialized)
    );
    let mut broken = blank(300);
    broken.data[0] = 7;
    assert_eq!(add_vote(&mut broken, address(50)), Err(ElectionError::DecodeError));
}

#[test]
fn election_record_that_is_full_takes_no_candidate() {
    let mut record = blank(26 + 10 + 40);
    initialize_election_account(&mut record, "mayor-2024".to_string(), String::new(), String::new())
        .unwrap();
    add_candidate_to_election(&mut record, address(50)).unwrap();
    let before = record.clone();
    assert_eq!(
        add_candidate_to_election(&mut record, address(60)),
        Err(ElectionError::RecordOverflow)
    );
    assert_eq!(record, before);
}

#[test]
fn registry_overwrites_a_name_registered_before() {
    let mut record = blank(200);
    initialize_candidate_list(&mut record).unwrap();
    let program = address(7);
    let expected = chain_democracy::address::find_attached_address(
        &program,
        "mayor-2024",
        "candidate-list",
    )
    .unwrap();
    record.address = expected;
    for (first, last, at) in [("Alice", "Rossi", 50), ("Bob", "Bianchi", 60), ("Alice", "Rossi", 70)]
    {
        add_candidate_to_candidate_list(
            &program,
            &mut record,
            &address(at),
            "mayor-2024".to_string(),
            first.to_string(),
            last.to_string(),
            "candidate-list".to_string(),
        )
        .unwrap();
    }
    assert_eq!(
        CandidateListState::decode(&record.data).unwrap().candidates,
        vec![("AliceRossi".to_string(), address(70)), ("BobBianchi".to_string(), address(60))]
    );
}

#[test]
fn registry_checks_owner_before_address() {
    let program = address(7);
    let mut record = blank(200);
    initialize_candidate_list(&mut record).unwrap();
    record.owner = address(8);
    let before = record.clone();
    assert_eq!(
        add_candidate_to_candidate_list(
            &program,
            &mut record,
            &address(50),
            "mayor-2024".to_string(),
            "Alice".to_string(),
            "Rossi".to_string(),
            "candidate-list".to_string(),
        ),
        Err(ElectionError::UnauthorizedOwner)
    );
    record.owner = program;
    assert_eq!(
        add_candidate_to_candidate_list(
            &program,
            &mut record,
            &address(50),
            "mayor-2024".to_string(),
            "Alice".to_string(),
            "Rossi".to_string(),
            "candidate-list".to_string(),
        ),
        Err(ElectionError::AddressMismatch)
    );
    record.owner = address(8);
    assert_eq!(record, before);
}

#[test]
fn registry_lookup_and_registration() {
    let mut list = CandidateListState { is_initialized: true, candidates: Vec::new() };
    list.register("AliceRossi".to_string(), address(50));
    list.register("BobBianchi".to_string(), address(60));
    assert_eq!(list.lookup(&"BobBianchi".to_string()), Some(address(60)));
    assert_eq!(list.lookup(&"Bob".to_string()), None);
    list.register("AliceRossi".to_string(), address(70));
    assert_eq!(list.lookup(&"AliceRossi".to_string()), Some(address(70)));
    assert_eq!(list.candidates.len(), 2);
    assert_eq!(make_full_name("Alice", "Rossi"), "AliceRossi");
    assert_eq!(make_full_name("", ""), "");
}

#[test]
fn candidate_record_is_initialized() {
    let mut record = blank(41);
    intialize_candidate_account(&mut record, "Alice".to_string(), "Rossi".to_string()).unwrap();
    assert_eq!(
        CandidateState::decode(&record.data),
        Ok(CandidateState {
            is_initialized: true,
            first_name: "Alice".to_string(),
            last_name: "Rossi".to_string(),
        })
    );
    assert_eq!(record.data.len(), 41);
}

#[test]
fn voter_record_is_initialized() {
    let mut record = blank(64);
    initialize_voter_account(&mut record, "CARD-001".to_string(), address(50)).unwrap();
    assert_eq!(
        VoterAccountState::decode(&record.data),
        Ok(VoterAccountState { election_card_number: "CARD-001".to_string(), voted: address(50) })
    );
    let mut small = blank(36);
    assert_eq!(
        initialize_voter_account(&mut small, "C".to_string(), address(50)),
        Err(ElectionError::RecordOverflow)
    );
    assert_eq!(small.data, vec![0u8; 36]);
}

#[test]
fn ranking_is_by_share_and_stable() {
    let scores = vec![
        ("a".to_string(), 1),
        ("b".to_string(), 5),
        ("c".to_string(), 1),
        ("d".to_string(), 9),
        ("e".to_string(), 5),
    ];
    let names = |ranked: Vec<(String, i64)>| -> String {
        ranked.iter().map(|(name, _)| name.as_str()).collect()
    };
    assert_eq!(names(rank(&scores, 21)), "dbeac");
    assert_eq!(names(rank(&scores, 0)), "abcde");
    assert_eq!(names(rank(&scores, -21)), "acbed");
    assert_eq!(rank(&Vec::new(), 5), Vec::new());
    assert_eq!(rank(&scores, 21).len(), 5);
}

#[test]
fn tally_record_takes_number_and_scores() {
    let mut record = blank(200);
    add_number_of_votes(&mut record, 4).unwrap();
    sort_and_add_results(&mut record, vec![("Bob".to_string(), 1), ("Alice".to_string(), 3)])
        .unwrap();
    assert_eq!(
        ResultState::decode(&record.data),
        Ok(ResultState {
            results: vec![("Alice".to_string(), 3), ("Bob".to_string(), 1)],
            number_of_votes: 4,
        })
    );
    sort_and_add_results(&mut record, vec![("Carol".to_string(), 2)]).unwrap();
    assert_eq!(
        ResultState::decode(&record.data).unwrap().results,
        vec![("Carol".to_string(), 2)]
    );
    let before = record.clone();
    assert_eq!(
        sort_and_add_results(&mut record, vec![("Bob".to_string(), 1), ("Bob".to_string(), 3)]),
        Err(ElectionError::InvalidCandidate)
    );
    assert_eq!(record, before);
}

#[test]
fn tally_record_must_exist_and_be_large_enough() {
    let mut vacant = RecordHandle::vacant(address(3), address(7));
    assert_eq!(add_number_of_votes(&mut vacant, 4), Err(ElectionError::AccountNotInitialized));
    let mut small = blank(12);
    assert_eq!(
        sort_and_add_results(&mut small, vec![("Alice".to_string(), 3)]),
        Err(ElectionError::RecordOverflow)
    );
    assert_eq!(small.data, vec![0u8; 12]);
}

#[test]
fn results_are_scored_by_the_election() {
    let mut election = election_record();
    add_candidate_to_election(&mut election, address(50)).unwrap();
    add_vote(&mut election, address(60)).unwrap();
    add_vote(&mut election, address(60)).unwrap();
    add_vote(&mut election, address(50)).unwrap();
    let mut result = blank(200);
    add_number_of_votes(&mut result, 3).unwrap();
    let candidates = vec![
        ("Alice".to_string(), address(50)),
        ("Bob".to_string(), address(60)),
        ("Carol".to_string(), address(70)),
    ];
    add_and_show_result(candidates, &election, &mut result).unwrap();
    assert_eq!(
        ResultState::decode(&result.data).unwrap().results,
        vec![("Bob".to_string(), 2), ("Alice".to_string(), 1), ("Carol".to_string(), 0)]
    );
}

#[test]
fn records_that_an_instruction_creates() {
    let program = address(7);
    let creator = address(1);
    let announce = ChainDemocracyInstruction::AddElectionAccount {
        name: "mayor-2024".to_string(),
        start_date: Timestamp { seconds: 0, nanos: 0 },
        end_date: Timestamp { seconds: 1, nanos: 0 },
    };
    assert_eq!(
        creation_seeds(&program, &creator, &announce),
        vec![
            (2, vec![vec![7u8; 32], b"mayor-2024".to_vec()]),
            (3, vec![vec![7u8; 32], b"mayor-2024".to_vec(), b"candidate-list".to_vec()]),
            (4, vec![vec![7u8; 32], b"mayor-2024".to_vec(), b"result".to_vec()]),
        ]
    );
    let enroll = ChainDemocracyInstruction::AddCandidate {
        first_name: "Alice".to_string(),
        last_name: "Rossi".to_string(),
        election_name: "mayor-2024".to_string(),
        seed: "candidate-list".to_string(),
    };
    assert_eq!(
        creation_seeds(&program, &creator, &enroll),
        vec![(1, vec![vec![1u8; 32], b"mayor-2024".to_vec(), b"Alice".to_vec(), b"Rossi".to_vec()])]
    );
    let vote = ChainDemocracyInstruction::AddVote {
        electoral_card_number: "CARD-001".to_string(),
        candidate_first_name: "Alice".to_string(),
        candidate_last_name: "Rossi".to_string(),
        election_name: "mayor-2024".to_string(),
        seed: "candidate-list".to_string(),
    };
    assert_eq!(
        creation_seeds(&program, &creator, &vote),
        vec![(1, vec![vec![7u8; 32], b"mayor-2024".to_vec(), b"CARD-001".to_vec()])]
    );
    let count =
        ChainDemocracyInstruction::CountingVotes { election_name: "mayor-2024".to_string() };
    assert!(creation_seeds(&program, &creator, &count).is_empty());
}

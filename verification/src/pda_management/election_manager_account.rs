use crate::address::attached_address;
use crate::address::candidate_list_tag;
use crate::address::election_address;
use crate::address::find_attached_address;
use crate::address::find_election_address;
use crate::address::result_tag;
use crate::address::Address;
use crate::error::ElectionError;
use crate::pda_management::candidate_list_manager_account::candidate_list_created;
use crate::pda_management::candidate_list_manager_account::candidate_list_loaded;
use crate::pda_management::candidate_list_manager_account::generate_candidate_list_account_at;
use crate::pda_management::candidate_list_manager_account::CANDIDATE_LIST_SIZE;
use crate::pda_management::result_manager_account::generate_result_account_at;
use crate::pda_management::result_manager_account::result_created;
use crate::pda_management::result_manager_account::RESULT_SIZE;
use crate::record::applied;
use crate::record::applied_all;
use crate::record::duplicate_records;
use crate::record::is_expected;
use crate::record::lemma_created;
use crate::record::lemma_stored;
use crate::record::records_view;
use crate::record::replace_record;
use crate::record::text_option;
use crate::record::RecordHandle;
use crate::record::RecordView;
use crate::state::candidate_list_state::lemma_blank_candidate_list;
use crate::state::candidate_list_state::lemma_candidate_list_round_trip;
use crate::state::candidate_list_state::lemma_empty_candidate_list_length;
use crate::state::candidate_list_state::CandidateListView;
use crate::state::election_account_state::lemma_blank_election;
use crate::state::election_account_state::lemma_election_round_trip;
use crate::state::election_account_state::lemma_new_election_length;
use crate::state::election_account_state::ElectionAccountState;
use crate::state::election_account_state::ElectionView;
use crate::utilities::election_account_utilities::format_record_date;
use crate::utilities::election_account_utilities::record_date;
use crate::utilities::election_account_utilities::Timestamp;
use crate::wire::text_fits;
use crate::wire::zeros;
use vstd::prelude::*;
use vstd::utf8::encode_utf8;

verus! {

/// The bytes that an election record has beyond its texts: one for a flag,
/// and ten thousand for the counters of its candidates.
pub const ELECTION_HEADROOM: usize = 10001;

/// The place of the election record among the records of an instruction
/// that announces an election.
pub const NEW_ELECTION_INDEX: usize = 2;

/// The size of the record of an election: four bytes for each byte of its
/// three texts, and the headroom.
pub open spec fn election_size(name: Seq<char>, start_date: Seq<char>, end_date: Seq<char>) -> int {
    4 * encode_utf8(name).len() + 4 * encode_utf8(start_date).len() + 4 * encode_utf8(
        end_date,
    ).len() + ELECTION_HEADROOM
}

/// Computes the size of the record of an election; `None` where the
/// machine cannot count that far.
pub fn compute_election_size(name: &str, start_date: &str, end_date: &str) -> (r: Option<usize>)
    ensures
        match r {
            Some(size) => size == election_size(name@, start_date@, end_date@),
            None => election_size(name@, start_date@, end_date@) > usize::MAX,
        },
{
    let total: u128 = 4 * (name.as_bytes().len() as u128) + 4 * (start_date.as_bytes().len() as u128)
        + 4 * (end_date.as_bytes().len() as u128) + ELECTION_HEADROOM as u128;
    if total > usize::MAX as u128 {
        None
    } else {
        Some(total as usize)
    }
}

/// What an election record holds once it was initialized: the election is
/// known by its name and dates, is not active, and has no votes. A record
/// that was initialized before is left alone.
pub open spec fn election_initialized(
    record: RecordView,
    name: Seq<char>,
    start_date: Seq<char>,
    end_date: Seq<char>,
) -> Result<RecordView, ElectionError> {
    match ElectionView::decoding(record.data) {
        None => Err(ElectionError::DecodeError),
        Some(election) => if election.is_initialized {
            Err(ElectionError::AccountAlreadyInitialized)
        } else {
            let ready = ElectionView {
                is_initialized: true,
                name,
                start_date,
                end_date,
                votes: election.votes,
                number_of_votes: 0,
                is_active: false,
            };
            record.stored(ready.encodable(), ready.encoding())
        },
    }
}

/// The election that a record holds, where it holds one that was
/// initialized.
pub open spec fn election_loaded(record: RecordView) -> Result<ElectionView, ElectionError> {
    if !record.allocated() {
        Err(ElectionError::AccountNotInitialized)
    } else {
        match ElectionView::decoding(record.data) {
            None => Err(ElectionError::DecodeError),
            Some(election) => if election.is_initialized {
                Ok(election)
            } else {
                Err(ElectionError::AccountNotInitialized)
            },
        }
    }
}

/// The record after the election in it was replaced by `next`.
pub open spec fn election_stored(record: RecordView, next: Result<ElectionView, ElectionError>) -> Result<
    RecordView,
    ElectionError,
> {
    match next {
        Ok(election) => record.stored(election.encodable(), election.encoding()),
        Err(e) => Err(e),
    }
}

/// The record after one more vote was counted in it, without a candidate.
pub open spec fn vote_counted(record: RecordView) -> Result<RecordView, ElectionError> {
    match election_loaded(record) {
        Ok(election) => election_stored(record, election.with_counted_vote()),
        Err(e) => Err(e),
    }
}

/// The record after `candidate` was given a counter in it.
pub open spec fn candidate_added_to_election(record: RecordView, candidate: Address) -> Result<
    RecordView,
    ElectionError,
> {
    match election_loaded(record) {
        Ok(election) => election_stored(record, Ok(election.with_candidate(candidate))),
        Err(e) => Err(e),
    }
}

/// The record after one more vote for `candidate` was taken in it.
pub open spec fn vote_added(record: RecordView, candidate: Address) -> Result<
    RecordView,
    ElectionError,
> {
    match election_loaded(record) {
        Ok(election) => election_stored(record, election.with_vote(candidate)),
        Err(e) => Err(e),
    }
}

/// A candidate's share of the votes in hundredths of a percent, rounded
/// down: nothing where no vote was cast.
pub open spec fn basis_points(votes: i64, total: i64) -> int {
    if total == 0 {
        0
    } else if total > 0 {
        (10000 * votes) / (total as int)
    } else {
        (10000 * (-votes)) / (-(total as int))
    }
}

/// The records after the election record was created and initialized in
/// its place.
pub open spec fn election_record_created(
    program: Address,
    records: Seq<RecordView>,
    name: Seq<char>,
    start_date: Option<Seq<char>>,
    end_date: Option<Seq<char>>,
    election: Option<Address>,
) -> Result<Seq<RecordView>, ElectionError> {
    if records.len() <= NEW_ELECTION_INDEX {
        Err(ElectionError::MissingRecordArgument)
    } else if start_date is None || end_date is None {
        Err(ElectionError::MalformedInstruction)
    } else if election != Some(records[NEW_ELECTION_INDEX as int].address) {
        Err(ElectionError::AddressMismatch)
    } else {
        match records[NEW_ELECTION_INDEX as int].created(
            election_size(name, start_date->0, end_date->0),
            program,
        ) {
            Err(e) => Err(e),
            Ok(fresh) => match election_initialized(fresh, name, start_date->0, end_date->0) {
                Err(e) => Err(e),
                Ok(ready) => Ok(records.update(NEW_ELECTION_INDEX as int, ready)),
            },
        }
    }
}

/// The records after an election was announced: its record, its registry
/// and its tally were created, each at the address given for it, or
/// nothing was.
pub open spec fn election_added(
    program: Address,
    records: Seq<RecordView>,
    name: Seq<char>,
    start_date: Option<Seq<char>>,
    end_date: Option<Seq<char>>,
    election: Option<Address>,
    list: Option<Address>,
    result: Option<Address>,
) -> Result<Seq<RecordView>, ElectionError> {
    match election_record_created(program, records, name, start_date, end_date, election) {
        Err(e) => Err(e),
        Ok(first) => match candidate_list_created(program, first, list) {
            Err(e) => Err(e),
            Ok(second) => result_created(program, second, result),
        },
    }
}

/// Reads the election that a record holds.
pub fn load_election(record: &RecordHandle) -> (r: Result<ElectionAccountState, ElectionError>)
    ensures
        match r {
            Ok(election) => election_loaded(record@) == Ok::<ElectionView, ElectionError>(
                election@,
            ) && election@.well_formed(),
            Err(e) => election_loaded(record@) == Err::<ElectionView, ElectionError>(e),
        },
{
    if record.data.len() == 0 {
        return Err(ElectionError::AccountNotInitialized);
    }
    let election = match ElectionAccountState::decode(record.data.as_slice()) {
        Ok(election) => election,
        Err(e) => { return Err(e); },
    };
    if !election.is_initialized {
        return Err(ElectionError::AccountNotInitialized);
    }
    Ok(election)
}

/// Writes `election` over the election that a record holds.
pub fn store_election(record: &mut RecordHandle, election: &ElectionAccountState) -> (r: Result<
    (),
    ElectionError,
>)
    ensures
        applied(
            election_stored(old(record)@, Ok(election@)),
            old(record)@,
            final(record)@,
            r,
        ),
{
    match record.store(election.encode()) {
        Ok(next) => {
            *record = next;
            Ok(())
        },
        Err(e) => Err(e),
    }
}

/// Initializes the record of an election.
pub fn initialize_election_account(
    record: &mut RecordHandle,
    name: String,
    start_date: String,
    end_date: String,
) -> (r: Result<(), ElectionError>)
    ensures
        applied(
            election_initialized(old(record)@, name@, start_date@, end_date@),
            old(record)@,
            final(record)@,
            r,
        ),
{
    let mut election = match ElectionAccountState::decode(record.data.as_slice()) {
        Ok(election) => election,
        Err(e) => { return Err(e); },
    };
    if election.is_initialized {
        return Err(ElectionError::AccountAlreadyInitialized);
    }
    election.name = name;
    election.start_date = start_date;
    election.end_date = end_date;
    election.is_initialized = true;
    election.is_active = false;
    election.number_of_votes = 0;
    store_election(record, &election)
}

/// Counts one more vote in an election record, without a candidate.
pub fn increment_vote_counter(record: &mut RecordHandle) -> (r: Result<(), ElectionError>)
    ensures
        applied(vote_counted(old(record)@), old(record)@, final(record)@, r),
{
    let mut election = match load_election(record) {
        Ok(election) => election,
        Err(e) => { return Err(e); },
    };
    match election.count_vote() {
        Ok(()) => store_election(record, &election),
        Err(e) => Err(e),
    }
}

/// Gives `candidate` a counter in an election record.
pub fn add_candidate_to_election(record: &mut RecordHandle, candidate: Address) -> (r: Result<
    (),
    ElectionError,
>)
    ensures
        applied(
            candidate_added_to_election(old(record)@, candidate),
            old(record)@,
            final(record)@,
            r,
        ),
{
    let mut election = match load_election(record) {
        Ok(election) => election,
        Err(e) => { return Err(e); },
    };
    election.register_candidate(candidate);
    store_election(record, &election)
}

/// Takes one more vote for `candidate` in an election record.
pub fn add_vote(record: &mut RecordHandle, candidate: Address) -> (r: Result<(), ElectionError>)
    ensures
        applied(vote_added(old(record)@, candidate), old(record)@, final(record)@, r),
{
    let mut election = match load_election(record) {
        Ok(election) => election,
        Err(e) => { return Err(e); },
    };
    match election.record_vote(candidate) {
        Ok(()) => store_election(record, &election),
        Err(e) => Err(e),
    }
}

/// Computes a share of the votes in hundredths of a percent.
pub fn compute_basis_points(votes: i64, total: i64) -> (r: i128)
    ensures
        r == basis_points(votes, total),
{
    if total == 0 {
        return 0;
    }
    let (numerator, divisor): (i128, i128) = if total > 0 {
        (10000 * (votes as i128), total as i128)
    } else {
        (10000 * (-(votes as i128)), -(total as i128))
    };
    if numerator >= 0 {
        numerator / divisor
    } else {
        let up: i128 = (-numerator + divisor - 1) / divisor;
        assert(-up == numerator as int / divisor as int) by (nonlinear_arith)
            requires
                numerator < 0,
                divisor > 0,
                up == (-numerator + divisor - 1) / (divisor as int),
        ;
        -up
    }
}

/// The share of `candidate` in the votes of an election, in hundredths of
/// a percent.
pub fn get_percentage_of_votes(record: &RecordHandle, candidate: Address) -> (r: Result<
    i128,
    ElectionError,
>)
    ensures
        match election_loaded(record@) {
            Ok(election) => r == Ok::<i128, ElectionError>(
                basis_points(election.votes_for(candidate), election.number_of_votes) as i128,
            ),
            Err(e) => r == Err::<i128, ElectionError>(e),
        },
{
    let election = match load_election(record) {
        Ok(election) => election,
        Err(e) => { return Err(e); },
    };
    Ok(compute_basis_points(election.votes_for(&candidate), election.number_of_votes))
}

/// The number of all votes of an election.
pub fn get_number_of_votes(record: &RecordHandle) -> (r: Result<i64, ElectionError>)
    ensures
        match election_loaded(record@) {
            Ok(election) => r == Ok::<i64, ElectionError>(election.number_of_votes),
            Err(e) => r == Err::<i64, ElectionError>(e),
        },
{
    match load_election(record) {
        Ok(election) => Ok(election.number_of_votes),
        Err(e) => Err(e),
    }
}

/// Creates and initializes the record of an election, at the address that
/// was derived for it.
pub fn create_election_record_at(
    program_id: &Address,
    records: &mut Vec<RecordHandle>,
    name: String,
    start_date: Option<String>,
    end_date: Option<String>,
    election: Option<Address>,
) -> (r: Result<(), ElectionError>)
    ensures
        applied_all(
            election_record_created(
                *program_id,
                records_view(old(records)@),
                name@,
                text_option(start_date),
                text_option(end_date),
                election,
            ),
            records_view(old(records)@),
            records_view(final(records)@),
            r,
        ),
{
    if records.len() <= NEW_ELECTION_INDEX {
        return Err(ElectionError::MissingRecordArgument);
    }
    let (start_date, end_date) = match (start_date, end_date) {
        (Some(start_date), Some(end_date)) => (start_date, end_date),
        _ => { return Err(ElectionError::MalformedInstruction); },
    };
    if !is_expected(&election, &records[NEW_ELECTION_INDEX].address) {
        return Err(ElectionError::AddressMismatch);
    }
    let size = compute_election_size(name.as_str(), start_date.as_str(), end_date.as_str());
    let mut record = match records[NEW_ELECTION_INDEX].create(size, program_id) {
        Ok(fresh) => fresh,
        Err(e) => { return Err(e); },
    };
    match initialize_election_account(&mut record, name, start_date, end_date) {
        Ok(()) => {
            replace_record(records, NEW_ELECTION_INDEX, record);
            Ok(())
        },
        Err(e) => Err(e),
    }
}

/// Announces an election, with the dates as texts and the three addresses
/// as they were derived: creates its record, its registry and its tally,
/// or nothing.
pub fn add_election_account_at(
    program_id: &Address,
    records: &mut Vec<RecordHandle>,
    name: String,
    start_date: Option<String>,
    end_date: Option<String>,
    election: Option<Address>,
    list: Option<Address>,
    result: Option<Address>,
) -> (r: Result<(), ElectionError>)
    ensures
        applied_all(
            election_added(
                *program_id,
                records_view(old(records)@),
                name@,
                text_option(start_date),
                text_option(end_date),
                election,
                list,
                result,
            ),
            records_view(old(records)@),
            records_view(final(records)@),
            r,
        ),
{
    let mut work = duplicate_records(records);
    match create_election_record_at(program_id, &mut work, name, start_date, end_date, election) {
        Ok(()) => {},
        Err(e) => { return Err(e); },
    }
    match generate_candidate_list_account_at(program_id, &mut work, list) {
        Ok(()) => {},
        Err(e) => { return Err(e); },
    }
    match generate_result_account_at(program_id, &mut work, result) {
        Ok(()) => {},
        Err(e) => { return Err(e); },
    }
    *records = work;
    Ok(())
}

/// What announcing an election does to the records: the dates are written
/// as election records hold them, and the three addresses are derived from
/// the program and the election's name.
pub open spec fn election_announced(
    program: Address,
    records: Seq<RecordView>,
    name: Seq<char>,
    start_date: Timestamp,
    end_date: Timestamp,
) -> Result<Seq<RecordView>, ElectionError> {
    election_added(
        program,
        records,
        name,
        record_date(start_date),
        record_date(end_date),
        election_address(program, name),
        attached_address(program, name, candidate_list_tag()),
        attached_address(program, name, result_tag()),
    )
}

/// Announces an election: creates its record, initialized with the name
/// and the dates, its registry and its tally. Either all three are created
/// or none is.
pub fn add_election_account(
    program_id: &Address,
    records: &mut Vec<RecordHandle>,
    name: String,
    start_date: Timestamp,
    end_date: Timestamp,
) -> (r: Result<(), ElectionError>)
    ensures
        applied_all(
            election_announced(*program_id, records_view(old(records)@), name@, start_date, end_date),
            records_view(old(records)@),
            records_view(final(records)@),
            r,
        ),
{
    let start_text = format_record_date(&start_date);
    let end_text = format_record_date(&end_date);
    let election = find_election_address(program_id, name.as_str());
    let list = find_attached_address(program_id, name.as_str(), "candidate-list");
    let result = find_attached_address(program_id, name.as_str(), "result");
    add_election_account_at(program_id, records, name, start_text, end_text, election, list, result)
}


/// An election is announced once: where announcing it succeeded, announcing
/// an election on the same records again fails, because its record exists.
pub proof fn lemma_election_is_announced_once(
    program: Address,
    records: Seq<RecordView>,
    name: Seq<char>,
    start_date: Option<Seq<char>>,
    end_date: Option<Seq<char>>,
    election: Option<Address>,
    list: Option<Address>,
    result: Option<Address>,
    after: Seq<RecordView>,
    other_name: Seq<char>,
    other_start: Seq<char>,
    other_end: Seq<char>,
)
    requires
        election_added(program, records, name, start_date, end_date, election, list, result)
            == Ok::<Seq<RecordView>, ElectionError>(after),
    ensures
        election_added(
            program,
            after,
            other_name,
            Some(other_start),
            Some(other_end),
            election,
            list,
            result,
        ) == Err::<Seq<RecordView>, ElectionError>(ElectionError::AccountAlreadyInitialized),
{
    let size = election_size(name, start_date->0, end_date->0);
    let fresh = records[NEW_ELECTION_INDEX as int].created(size, program)->Ok_0;
    lemma_created(records[NEW_ELECTION_INDEX as int], size, program, fresh);
    let ready = election_initialized(fresh, name, start_date->0, end_date->0)->Ok_0;
    let blank = ElectionView::decoding(fresh.data)->Some_0;
    let filled = ElectionView {
        is_initialized: true,
        name,
        start_date: start_date->0,
        end_date: end_date->0,
        votes: blank.votes,
        number_of_votes: 0,
        is_active: false,
    };
    lemma_stored(fresh, filled.encodable(), filled.encoding(), ready);
    let first = records.update(NEW_ELECTION_INDEX as int, ready);
    let second = candidate_list_created(program, first, list)->Ok_0;
    assert(second[NEW_ELECTION_INDEX as int] == ready);
    assert(after[NEW_ELECTION_INDEX as int] == ready);
    assert(after.len() == records.len());
}


/// When announcing an election succeeds: five records are supplied; the
/// dates could be written; the third, fourth and fifth record lie at the
/// addresses derived for the election, its registry and its tally, and none
/// of them exists; the texts fit; and the machine can count the size of the
/// election record. The election record then holds the election,
/// initialized, with no votes; the registry is initialized and empty; the
/// tally is blank; and the first two records are as they were.
pub proof fn lemma_announcement_succeeds(
    program: Address,
    records: Seq<RecordView>,
    name: Seq<char>,
    start_date: Seq<char>,
    end_date: Seq<char>,
    election: Option<Address>,
    list: Option<Address>,
    result: Option<Address>,
)
    requires
        records.len() >= 5,
        election == Some(records[NEW_ELECTION_INDEX as int].address),
        list == Some(records[3].address),
        result == Some(records[4].address),
        !records[NEW_ELECTION_INDEX as int].allocated(),
        !records[3].allocated(),
        !records[4].allocated(),
        text_fits(name),
        text_fits(start_date),
        text_fits(end_date),
        election_size(name, start_date, end_date) <= usize::MAX,
    ensures
        election_added(
            program,
            records,
            name,
            Some(start_date),
            Some(end_date),
            election,
            list,
            result,
        ) matches Ok(after) && {
            &&& after.len() == records.len()
            &&& forall|k: int| 0 <= k < records.len() && !(2 <= k <= 4) ==> after[k] == records[k]
            &&& after[2].owner == program && after[3].owner == program && after[4].owner == program
            &&& after[2].data.len() == election_size(name, start_date, end_date)
            &&& election_loaded(after[2]) == Ok::<ElectionView, ElectionError>(
                ElectionView {
                    is_initialized: true,
                    name,
                    start_date,
                    end_date,
                    votes: Seq::empty(),
                    number_of_votes: 0,
                    is_active: false,
                },
            )
            &&& after[3].data.len() == CANDIDATE_LIST_SIZE
            &&& candidate_list_loaded(after[3]) == Ok::<CandidateListView, ElectionError>(
                CandidateListView { is_initialized: true, candidates: Seq::empty() },
            )
            &&& after[4].data == zeros(RESULT_SIZE as nat)
        },
{
    let size = election_size(name, start_date, end_date);
    let fresh = records[2].created(size, program)->Ok_0;
    lemma_blank_election(size as nat);
    let filled = ElectionView {
        is_initialized: true,
        name,
        start_date,
        end_date,
        votes: Seq::empty(),
        number_of_votes: 0,
        is_active: false,
    };
    lemma_new_election_length(filled);
    let ready = fresh.stored(true, filled.encoding())->Ok_0;
    lemma_stored(fresh, true, filled.encoding(), ready);
    lemma_election_round_trip(filled, fresh.data.skip(filled.encoding().len() as int));
    let first = records.update(2, ready);
    let fresh_list = first[3].created(CANDIDATE_LIST_SIZE as int, program)->Ok_0;
    lemma_blank_candidate_list(CANDIDATE_LIST_SIZE as nat);
    let empty = CandidateListView { is_initialized: true, candidates: Seq::empty() };
    lemma_empty_candidate_list_length(empty);
    let ready_list = fresh_list.stored(true, empty.encoding())->Ok_0;
    lemma_stored(fresh_list, true, empty.encoding(), ready_list);
    lemma_candidate_list_round_trip(empty, fresh_list.data.skip(5));
    let second = first.update(3, ready_list);
    assert(candidate_list_created(program, first, list) == Ok::<Seq<RecordView>, ElectionError>(
        second,
    ));
}


} // verus!

use crate::address::election_address;
use crate::address::find_election_address;
use crate::address::Address;
use crate::error::ElectionError;
use crate::record::applied;
use crate::record::applied_all;
use crate::record::is_expected;
use crate::record::records_view;
use crate::record::replace_record;
use crate::record::text_option;
use crate::record::RecordHandle;
use crate::record::RecordView;
use crate::state::vote_account_state::VoteAccountState;
use crate::state::vote_account_state::VoteAccountView;
use crate::utilities::election_account_utilities::format_record_date;
use crate::utilities::election_account_utilities::record_date;
use crate::utilities::election_account_utilities::Timestamp;
use vstd::prelude::*;
use vstd::utf8::encode_utf8;

verus! {

/// The bytes that a record with lists of voters has beyond its texts: one
/// for a flag, and room for six candidates with ten voters each.
pub const VOTE_ACCOUNT_HEADROOM: usize = 2113;

/// The place of the record among the records of an operation on it.
pub const VOTE_ACCOUNT_INDEX: usize = 1;

/// How many records creating such a record needs.
pub const VOTE_ACCOUNT_RECORDS: usize = 3;

/// The size of a record with lists of voters: four bytes for each byte of
/// its three texts, and the headroom.
pub open spec fn vote_account_size(name: Seq<char>, start_date: Seq<char>, end_date: Seq<char>) -> int {
    4 * encode_utf8(name).len() + 4 * encode_utf8(start_date).len() + 4 * encode_utf8(
        end_date,
    ).len() + VOTE_ACCOUNT_HEADROOM
}

/// Computes the size of a record with lists of voters; `None` where the
/// machine cannot count that far.
pub fn compute_vote_account_size(name: &str, start_date: &str, end_date: &str) -> (r: Option<usize>)
    ensures
        match r {
            Some(size) => size == vote_account_size(name@, start_date@, end_date@),
            None => vote_account_size(name@, start_date@, end_date@) > usize::MAX,
        },
{
    let total: u128 = 4 * (name.as_bytes().len() as u128) + 4 * (start_date.as_bytes().len() as u128)
        + 4 * (end_date.as_bytes().len() as u128) + VOTE_ACCOUNT_HEADROOM as u128;
    if total > usize::MAX as u128 {
        None
    } else {
        Some(total as usize)
    }
}

/// What such a record holds once it was initialized: the election is known
/// by its name and dates and is not active. A record that was initialized
/// before is left alone.
pub open spec fn vote_account_initialized(
    record: RecordView,
    name: Seq<char>,
    start_date: Seq<char>,
    end_date: Seq<char>,
) -> Result<RecordView, ElectionError> {
    match VoteAccountView::decoding(record.data) {
        None => Err(ElectionError::DecodeError),
        Some(election) => if election.is_initialized {
            Err(ElectionError::AccountAlreadyInitialized)
        } else {
            let ready = VoteAccountView {
                is_initialized: true,
                name,
                start_date,
                end_date,
                votes: election.votes,
                is_active: false,
            };
            record.stored(ready.encodable(), ready.encoding())
        },
    }
}

/// The election that such a record holds, where it holds one that was
/// initialized.
pub open spec fn vote_account_loaded(record: RecordView) -> Result<VoteAccountView, ElectionError> {
    if !record.allocated() {
        Err(ElectionError::AccountNotInitialized)
    } else {
        match VoteAccountView::decoding(record.data) {
            None => Err(ElectionError::DecodeError),
            Some(election) => if election.is_initialized {
                Ok(election)
            } else {
                Err(ElectionError::AccountNotInitialized)
            },
        }
    }
}

/// The records after a record with lists of voters was created and
/// initialized, at the address derived for it.
pub open spec fn vote_account_added(
    program: Address,
    records: Seq<RecordView>,
    name: Seq<char>,
    start_date: Option<Seq<char>>,
    end_date: Option<Seq<char>>,
    expected: Option<Address>,
) -> Result<Seq<RecordView>, ElectionError> {
    if records.len() < VOTE_ACCOUNT_RECORDS {
        Err(ElectionError::MissingRecordArgument)
    } else if start_date is None || end_date is None {
        Err(ElectionError::MalformedInstruction)
    } else if expected != Some(records[VOTE_ACCOUNT_INDEX as int].address) {
        Err(ElectionError::AddressMismatch)
    } else {
        match records[VOTE_ACCOUNT_INDEX as int].created(
            vote_account_size(name, start_date->0, end_date->0),
            program,
        ) {
            Err(e) => Err(e),
            Ok(fresh) => match vote_account_initialized(fresh, name, start_date->0, end_date->0) {
                Err(e) => Err(e),
                Ok(ready) => Ok(records.update(VOTE_ACCOUNT_INDEX as int, ready)),
            },
        }
    }
}

/// The records after the election in the second of them was made active.
/// The record must be owned by the program and lie at the address derived
/// for the election.
pub open spec fn vote_account_activated(
    program: Address,
    records: Seq<RecordView>,
    expected: Option<Address>,
) -> Result<Seq<RecordView>, ElectionError> {
    if records.len() <= VOTE_ACCOUNT_INDEX {
        Err(ElectionError::MissingRecordArgument)
    } else if records[VOTE_ACCOUNT_INDEX as int].owner != program {
        Err(ElectionError::UnauthorizedOwner)
    } else if expected != Some(records[VOTE_ACCOUNT_INDEX as int].address) {
        Err(ElectionError::AddressMismatch)
    } else {
        match vote_account_loaded(records[VOTE_ACCOUNT_INDEX as int]) {
            Err(e) => Err(e),
            Ok(election) => {
                let active = VoteAccountView {
                    is_initialized: election.is_initialized,
                    name: election.name,
                    start_date: election.start_date,
                    end_date: election.end_date,
                    votes: election.votes,
                    is_active: true,
                };
                match records[VOTE_ACCOUNT_INDEX as int].stored(
                    active.encodable(),
                    active.encoding(),
                ) {
                    Err(e) => Err(e),
                    Ok(next) => Ok(records.update(VOTE_ACCOUNT_INDEX as int, next)),
                }
            },
        }
    }
}

/// The record after `voter` was entered in the list of `candidate`.
pub open spec fn voter_listed(record: RecordView, candidate: Address, voter: Address) -> Result<
    RecordView,
    ElectionError,
> {
    match vote_account_loaded(record) {
        Err(e) => Err(e),
        Ok(election) => {
            let next = election.with_vote(candidate, voter);
            record.stored(next.encodable(), next.encoding())
        },
    }
}

/// Reads the election that a record with lists of voters holds.
pub fn load_vote_account(record: &RecordHandle) -> (r: Result<VoteAccountState, ElectionError>)
    ensures
        match r {
            Ok(election) => vote_account_loaded(record@) == Ok::<VoteAccountView, ElectionError>(
                election@,
            ) && election@.well_formed(),
            Err(e) => vote_account_loaded(record@) == Err::<VoteAccountView, ElectionError>(e),
        },
{
    if record.data.len() == 0 {
        return Err(ElectionError::AccountNotInitialized);
    }
    let election = match VoteAccountState::decode(record.data.as_slice()) {
        Ok(election) => election,
        Err(e) => { return Err(e); },
    };
    if !election.is_initialized {
        return Err(ElectionError::AccountNotInitialized);
    }
    Ok(election)
}

/// Initializes a record with lists of voters.
pub fn initialize_vote_account(
    record: &mut RecordHandle,
    name: String,
    start_date: String,
    end_date: String,
) -> (r: Result<(), ElectionError>)
    ensures
        applied(
            vote_account_initialized(old(record)@, name@, start_date@, end_date@),
            old(record)@,
            final(record)@,
            r,
        ),
{
    let mut election = match VoteAccountState::decode(record.data.as_slice()) {
        Ok(election) => election,
        Err(e) => { return Err(e); },
    };
    if election.is_initialized {
        return Err(ElectionError::AccountAlreadyInitialized);
    }
    election.name = name;
    election.start_date = start_date;
    election.end_date = end_date;
    election.is_initialized = true;
    election.is_active = false;
    match record.store(election.encode()) {
        Ok(next) => {
            *record = next;
            Ok(())
        },
        Err(e) => Err(e),
    }
}

/// Creates and initializes a record with lists of voters, with the dates
/// as texts and the address as it was derived.
pub fn add_vote_account_at(
    program_id: &Address,
    records: &mut Vec<RecordHandle>,
    name: String,
    start_date: Option<String>,
    end_date: Option<String>,
    expected: Option<Address>,
) -> (r: Result<(), ElectionError>)
    ensures
        applied_all(
            vote_account_added(
                *program_id,
                records_view(old(records)@),
                name@,
                text_option(start_date),
                text_option(end_date),
                expected,
            ),
            records_view(old(records)@),
            records_view(final(records)@),
            r,
        ),
{
    if records.len() < VOTE_ACCOUNT_RECORDS {
        return Err(ElectionError::MissingRecordArgument);
    }
    let (start_date, end_date) = match (start_date, end_date) {
        (Some(start_date), Some(end_date)) => (start_date, end_date),
        _ => { return Err(ElectionError::MalformedInstruction); },
    };
    if !is_expected(&expected, &records[VOTE_ACCOUNT_INDEX].address) {
        return Err(ElectionError::AddressMismatch);
    }
    let size = compute_vote_account_size(name.as_str(), start_date.as_str(), end_date.as_str());
    let mut record = match records[VOTE_ACCOUNT_INDEX].create(size, program_id) {
        Ok(fresh) => fresh,
        Err(e) => { return Err(e); },
    };
    match initialize_vote_account(&mut record, name, start_date, end_date) {
        Ok(()) => {
            replace_record(records, VOTE_ACCOUNT_INDEX, record);
            Ok(())
        },
        Err(e) => Err(e),
    }
}

/// Creates and initializes the record of an election that keeps lists of
/// voters.
pub fn add_vote_account(
    program_id: &Address,
    records: &mut Vec<RecordHandle>,
    name: String,
    start_date: Timestamp,
    end_date: Timestamp,
) -> (r: Result<(), ElectionError>)
    ensures
        applied_all(
            vote_account_added(
                *program_id,
                records_view(old(records)@),
                name@,
                record_date(start_date),
                record_date(end_date),
                election_address(*program_id, name@),
            ),
            records_view(old(records)@),
            records_view(final(records)@),
            r,
        ),
{
    let start_text = format_record_date(&start_date);
    let end_text = format_record_date(&end_date);
    let expected = find_election_address(program_id, name.as_str());
    add_vote_account_at(program_id, records, name, start_text, end_text, expected)
}

/// Makes the election in the second record active, with the address as it
/// was derived.
pub fn try_update_at(
    program_id: &Address,
    records: &mut Vec<RecordHandle>,
    expected: Option<Address>,
) -> (r: Result<(), ElectionError>)
    ensures
        applied_all(
            vote_account_activated(*program_id, records_view(old(records)@), expected),
            records_view(old(records)@),
            records_view(final(records)@),
            r,
        ),
{
    if records.len() <= VOTE_ACCOUNT_INDEX {
        return Err(ElectionError::MissingRecordArgument);
    }
    if !records[VOTE_ACCOUNT_INDEX].owner.same(program_id) {
        return Err(ElectionError::UnauthorizedOwner);
    }
    if !is_expected(&expected, &records[VOTE_ACCOUNT_INDEX].address) {
        return Err(ElectionError::AddressMismatch);
    }
    let mut election = match load_vote_account(&records[VOTE_ACCOUNT_INDEX]) {
        Ok(election) => election,
        Err(e) => { return Err(e); },
    };
    election.is_active = true;
    match records[VOTE_ACCOUNT_INDEX].store(election.encode()) {
        Ok(next) => {
            replace_record(records, VOTE_ACCOUNT_INDEX, next);
            Ok(())
        },
        Err(e) => Err(e),
    }
}

/// Makes the election `name` active.
pub fn try_update(program_id: &Address, records: &mut Vec<RecordHandle>, name: String) -> (r: Result<
    (),
    ElectionError,
>)
    ensures
        applied_all(
            vote_account_activated(
                *program_id,
                records_view(old(records)@),
                election_address(*program_id, name@),
            ),
            records_view(old(records)@),
            records_view(final(records)@),
            r,
        ),
{
    let expected = find_election_address(program_id, name.as_str());
    try_update_at(program_id, records, expected)
}

/// Enters the record of a voter in the list of `candidate`.
pub fn add_vote(record: &mut RecordHandle, candidate: Address, voter: &Address) -> (r: Result<
    (),
    ElectionError,
>)
    ensures
        applied(voter_listed(old(record)@, candidate, *voter), old(record)@, final(record)@, r),
{
    let mut election = match load_vote_account(record) {
        Ok(election) => election,
        Err(e) => { return Err(e); },
    };
    election.record_vote(candidate, *voter);
    match record.store(election.encode()) {
        Ok(next) => {
            *record = next;
            Ok(())
        },
        Err(e) => Err(e),
    }
}

} // verus!

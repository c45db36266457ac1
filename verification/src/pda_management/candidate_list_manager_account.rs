use crate::address::attached_address;
use crate::address::candidate_list_tag;
use crate::address::find_attached_address;
use crate::address::Address;
use crate::error::ElectionError;
use crate::record::applied;
use crate::record::applied_all;
use crate::record::is_expected;
use crate::record::records_view;
use crate::record::replace_record;
use crate::record::RecordHandle;
use crate::record::RecordView;
use crate::state::candidate_list_state::full_name;
use crate::state::candidate_list_state::make_full_name;
use crate::state::candidate_list_state::CandidateListState;
use crate::state::candidate_list_state::CandidateListView;
use vstd::prelude::*;

verus! {

/// The size of the registry of an election.
pub const CANDIDATE_LIST_SIZE: usize = 1000;

/// The place of the registry among the records of an instruction that
/// announces an election.
pub const NEW_CANDIDATE_LIST_INDEX: usize = 3;

/// What a registry record holds once it was initialized.
pub open spec fn candidate_list_initialized(record: RecordView) -> Result<
    RecordView,
    ElectionError,
> {
    match CandidateListView::decoding(record.data) {
        None => Err(ElectionError::DecodeError),
        Some(list) => {
            let ready = CandidateListView { is_initialized: true, candidates: list.candidates };
            record.stored(ready.encodable(), ready.encoding())
        },
    }
}

/// The records after the registry was created and initialized in its
/// place.
pub open spec fn candidate_list_created(
    program: Address,
    records: Seq<RecordView>,
    list: Option<Address>,
) -> Result<Seq<RecordView>, ElectionError> {
    if records.len() <= NEW_CANDIDATE_LIST_INDEX {
        Err(ElectionError::MissingRecordArgument)
    } else if list != Some(records[NEW_CANDIDATE_LIST_INDEX as int].address) {
        Err(ElectionError::AddressMismatch)
    } else {
        match records[NEW_CANDIDATE_LIST_INDEX as int].created(CANDIDATE_LIST_SIZE as int, program) {
            Err(e) => Err(e),
            Ok(fresh) => match candidate_list_initialized(fresh) {
                Err(e) => Err(e),
                Ok(ready) => Ok(records.update(NEW_CANDIDATE_LIST_INDEX as int, ready)),
            },
        }
    }
}

/// The registry that a record holds, where it holds one that was
/// initialized.
pub open spec fn candidate_list_loaded(record: RecordView) -> Result<
    CandidateListView,
    ElectionError,
> {
    if !record.allocated() {
        Err(ElectionError::AccountNotInitialized)
    } else {
        match CandidateListView::decoding(record.data) {
            None => Err(ElectionError::DecodeError),
            Some(list) => if list.is_initialized {
                Ok(list)
            } else {
                Err(ElectionError::AccountNotInitialized)
            },
        }
    }
}

/// The registry record after a candidate was registered in it: the record
/// must be owned by the program and lie at the address that was derived for
/// the registry.
pub open spec fn candidate_registered(
    program: Address,
    record: RecordView,
    candidate: Address,
    first_name: Seq<char>,
    last_name: Seq<char>,
    expected: Option<Address>,
) -> Result<RecordView, ElectionError> {
    if record.owner != program {
        Err(ElectionError::UnauthorizedOwner)
    } else if expected != Some(record.address) {
        Err(ElectionError::AddressMismatch)
    } else {
        match candidate_list_loaded(record) {
            Err(e) => Err(e),
            Ok(list) => {
                let next = list.with_candidate(full_name(first_name, last_name), candidate);
                record.stored(next.encodable(), next.encoding())
            },
        }
    }
}

/// The address of the candidate of that name in the registry that a record
/// holds.
pub open spec fn candidate_found(record: RecordView, first_name: Seq<char>, last_name: Seq<char>) -> Result<
    Address,
    ElectionError,
> {
    match candidate_list_loaded(record) {
        Err(e) => Err(e),
        Ok(list) => match list.address_of(full_name(first_name, last_name)) {
            Some(address) => Ok(address),
            None => Err(ElectionError::CandidateNotFound),
        },
    }
}

/// Reads the registry that a record holds.
pub fn load_candidate_list(record: &RecordHandle) -> (r: Result<CandidateListState, ElectionError>)
    ensures
        match r {
            Ok(list) => candidate_list_loaded(record@) == Ok::<CandidateListView, ElectionError>(
                list@,
            ) && list@.well_formed(),
            Err(e) => candidate_list_loaded(record@) == Err::<CandidateListView, ElectionError>(e),
        },
{
    if record.data.len() == 0 {
        return Err(ElectionError::AccountNotInitialized);
    }
    let list = match CandidateListState::decode(record.data.as_slice()) {
        Ok(list) => list,
        Err(e) => { return Err(e); },
    };
    if !list.is_initialized {
        return Err(ElectionError::AccountNotInitialized);
    }
    Ok(list)
}

/// Initializes the record of a registry.
pub fn initialize_candidate_list(record: &mut RecordHandle) -> (r: Result<(), ElectionError>)
    ensures
        applied(candidate_list_initialized(old(record)@), old(record)@, final(record)@, r),
{
    let mut list = match CandidateListState::decode(record.data.as_slice()) {
        Ok(list) => list,
        Err(e) => { return Err(e); },
    };
    list.is_initialized = true;
    match record.store(list.encode()) {
        Ok(next) => {
            *record = next;
            Ok(())
        },
        Err(e) => Err(e),
    }
}

/// Creates and initializes the registry of an election, at the address
/// that was derived for it.
pub fn generate_candidate_list_account_at(
    program_id: &Address,
    records: &mut Vec<RecordHandle>,
    list: Option<Address>,
) -> (r: Result<(), ElectionError>)
    ensures
        applied_all(
            candidate_list_created(*program_id, records_view(old(records)@), list),
            records_view(old(records)@),
            records_view(final(records)@),
            r,
        ),
{
    if records.len() <= NEW_CANDIDATE_LIST_INDEX {
        return Err(ElectionError::MissingRecordArgument);
    }
    if !is_expected(&list, &records[NEW_CANDIDATE_LIST_INDEX].address) {
        return Err(ElectionError::AddressMismatch);
    }
    let mut record = match records[NEW_CANDIDATE_LIST_INDEX].create(
        Some(CANDIDATE_LIST_SIZE),
        program_id,
    ) {
        Ok(fresh) => fresh,
        Err(e) => { return Err(e); },
    };
    match initialize_candidate_list(&mut record) {
        Ok(()) => {
            replace_record(records, NEW_CANDIDATE_LIST_INDEX, record);
            Ok(())
        },
        Err(e) => Err(e),
    }
}

/// Creates and initializes the registry of the election `election_name`.
pub fn generate_candidate_list_account(
    program_id: &Address,
    records: &mut Vec<RecordHandle>,
    election_name: String,
) -> (r: Result<(), ElectionError>)
    ensures
        applied_all(
            candidate_list_created(
                *program_id,
                records_view(old(records)@),
                attached_address(*program_id, election_name@, candidate_list_tag()),
            ),
            records_view(old(records)@),
            records_view(final(records)@),
            r,
        ),
{
    let list = find_attached_address(program_id, election_name.as_str(), "candidate-list");
    generate_candidate_list_account_at(program_id, records, list)
}

/// Registers a candidate in the registry that `record` holds, which must
/// lie at `expected`.
pub fn add_candidate_to_candidate_list_at(
    program_id: &Address,
    record: &mut RecordHandle,
    address_candidate: &Address,
    candidate_first_name: String,
    candidate_last_name: String,
    expected: Option<Address>,
) -> (r: Result<(), ElectionError>)
    ensures
        applied(
            candidate_registered(
                *program_id,
                old(record)@,
                *address_candidate,
                candidate_first_name@,
                candidate_last_name@,
                expected,
            ),
            old(record)@,
            final(record)@,
            r,
        ),
{
    if !record.owner.same(program_id) {
        return Err(ElectionError::UnauthorizedOwner);
    }
    if !is_expected(&expected, &record.address) {
        return Err(ElectionError::AddressMismatch);
    }
    let mut list = match load_candidate_list(record) {
        Ok(list) => list,
        Err(e) => { return Err(e); },
    };
    let name = make_full_name(candidate_first_name.as_str(), candidate_last_name.as_str());
    list.register(name, *address_candidate);
    match record.store(list.encode()) {
        Ok(next) => {
            *record = next;
            Ok(())
        },
        Err(e) => Err(e),
    }
}

/// Registers a candidate in the registry of the election `election_name`.
/// The registry's address is derived from the program, the election's name
/// and `seed`.
pub fn add_candidate_to_candidate_list(
    program_id: &Address,
    record: &mut RecordHandle,
    address_candidate: &Address,
    election_name: String,
    candidate_first_name: String,
    candidate_last_name: String,
    seed: String,
) -> (r: Result<(), ElectionError>)
    ensures
        applied(
            candidate_registered(
                *program_id,
                old(record)@,
                *address_candidate,
                candidate_first_name@,
                candidate_last_name@,
                attached_address(*program_id, election_name@, seed@),
            ),
            old(record)@,
            final(record)@,
            r,
        ),
{
    let expected = find_attached_address(program_id, election_name.as_str(), seed.as_str());
    add_candidate_to_candidate_list_at(
        program_id,
        record,
        address_candidate,
        candidate_first_name,
        candidate_last_name,
        expected,
    )
}

/// Looks a candidate up in the registry that a record holds.
pub fn retrieve_candidate_account(
    record: &RecordHandle,
    candidate_first_name: String,
    candidate_last_name: String,
) -> (r: Result<Address, ElectionError>)
    ensures
        r == candidate_found(record@, candidate_first_name@, candidate_last_name@),
{
    let list = match load_candidate_list(record) {
        Ok(list) => list,
        Err(e) => { return Err(e); },
    };
    let name = make_full_name(candidate_first_name.as_str(), candidate_last_name.as_str());
    match list.lookup(&name) {
        Some(address) => Ok(address),
        None => Err(ElectionError::CandidateNotFound),
    }
}

/// The candidates of the registry that a record holds, in the order in
/// which they were registered.
pub fn retrieve_candidate_list(record: &RecordHandle) -> (r: Result<
    Vec<(String, Address)>,
    ElectionError,
>)
    ensures
        match r {
            Ok(candidates) => candidate_list_loaded(record@) matches Ok(list) && list.candidates
                == crate::assoc::named_view(candidates@),
            Err(e) => candidate_list_loaded(record@) == Err::<CandidateListView, ElectionError>(e),
        },
{
    match load_candidate_list(record) {
        Ok(list) => Ok(list.candidates),
        Err(e) => Err(e),
    }
}

} // verus!

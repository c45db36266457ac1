use crate::address::attached_address;
use crate::address::candidate_address;
use crate::address::election_address;
use crate::address::find_attached_address;
use crate::address::find_candidate_address;
use crate::address::find_election_address;
use crate::address::Address;
use crate::error::ElectionError;
use crate::pda_management::candidate_list_manager_account::add_candidate_to_candidate_list_at;
use crate::pda_management::candidate_list_manager_account::candidate_registered;
use crate::pda_management::election_manager_account::add_candidate_to_election;
use crate::pda_management::election_manager_account::candidate_added_to_election;
use crate::record::applied;
use crate::record::applied_all;
use crate::record::is_expected;
use crate::record::lemma_stored;
use crate::record::records_view;
use crate::record::replace_record;
use crate::record::RecordHandle;
use crate::record::RecordView;
use crate::state::candidate_state::lemma_blank_candidate;
use crate::state::candidate_state::lemma_candidate_length;
use crate::state::candidate_state::lemma_candidate_round_trip;
use crate::state::candidate_state::CandidateState;
use crate::state::candidate_state::CandidateView;
use crate::wire::text_fits;
use vstd::prelude::*;
use vstd::utf8::encode_utf8;

verus! {

/// How many records an instruction that registers a candidate needs.
pub const CANDIDATE_RECORDS: usize = 5;

/// The place, among the records of such an instruction, of who registers
/// the candidate.
pub const CREATOR_INDEX: usize = 0;

/// The place of the candidate's record.
pub const CANDIDATE_INDEX: usize = 1;

/// The place of the registry.
pub const CANDIDATE_LIST_INDEX: usize = 2;

/// The place of the election record.
pub const ELECTION_INDEX: usize = 3;

/// The size of the record of a candidate: one byte, and four for each byte
/// of its two names.
pub open spec fn candidate_size(first_name: Seq<char>, last_name: Seq<char>) -> int {
    1int + 4 * encode_utf8(first_name).len() + 4 * encode_utf8(last_name).len()
}

/// Computes the size of the record of a candidate; `None` where the
/// machine cannot count that far.
pub fn compute_candidate_size(first_name: &str, last_name: &str) -> (r: Option<usize>)
    ensures
        match r {
            Some(size) => size == candidate_size(first_name@, last_name@),
            None => candidate_size(first_name@, last_name@) > usize::MAX,
        },
{
    let total: u128 = 1 + 4 * (first_name.as_bytes().len() as u128) + 4 * (
    last_name.as_bytes().len() as u128);
    if total > usize::MAX as u128 {
        None
    } else {
        Some(total as usize)
    }
}

/// What a candidate record holds once it was initialized with the two
/// names.
pub open spec fn candidate_initialized(
    record: RecordView,
    first_name: Seq<char>,
    last_name: Seq<char>,
) -> Result<RecordView, ElectionError> {
    match CandidateView::decoding(record.data) {
        None => Err(ElectionError::DecodeError),
        Some(_) => {
            let ready = CandidateView { is_initialized: true, first_name, last_name };
            record.stored(ready.encodable(), ready.encoding())
        },
    }
}

/// The records after a candidate was registered: its record was created
/// and initialized, its name was entered in the registry, and the election
/// got a counter for it. `candidate`, `list` and `election` are the
/// addresses derived for the three records; each record must lie at its
/// address.
pub open spec fn candidate_added(
    program: Address,
    records: Seq<RecordView>,
    first_name: Seq<char>,
    last_name: Seq<char>,
    candidate: Option<Address>,
    list: Option<Address>,
    election: Option<Address>,
) -> Result<Seq<RecordView>, ElectionError> {
    if records.len() < CANDIDATE_RECORDS {
        Err(ElectionError::MissingRecordArgument)
    } else if candidate != Some(records[CANDIDATE_INDEX as int].address) || list != Some(
        records[CANDIDATE_LIST_INDEX as int].address,
    ) || election != Some(records[ELECTION_INDEX as int].address) {
        Err(ElectionError::AddressMismatch)
    } else {
        match records[CANDIDATE_INDEX as int].created(
            candidate_size(first_name, last_name),
            program,
        ) {
            Err(e) => Err(e),
            Ok(fresh) => match candidate_initialized(fresh, first_name, last_name) {
                Err(e) => Err(e),
                Ok(ready) => match candidate_registered(
                    program,
                    records[CANDIDATE_LIST_INDEX as int],
                    ready.address,
                    first_name,
                    last_name,
                    list,
                ) {
                    Err(e) => Err(e),
                    Ok(registry) => match candidate_added_to_election(
                        records[ELECTION_INDEX as int],
                        ready.address,
                    ) {
                        Err(e) => Err(e),
                        Ok(counted) => Ok(
                            records.update(CANDIDATE_INDEX as int, ready).update(
                                CANDIDATE_LIST_INDEX as int,
                                registry,
                            ).update(ELECTION_INDEX as int, counted),
                        ),
                    },
                },
            },
        }
    }
}

/// What registering a candidate does to the records, with the addresses
/// derived: the candidate's from who registers it, the election's name and
/// the two names; the registry's from the election's name and `seed`; the
/// election's from its name.
pub open spec fn candidate_enrolled(
    program: Address,
    records: Seq<RecordView>,
    first_name: Seq<char>,
    last_name: Seq<char>,
    election_name: Seq<char>,
    seed: Seq<char>,
) -> Result<Seq<RecordView>, ElectionError> {
    if records.len() < CANDIDATE_RECORDS {
        Err(ElectionError::MissingRecordArgument)
    } else {
        candidate_added(
            program,
            records,
            first_name,
            last_name,
            candidate_address(
                program,
                records[CREATOR_INDEX as int].address,
                election_name,
                first_name,
                last_name,
            ),
            attached_address(program, election_name, seed),
            election_address(program, election_name),
        )
    }
}

/// Initializes the record of a candidate.
pub fn intialize_candidate_account(
    record: &mut RecordHandle,
    first_name: String,
    last_name: String,
) -> (r: Result<(), ElectionError>)
    ensures
        applied(
            candidate_initialized(old(record)@, first_name@, last_name@),
            old(record)@,
            final(record)@,
            r,
        ),
{
    let mut candidate = match CandidateState::decode(record.data.as_slice()) {
        Ok(candidate) => candidate,
        Err(e) => { return Err(e); },
    };
    candidate.first_name = first_name;
    candidate.last_name = last_name;
    candidate.is_initialized = true;
    match record.store(candidate.encode()) {
        Ok(next) => {
            *record = next;
            Ok(())
        },
        Err(e) => Err(e),
    }
}

/// Registers a candidate, with the three addresses as they were derived.
pub fn add_candidate_at(
    program_id: &Address,
    records: &mut Vec<RecordHandle>,
    first_name: String,
    last_name: String,
    candidate: Option<Address>,
    list: Option<Address>,
    election: Option<Address>,
) -> (r: Result<(), ElectionError>)
    ensures
        applied_all(
            candidate_added(
                *program_id,
                records_view(old(records)@),
                first_name@,
                last_name@,
                candidate,
                list,
                election,
            ),
            records_view(old(records)@),
            records_view(final(records)@),
            r,
        ),
{
    if records.len() < CANDIDATE_RECORDS {
        return Err(ElectionError::MissingRecordArgument);
    }
    if !is_expected(&candidate, &records[CANDIDATE_INDEX].address) || !is_expected(
        &list,
        &records[CANDIDATE_LIST_INDEX].address,
    ) || !is_expected(&election, &records[ELECTION_INDEX].address) {
        return Err(ElectionError::AddressMismatch);
    }
    let size = compute_candidate_size(first_name.as_str(), last_name.as_str());
    let mut ready = match records[CANDIDATE_INDEX].create(size, program_id) {
        Ok(fresh) => fresh,
        Err(e) => { return Err(e); },
    };
    let registered_first = first_name.clone();
    let registered_last = last_name.clone();
    match intialize_candidate_account(&mut ready, first_name, last_name) {
        Ok(()) => {},
        Err(e) => { return Err(e); },
    }
    let mut registry = records[CANDIDATE_LIST_INDEX].duplicate();
    match add_candidate_to_candidate_list_at(
        program_id,
        &mut registry,
        &ready.address,
        registered_first,
        registered_last,
        list,
    ) {
        Ok(()) => {},
        Err(e) => { return Err(e); },
    }
    let mut counted = records[ELECTION_INDEX].duplicate();
    match add_candidate_to_election(&mut counted, ready.address) {
        Ok(()) => {},
        Err(e) => { return Err(e); },
    }
    replace_record(records, CANDIDATE_INDEX, ready);
    replace_record(records, CANDIDATE_LIST_INDEX, registry);
    replace_record(records, ELECTION_INDEX, counted);
    Ok(())
}

/// Registers a candidate: creates and initializes its record, enters its
/// name in the registry of the election, and gives it a counter in the
/// election. Either all of this happens or nothing.
pub fn add_candidate(
    program_id: &Address,
    records: &mut Vec<RecordHandle>,
    first_name: String,
    last_name: String,
    election_name: String,
    seed: String,
) -> (r: Result<(), ElectionError>)
    ensures
        applied_all(
            candidate_enrolled(
                *program_id,
                records_view(old(records)@),
                first_name@,
                last_name@,
                election_name@,
                seed@,
            ),
            records_view(old(records)@),
            records_view(final(records)@),
            r,
        ),
{
    if records.len() < CANDIDATE_RECORDS {
        return Err(ElectionError::MissingRecordArgument);
    }
    let candidate = find_candidate_address(
        program_id,
        &records[CREATOR_INDEX].address,
        election_name.as_str(),
        first_name.as_str(),
        last_name.as_str(),
    );
    let list = find_attached_address(program_id, election_name.as_str(), seed.as_str());
    let election = find_election_address(program_id, election_name.as_str());
    add_candidate_at(program_id, records, first_name, last_name, candidate, list, election)
}

/// When registering a candidate succeeds: five records are supplied, the
/// candidate's record, the registry and the election record lie at the
/// addresses derived for them, the candidate's record does not exist, the
/// two names have three bytes or more together and their record a size that
/// the machine can count, the registry takes the name, and the election
/// record takes the counter. Then the candidate's record holds the two
/// names, initialized, the registry and the election record have taken the
/// candidate, and no other record has changed.
pub proof fn lemma_candidate_is_added(
    program: Address,
    records: Seq<RecordView>,
    first_name: Seq<char>,
    last_name: Seq<char>,
    candidate: Option<Address>,
    list: Option<Address>,
    election: Option<Address>,
)
    requires
        records.len() >= CANDIDATE_RECORDS,
        candidate == Some(records[CANDIDATE_INDEX as int].address),
        list == Some(records[CANDIDATE_LIST_INDEX as int].address),
        election == Some(records[ELECTION_INDEX as int].address),
        !records[CANDIDATE_INDEX as int].allocated(),
        text_fits(first_name),
        text_fits(last_name),
        encode_utf8(first_name).len() + encode_utf8(last_name).len() >= 3,
        candidate_size(first_name, last_name) <= usize::MAX,
        candidate_registered(
            program,
            records[CANDIDATE_LIST_INDEX as int],
            records[CANDIDATE_INDEX as int].address,
            first_name,
            last_name,
            list,
        ) is Ok,
        candidate_added_to_election(
            records[ELECTION_INDEX as int],
            records[CANDIDATE_INDEX as int].address,
        ) is Ok,
    ensures
        candidate_added(program, records, first_name, last_name, candidate, list, election)
            matches Ok(after) && {
            let address = records[CANDIDATE_INDEX as int].address;
            &&& after.len() == records.len()
            &&& forall|k: int|
                0 <= k < records.len() && k != CANDIDATE_INDEX && k != CANDIDATE_LIST_INDEX && k
                    != ELECTION_INDEX ==> after[k] == records[k]
            &&& after[CANDIDATE_INDEX as int].owner == program
            &&& after[CANDIDATE_INDEX as int].address == address
            &&& after[CANDIDATE_INDEX as int].data.len() == candidate_size(first_name, last_name)
            &&& CandidateView::decoding(after[CANDIDATE_INDEX as int].data) == Some(
                CandidateView { is_initialized: true, first_name, last_name },
            )
            &&& Ok::<RecordView, ElectionError>(after[CANDIDATE_LIST_INDEX as int])
                == candidate_registered(
                program,
                records[CANDIDATE_LIST_INDEX as int],
                address,
                first_name,
                last_name,
                list,
            )
            &&& Ok::<RecordView, ElectionError>(after[ELECTION_INDEX as int])
                == candidate_added_to_election(records[ELECTION_INDEX as int], address)
        },
{
    let size = candidate_size(first_name, last_name);
    let fresh = records[CANDIDATE_INDEX as int].created(size, program)->Ok_0;
    lemma_blank_candidate(size as nat);
    let filled = CandidateView { is_initialized: true, first_name, last_name };
    lemma_candidate_length(filled);
    let ready = fresh.stored(true, filled.encoding())->Ok_0;
    lemma_stored(fresh, true, filled.encoding(), ready);
    lemma_candidate_round_trip(filled, fresh.data.skip(filled.encoding().len() as int));
}


} // verus!

use crate::address::attached_address;
use crate::address::election_address;
use crate::address::find_attached_address;
use crate::address::find_election_address;
use crate::address::Address;
use crate::error::ElectionError;
use crate::pda_management::candidate_list_manager_account::candidate_found;
use crate::pda_management::candidate_list_manager_account::retrieve_candidate_account;
use crate::pda_management::election_manager_account::add_vote;
use crate::pda_management::election_manager_account::election_loaded;
use crate::pda_management::election_manager_account::vote_added;
use crate::record::applied;
use crate::record::applied_all;
use crate::record::is_expected;
use crate::record::lemma_created;
use crate::record::lemma_stored;
use crate::record::records_view;
use crate::record::replace_record;
use crate::record::RecordHandle;
use crate::record::RecordView;
use crate::state::voter_account_state::lemma_blank_voter;
use crate::state::voter_account_state::lemma_voter_length;
use crate::state::voter_account_state::lemma_voter_round_trip;
use crate::state::voter_account_state::VoterAccountState;
use crate::state::voter_account_state::VoterView;
use crate::wire::text_fits;
use vstd::prelude::*;
use vstd::utf8::encode_utf8;

verus! {

/// How many records an instruction that casts a vote needs.
pub const VOTE_RECORDS: usize = 5;

/// The place of the voter's record among the records of such an
/// instruction.
pub const VOTER_INDEX: usize = 1;

/// The place of the registry.
pub const VOTE_CANDIDATE_LIST_INDEX: usize = 2;

/// The place of the election record.
pub const VOTE_ELECTION_INDEX: usize = 3;

/// The size of the record of a voter: thirty-two bytes, and four for each
/// byte of the card number.
pub open spec fn voter_size(card_number: Seq<char>) -> int {
    4 * encode_utf8(card_number).len() + 32int
}

/// Computes the size of the record of a voter; `None` where the machine
/// cannot count that far.
pub fn compute_voter_size(card_number: &str) -> (r: Option<usize>)
    ensures
        match r {
            Some(size) => size == voter_size(card_number@),
            None => voter_size(card_number@) > usize::MAX,
        },
{
    let total: u128 = 4 * (card_number.as_bytes().len() as u128) + 32;
    if total > usize::MAX as u128 {
        None
    } else {
        Some(total as usize)
    }
}

/// What a voter record holds once it was initialized with the card number
/// and the candidate that the vote goes to.
pub open spec fn voter_initialized(record: RecordView, card_number: Seq<char>, candidate: Address) -> Result<
    RecordView,
    ElectionError,
> {
    match VoterView::decoding(record.data) {
        None => Err(ElectionError::DecodeError),
        Some(_) => {
            let ready = VoterView { election_card_number: card_number, voted: candidate };
            record.stored(ready.encodable(), ready.encoding())
        },
    }
}

/// The candidate that a vote names, as the registry knows it.
pub open spec fn candidate_chosen(registry: RecordView, first_name: Seq<char>, last_name: Seq<char>) -> Result<
    Address,
    ElectionError,
> {
    match candidate_found(registry, first_name, last_name) {
        Ok(address) => Ok(address),
        Err(ElectionError::CandidateNotFound) => Err(ElectionError::InvalidCandidate),
        Err(e) => Err(e),
    }
}

/// The records after a vote was cast: the voter's record was created,
/// which a card that has voted before cannot have again; the candidate was
/// found in the registry; the voter's record was initialized; and the
/// election took the vote. `voter`, `list` and `election` are the addresses
/// derived for the three records; each record must lie at its address.
pub open spec fn vote_cast(
    program: Address,
    records: Seq<RecordView>,
    card_number: Seq<char>,
    first_name: Seq<char>,
    last_name: Seq<char>,
    voter: Option<Address>,
    list: Option<Address>,
    election: Option<Address>,
) -> Result<Seq<RecordView>, ElectionError> {
    if records.len() < VOTE_RECORDS {
        Err(ElectionError::MissingRecordArgument)
    } else if voter != Some(records[VOTER_INDEX as int].address) || list != Some(
        records[VOTE_CANDIDATE_LIST_INDEX as int].address,
    ) || election != Some(records[VOTE_ELECTION_INDEX as int].address) {
        Err(ElectionError::AddressMismatch)
    } else {
        match records[VOTER_INDEX as int].created(voter_size(card_number), program) {
            Err(e) => Err(e),
            Ok(fresh) => match candidate_chosen(
                records[VOTE_CANDIDATE_LIST_INDEX as int],
                first_name,
                last_name,
            ) {
                Err(e) => Err(e),
                Ok(candidate) => match voter_initialized(fresh, card_number, candidate) {
                    Err(e) => Err(e),
                    Ok(ready) => match vote_added(records[VOTE_ELECTION_INDEX as int], candidate) {
                        Err(e) => Err(e),
                        Ok(counted) => Ok(
                            records.update(VOTER_INDEX as int, ready).update(
                                VOTE_ELECTION_INDEX as int,
                                counted,
                            ),
                        ),
                    },
                },
            },
        }
    }
}

/// What casting a vote does to the records, with the addresses derived:
/// the voter's from the election's name and the card number, the registry's
/// from the election's name and `seed`, the election's from its name.
pub open spec fn vote_registered(
    program: Address,
    records: Seq<RecordView>,
    card_number: Seq<char>,
    first_name: Seq<char>,
    last_name: Seq<char>,
    election_name: Seq<char>,
    seed: Seq<char>,
) -> Result<Seq<RecordView>, ElectionError> {
    vote_cast(
        program,
        records,
        card_number,
        first_name,
        last_name,
        attached_address(program, election_name, card_number),
        attached_address(program, election_name, seed),
        election_address(program, election_name),
    )
}

/// Initializes the record of a voter.
pub fn initialize_voter_account(
    record: &mut RecordHandle,
    electoral_card_number: String,
    candidate_address: Address,
) -> (r: Result<(), ElectionError>)
    ensures
        applied(
            voter_initialized(old(record)@, electoral_card_number@, candidate_address),
            old(record)@,
            final(record)@,
            r,
        ),
{
    let mut voter = match VoterAccountState::decode(record.data.as_slice()) {
        Ok(voter) => voter,
        Err(e) => { return Err(e); },
    };
    voter.election_card_number = electoral_card_number;
    voter.voted = candidate_address;
    match record.store(voter.encode()) {
        Ok(next) => {
            *record = next;
            Ok(())
        },
        Err(e) => Err(e),
    }
}

/// Casts a vote, with the three addresses as they were derived.
pub fn add_voter_account_and_vote_at(
    program_id: &Address,
    records: &mut Vec<RecordHandle>,
    electoral_card_number: String,
    candidate_first_name: String,
    candidate_last_name: String,
    voter: Option<Address>,
    list: Option<Address>,
    election: Option<Address>,
) -> (r: Result<(), ElectionError>)
    ensures
        applied_all(
            vote_cast(
                *program_id,
                records_view(old(records)@),
                electoral_card_number@,
                candidate_first_name@,
                candidate_last_name@,
                voter,
                list,
                election,
            ),
            records_view(old(records)@),
            records_view(final(records)@),
            r,
        ),
{
    if records.len() < VOTE_RECORDS {
        return Err(ElectionError::MissingRecordArgument);
    }
    if !is_expected(&voter, &records[VOTER_INDEX].address) || !is_expected(
        &list,
        &records[VOTE_CANDIDATE_LIST_INDEX].address,
    ) || !is_expected(&election, &records[VOTE_ELECTION_INDEX].address) {
        return Err(ElectionError::AddressMismatch);
    }
    let size = compute_voter_size(electoral_card_number.as_str());
    let mut ready = match records[VOTER_INDEX].create(size, program_id) {
        Ok(fresh) => fresh,
        Err(e) => { return Err(e); },
    };
    let candidate = match retrieve_candidate_account(
        &records[VOTE_CANDIDATE_LIST_INDEX],
        candidate_first_name,
        candidate_last_name,
    ) {
        Ok(candidate) => candidate,
        Err(ElectionError::CandidateNotFound) => { return Err(ElectionError::InvalidCandidate); },
        Err(e) => { return Err(e); },
    };
    match initialize_voter_account(&mut ready, electoral_card_number, candidate) {
        Ok(()) => {},
        Err(e) => { return Err(e); },
    }
    let mut counted = records[VOTE_ELECTION_INDEX].duplicate();
    match add_vote(&mut counted, candidate) {
        Ok(()) => {},
        Err(e) => { return Err(e); },
    }
    replace_record(records, VOTER_INDEX, ready);
    replace_record(records, VOTE_ELECTION_INDEX, counted);
    Ok(())
}

/// Casts a vote: creates the record of the voter's card, which fails for a
/// card that has voted, finds the candidate, and counts the vote in the
/// election. Either all of this happens or nothing.
pub fn add_voter_account_and_vote(
    program_id: &Address,
    records: &mut Vec<RecordHandle>,
    electoral_card_number: String,
    candidate_first_name: String,
    candidate_last_name: String,
    election_name: String,
    seed: String,
) -> (r: Result<(), ElectionError>)
    ensures
        applied_all(
            vote_registered(
                *program_id,
                records_view(old(records)@),
                electoral_card_number@,
                candidate_first_name@,
                candidate_last_name@,
                election_name@,
                seed@,
            ),
            records_view(old(records)@),
            records_view(final(records)@),
            r,
        ),
{
    let voter = find_attached_address(
        program_id,
        election_name.as_str(),
        electoral_card_number.as_str(),
    );
    let list = find_attached_address(program_id, election_name.as_str(), seed.as_str());
    let election = find_election_address(program_id, election_name.as_str());
    add_voter_account_and_vote_at(
        program_id,
        records,
        electoral_card_number,
        candidate_first_name,
        candidate_last_name,
        voter,
        list,
        election,
    )
}

/// A card votes once: where casting a vote succeeded, casting a vote with
/// the same voter's record again fails, whoever the vote is for, because
/// the record exists.
pub proof fn lemma_card_votes_once(
    program: Address,
    records: Seq<RecordView>,
    card_number: Seq<char>,
    first_name: Seq<char>,
    last_name: Seq<char>,
    voter: Option<Address>,
    list: Option<Address>,
    election: Option<Address>,
    after: Seq<RecordView>,
    other_first_name: Seq<char>,
    other_last_name: Seq<char>,
)
    requires
        vote_cast(program, records, card_number, first_name, last_name, voter, list, election)
            == Ok::<Seq<RecordView>, ElectionError>(after),
    ensures
        vote_cast(
            program,
            after,
            card_number,
            other_first_name,
            other_last_name,
            voter,
            list,
            election,
        ) == Err::<Seq<RecordView>, ElectionError>(ElectionError::AccountAlreadyInitialized),
{
    let size = voter_size(card_number);
    let fresh = records[VOTER_INDEX as int].created(size, program)->Ok_0;
    lemma_created(records[VOTER_INDEX as int], size, program, fresh);
    let candidate = candidate_chosen(
        records[VOTE_CANDIDATE_LIST_INDEX as int],
        first_name,
        last_name,
    )->Ok_0;
    let ready = voter_initialized(fresh, card_number, candidate)->Ok_0;
    let filled = VoterView { election_card_number: card_number, voted: candidate };
    lemma_stored(fresh, filled.encodable(), filled.encoding(), ready);
    let counted = vote_added(records[VOTE_ELECTION_INDEX as int], candidate)->Ok_0;
    let found = election_loaded(records[VOTE_ELECTION_INDEX as int])->Ok_0;
    let next = found.with_vote(candidate)->Ok_0;
    lemma_stored(records[VOTE_ELECTION_INDEX as int], next.encodable(), next.encoding(), counted);
    assert(after[VOTER_INDEX as int] == ready);
    assert(after[VOTE_ELECTION_INDEX as int] == counted);
    assert(after[VOTE_CANDIDATE_LIST_INDEX as int] == records[VOTE_CANDIDATE_LIST_INDEX as int]);
}


/// When casting a vote succeeds: five records are supplied, the voter's
/// record, the registry and the election record lie at the addresses
/// derived for them, the voter's record does not exist, the card number has
/// two bytes or more and its record a size that the machine can count, the
/// registry knows the candidate, and the election record takes the vote.
/// Then the voter's record holds the card number and the candidate, the
/// election record has taken the vote, and no other record has changed.
pub proof fn lemma_vote_succeeds(
    program: Address,
    records: Seq<RecordView>,
    card_number: Seq<char>,
    first_name: Seq<char>,
    last_name: Seq<char>,
    voter: Option<Address>,
    list: Option<Address>,
    election: Option<Address>,
)
    requires
        records.len() >= VOTE_RECORDS,
        voter == Some(records[VOTER_INDEX as int].address),
        list == Some(records[VOTE_CANDIDATE_LIST_INDEX as int].address),
        election == Some(records[VOTE_ELECTION_INDEX as int].address),
        !records[VOTER_INDEX as int].allocated(),
        text_fits(card_number),
        encode_utf8(card_number).len() >= 2,
        voter_size(card_number) <= usize::MAX,
        candidate_found(records[VOTE_CANDIDATE_LIST_INDEX as int], first_name, last_name) is Ok,
        vote_added(
            records[VOTE_ELECTION_INDEX as int],
            candidate_found(records[VOTE_CANDIDATE_LIST_INDEX as int], first_name, last_name)->Ok_0,
        ) is Ok,
    ensures
        vote_cast(program, records, card_number, first_name, last_name, voter, list, election)
            matches Ok(after) && {
            let candidate = candidate_found(
                records[VOTE_CANDIDATE_LIST_INDEX as int],
                first_name,
                last_name,
            )->Ok_0;
            &&& after.len() == records.len()
            &&& forall|k: int|
                0 <= k < records.len() && k != VOTER_INDEX && k != VOTE_ELECTION_INDEX ==> after[k]
                    == records[k]
            &&& after[VOTER_INDEX as int].owner == program
            &&& after[VOTER_INDEX as int].data.len() == voter_size(card_number)
            &&& VoterView::decoding(after[VOTER_INDEX as int].data) == Some(
                VoterView { election_card_number: card_number, voted: candidate },
            )
            &&& Ok::<RecordView, ElectionError>(after[VOTE_ELECTION_INDEX as int]) == vote_added(
                records[VOTE_ELECTION_INDEX as int],
                candidate,
            )
        },
{
    let size = voter_size(card_number);
    let candidate = candidate_found(
        records[VOTE_CANDIDATE_LIST_INDEX as int],
        first_name,
        last_name,
    )->Ok_0;
    let fresh = records[VOTER_INDEX as int].created(size, program)->Ok_0;
    lemma_blank_voter(size as nat);
    let filled = VoterView { election_card_number: card_number, voted: candidate };
    lemma_voter_length(filled);
    let ready = fresh.stored(true, filled.encoding())->Ok_0;
    lemma_stored(fresh, true, filled.encoding(), ready);
    lemma_voter_round_trip(filled, fresh.data.skip(filled.encoding().len() as int));
}


} // verus!

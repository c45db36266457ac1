//! An election kept in records of a ledger: one record for the election,
//! one for the registry of its candidates, one for each candidate, one for
//! each voter's card, and one for the tally. Every record lies at an
//! address that is derived from what the record is about, and every
//! operation checks the addresses of the records it is handed.

pub mod address;
pub mod assoc;
pub mod error;
pub mod instruction;
pub mod pda_management;
pub mod record;
pub mod state;
pub mod utilities;
pub mod wire;

use crate::address::attached_seeds;
use crate::address::candidate_list_tag;
use crate::address::candidate_seeds;
use crate::address::election_seeds;
use crate::address::make_attached_seeds;
use crate::address::make_candidate_seeds;
use crate::address::make_election_seeds;
use crate::address::result_tag;
use crate::address::seeds_view;
use crate::address::Address;
use crate::error::ElectionError;
use crate::instruction::unpacked;
use crate::instruction::ChainDemocracyInstruction;
use crate::instruction::InstructionView;
use crate::instruction::TAG_COUNTING_VOTES;
use crate::pda_management::candidate_list_manager_account::NEW_CANDIDATE_LIST_INDEX;
use crate::pda_management::candidate_manager_account::add_candidate;
use crate::pda_management::candidate_manager_account::candidate_enrolled;
use crate::pda_management::candidate_manager_account::CANDIDATE_INDEX;
use crate::pda_management::election_manager_account::add_election_account;
use crate::pda_management::election_manager_account::election_announced;
use crate::pda_management::election_manager_account::NEW_ELECTION_INDEX;
use crate::pda_management::result_manager_account::counting_votes;
use crate::pda_management::result_manager_account::election_tallied;
use crate::pda_management::result_manager_account::NEW_RESULT_INDEX;
use crate::pda_management::voter_manager_account::add_voter_account_and_vote;
use crate::pda_management::voter_manager_account::vote_registered;
use crate::pda_management::voter_manager_account::VOTER_INDEX;
use crate::record::applied_all;
use crate::record::records_view;
use crate::record::RecordHandle;
use crate::record::RecordView;
use vstd::prelude::*;

verus! {

/// What an instruction does to the records it is handed. The two
/// operations that no buffer stands for are refused.
pub open spec fn instruction_applied(
    program: Address,
    records: Seq<RecordView>,
    instruction: InstructionView,
) -> Result<Seq<RecordView>, ElectionError> {
    match instruction {
        InstructionView::AddElectionAccount { name, start_date, end_date } => election_announced(
            program,
            records,
            name,
            start_date,
            end_date,
        ),
        InstructionView::AddCandidate {
            first_name,
            last_name,
            election_name,
            seed,
        } => candidate_enrolled(program, records, first_name, last_name, election_name, seed),
        InstructionView::AddVote {
            electoral_card_number,
            candidate_first_name,
            candidate_last_name,
            election_name,
            seed,
        } => vote_registered(
            program,
            records,
            electoral_card_number,
            candidate_first_name,
            candidate_last_name,
            election_name,
            seed,
        ),
        InstructionView::CountingVotes { election_name } => election_tallied(
            program,
            records,
            election_name,
        ),
        InstructionView::AddCandidateListAccount { election_name } => Err(
            ElectionError::MalformedInstruction,
        ),
        InstructionView::UpdateElectionAccount { name } => Err(ElectionError::MalformedInstruction),
    }
}

/// What the instruction in a buffer does to the records it is handed.
pub open spec fn instruction_processed(program: Address, records: Seq<RecordView>, data: Seq<u8>) -> Result<
    Seq<RecordView>,
    ElectionError,
> {
    match unpacked(data) {
        Ok(instruction) => instruction_applied(program, records, instruction),
        Err(e) => Err(e),
    }
}

/// Carries out an instruction on the records it is handed. On failure no
/// record is changed.
pub fn execute(
    program_id: &Address,
    records: &mut Vec<RecordHandle>,
    instruction: ChainDemocracyInstruction,
) -> (r: Result<(), ElectionError>)
    ensures
        applied_all(
            instruction_applied(*program_id, records_view(old(records)@), instruction@),
            records_view(old(records)@),
            records_view(final(records)@),
            r,
        ),
        r is Err ==> records_view(final(records)@) == records_view(old(records)@),
{
    match instruction {
        ChainDemocracyInstruction::AddElectionAccount {
            name,
            start_date,
            end_date,
        } => add_election_account(program_id, records, name, start_date, end_date),
        ChainDemocracyInstruction::AddCandidate {
            first_name,
            last_name,
            election_name,
            seed,
        } => add_candidate(program_id, records, first_name, last_name, election_name, seed),
        ChainDemocracyInstruction::AddVote {
            electoral_card_number,
            candidate_first_name,
            candidate_last_name,
            election_name,
            seed,
        } => add_voter_account_and_vote(
            program_id,
            records,
            electoral_card_number,
            candidate_first_name,
            candidate_last_name,
            election_name,
            seed,
        ),
        ChainDemocracyInstruction::CountingVotes { election_name } => counting_votes(
            program_id,
            records,
            election_name,
        ),
        ChainDemocracyInstruction::AddCandidateListAccount { election_name } => Err(
            ElectionError::MalformedInstruction,
        ),
        ChainDemocracyInstruction::UpdateElectionAccount { name } => Err(
            ElectionError::MalformedInstruction,
        ),
    }
}

/// Reads the instruction in `data` and carries it out on the records. On
/// failure no record is changed; a buffer whose tag names no operation is
/// refused as such.
pub fn process_instruction(program_id: &Address, records: &mut Vec<RecordHandle>, data: &[u8]) -> (r:
    Result<(), ElectionError>)
    ensures
        applied_all(
            instruction_processed(*program_id, records_view(old(records)@), data@),
            records_view(old(records)@),
            records_view(final(records)@),
            r,
        ),
        r is Err ==> records_view(final(records)@) == records_view(old(records)@),
        data@.len() > 0 && data@[0] > TAG_COUNTING_VOTES ==> r == Err::<(), ElectionError>(
            ElectionError::UnknownVariant,
        ),
        data@.len() == 0 ==> r == Err::<(), ElectionError>(ElectionError::MalformedInstruction),
{
    match ChainDemocracyInstruction::unpack(data) {
        Ok(instruction) => execute(program_id, records, instruction),
        Err(e) => Err(e),
    }
}

/// Which of the records of an instruction the instruction creates, each by
/// its place, with the seeds from which its address is derived. `creator`
/// is who hands the instruction in.
pub open spec fn creations(program: Address, creator: Address, instruction: InstructionView) -> Seq<
    (usize, Seq<Seq<u8>>),
> {
    match instruction {
        InstructionView::AddElectionAccount { name, start_date, end_date } => seq![
            (NEW_ELECTION_INDEX, election_seeds(program, name)),
            (NEW_CANDIDATE_LIST_INDEX, attached_seeds(program, name, candidate_list_tag())),
            (NEW_RESULT_INDEX, attached_seeds(program, name, result_tag())),
        ],
        InstructionView::AddCandidate { first_name, last_name, election_name, seed } => seq![
            (CANDIDATE_INDEX, candidate_seeds(creator, election_name, first_name, last_name)),
        ],
        InstructionView::AddVote {
            electoral_card_number,
            candidate_first_name,
            candidate_last_name,
            election_name,
            seed,
        } => seq![(VOTER_INDEX, attached_seeds(program, election_name, electoral_card_number))],
        _ => Seq::empty(),
    }
}

/// The planned creations as mathematical values.
pub open spec fn creations_view(plan: Seq<(usize, Vec<Vec<u8>>)>) -> Seq<(usize, Seq<Seq<u8>>)> {
    Seq::new(plan.len(), |i: int| (plan[i].0, seeds_view(plan[i].1@)))
}

/// Lists the records that an instruction creates, for the ledger to create
/// them under the seeds of their addresses.
pub fn creation_seeds(
    program_id: &Address,
    creator: &Address,
    instruction: &ChainDemocracyInstruction,
) -> (r: Vec<(usize, Vec<Vec<u8>>)>)
    ensures
        creations_view(r@) == creations(*program_id, *creator, instruction@),
{
    let mut plan: Vec<(usize, Vec<Vec<u8>>)> = Vec::new();
    match instruction {
        ChainDemocracyInstruction::AddElectionAccount { name, start_date, end_date } => {
            plan.push((NEW_ELECTION_INDEX, make_election_seeds(program_id, name.as_str())));
            plan.push(
                (
                    NEW_CANDIDATE_LIST_INDEX,
                    make_attached_seeds(program_id, name.as_str(), "candidate-list"),
                ),
            );
            plan.push((NEW_RESULT_INDEX, make_attached_seeds(program_id, name.as_str(), "result")));
        },
        ChainDemocracyInstruction::AddCandidate { first_name, last_name, election_name, seed } => {
            plan.push(
                (
                    CANDIDATE_INDEX,
                    make_candidate_seeds(
                        creator,
                        election_name.as_str(),
                        first_name.as_str(),
                        last_name.as_str(),
                    ),
                ),
            );
        },
        ChainDemocracyInstruction::AddVote {
            electoral_card_number,
            candidate_first_name,
            candidate_last_name,
            election_name,
            seed,
        } => {
            plan.push(
                (
                    VOTER_INDEX,
                    make_attached_seeds(
                        program_id,
                        election_name.as_str(),
                        electoral_card_number.as_str(),
                    ),
                ),
            );
        },
        _ => {},
    }
    assert(creations_view(plan@) =~= creations(*program_id, *creator, instruction@));
    plan
}


} // verus!

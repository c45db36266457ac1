use crate::error::ElectionError;
use crate::utilities::election_account_utilities::instruction_date;
use crate::utilities::election_account_utilities::parse_instruction_date;
use crate::utilities::election_account_utilities::Timestamp;
use crate::wire::parse_text;
use crate::wire::read_text;
use vstd::prelude::*;

verus! {

/// The operations of the program.
#[derive(Clone, Debug, PartialEq, Eq)]
pub enum ChainDemocracyInstruction {
    AddElectionAccount { name: String, start_date: Timestamp, end_date: Timestamp },
    AddCandidateListAccount { election_name: String },
    UpdateElectionAccount { name: String },
    AddCandidate { first_name: String, last_name: String, election_name: String, seed: String },
    AddVote {
        electoral_card_number: String,
        candidate_first_name: String,
        candidate_last_name: String,
        election_name: String,
        seed: String,
    },
    CountingVotes { election_name: String },
}

/// An operation, as mathematical values.
pub enum InstructionView {
    AddElectionAccount { name: Seq<char>, start_date: Timestamp, end_date: Timestamp },
    AddCandidateListAccount { election_name: Seq<char> },
    UpdateElectionAccount { name: Seq<char> },
    AddCandidate {
        first_name: Seq<char>,
        last_name: Seq<char>,
        election_name: Seq<char>,
        seed: Seq<char>,
    },
    AddVote {
        electoral_card_number: Seq<char>,
        candidate_first_name: Seq<char>,
        candidate_last_name: Seq<char>,
        election_name: Seq<char>,
        seed: Seq<char>,
    },
    CountingVotes { election_name: Seq<char> },
}

impl View for ChainDemocracyInstruction {
    type V = InstructionView;

    open spec fn view(&self) -> InstructionView {
        match *self {
            ChainDemocracyInstruction::AddElectionAccount { name, start_date, end_date } => {
                InstructionView::AddElectionAccount { name: name@, start_date, end_date }
            },
            ChainDemocracyInstruction::AddCandidateListAccount { election_name } => {
                InstructionView::AddCandidateListAccount { election_name: election_name@ }
            },
            ChainDemocracyInstruction::UpdateElectionAccount { name } => {
                InstructionView::UpdateElectionAccount { name: name@ }
            },
            ChainDemocracyInstruction::AddCandidate {
                first_name,
                last_name,
                election_name,
                seed,
            } => InstructionView::AddCandidate {
                first_name: first_name@,
                last_name: last_name@,
                election_name: election_name@,
                seed: seed@,
            },
            ChainDemocracyInstruction::AddVote {
                electoral_card_number,
                candidate_first_name,
                candidate_last_name,
                election_name,
                seed,
            } => InstructionView::AddVote {
                electoral_card_number: electoral_card_number@,
                candidate_first_name: candidate_first_name@,
                candidate_last_name: candidate_last_name@,
                election_name: election_name@,
                seed: seed@,
            },
            ChainDemocracyInstruction::CountingVotes { election_name } => {
                InstructionView::CountingVotes { election_name: election_name@ }
            },
        }
    }
}

/// The tag of an instruction that announces an election.
pub const TAG_ADD_ELECTION: u8 = 0;

/// The tag of an instruction that registers a candidate.
pub const TAG_ADD_CANDIDATE: u8 = 1;

/// The tag of an instruction that casts a vote.
pub const TAG_ADD_VOTE: u8 = 2;

/// The tag of an instruction that counts the votes.
pub const TAG_COUNTING_VOTES: u8 = 3;

/// The texts as sequences of characters.
pub open spec fn texts_view(texts: Seq<String>) -> Seq<Seq<char>> {
    Seq::new(texts.len(), |i: int| texts[i]@)
}

/// Reads `count` texts from `pos` on: the texts and the position behind
/// them.
pub open spec fn parse_texts(bytes: Seq<u8>, pos: int, count: nat) -> Option<(Seq<Seq<char>>, int)>
    decreases count,
{
    if count == 0 {
        Some((Seq::empty(), pos))
    } else {
        match parse_text(bytes, pos) {
            Some((text, next)) => match parse_texts(bytes, next, (count - 1) as nat) {
                Some((rest, end)) => Some((seq![text] + rest, end)),
                None => None,
            },
            None => None,
        }
    }
}

/// The `count` texts that make up the payload of an instruction: they
/// follow the tag and fill the buffer to its end.
pub open spec fn payload(input: Seq<u8>, count: nat) -> Option<Seq<Seq<char>>> {
    match parse_texts(input, 1, count) {
        Some((texts, end)) => if end == input.len() {
            Some(texts)
        } else {
            None
        },
        None => None,
    }
}

/// The instruction that announces an election, once its dates were read.
pub open spec fn election_announcement(
    name: Seq<char>,
    start_date: Option<Timestamp>,
    end_date: Option<Timestamp>,
) -> Result<InstructionView, ElectionError> {
    match (start_date, end_date) {
        (Some(start_date), Some(end_date)) => Ok(
            InstructionView::AddElectionAccount { name, start_date, end_date },
        ),
        _ => Err(ElectionError::MalformedInstruction),
    }
}

/// The instruction that a buffer stands for, or the reason why it stands
/// for none.
pub open spec fn unpacked(input: Seq<u8>) -> Result<InstructionView, ElectionError> {
    if input.len() == 0 {
        Err(ElectionError::MalformedInstruction)
    } else if input[0] == TAG_ADD_ELECTION {
        match payload(input, 3) {
            Some(texts) => election_announcement(
                texts[0],
                instruction_date(texts[1]),
                instruction_date(texts[2]),
            ),
            None => Err(ElectionError::MalformedInstruction),
        }
    } else if input[0] == TAG_ADD_CANDIDATE {
        match payload(input, 4) {
            Some(texts) => Ok(
                InstructionView::AddCandidate {
                    first_name: texts[0],
                    last_name: texts[1],
                    election_name: texts[2],
                    seed: texts[3],
                },
            ),
            None => Err(ElectionError::MalformedInstruction),
        }
    } else if input[0] == TAG_ADD_VOTE {
        match payload(input, 5) {
            Some(texts) => Ok(
                InstructionView::AddVote {
                    electoral_card_number: texts[0],
                    candidate_first_name: texts[1],
                    candidate_last_name: texts[2],
                    election_name: texts[3],
                    seed: texts[4],
                },
            ),
            None => Err(ElectionError::MalformedInstruction),
        }
    } else if input[0] == TAG_COUNTING_VOTES {
        match payload(input, 1) {
            Some(texts) => Ok(InstructionView::CountingVotes { election_name: texts[0] }),
            None => Err(ElectionError::MalformedInstruction),
        }
    } else {
        Err(ElectionError::UnknownVariant)
    }
}

/// Reads the `count` texts of a payload.
pub fn read_payload(input: &[u8], count: usize) -> (r: Option<Vec<String>>)
    ensures
        match r {
            Some(texts) => payload(input@, count as nat) == Some(texts_view(texts@)),
            None => payload(input@, count as nat) is None,
        },
        r matches Some(texts) ==> texts.len() == count,
{
    let mut texts: Vec<String> = Vec::new();
    let mut at: usize = 1;
    let mut i: usize = 0;
    assert(texts_view(texts@) =~= Seq::empty());
    while i < count
        invariant
            i <= count,
            texts.len() == i,
            parse_texts(input@, 1, count as nat) == match parse_texts(
                input@,
                at as int,
                (count - i) as nat,
            ) {
                Some((rest, end)) => Some((texts_view(texts@) + rest, end)),
                None => None,
            },
        decreases count - i,
    {
        let (text, next) = match read_text(input, at) {
            Some(found) => found,
            None => { return None; },
        };
        proof {
            assert(texts_view(texts@.push(text)) =~= texts_view(texts@).push(text@));
            match parse_texts(input@, next as int, (count - i - 1) as nat) {
                Some((rest, end)) => {
                    assert(texts_view(texts@).push(text@) + rest =~= texts_view(texts@) + (seq![
                        text@,
                    ] + rest));
                },
                None => {},
            }
        }
        texts.push(text);
        at = next;
        i += 1;
    }
    assert(texts_view(texts@) + Seq::<Seq<char>>::empty() =~= texts_view(texts@));
    if at == input.len() {
        Some(texts)
    } else {
        None
    }
}

/// Takes the last text off a payload.
fn take_last(texts: &mut Vec<String>) -> (text: String)
    requires
        old(texts).len() > 0,
    ensures
        text@ == texts_view(old(texts)@).last(),
        texts_view(final(texts)@) == texts_view(old(texts)@).drop_last(),
        final(texts).len() == old(texts).len() - 1,
{
    let found = texts.pop();
    assert(texts_view(texts@) =~= texts_view(old(texts)@).drop_last());
    match found {
        Some(text) => text,
        None => String::new(),
    }
}

/// Builds the instruction that announces an election from its name and
/// from what came of reading its two dates.
pub fn announce_election(
    name: String,
    start_date: Option<Timestamp>,
    end_date: Option<Timestamp>,
) -> (r: Result<ChainDemocracyInstruction, ElectionError>)
    ensures
        match r {
            Ok(instruction) => election_announcement(name@, start_date, end_date) == Ok::<
                InstructionView,
                ElectionError,
            >(instruction@),
            Err(e) => election_announcement(name@, start_date, end_date) == Err::<
                InstructionView,
                ElectionError,
            >(e),
        },
{
    match (start_date, end_date) {
        (Some(start_date), Some(end_date)) => Ok(
            ChainDemocracyInstruction::AddElectionAccount { name, start_date, end_date },
        ),
        _ => Err(ElectionError::MalformedInstruction),
    }
}

impl ChainDemocracyInstruction {
    /// Reads an instruction from its buffer: a tag, then the texts of the
    /// payload, which must fill the buffer.
    pub fn unpack(input: &[u8]) -> (r: Result<ChainDemocracyInstruction, ElectionError>)
        ensures
            match r {
                Ok(instruction) => unpacked(input@) == Ok::<InstructionView, ElectionError>(
                    instruction@,
                ),
                Err(e) => unpacked(input@) == Err::<InstructionView, ElectionError>(e),
            },
    {
        if input.len() == 0 {
            return Err(ElectionError::MalformedInstruction);
        }
        let tag = input[0];
        if tag == TAG_ADD_ELECTION {
            let mut texts = match read_payload(input, 3) {
                Some(texts) => texts,
                None => { return Err(ElectionError::MalformedInstruction); },
            };
            let end_text = take_last(&mut texts);
            let start_text = take_last(&mut texts);
            let name = take_last(&mut texts);
            let start_date = parse_instruction_date(start_text.as_str());
            let end_date = parse_instruction_date(end_text.as_str());
            announce_election(name, start_date, end_date)
        } else if tag == TAG_ADD_CANDIDATE {
            let mut texts = match read_payload(input, 4) {
                Some(texts) => texts,
                None => { return Err(ElectionError::MalformedInstruction); },
            };
            let seed = take_last(&mut texts);
            let election_name = take_last(&mut texts);
            let last_name = take_last(&mut texts);
            let first_name = take_last(&mut texts);
            Ok(ChainDemocracyInstruction::AddCandidate { first_name, last_name, election_name, seed })
        } else if tag == TAG_ADD_VOTE {
            let mut texts = match read_payload(input, 5) {
                Some(texts) => texts,
                None => { return Err(ElectionError::MalformedInstruction); },
            };
            let seed = take_last(&mut texts);
            let election_name = take_last(&mut texts);
            let candidate_last_name = take_last(&mut texts);
            let candidate_first_name = take_last(&mut texts);
            let electoral_card_number = take_last(&mut texts);
            Ok(
                ChainDemocracyInstruction::AddVote {
                    electoral_card_number,
                    candidate_first_name,
                    candidate_last_name,
                    election_name,
                    seed,
                },
            )
        } else if tag == TAG_COUNTING_VOTES {
            let mut texts = match read_payload(input, 1) {
                Some(texts) => texts,
                None => { return Err(ElectionError::MalformedInstruction); },
            };
            let election_name = take_last(&mut texts);
            Ok(ChainDemocracyInstruction::CountingVotes { election_name })
        } else {
            Err(ElectionError::UnknownVariant)
        }
    }
}

} // verus!

use vstd::prelude::*;

verus! {

/// Why an instruction, or one step of it, was rejected.
#[derive(Clone, Copy, Debug, PartialEq, Eq, Structural)]
pub enum ElectionError {
    /// The instruction buffer is empty, its payload is not laid out as its
    /// tag demands, or one of its timestamps cannot be read.
    MalformedInstruction,
    /// The first byte of the instruction buffer names no operation.
    UnknownVariant,
    /// A supplied record address is not the one derived from its seeds.
    AddressMismatch,
    /// The record to create exists already, or was initialized before.
    AccountAlreadyInitialized,
    /// The record has not been created or initialized yet.
    AccountNotInitialized,
    /// The record is not owned by the program that runs the instruction.
    UnauthorizedOwner,
    /// Fewer records were supplied than the operation needs.
    MissingRecordArgument,
    /// The registry holds no candidate of that name.
    CandidateNotFound,
    /// A vote names a candidate that the registry does not hold.
    InvalidCandidate,
    /// The size of a record to create cannot be represented.
    AllocationFailure,
    /// The bytes of a record do not follow the layout of its kind.
    DecodeError,
    /// The encoded record is longer than the storage allocated for it.
    RecordOverflow,
    /// A vote counter is at the largest value it can hold.
    CounterOverflow,
}

} // verus!

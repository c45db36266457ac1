use vstd::prelude::*;
use vstd::slice::slice_to_vec;
use vstd::utf8::encode_utf8;

verus! {

/// Largest number of bytes in one seed of a derived address.
pub const MAX_SEED_LEN: usize = 32;

/// Largest number of seeds an address can be derived from.
pub const MAX_SEEDS: usize = 15;

/// The address of a record, or the identity of a program or of a caller.
#[derive(Clone, Copy, Debug, PartialEq, Eq, Hash)]
pub struct Address {
    pub bytes: [u8; 32],
}

impl View for Address {
    type V = Seq<u8>;

    open spec fn view(&self) -> Seq<u8> {
        self.bytes@
    }
}

impl Address {
    /// Whether two addresses hold the same bytes.
    pub fn same(&self, other: &Address) -> (r: bool)
        ensures
            r == (self@ == other@),
            r == (*self == *other),
    {
        let mut i: usize = 0;
        while i < 32
            invariant
                i <= 32,
                forall|j: int| 0 <= j < i ==> self.bytes[j] == other.bytes[j],
            decreases 32 - i,
        {
            if self.bytes[i] != other.bytes[i] {
                assert(self@[i as int] != other@[i as int]);
                return false;
            }
            i += 1;
        }
        assert(self@ =~= other@);
        assert(self.bytes =~= other.bytes);
        true
    }

    /// The bytes of the address, in order.
    pub fn to_vec(&self) -> (r: Vec<u8>)
        ensures
            r@ == self@,
    {
        let mut out: Vec<u8> = Vec::new();
        let mut i: usize = 0;
        while i < 32
            invariant
                i <= 32,
                out@ == self@.subrange(0, i as int),
            decreases 32 - i,
        {
            out.push(self.bytes[i]);
            assert(out@ =~= self@.subrange(0, i + 1));
            i += 1;
        }
        assert(out@ =~= self@);
        out
    }
}

/// What `Pubkey::try_find_program_address` gives for these seeds and this
/// program: the derived address with its bump seed, or nothing.
pub uninterp spec fn program_address(seeds: Seq<Seq<u8>>, program: Seq<u8>) -> Option<(Seq<u8>, u8)>;

/// The seeds as sequences of bytes.
pub open spec fn seeds_view(seeds: Seq<Vec<u8>>) -> Seq<Seq<u8>> {
    Seq::new(seeds.len(), |i: int| seeds[i]@)
}

/// Whether the seeds are more, or one of them longer, than an address can
/// be derived from.
pub open spec fn seeds_out_of_range(seeds: Seq<Seq<u8>>) -> bool {
    seeds.len() > MAX_SEEDS || exists|i: int| 0 <= i < seeds.len() && (#[trigger] seeds[i]).len() > MAX_SEED_LEN
}

/// Calls `solana_program::pubkey::Pubkey::try_find_program_address`.
/// Trusted: the result is a function of the seeds and the program alone,
/// and there is none where the seeds are more than fifteen or one of them
/// is longer than thirty-two bytes.
#[verifier::external_body]
fn try_find_program_address(seeds: &Vec<Vec<u8>>, program: &Address) -> (r: Option<(Address, u8)>)
    ensures
        match r {
            Some((address, bump)) => program_address(seeds_view(seeds@), program@) == Some(
                (address@, bump),
            ),
            None => program_address(seeds_view(seeds@), program@) is None,
        },
        seeds_out_of_range(seeds_view(seeds@)) ==> r is None,
{
    let slices: Vec<&[u8]> = seeds.iter().map(|seed| seed.as_slice()).collect();
    let id = solana_program::pubkey::Pubkey::new_from_array(program.bytes);
    match solana_program::pubkey::Pubkey::try_find_program_address(&slices, &id) {
        Some((key, bump)) => Some((Address { bytes: key.to_bytes() }, bump)),
        None => None,
    }
}

/// The address whose bytes are `bytes`.
pub open spec fn address_of(bytes: Seq<u8>) -> Address {
    choose|address: Address| address@ == bytes
}

/// An address is known by its bytes.
pub proof fn lemma_address_by_bytes(a: Address, b: Address)
    requires
        a@ == b@,
    ensures
        a == b,
{
    assert(a.bytes =~= b.bytes);
}

/// The address that belongs to `seeds` under `program`, if there is one.
pub open spec fn derived(seeds: Seq<Seq<u8>>, program: Address) -> Option<Address> {
    match program_address(seeds, program@) {
        Some((bytes, _)) => Some(address_of(bytes)),
        None => None,
    }
}

/// The same seeds under the same program belong to the same address.
pub proof fn lemma_derivation_is_deterministic(
    seeds_a: Seq<Seq<u8>>,
    program_a: Address,
    seeds_b: Seq<Seq<u8>>,
    program_b: Address,
)
    requires
        seeds_a == seeds_b,
        program_a@ == program_b@,
    ensures
        program_address(seeds_a, program_a@) == program_address(seeds_b, program_b@),
        derived(seeds_a, program_a) == derived(seeds_b, program_b),
{
}

/// Derives the address that belongs to `seeds` under `program`, with the
/// bump seed that was chosen for it. The same seeds and program always give
/// the same answer.
pub fn derive_with_bump(seeds: &Vec<Vec<u8>>, program: &Address) -> (r: Option<(Address, u8)>)
    ensures
        match r {
            Some((address, bump)) => program_address(seeds_view(seeds@), program@) == Some(
                (address@, bump),
            ),
            None => program_address(seeds_view(seeds@), program@) is None,
        },
        seeds_out_of_range(seeds_view(seeds@)) ==> r is None,
        r matches Some((address, bump)) ==> derived(seeds_view(seeds@), *program) == Some(address),
        r is None ==> derived(seeds_view(seeds@), *program) is None,
{
    let r = try_find_program_address(seeds, program);
    proof {
        match r {
            Some((address, bump)) => {
                lemma_address_by_bytes(address_of(address@), address);
            },
            None => {},
        }
    }
    r
}

/// Derives the address that belongs to `seeds` under `program`.
pub fn derive_address(seeds: &Vec<Vec<u8>>, program: &Address) -> (r: Option<Address>)
    ensures
        r == derived(seeds_view(seeds@), *program),
        seeds_out_of_range(seeds_view(seeds@)) ==> r is None,
{
    match derive_with_bump(seeds, program) {
        Some((address, _)) => Some(address),
        None => None,
    }
}

/// The text that marks the registry of an election among its records.
pub open spec fn candidate_list_tag() -> Seq<char> {
    "candidate-list"@
}

/// The text that marks the tally of an election among its records.
pub open spec fn result_tag() -> Seq<char> {
    "result"@
}

/// The seeds of an election record: the program and the election's name.
pub open spec fn election_seeds(program: Address, election_name: Seq<char>) -> Seq<Seq<u8>> {
    seq![program@, encode_utf8(election_name)]
}

/// The seeds of a record that hangs on an election: the program, the
/// election's name, and a third text. For the registry that text is
/// `candidate-list`, for the tally `result`, for a voter the card number.
pub open spec fn attached_seeds(program: Address, election_name: Seq<char>, third: Seq<char>) -> Seq<
    Seq<u8>,
> {
    seq![program@, encode_utf8(election_name), encode_utf8(third)]
}

/// The seeds of a candidate record: who registers the candidate, the
/// election's name, and the candidate's two names.
pub open spec fn candidate_seeds(
    creator: Address,
    election_name: Seq<char>,
    first_name: Seq<char>,
    last_name: Seq<char>,
) -> Seq<Seq<u8>> {
    seq![creator@, encode_utf8(election_name), encode_utf8(first_name), encode_utf8(last_name)]
}

/// The address of the record of the election `election_name`.
pub open spec fn election_address(program: Address, election_name: Seq<char>) -> Option<Address> {
    derived(election_seeds(program, election_name), program)
}

/// The address of a record that hangs on the election `election_name`.
pub open spec fn attached_address(
    program: Address,
    election_name: Seq<char>,
    third: Seq<char>,
) -> Option<Address> {
    derived(attached_seeds(program, election_name, third), program)
}

/// The address of the record of a candidate.
pub open spec fn candidate_address(
    program: Address,
    creator: Address,
    election_name: Seq<char>,
    first_name: Seq<char>,
    last_name: Seq<char>,
) -> Option<Address> {
    derived(candidate_seeds(creator, election_name, first_name, last_name), program)
}

/// Builds the seeds of an election record.
pub fn make_election_seeds(program: &Address, election_name: &str) -> (r: Vec<Vec<u8>>)
    ensures
        seeds_view(r@) == election_seeds(*program, election_name@),
{
    let mut seeds: Vec<Vec<u8>> = Vec::new();
    seeds.push(program.to_vec());
    seeds.push(slice_to_vec(election_name.as_bytes()));
    assert(seeds_view(seeds@) =~= election_seeds(*program, election_name@));
    seeds
}

/// Builds the seeds of a record that hangs on an election.
pub fn make_attached_seeds(program: &Address, election_name: &str, third: &str) -> (r: Vec<Vec<u8>>)
    ensures
        seeds_view(r@) == attached_seeds(*program, election_name@, third@),
{
    let mut seeds: Vec<Vec<u8>> = Vec::new();
    seeds.push(program.to_vec());
    seeds.push(slice_to_vec(election_name.as_bytes()));
    seeds.push(slice_to_vec(third.as_bytes()));
    assert(seeds_view(seeds@) =~= attached_seeds(*program, election_name@, third@));
    seeds
}

/// Builds the seeds of a candidate record.
pub fn make_candidate_seeds(
    creator: &Address,
    election_name: &str,
    first_name: &str,
    last_name: &str,
) -> (r: Vec<Vec<u8>>)
    ensures
        seeds_view(r@) == candidate_seeds(*creator, election_name@, first_name@, last_name@),
{
    let mut seeds: Vec<Vec<u8>> = Vec::new();
    seeds.push(creator.to_vec());
    seeds.push(slice_to_vec(election_name.as_bytes()));
    seeds.push(slice_to_vec(first_name.as_bytes()));
    seeds.push(slice_to_vec(last_name.as_bytes()));
    assert(seeds_view(seeds@) =~= candidate_seeds(
        *creator,
        election_name@,
        first_name@,
        last_name@,
    ));
    seeds
}

/// Derives the address of the record of the election `election_name`.
pub fn find_election_address(program: &Address, election_name: &str) -> (r: Option<Address>)
    ensures
        r == election_address(*program, election_name@),
{
    derive_address(&make_election_seeds(program, election_name), program)
}

/// Derives the address of a record that hangs on an election.
pub fn find_attached_address(program: &Address, election_name: &str, third: &str) -> (r: Option<
    Address,
>)
    ensures
        r == attached_address(*program, election_name@, third@),
{
    derive_address(&make_attached_seeds(program, election_name, third), program)
}

/// Derives the address of the record of a candidate.
pub fn find_candidate_address(
    program: &Address,
    creator: &Address,
    election_name: &str,
    first_name: &str,
    last_name: &str,
) -> (r: Option<Address>)
    ensures
        r == candidate_address(*program, *creator, election_name@, first_name@, last_name@),
{
    derive_address(&make_candidate_seeds(creator, election_name, first_name, last_name), program)
}

} // verus!

use crate::address::Address;
use crate::assoc::distinct_keys;
use crate::assoc::find_name;
use crate::assoc::lemma_first_with_key;
use crate::assoc::lemma_named_view_push;
use crate::assoc::named_view;
use crate::assoc::names_distinct;
use crate::assoc::put;
use crate::assoc::value_of;
use crate::error::ElectionError;
use crate::wire::bool_le;
use crate::wire::has_at;
use crate::wire::lemma_address_round_trip;
use crate::wire::lemma_bool_round_trip;
use crate::wire::lemma_field_lengths;
use crate::wire::lemma_has_at_split;
use crate::wire::lemma_text_round_trip;
use crate::wire::lemma_u32_round_trip;
use crate::wire::lemma_zero_fields;
use crate::wire::parse_address;
use crate::wire::parse_bool;
use crate::wire::parse_text;
use crate::wire::parse_u32;
use crate::wire::read_address;
use crate::wire::read_bool;
use crate::wire::read_text;
use crate::wire::read_u32;
use crate::wire::text_fits;
use crate::wire::text_le;
use crate::wire::u32_le;
use crate::wire::write_address;
use crate::wire::write_bool;
use crate::wire::write_text;
use crate::wire::write_u32;
use crate::wire::zeros;
use vstd::prelude::*;
use vstd::string::StringExecFns;

verus! {

/// The registry of the candidates of one election: for each full name the
/// address of the candidate's record, in the order in which the names were
/// registered. No name stands in it twice.
#[derive(Clone, Debug, PartialEq, Eq)]
pub struct CandidateListState {
    pub is_initialized: bool,
    pub candidates: Vec<(String, Address)>,
}

/// What a registry holds, as mathematical values.
pub struct CandidateListView {
    pub is_initialized: bool,
    pub candidates: Seq<(Seq<char>, Address)>,
}

impl View for CandidateListState {
    type V = CandidateListView;

    open spec fn view(&self) -> CandidateListView {
        CandidateListView {
            is_initialized: self.is_initialized,
            candidates: named_view(self.candidates@),
        }
    }
}

/// Whether every name of the list can be written down.
pub open spec fn names_fit<V>(entries: Seq<(Seq<char>, V)>) -> bool {
    forall|i: int| 0 <= i < entries.len() ==> text_fits((#[trigger] entries[i]).0)
}

/// The bytes of the entries: for each, the name and the address.
pub open spec fn registry_le(entries: Seq<(Seq<char>, Address)>) -> Seq<u8>
    decreases entries.len(),
{
    if entries.len() == 0 {
        Seq::empty()
    } else {
        (text_le(entries[0].0) + entries[0].1@) + registry_le(entries.drop_first())
    }
}

/// Reads `count` entries from `pos` on: the entries and the position
/// behind them.
pub open spec fn parse_registry(bytes: Seq<u8>, pos: int, count: nat) -> Option<
    (Seq<(Seq<char>, Address)>, int),
>
    decreases count,
{
    if count == 0 {
        Some((Seq::empty(), pos))
    } else {
        match parse_text(bytes, pos) {
            Some((name, at_a)) => match parse_address(bytes, at_a) {
                Some((address, at_b)) => match parse_registry(bytes, at_b, (count - 1) as nat) {
                    Some((rest, end)) => Some((seq![(name, address)] + rest, end)),
                    None => None,
                },
                None => None,
            },
            None => None,
        }
    }
}

/// Reading gives back the entries that were written.
pub proof fn lemma_registry_round_trip(
    bytes: Seq<u8>,
    pos: int,
    entries: Seq<(Seq<char>, Address)>,
)
    requires
        names_fit(entries),
        has_at(bytes, pos, registry_le(entries)),
    ensures
        parse_registry(bytes, pos, entries.len()) == Some(
            (entries, pos + registry_le(entries).len()),
        ),
    decreases entries.len(),
{
    if entries.len() > 0 {
        let name = text_le(entries[0].0);
        let rest = entries.drop_first();
        assert(text_fits(entries[0].0));
        assert forall|i: int| 0 <= i < rest.len() implies text_fits((#[trigger] rest[i]).0) by {
            assert(rest[i] == entries[i + 1]);
        }
        lemma_has_at_split(bytes, pos, name + entries[0].1@, registry_le(rest));
        lemma_has_at_split(bytes, pos, name, entries[0].1@);
        lemma_text_round_trip(bytes, pos, entries[0].0);
        lemma_address_round_trip(bytes, pos + name.len(), entries[0].1);
        lemma_registry_round_trip(bytes, pos + name.len() + 32, rest);
        assert(seq![entries[0]] + rest =~= entries);
    }
}

impl CandidateListView {
    /// The invariant of a registry: no name stands in it twice.
    pub open spec fn well_formed(self) -> bool {
        distinct_keys(self.candidates)
    }

    /// Whether the registry can be written down: the names fit, and so does
    /// the number of entries.
    pub open spec fn encodable(self) -> bool {
        names_fit(self.candidates) && self.candidates.len() <= u32::MAX
    }

    /// The bytes of the registry: flag, number of entries, entries.
    pub open spec fn encoding(self) -> Seq<u8> {
        bool_le(self.is_initialized) + u32_le(self.candidates.len() as u32) + registry_le(
            self.candidates,
        )
    }

    /// The registry that `bytes` starts with, if it starts with a
    /// well-formed one. Bytes behind it are not looked at.
    pub open spec fn decoding(bytes: Seq<u8>) -> Option<CandidateListView> {
        match parse_bool(bytes, 0) {
            Some((is_initialized, at_a)) => match parse_u32(bytes, at_a) {
                Some((count, at_b)) => match parse_registry(bytes, at_b, count as nat) {
                    Some((candidates, _)) => if distinct_keys(candidates) {
                        Some(CandidateListView { is_initialized, candidates })
                    } else {
                        None
                    },
                    None => None,
                },
                None => None,
            },
            None => None,
        }
    }
}

/// Decoding what was encoded gives the registry back, whatever follows it
/// in the buffer.
pub proof fn lemma_candidate_list_round_trip(record: CandidateListView, tail: Seq<u8>)
    requires
        record.well_formed(),
        record.encodable(),
    ensures
        CandidateListView::decoding(record.encoding() + tail) == Some(record),
{
    let bytes = record.encoding() + tail;
    let f1 = bool_le(record.is_initialized);
    let f2 = u32_le(record.candidates.len() as u32);
    let f3 = registry_le(record.candidates);
    assert(bytes.subrange(0, record.encoding().len() as int) =~= record.encoding());
    lemma_has_at_split(bytes, 0, f1 + f2, f3);
    lemma_has_at_split(bytes, 0, f1, f2);
    lemma_bool_round_trip(bytes, 0, record.is_initialized);
    lemma_u32_round_trip(bytes, 1, record.candidates.len() as u32);
    lemma_registry_round_trip(bytes, 5, record.candidates);
}

/// Appends the entries, unless one of the names does not fit: then what
/// was appended is of no use.
pub fn write_registry(out: &mut Vec<u8>, entries: &Vec<(String, Address)>) -> (ok: bool)
    ensures
        ok == names_fit(named_view(entries@)),
        ok ==> final(out)@ == old(out)@ + registry_le(named_view(entries@)),
{
    let ghost view = named_view(entries@);
    let mut i: usize = 0;
    assert(view.skip(0) =~= view);
    while i < entries.len()
        invariant
            i <= entries.len(),
            view == named_view(entries@),
            forall|j: int| 0 <= j < i ==> text_fits((#[trigger] view[j]).0),
            old(out)@ + registry_le(view) == out@ + registry_le(view.skip(i as int)),
        decreases entries.len() - i,
    {
        let ghost before = out@;
        let ghost rest = view.skip(i as int);
        if !write_text(out, entries[i].0.as_str()) {
            assert(!text_fits(view[i as int].0));
            return false;
        }
        write_address(out, &entries[i].1);
        proof {
            assert(rest[0] == view[i as int]);
            assert(rest.drop_first() =~= view.skip(i + 1));
            assert(out@ + registry_le(view.skip(i + 1)) =~= before + registry_le(rest));
        }
        i += 1;
    }
    assert(out@ =~= old(out)@ + registry_le(view));
    true
}

/// Reads `count` entries from `pos` on.
pub fn read_registry(data: &[u8], pos: usize, count: u32) -> (r: Option<
    (Vec<(String, Address)>, usize),
>)
    ensures
        match r {
            Some((entries, next)) => parse_registry(data@, pos as int, count as nat) == Some(
                (named_view(entries@), next as int),
            ),
            None => parse_registry(data@, pos as int, count as nat) is None,
        },
{
    let mut entries: Vec<(String, Address)> = Vec::new();
    let mut at: usize = pos;
    let mut i: u32 = 0;
    assert(named_view(entries@) =~= Seq::empty());
    while i < count
        invariant
            i <= count,
            parse_registry(data@, pos as int, count as nat) == match parse_registry(
                data@,
                at as int,
                (count - i) as nat,
            ) {
                Some((rest, end)) => Some((named_view(entries@) + rest, end)),
                None => None,
            },
        decreases count - i,
    {
        let (name, at_a) = match read_text(data, at) {
            Some(found) => found,
            None => { return None; },
        };
        let (address, at_b) = match read_address(data, at_a) {
            Some(found) => found,
            None => { return None; },
        };
        proof {
            lemma_named_view_push(entries@, (name, address));
            match parse_registry(data@, at_b as int, (count - i - 1) as nat) {
                Some((rest, end)) => {
                    assert(named_view(entries@).push((name@, address)) + rest =~= named_view(
                        entries@,
                    ) + (seq![(name@, address)] + rest));
                },
                None => {},
            }
        }
        entries.push((name, address));
        at = at_b;
        i += 1;
    }
    assert(named_view(entries@) + Seq::<(Seq<char>, Address)>::empty() =~= named_view(entries@));
    Some((entries, at))
}

impl CandidateListState {
    /// Writes the registry down.
    pub fn encode(&self) -> (r: Result<Vec<u8>, ElectionError>)
        ensures
            match r {
                Ok(bytes) => self@.encodable() && bytes@ == self@.encoding(),
                Err(e) => !self@.encodable() && e == ElectionError::RecordOverflow,
            },
    {
        let mut out: Vec<u8> = Vec::new();
        write_bool(&mut out, self.is_initialized);
        if self.candidates.len() > u32::MAX as usize {
            return Err(ElectionError::RecordOverflow);
        }
        write_u32(&mut out, self.candidates.len() as u32);
        if !write_registry(&mut out, &self.candidates) {
            return Err(ElectionError::RecordOverflow);
        }
        assert(out@ =~= self@.encoding());
        Ok(out)
    }

    /// Reads the registry that `data` starts with.
    pub fn decode(data: &[u8]) -> (r: Result<CandidateListState, ElectionError>)
        ensures
            match r {
                Ok(record) => CandidateListView::decoding(data@) == Some(record@)
                    && record@.well_formed(),
                Err(e) => CandidateListView::decoding(data@) is None && e
                    == ElectionError::DecodeError,
            },
    {
        let (is_initialized, at_a) = match read_bool(data, 0) {
            Some(found) => found,
            None => { return Err(ElectionError::DecodeError); },
        };
        let (count, at_b) = match read_u32(data, at_a) {
            Some(found) => found,
            None => { return Err(ElectionError::DecodeError); },
        };
        let (candidates, _) = match read_registry(data, at_b, count) {
            Some(found) => found,
            None => { return Err(ElectionError::DecodeError); },
        };
        if !names_distinct(&candidates) {
            return Err(ElectionError::DecodeError);
        }
        Ok(CandidateListState { is_initialized, candidates })
    }
}

impl CandidateListView {
    /// The address registered under `name`, if there is one.
    pub open spec fn address_of(self, name: Seq<char>) -> Option<Address> {
        value_of(self.candidates, name)
    }

    /// The registry after `address` was registered under `name`. An address
    /// that stood under the name before is replaced.
    pub open spec fn with_candidate(self, name: Seq<char>, address: Address) -> CandidateListView {
        CandidateListView {
            is_initialized: self.is_initialized,
            candidates: put(self.candidates, name, address),
        }
    }
}

/// The name under which a candidate is registered: the first name with the
/// last name behind it.
pub open spec fn full_name(first_name: Seq<char>, last_name: Seq<char>) -> Seq<char> {
    first_name + last_name
}

/// Builds the name under which a candidate is registered.
pub fn make_full_name(first_name: &str, last_name: &str) -> (r: String)
    ensures
        r@ == full_name(first_name@, last_name@),
{
    let mut name = first_name.to_owned();
    name.append(last_name);
    name
}

impl CandidateListState {
    /// The address registered under `name`.
    pub fn lookup(&self, name: &String) -> (r: Option<Address>)
        ensures
            r == self@.address_of(name@),
    {
        match find_name(&self.candidates, name) {
            Some(i) => {
                proof {
                    lemma_first_with_key(named_view(self.candidates@), name@, i as int);
                }
                Some(self.candidates[i].1)
            },
            None => None,
        }
    }

    /// Registers `address` under `name`.
    pub fn register(&mut self, name: String, address: Address)
        ensures
            final(self)@ == old(self)@.with_candidate(name@, address),
    {
        match find_name(&self.candidates, &name) {
            Some(i) => {
                proof {
                    lemma_first_with_key(named_view(self.candidates@), name@, i as int);
                }
                self.candidates[i] = (name, address);
                assert(named_view(self.candidates@) =~= put(
                    named_view(old(self).candidates@),
                    name@,
                    address,
                ));
            },
            None => {
                proof {
                    lemma_named_view_push(self.candidates@, (name, address));
                }
                self.candidates.push((name, address));
            },
        }
    }
}


/// Registering a candidate leaves no name in the registry twice; the
/// candidate is then found under its name, and every other name leads
/// where it led before.
pub proof fn lemma_registered_candidate_is_found(
    list: CandidateListView,
    name: Seq<char>,
    address: Address,
)
    requires
        list.well_formed(),
    ensures
        list.with_candidate(name, address).well_formed(),
        list.with_candidate(name, address).address_of(name) == Some(address),
        forall|other: Seq<char>|
            other != name ==> list.with_candidate(name, address).address_of(other)
                == list.address_of(other),
{
    crate::assoc::lemma_put(list.candidates, name, address);
}


/// The registry that nothing was written into.
pub open spec fn blank_candidate_list() -> CandidateListView {
    CandidateListView { is_initialized: false, candidates: Seq::empty() }
}

/// A buffer of five or more zero bytes holds the blank registry.
pub proof fn lemma_blank_candidate_list(len: nat)
    requires
        len >= 5,
    ensures
        CandidateListView::decoding(zeros(len)) == Some(blank_candidate_list()),
{
    lemma_zero_fields();
    assert(registry_le(Seq::empty()) =~= Seq::<u8>::empty());
    assert(zeros(len) =~= blank_candidate_list().encoding() + zeros((len - 5) as nat));
    lemma_candidate_list_round_trip(blank_candidate_list(), zeros((len - 5) as nat));
}

/// An empty registry is five bytes long when written down.
pub proof fn lemma_empty_candidate_list_length(list: CandidateListView)
    requires
        list.candidates.len() == 0,
    ensures
        list.encoding().len() == 5,
        list.encodable(),
{
    lemma_field_lengths(0, 0, list.is_initialized, Seq::empty());
    assert(registry_le(list.candidates) =~= Seq::<u8>::empty());
}


} // verus!

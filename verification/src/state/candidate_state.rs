use crate::error::ElectionError;
use crate::wire::bool_le;
use crate::wire::has_at;
use crate::wire::lemma_bool_round_trip;
use crate::wire::lemma_field_lengths;
use crate::wire::lemma_has_at_split;
use crate::wire::lemma_text_round_trip;
use crate::wire::lemma_zero_fields;
use crate::wire::parse_bool;
use crate::wire::parse_text;
use crate::wire::read_bool;
use crate::wire::read_text;
use crate::wire::text_fits;
use crate::wire::text_le;
use crate::wire::write_bool;
use crate::wire::write_text;
use crate::wire::zeros;
use vstd::prelude::*;
use vstd::utf8::encode_utf8;

verus! {

/// The record of one candidate.
#[derive(Clone, Debug, PartialEq, Eq)]
pub struct CandidateState {
    pub is_initialized: bool,
    pub first_name: String,
    pub last_name: String,
}

/// What a candidate record holds, as mathematical values.
pub struct CandidateView {
    pub is_initialized: bool,
    pub first_name: Seq<char>,
    pub last_name: Seq<char>,
}

impl View for CandidateState {
    type V = CandidateView;

    open spec fn view(&self) -> CandidateView {
        CandidateView {
            is_initialized: self.is_initialized,
            first_name: self.first_name@,
            last_name: self.last_name@,
        }
    }
}

impl CandidateView {
    /// Whether the record can be written down: both names fit.
    pub open spec fn encodable(self) -> bool {
        text_fits(self.first_name) && text_fits(self.last_name)
    }

    /// The bytes of the record: the flag, the first name, the last name.
    pub open spec fn encoding(self) -> Seq<u8> {
        bool_le(self.is_initialized) + text_le(self.first_name) + text_le(self.last_name)
    }

    /// The record that `bytes` starts with, if it starts with one. Bytes
    /// behind the record are not looked at.
    pub open spec fn decoding(bytes: Seq<u8>) -> Option<CandidateView> {
        match parse_bool(bytes, 0) {
            Some((is_initialized, at_a)) => match parse_text(bytes, at_a) {
                Some((first_name, at_b)) => match parse_text(bytes, at_b) {
                    Some((last_name, _)) => Some(
                        CandidateView { is_initialized, first_name, last_name },
                    ),
                    None => None,
                },
                None => None,
            },
            None => None,
        }
    }
}

/// Decoding what was encoded gives the record back, whatever follows it in
/// the buffer.
pub proof fn lemma_candidate_round_trip(record: CandidateView, tail: Seq<u8>)
    requires
        record.encodable(),
    ensures
        CandidateView::decoding(record.encoding() + tail) == Some(record),
{
    let bytes = record.encoding() + tail;
    let flag = bool_le(record.is_initialized);
    let first = text_le(record.first_name);
    let last = text_le(record.last_name);
    assert(bytes.subrange(0, record.encoding().len() as int) =~= record.encoding());
    assert(has_at(bytes, 0, (flag + first) + last));
    lemma_has_at_split(bytes, 0, flag + first, last);
    lemma_has_at_split(bytes, 0, flag, first);
    lemma_bool_round_trip(bytes, 0, record.is_initialized);
    lemma_text_round_trip(bytes, 1, record.first_name);
    lemma_text_round_trip(bytes, 1 + first.len() as int, record.last_name);
}

impl CandidateState {
    /// Writes the record down.
    pub fn encode(&self) -> (r: Result<Vec<u8>, ElectionError>)
        ensures
            match r {
                Ok(bytes) => self@.encodable() && bytes@ == self@.encoding(),
                Err(e) => !self@.encodable() && e == ElectionError::RecordOverflow,
            },
    {
        let mut out: Vec<u8> = Vec::new();
        write_bool(&mut out, self.is_initialized);
        if !write_text(&mut out, self.first_name.as_str()) {
            return Err(ElectionError::RecordOverflow);
        }
        if !write_text(&mut out, self.last_name.as_str()) {
            return Err(ElectionError::RecordOverflow);
        }
        assert(out@ =~= self@.encoding());
        Ok(out)
    }

    /// Reads the record that `data` starts with.
    pub fn decode(data: &[u8]) -> (r: Result<CandidateState, ElectionError>)
        ensures
            match r {
                Ok(record) => CandidateView::decoding(data@) == Some(record@),
                Err(e) => CandidateView::decoding(data@) is None && e == ElectionError::DecodeError,
            },
    {
        let (is_initialized, at_a) = match read_bool(data, 0) {
            Some(found) => found,
            None => { return Err(ElectionError::DecodeError); },
        };
        let (first_name, at_b) = match read_text(data, at_a) {
            Some(found) => found,
            None => { return Err(ElectionError::DecodeError); },
        };
        let (last_name, _) = match read_text(data, at_b) {
            Some(found) => found,
            None => { return Err(ElectionError::DecodeError); },
        };
        Ok(CandidateState { is_initialized, first_name, last_name })
    }
}

/// The candidate record that nothing was written into.
pub open spec fn blank_candidate() -> CandidateView {
    CandidateView { is_initialized: false, first_name: Seq::empty(), last_name: Seq::empty() }
}

/// A buffer of nine or more zero bytes holds the blank candidate record.
pub proof fn lemma_blank_candidate(len: nat)
    requires
        len >= 9,
    ensures
        CandidateView::decoding(zeros(len)) == Some(blank_candidate()),
{
    lemma_zero_fields();
    assert(zeros(len) =~= blank_candidate().encoding() + zeros((len - 9) as nat));
    lemma_candidate_round_trip(blank_candidate(), zeros((len - 9) as nat));
}


/// A candidate record is nine bytes and the bytes of the two names long
/// when written down.
pub proof fn lemma_candidate_length(record: CandidateView)
    ensures
        record.encoding().len() == 9 + encode_utf8(record.first_name).len() + encode_utf8(
            record.last_name,
        ).len(),
{
    lemma_field_lengths(0, 0, record.is_initialized, record.first_name);
    lemma_field_lengths(0, 0, record.is_initialized, record.last_name);
}


} // verus!

use crate::address::Address;
use crate::error::ElectionError;
use crate::wire::lemma_address_round_trip;
use crate::wire::lemma_field_lengths;
use crate::wire::lemma_has_at_split;
use crate::wire::lemma_text_round_trip;
use crate::wire::parse_address;
use crate::wire::parse_text;
use crate::wire::parse_u32;
use crate::wire::read_address;
use crate::wire::read_text;
use crate::wire::text_fits;
use crate::wire::text_le;
use crate::wire::write_address;
use crate::wire::write_text;
use crate::wire::zeros;
use vstd::prelude::*;
use vstd::utf8::decode_utf8;
use vstd::utf8::encode_utf8;
use vstd::utf8::valid_utf8;

verus! {

/// The record that shows that a voter's card has been used: the card's
/// number and the candidate that the vote went to.
#[derive(Clone, Debug, PartialEq, Eq)]
pub struct VoterAccountState {
    pub election_card_number: String,
    pub voted: Address,
}

/// What a voter record holds, as mathematical values.
pub struct VoterView {
    pub election_card_number: Seq<char>,
    pub voted: Address,
}

impl View for VoterAccountState {
    type V = VoterView;

    open spec fn view(&self) -> VoterView {
        VoterView { election_card_number: self.election_card_number@, voted: self.voted }
    }
}

impl VoterView {
    /// Whether the record can be written down: the card number fits.
    pub open spec fn encodable(self) -> bool {
        text_fits(self.election_card_number)
    }

    /// The bytes of the record: the card number, then the address.
    pub open spec fn encoding(self) -> Seq<u8> {
        text_le(self.election_card_number) + self.voted@
    }

    /// The record that `bytes` starts with, if it starts with one.
    pub open spec fn decoding(bytes: Seq<u8>) -> Option<VoterView> {
        match parse_text(bytes, 0) {
            Some((election_card_number, at_a)) => match parse_address(bytes, at_a) {
                Some((voted, _)) => Some(VoterView { election_card_number, voted }),
                None => None,
            },
            None => None,
        }
    }
}

/// Decoding what was encoded gives the record back, whatever follows it in
/// the buffer.
pub proof fn lemma_voter_round_trip(record: VoterView, tail: Seq<u8>)
    requires
        record.encodable(),
    ensures
        VoterView::decoding(record.encoding() + tail) == Some(record),
{
    let bytes = record.encoding() + tail;
    let card = text_le(record.election_card_number);
    assert(bytes.subrange(0, record.encoding().len() as int) =~= record.encoding());
    lemma_has_at_split(bytes, 0, card, record.voted@);
    lemma_text_round_trip(bytes, 0, record.election_card_number);
    lemma_address_round_trip(bytes, card.len() as int, record.voted);
}

impl VoterAccountState {
    /// Writes the record down.
    pub fn encode(&self) -> (r: Result<Vec<u8>, ElectionError>)
        ensures
            match r {
                Ok(bytes) => self@.encodable() && bytes@ == self@.encoding(),
                Err(e) => !self@.encodable() && e == ElectionError::RecordOverflow,
            },
    {
        let mut out: Vec<u8> = Vec::new();
        if !write_text(&mut out, self.election_card_number.as_str()) {
            return Err(ElectionError::RecordOverflow);
        }
        write_address(&mut out, &self.voted);
        assert(out@ =~= self@.encoding());
        Ok(out)
    }

    /// Reads the record that `data` starts with.
    pub fn decode(data: &[u8]) -> (r: Result<VoterAccountState, ElectionError>)
        ensures
            match r {
                Ok(record) => VoterView::decoding(data@) == Some(record@),
                Err(e) => VoterView::decoding(data@) is None && e == ElectionError::DecodeError,
            },
    {
        let (election_card_number, at_a) = match read_text(data, 0) {
            Some(found) => found,
            None => { return Err(ElectionError::DecodeError); },
        };
        let (voted, _) = match read_address(data, at_a) {
            Some(found) => found,
            None => { return Err(ElectionError::DecodeError); },
        };
        Ok(VoterAccountState { election_card_number, voted })
    }
}

/// A buffer of thirty-six or more zero bytes holds a voter record: one
/// with an empty card number.
pub proof fn lemma_blank_voter(len: nat)
    requires
        len >= 36,
    ensures
        VoterView::decoding(zeros(len)) matches Some(blank) && blank.election_card_number
            == Seq::<char>::empty(),
{
    reveal(parse_text);
    reveal(parse_u32);
    reveal(parse_address);
    let bytes = zeros(len);
    assert(bytes.subrange(4, 4) =~= Seq::<u8>::empty());
    assert(valid_utf8(Seq::<u8>::empty()));
    assert(decode_utf8(Seq::<u8>::empty()) =~= Seq::<char>::empty());
}

/// A voter record is thirty-six bytes and the bytes of the card number
/// long when written down.
pub proof fn lemma_voter_length(record: VoterView)
    ensures
        record.encoding().len() == 36 + encode_utf8(record.election_card_number).len(),
{
    lemma_field_lengths(0, 0, false, record.election_card_number);
}


} // verus!

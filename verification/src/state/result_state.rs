use crate::assoc::distinct_keys;
use crate::assoc::lemma_named_view_push;
use crate::assoc::named_view;
use crate::assoc::names_distinct;
use crate::error::ElectionError;
use crate::state::candidate_list_state::names_fit;
use crate::wire::has_at;
use crate::wire::i64_le;
use crate::wire::lemma_has_at_split;
use crate::wire::lemma_i64_round_trip;
use crate::wire::lemma_text_round_trip;
use crate::wire::lemma_u32_round_trip;
use crate::wire::lemma_zero_fields;
use crate::wire::parse_i64;
use crate::wire::parse_text;
use crate::wire::parse_u32;
use crate::wire::read_i64;
use crate::wire::read_text;
use crate::wire::read_u32;
use crate::wire::text_fits;
use crate::wire::text_le;
use crate::wire::u32_le;
use crate::wire::write_i64;
use crate::wire::write_text;
use crate::wire::write_u32;
use crate::wire::zeros;
use vstd::prelude::*;

verus! {

/// The tally of one election: for each candidate's full name the votes
/// counted for it, best first, and the number of all votes. A candidate's
/// share is its votes over `number_of_votes`; it is kept as these two
/// exact numbers. No name stands in `results` twice.
#[derive(Clone, Debug, PartialEq, Eq)]
pub struct ResultState {
    pub results: Vec<(String, i64)>,
    pub number_of_votes: i64,
}

/// What a tally holds, as mathematical values.
pub struct ResultView {
    pub results: Seq<(Seq<char>, i64)>,
    pub number_of_votes: i64,
}

impl View for ResultState {
    type V = ResultView;

    open spec fn view(&self) -> ResultView {
        ResultView { results: named_view(self.results@), number_of_votes: self.number_of_votes }
    }
}

/// The bytes of the entries: for each, the name and the votes.
pub open spec fn scores_le(entries: Seq<(Seq<char>, i64)>) -> Seq<u8>
    decreases entries.len(),
{
    if entries.len() == 0 {
        Seq::empty()
    } else {
        (text_le(entries[0].0) + i64_le(entries[0].1)) + scores_le(entries.drop_first())
    }
}

/// Reads `count` entries from `pos` on: the entries and the position
/// behind them.
pub open spec fn parse_scores(bytes: Seq<u8>, pos: int, count: nat) -> Option<
    (Seq<(Seq<char>, i64)>, int),
>
    decreases count,
{
    if count == 0 {
        Some((Seq::empty(), pos))
    } else {
        match parse_text(bytes, pos) {
            Some((name, at_a)) => match parse_i64(bytes, at_a) {
                Some((votes, at_b)) => match parse_scores(bytes, at_b, (count - 1) as nat) {
                    Some((rest, end)) => Some((seq![(name, votes)] + rest, end)),
                    None => None,
                },
                None => None,
            },
            None => None,
        }
    }
}

/// Reading gives back the entries that were written.
pub proof fn lemma_scores_round_trip(bytes: Seq<u8>, pos: int, entries: Seq<(Seq<char>, i64)>)
    requires
        names_fit(entries),
        has_at(bytes, pos, scores_le(entries)),
    ensures
        parse_scores(bytes, pos, entries.len()) == Some((entries, pos + scores_le(entries).len())),
    decreases entries.len(),
{
    if entries.len() > 0 {
        let name = text_le(entries[0].0);
        let rest = entries.drop_first();
        assert(text_fits(entries[0].0));
        assert forall|i: int| 0 <= i < rest.len() implies text_fits(
            (#[trigger] rest[i]).0,
        ) by {
            assert(rest[i] == entries[i + 1]);
        }
        lemma_has_at_split(bytes, pos, name + i64_le(entries[0].1), scores_le(rest));
        lemma_has_at_split(bytes, pos, name, i64_le(entries[0].1));
        lemma_text_round_trip(bytes, pos, entries[0].0);
        lemma_i64_round_trip(bytes, pos + name.len(), entries[0].1);
        lemma_scores_round_trip(bytes, pos + name.len() + 8, rest);
        assert(seq![entries[0]] + rest =~= entries);
    }
}

impl ResultView {
    /// The invariant of a tally: no name stands in it twice.
    pub open spec fn well_formed(self) -> bool {
        distinct_keys(self.results)
    }

    /// Whether the tally can be written down: the names fit, and so does
    /// the number of entries.
    pub open spec fn encodable(self) -> bool {
        names_fit(self.results) && self.results.len() <= u32::MAX
    }

    /// The bytes of the tally: number of entries, entries, number of votes.
    pub open spec fn encoding(self) -> Seq<u8> {
        u32_le(self.results.len() as u32) + scores_le(self.results) + i64_le(self.number_of_votes)
    }

    /// The tally that `bytes` starts with, if it starts with a well-formed
    /// one. Bytes behind it are not looked at.
    pub open spec fn decoding(bytes: Seq<u8>) -> Option<ResultView> {
        match parse_u32(bytes, 0) {
            Some((count, at_a)) => match parse_scores(bytes, at_a, count as nat) {
                Some((results, at_b)) => match parse_i64(bytes, at_b) {
                    Some((number_of_votes, _)) => if distinct_keys(results) {
                        Some(ResultView { results, number_of_votes })
                    } else {
                        None
                    },
                    None => None,
                },
                None => None,
            },
            None => None,
        }
    }
}

/// Decoding what was encoded gives the tally back, whatever follows it in
/// the buffer.
pub proof fn lemma_result_round_trip(record: ResultView, tail: Seq<u8>)
    requires
        record.well_formed(),
        record.encodable(),
    ensures
        ResultView::decoding(record.encoding() + tail) == Some(record),
{
    let bytes = record.encoding() + tail;
    let f1 = u32_le(record.results.len() as u32);
    let f2 = scores_le(record.results);
    let f3 = i64_le(record.number_of_votes);
    assert(bytes.subrange(0, record.encoding().len() as int) =~= record.encoding());
    lemma_has_at_split(bytes, 0, f1 + f2, f3);
    lemma_has_at_split(bytes, 0, f1, f2);
    lemma_u32_round_trip(bytes, 0, record.results.len() as u32);
    lemma_scores_round_trip(bytes, 4, record.results);
    lemma_i64_round_trip(bytes, 4 + f2.len() as int, record.number_of_votes);
}

/// Appends the entries, unless one of the names does not fit: then what
/// was appended is of no use.
pub fn write_scores(out: &mut Vec<u8>, entries: &Vec<(String, i64)>) -> (ok: bool)
    ensures
        ok == names_fit(named_view(entries@)),
        ok ==> final(out)@ == old(out)@ + scores_le(named_view(entries@)),
{
    let ghost view = named_view(entries@);
    let mut i: usize = 0;
    assert(view.skip(0) =~= view);
    while i < entries.len()
        invariant
            i <= entries.len(),
            view == named_view(entries@),
            forall|j: int| 0 <= j < i ==> text_fits((#[trigger] view[j]).0),
            old(out)@ + scores_le(view) == out@ + scores_le(view.skip(i as int)),
        decreases entries.len() - i,
    {
        let ghost before = out@;
        let ghost rest = view.skip(i as int);
        if !write_text(out, entries[i].0.as_str()) {
            assert(!text_fits(view[i as int].0));
            return false;
        }
        write_i64(out, entries[i].1);
        proof {
            assert(rest[0] == view[i as int]);
            assert(rest.drop_first() =~= view.skip(i + 1));
            assert(out@ + scores_le(view.skip(i + 1)) =~= before + scores_le(rest));
        }
        i += 1;
    }
    assert(out@ =~= old(out)@ + scores_le(view));
    true
}

/// Reads `count` entries from `pos` on.
pub fn read_scores(data: &[u8], pos: usize, count: u32) -> (r: Option<(Vec<(String, i64)>, usize)>)
    ensures
        match r {
            Some((entries, next)) => parse_scores(data@, pos as int, count as nat) == Some(
                (named_view(entries@), next as int),
            ),
            None => parse_scores(data@, pos as int, count as nat) is None,
        },
{
    let mut entries: Vec<(String, i64)> = Vec::new();
    let mut at: usize = pos;
    let mut i: u32 = 0;
    assert(named_view(entries@) =~= Seq::empty());
    while i < count
        invariant
            i <= count,
            parse_scores(data@, pos as int, count as nat) == match parse_scores(
                data@,
                at as int,
                (count - i) as nat,
            ) {
                Some((rest, end)) => Some((named_view(entries@) + rest, end)),
                None => None,
            },
        decreases count - i,
    {
        let (name, at_a) = match read_text(data, at) {
            Some(found) => found,
            None => { return None; },
        };
        let (votes, at_b) = match read_i64(data, at_a) {
            Some(found) => found,
            None => { return None; },
        };
        proof {
            lemma_named_view_push(entries@, (name, votes));
            match parse_scores(data@, at_b as int, (count - i - 1) as nat) {
                Some((rest, end)) => {
                    assert(named_view(entries@).push((name@, votes)) + rest =~= named_view(
                        entries@,
                    ) + (seq![(name@, votes)] + rest));
                },
                None => {},
            }
        }
        entries.push((name, votes));
        at = at_b;
        i += 1;
    }
    assert(named_view(entries@) + Seq::<(Seq<char>, i64)>::empty() =~= named_view(entries@));
    Some((entries, at))
}

impl ResultState {
    /// Writes the tally down.
    pub fn encode(&self) -> (r: Result<Vec<u8>, ElectionError>)
        ensures
            match r {
                Ok(bytes) => self@.encodable() && bytes@ == self@.encoding(),
                Err(e) => !self@.encodable() && e == ElectionError::RecordOverflow,
            },
    {
        let mut out: Vec<u8> = Vec::new();
        if self.results.len() > u32::MAX as usize {
            return Err(ElectionError::RecordOverflow);
        }
        write_u32(&mut out, self.results.len() as u32);
        if !write_scores(&mut out, &self.results) {
            return Err(ElectionError::RecordOverflow);
        }
        write_i64(&mut out, self.number_of_votes);
        assert(out@ =~= self@.encoding());
        Ok(out)
    }

    /// Reads the tally that `data` starts with.
    pub fn decode(data: &[u8]) -> (r: Result<ResultState, ElectionError>)
        ensures
            match r {
                Ok(record) => ResultView::decoding(data@) == Some(record@) && record@.well_formed(),
                Err(e) => ResultView::decoding(data@) is None && e == ElectionError::DecodeError,
            },
    {
        let (count, at_a) = match read_u32(data, 0) {
            Some(found) => found,
            None => { return Err(ElectionError::DecodeError); },
        };
        let (results, at_b) = match read_scores(data, at_a, count) {
            Some(found) => found,
            None => { return Err(ElectionError::DecodeError); },
        };
        let (number_of_votes, _) = match read_i64(data, at_b) {
            Some(found) => found,
            None => { return Err(ElectionError::DecodeError); },
        };
        if !names_distinct(&results) {
            return Err(ElectionError::DecodeError);
        }
        Ok(ResultState { results, number_of_votes })
    }
}

/// The tally that nothing was written into.
pub open spec fn blank_result() -> ResultView {
    ResultView { results: Seq::empty(), number_of_votes: 0 }
}

/// A buffer of twelve or more zero bytes holds the blank tally.
pub proof fn lemma_blank_result(len: nat)
    requires
        len >= 12,
    ensures
        ResultView::decoding(zeros(len)) == Some(blank_result()),
{
    lemma_zero_fields();
    assert(scores_le(Seq::empty()) =~= Seq::<u8>::empty());
    assert(zeros(len) =~= blank_result().encoding() + zeros((len - 12) as nat));
    lemma_result_round_trip(blank_result(), zeros((len - 12) as nat));
}


} // verus!

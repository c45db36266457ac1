use crate::address::Address;
use crate::assoc::distinct_keys;
use crate::assoc::is_first_with_key;
use crate::assoc::lemma_first_with_key;
use crate::assoc::put;
use crate::assoc::value_of;
use crate::error::ElectionError;
use crate::wire::bool_le;
use crate::wire::has_at;
use crate::wire::i64_le;
use crate::wire::lemma_address_round_trip;
use crate::wire::lemma_bool_round_trip;
use crate::wire::lemma_field_lengths;
use crate::wire::lemma_has_at_split;
use crate::wire::lemma_i64_round_trip;
use crate::wire::lemma_text_round_trip;
use crate::wire::lemma_u32_round_trip;
use crate::wire::lemma_zero_fields;
use crate::wire::parse_address;
use crate::wire::parse_bool;
use crate::wire::parse_i64;
use crate::wire::parse_text;
use crate::wire::parse_u32;
use crate::wire::read_address;
use crate::wire::read_bool;
use crate::wire::read_i64;
use crate::wire::read_text;
use crate::wire::read_u32;
use crate::wire::text_fits;
use crate::wire::text_le;
use crate::wire::u32_le;
use crate::wire::write_address;
use crate::wire::write_bool;
use crate::wire::write_i64;
use crate::wire::write_text;
use crate::wire::write_u32;
use crate::wire::zeros;
use vstd::prelude::*;
use vstd::utf8::encode_utf8;

verus! {

/// The record of one election. `votes` holds one counter for each
/// candidate, in the order in which the candidates were added; no candidate
/// stands in it twice.
#[derive(Clone, Debug, PartialEq, Eq)]
pub struct ElectionAccountState {
    pub is_initialized: bool,
    pub name: String,
    pub start_date: String,
    pub end_date: String,
    pub votes: Vec<(Address, i64)>,
    pub number_of_votes: i64,
    pub is_active: bool,
}

/// What an election record holds, as mathematical values.
pub struct ElectionView {
    pub is_initialized: bool,
    pub name: Seq<char>,
    pub start_date: Seq<char>,
    pub end_date: Seq<char>,
    pub votes: Seq<(Address, i64)>,
    pub number_of_votes: i64,
    pub is_active: bool,
}

impl View for ElectionAccountState {
    type V = ElectionView;

    open spec fn view(&self) -> ElectionView {
        ElectionView {
            is_initialized: self.is_initialized,
            name: self.name@,
            start_date: self.start_date@,
            end_date: self.end_date@,
            votes: self.votes@,
            number_of_votes: self.number_of_votes,
            is_active: self.is_active,
        }
    }
}

/// The bytes of the counters: for each, the candidate's address and the
/// count.
pub open spec fn tally_le(votes: Seq<(Address, i64)>) -> Seq<u8>
    decreases votes.len(),
{
    if votes.len() == 0 {
        Seq::empty()
    } else {
        (votes[0].0@ + i64_le(votes[0].1)) + tally_le(votes.drop_first())
    }
}

/// Reads `count` counters from `pos` on: the counters and the position
/// behind them.
pub open spec fn parse_tally(bytes: Seq<u8>, pos: int, count: nat) -> Option<
    (Seq<(Address, i64)>, int),
>
    decreases count,
{
    if count == 0 {
        Some((Seq::empty(), pos))
    } else {
        match parse_address(bytes, pos) {
            Some((candidate, at_a)) => match parse_i64(bytes, at_a) {
                Some((votes, at_b)) => match parse_tally(bytes, at_b, (count - 1) as nat) {
                    Some((rest, end)) => Some((seq![(candidate, votes)] + rest, end)),
                    None => None,
                },
                None => None,
            },
            None => None,
        }
    }
}

/// Reading gives back the counters that were written.
pub proof fn lemma_tally_round_trip(bytes: Seq<u8>, pos: int, votes: Seq<(Address, i64)>)
    requires
        has_at(bytes, pos, tally_le(votes)),
    ensures
        parse_tally(bytes, pos, votes.len()) == Some((votes, pos + tally_le(votes).len())),
        tally_le(votes).len() == 40 * votes.len(),
    decreases votes.len(),
{
    if votes.len() > 0 {
        let head = votes[0].0@ + i64_le(votes[0].1);
        let rest = votes.drop_first();
        lemma_has_at_split(bytes, pos, head, tally_le(rest));
        lemma_has_at_split(bytes, pos, votes[0].0@, i64_le(votes[0].1));
        lemma_address_round_trip(bytes, pos, votes[0].0);
        lemma_i64_round_trip(bytes, pos + 32, votes[0].1);
        lemma_tally_round_trip(bytes, pos + 40, rest);
        assert(seq![votes[0]] + rest =~= votes);
    }
}

impl ElectionView {
    /// The invariant of an election record: no candidate has two counters.
    pub open spec fn well_formed(self) -> bool {
        distinct_keys(self.votes)
    }

    /// Whether the record can be written down: the texts fit, and so does
    /// the number of counters.
    pub open spec fn encodable(self) -> bool {
        &&& text_fits(self.name)
        &&& text_fits(self.start_date)
        &&& text_fits(self.end_date)
        &&& self.votes.len() <= u32::MAX
    }

    /// The bytes of the record: flag, name, start, end, the number of
    /// counters and the counters, the number of votes, the second flag.
    pub open spec fn encoding(self) -> Seq<u8> {
        bool_le(self.is_initialized) + text_le(self.name) + text_le(self.start_date) + text_le(
            self.end_date,
        ) + u32_le(self.votes.len() as u32) + tally_le(self.votes) + i64_le(self.number_of_votes)
            + bool_le(self.is_active)
    }

    /// The record that `bytes` starts with, if it starts with a well-formed
    /// one. Bytes behind the record are not looked at.
    pub open spec fn decoding(bytes: Seq<u8>) -> Option<ElectionView> {
        match parse_bool(bytes, 0) {
            Some((is_initialized, at_a)) => match parse_text(bytes, at_a) {
                Some((name, at_b)) => match parse_text(bytes, at_b) {
                    Some((start_date, at_c)) => match parse_text(bytes, at_c) {
                        Some((end_date, at_d)) => match parse_u32(bytes, at_d) {
                            Some((count, at_e)) => match parse_tally(bytes, at_e, count as nat) {
                                Some((votes, at_f)) => match parse_i64(bytes, at_f) {
                                    Some((number_of_votes, at_g)) => match parse_bool(bytes, at_g) {
                                        Some((is_active, _)) => if distinct_keys(votes) {
                                            Some(
                                                ElectionView {
                                                    is_initialized,
                                                    name,
                                                    start_date,
                                                    end_date,
                                                    votes,
                                                    number_of_votes,
                                                    is_active,
                                                },
                                            )
                                        } else {
                                            None
                                        },
                                        None => None,
                                    },
                                    None => None,
                                },
                                None => None,
                            },
                            None => None,
                        },
                        None => None,
                    },
                    None => None,
                },
                None => None,
            },
            None => None,
        }
    }
}

/// Decoding what was encoded gives the record back, whatever follows it in
/// the buffer.
pub proof fn lemma_election_round_trip(record: ElectionView, tail: Seq<u8>)
    requires
        record.well_formed(),
        record.encodable(),
    ensures
        ElectionView::decoding(record.encoding() + tail) == Some(record),
{
    let bytes = record.encoding() + tail;
    let f1 = bool_le(record.is_initialized);
    let f2 = text_le(record.name);
    let f3 = text_le(record.start_date);
    let f4 = text_le(record.end_date);
    let f5 = u32_le(record.votes.len() as u32);
    let f6 = tally_le(record.votes);
    let f7 = i64_le(record.number_of_votes);
    let f8 = bool_le(record.is_active);
    assert(bytes.subrange(0, record.encoding().len() as int) =~= record.encoding());
    lemma_has_at_split(bytes, 0, f1 + f2 + f3 + f4 + f5 + f6 + f7, f8);
    lemma_has_at_split(bytes, 0, f1 + f2 + f3 + f4 + f5 + f6, f7);
    lemma_has_at_split(bytes, 0, f1 + f2 + f3 + f4 + f5, f6);
    lemma_has_at_split(bytes, 0, f1 + f2 + f3 + f4, f5);
    lemma_has_at_split(bytes, 0, f1 + f2 + f3, f4);
    lemma_has_at_split(bytes, 0, f1 + f2, f3);
    lemma_has_at_split(bytes, 0, f1, f2);
    let at_a = 1int;
    let at_b = at_a + f2.len();
    let at_c = at_b + f3.len();
    let at_d = at_c + f4.len();
    let at_e = at_d + 4;
    let at_f = at_e + f6.len();
    let at_g = at_f + 8;
    lemma_bool_round_trip(bytes, 0, record.is_initialized);
    lemma_text_round_trip(bytes, at_a, record.name);
    lemma_text_round_trip(bytes, at_b, record.start_date);
    lemma_text_round_trip(bytes, at_c, record.end_date);
    lemma_u32_round_trip(bytes, at_d, record.votes.len() as u32);
    lemma_tally_round_trip(bytes, at_e, record.votes);
    lemma_i64_round_trip(bytes, at_f, record.number_of_votes);
    lemma_bool_round_trip(bytes, at_g, record.is_active);
}

/// Appends the counters.
pub fn write_tally(out: &mut Vec<u8>, votes: &Vec<(Address, i64)>)
    ensures
        final(out)@ == old(out)@ + tally_le(votes@),
{
    let mut i: usize = 0;
    assert(votes@.skip(0) =~= votes@);
    while i < votes.len()
        invariant
            i <= votes.len(),
            old(out)@ + tally_le(votes@) == out@ + tally_le(votes@.skip(i as int)),
        decreases votes.len() - i,
    {
        let ghost before = out@;
        let ghost rest = votes@.skip(i as int);
        write_address(out, &votes[i].0);
        write_i64(out, votes[i].1);
        proof {
            assert(rest[0] == votes@[i as int]);
            assert(rest.drop_first() =~= votes@.skip(i + 1));
            assert(out@ + tally_le(votes@.skip(i + 1)) =~= before + tally_le(rest));
        }
        i += 1;
    }
    assert(out@ =~= old(out)@ + tally_le(votes@));
}

/// Reads `count` counters from `pos` on.
pub fn read_tally(data: &[u8], pos: usize, count: u32) -> (r: Option<(Vec<(Address, i64)>, usize)>)
    ensures
        match r {
            Some((votes, next)) => parse_tally(data@, pos as int, count as nat) == Some(
                (votes@, next as int),
            ),
            None => parse_tally(data@, pos as int, count as nat) is None,
        },
{
    let mut votes: Vec<(Address, i64)> = Vec::new();
    let mut at: usize = pos;
    let mut i: u32 = 0;
    while i < count
        invariant
            i <= count,
            parse_tally(data@, pos as int, count as nat) == match parse_tally(
                data@,
                at as int,
                (count - i) as nat,
            ) {
                Some((rest, end)) => Some((votes@ + rest, end)),
                None => None,
            },
        decreases count - i,
    {
        let (candidate, at_a) = match read_address(data, at) {
            Some(found) => found,
            None => { return None; },
        };
        let (number, at_b) = match read_i64(data, at_a) {
            Some(found) => found,
            None => { return None; },
        };
        proof {
            match parse_tally(data@, at_b as int, (count - i - 1) as nat) {
                Some((rest, end)) => {
                    assert(votes@.push((candidate, number)) + rest =~= votes@ + (seq![
                        (candidate, number),
                    ] + rest));
                },
                None => {},
            }
        }
        votes.push((candidate, number));
        at = at_b;
        i += 1;
    }
    assert(votes@ + Seq::<(Address, i64)>::empty() =~= votes@);
    Some((votes, at))
}

/// Finds the counter of `candidate`.
pub fn find_counter(votes: &Vec<(Address, i64)>, candidate: &Address) -> (r: Option<usize>)
    ensures
        match r {
            Some(i) => is_first_with_key(votes@, *candidate, i as int),
            None => forall|j: int| 0 <= j < votes.len() ==> (#[trigger] votes@[j]).0 != *candidate,
        },
{
    let mut i: usize = 0;
    while i < votes.len()
        invariant
            i <= votes.len(),
            forall|j: int| 0 <= j < i ==> (#[trigger] votes@[j]).0 != *candidate,
        decreases votes.len() - i,
    {
        if votes[i].0.same(candidate) {
            return Some(i);
        }
        i += 1;
    }
    None
}

/// Whether no candidate has two counters.
pub fn counters_distinct(votes: &Vec<(Address, i64)>) -> (r: bool)
    ensures
        r == distinct_keys(votes@),
{
    let mut j: usize = 0;
    while j < votes.len()
        invariant
            j <= votes.len(),
            forall|a: int, b: int|
                0 <= a < b < j ==> (#[trigger] votes@[a]).0 != (#[trigger] votes@[b]).0,
        decreases votes.len() - j,
    {
        let mut i: usize = 0;
        while i < j
            invariant
                i <= j < votes.len(),
                forall|a: int| 0 <= a < i ==> (#[trigger] votes@[a]).0 != votes@[j as int].0,
            decreases j - i,
        {
            if votes[i].0.same(&votes[j].0) {
                return false;
            }
            i += 1;
        }
        j += 1;
    }
    true
}

impl ElectionAccountState {
    /// Writes the record down.
    pub fn encode(&self) -> (r: Result<Vec<u8>, ElectionError>)
        ensures
            match r {
                Ok(bytes) => self@.encodable() && bytes@ == self@.encoding(),
                Err(e) => !self@.encodable() && e == ElectionError::RecordOverflow,
            },
    {
        let mut out: Vec<u8> = Vec::new();
        write_bool(&mut out, self.is_initialized);
        if !write_text(&mut out, self.name.as_str()) {
            return Err(ElectionError::RecordOverflow);
        }
        if !write_text(&mut out, self.start_date.as_str()) {
            return Err(ElectionError::RecordOverflow);
        }
        if !write_text(&mut out, self.end_date.as_str()) {
            return Err(ElectionError::RecordOverflow);
        }
        if self.votes.len() > u32::MAX as usize {
            return Err(ElectionError::RecordOverflow);
        }
        write_u32(&mut out, self.votes.len() as u32);
        write_tally(&mut out, &self.votes);
        write_i64(&mut out, self.number_of_votes);
        write_bool(&mut out, self.is_active);
        assert(out@ =~= self@.encoding());
        Ok(out)
    }

    /// Reads the record that `data` starts with.
    pub fn decode(data: &[u8]) -> (r: Result<ElectionAccountState, ElectionError>)
        ensures
            match r {
                Ok(record) => ElectionView::decoding(data@) == Some(record@) && record@.well_formed(),
                Err(e) => ElectionView::decoding(data@) is None && e == ElectionError::DecodeError,
            },
    {
        let (is_initialized, at_a) = match read_bool(data, 0) {
            Some(found) => found,
            None => { return Err(ElectionError::DecodeError); },
        };
        let (name, at_b) = match read_text(data, at_a) {
            Some(found) => found,
            None => { return Err(ElectionError::DecodeError); },
        };
        let (start_date, at_c) = match read_text(data, at_b) {
            Some(found) => found,
            None => { return Err(ElectionError::DecodeError); },
        };
        let (end_date, at_d) = match read_text(data, at_c) {
            Some(found) => found,
            None => { return Err(ElectionError::DecodeError); },
        };
        let (count, at_e) = match read_u32(data, at_d) {
            Some(found) => found,
            None => { return Err(ElectionError::DecodeError); },
        };
        let (votes, at_f) = match read_tally(data, at_e, count) {
            Some(found) => found,
            None => { return Err(ElectionError::DecodeError); },
        };
        let (number_of_votes, at_g) = match read_i64(data, at_f) {
            Some(found) => found,
            None => { return Err(ElectionError::DecodeError); },
        };
        let (is_active, _) = match read_bool(data, at_g) {
            Some(found) => found,
            None => { return Err(ElectionError::DecodeError); },
        };
        if !counters_distinct(&votes) {
            return Err(ElectionError::DecodeError);
        }
        Ok(
            ElectionAccountState {
                is_initialized,
                name,
                start_date,
                end_date,
                votes,
                number_of_votes,
                is_active,
            },
        )
    }
}

impl ElectionView {
    /// The votes counted for `candidate`: none where it has no counter.
    pub open spec fn votes_for(self, candidate: Address) -> i64 {
        match value_of(self.votes, candidate) {
            Some(count) => count,
            None => 0,
        }
    }

    /// The election after `candidate` was given a counter that stands at
    /// zero.
    pub open spec fn with_candidate(self, candidate: Address) -> ElectionView {
        ElectionView {
            is_initialized: self.is_initialized,
            name: self.name,
            start_date: self.start_date,
            end_date: self.end_date,
            votes: put(self.votes, candidate, 0i64),
            number_of_votes: self.number_of_votes,
            is_active: self.is_active,
        }
    }

    /// The election after one more vote for `candidate`: its counter and
    /// the number of all votes are one higher. No vote is taken where one
    /// of the two is at its largest value.
    pub open spec fn with_vote(self, candidate: Address) -> Result<ElectionView, ElectionError> {
        if self.votes_for(candidate) == i64::MAX || self.number_of_votes == i64::MAX {
            Err(ElectionError::CounterOverflow)
        } else {
            Ok(
                ElectionView {
                    is_initialized: self.is_initialized,
                    name: self.name,
                    start_date: self.start_date,
                    end_date: self.end_date,
                    votes: put(self.votes, candidate, (self.votes_for(candidate) + 1) as i64),
                    number_of_votes: (self.number_of_votes + 1) as i64,
                    is_active: self.is_active,
                },
            )
        }
    }

    /// The election after one more vote was counted without a candidate.
    pub open spec fn with_counted_vote(self) -> Result<ElectionView, ElectionError> {
        if self.number_of_votes == i64::MAX {
            Err(ElectionError::CounterOverflow)
        } else {
            Ok(
                ElectionView {
                    is_initialized: self.is_initialized,
                    name: self.name,
                    start_date: self.start_date,
                    end_date: self.end_date,
                    votes: self.votes,
                    number_of_votes: (self.number_of_votes + 1) as i64,
                    is_active: self.is_active,
                },
            )
        }
    }
}

/// Puts `count` under `candidate`: in the place of its counter, or at the
/// end where it has none.
pub fn put_counter(votes: &mut Vec<(Address, i64)>, candidate: Address, count: i64)
    ensures
        final(votes)@ == put(old(votes)@, candidate, count),
{
    match find_counter(votes, &candidate) {
        Some(i) => {
            proof {
                lemma_first_with_key(votes@, candidate, i as int);
            }
            votes[i] = (candidate, count);
        },
        None => {
            votes.push((candidate, count));
        },
    }
}

impl ElectionAccountState {
    /// The votes counted for `candidate`.
    pub fn votes_for(&self, candidate: &Address) -> (count: i64)
        ensures
            count == self@.votes_for(*candidate),
    {
        match find_counter(&self.votes, candidate) {
            Some(i) => {
                proof {
                    lemma_first_with_key(self.votes@, *candidate, i as int);
                }
                self.votes[i].1
            },
            None => 0,
        }
    }

    /// Gives `candidate` a counter that stands at zero.
    pub fn register_candidate(&mut self, candidate: Address)
        ensures
            final(self)@ == old(self)@.with_candidate(candidate),
    {
        put_counter(&mut self.votes, candidate, 0);
    }

    /// Takes one more vote for `candidate`.
    pub fn record_vote(&mut self, candidate: Address) -> (r: Result<(), ElectionError>)
        ensures
            match r {
                Ok(()) => old(self)@.with_vote(candidate) == Ok::<ElectionView, ElectionError>(
                    final(self)@,
                ),
                Err(e) => old(self)@.with_vote(candidate) == Err::<ElectionView, ElectionError>(e)
                    && final(self)@ == old(self)@,
            },
    {
        let count = self.votes_for(&candidate);
        if count == i64::MAX || self.number_of_votes == i64::MAX {
            return Err(ElectionError::CounterOverflow);
        }
        put_counter(&mut self.votes, candidate, count + 1);
        self.number_of_votes = self.number_of_votes + 1;
        Ok(())
    }

    /// Counts one more vote without a candidate.
    pub fn count_vote(&mut self) -> (r: Result<(), ElectionError>)
        ensures
            match r {
                Ok(()) => old(self)@.with_counted_vote() == Ok::<ElectionView, ElectionError>(
                    final(self)@,
                ),
                Err(e) => old(self)@.with_counted_vote() == Err::<ElectionView, ElectionError>(e)
                    && final(self)@ == old(self)@,
            },
    {
        if self.number_of_votes == i64::MAX {
            return Err(ElectionError::CounterOverflow);
        }
        self.number_of_votes = self.number_of_votes + 1;
        Ok(())
    }
}


/// The sum of the counters.
pub open spec fn counted(votes: Seq<(Address, i64)>) -> int
    decreases votes.len(),
{
    if votes.len() == 0 {
        0
    } else {
        counted(votes.drop_last()) + votes.last().1
    }
}

/// Replacing one counter changes the sum by the difference.
pub proof fn lemma_counted_update(votes: Seq<(Address, i64)>, i: int, entry: (Address, i64))
    requires
        0 <= i < votes.len(),
    ensures
        counted(votes.update(i, entry)) == counted(votes) - votes[i].1 + entry.1,
    decreases votes.len(),
{
    let after = votes.update(i, entry);
    if i == votes.len() - 1 {
        assert(after.drop_last() =~= votes.drop_last());
    } else {
        assert(after.drop_last() =~= votes.drop_last().update(i, entry));
        lemma_counted_update(votes.drop_last(), i, entry);
    }
}

/// A vote raises the sum of the counters and the number of all votes by
/// one each, and leaves no candidate with two counters. So where the two
/// agreed before the vote they agree after it.
pub proof fn lemma_vote_keeps_the_count(election: ElectionView, candidate: Address, next: ElectionView)
    requires
        election.well_formed(),
        election.with_vote(candidate) == Ok::<ElectionView, ElectionError>(next),
    ensures
        next.well_formed(),
        counted(next.votes) == counted(election.votes) + 1,
        next.number_of_votes == election.number_of_votes + 1,
        next.votes_for(candidate) == election.votes_for(candidate) + 1,
        forall|other: Address| other != candidate ==> next.votes_for(other) == election.votes_for(other),
{
    let count = election.votes_for(candidate);
    crate::assoc::lemma_put(election.votes, candidate, (count + 1) as i64);
    if crate::assoc::holds_key(election.votes, candidate) {
        crate::assoc::lemma_holds_key_has_first(election.votes, candidate);
        lemma_counted_update(
            election.votes,
            crate::assoc::first_with_key(election.votes, candidate),
            (candidate, (count + 1) as i64),
        );
    } else {
        assert(election.votes.push((candidate, 1i64)).drop_last() =~= election.votes);
    }
}

/// Giving a candidate a counter leaves no candidate with two counters, and
/// the candidate then has no votes.
pub proof fn lemma_candidate_gets_one_counter(election: ElectionView, candidate: Address)
    requires
        election.well_formed(),
    ensures
        election.with_candidate(candidate).well_formed(),
        election.with_candidate(candidate).votes_for(candidate) == 0,
        forall|other: Address|
            other != candidate ==> election.with_candidate(candidate).votes_for(other)
                == election.votes_for(other),
{
    crate::assoc::lemma_put(election.votes, candidate, 0i64);
}


/// The election record that nothing was written into.
pub open spec fn blank_election() -> ElectionView {
    ElectionView {
        is_initialized: false,
        name: Seq::empty(),
        start_date: Seq::empty(),
        end_date: Seq::empty(),
        votes: Seq::empty(),
        number_of_votes: 0,
        is_active: false,
    }
}

/// A buffer of twenty-six or more zero bytes holds the blank election
/// record.
pub proof fn lemma_blank_election(len: nat)
    requires
        len >= 26,
    ensures
        ElectionView::decoding(zeros(len)) == Some(blank_election()),
{
    lemma_zero_fields();
    assert(tally_le(Seq::empty()) =~= Seq::<u8>::empty());
    assert(zeros(len) =~= blank_election().encoding() + zeros((len - 26) as nat));
    lemma_election_round_trip(blank_election(), zeros((len - 26) as nat));
}

/// How long an election record without counters is when written down.
pub proof fn lemma_new_election_length(election: ElectionView)
    requires
        election.votes.len() == 0,
    ensures
        election.encoding().len() == 26 + encode_utf8(election.name).len() + encode_utf8(
            election.start_date,
        ).len() + encode_utf8(election.end_date).len(),
{
    lemma_field_lengths(0, election.number_of_votes, election.is_initialized, election.name);
    lemma_field_lengths(0, 0, election.is_active, election.start_date);
    lemma_field_lengths(0, 0, false, election.end_date);
    assert(tally_le(election.votes) =~= Seq::<u8>::empty());
}


} // verus!

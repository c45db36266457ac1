use crate::address::Address;
use crate::assoc::distinct_keys;
use crate::assoc::is_first_with_key;
use crate::error::ElectionError;
use crate::wire::bool_le;
use crate::wire::has_at;
use crate::wire::lemma_address_round_trip;
use crate::wire::lemma_bool_round_trip;
use crate::wire::lemma_has_at_split;
use crate::wire::lemma_text_round_trip;
use crate::wire::lemma_u32_round_trip;
use crate::wire::parse_address;
use crate::wire::parse_bool;
use crate::wire::parse_text;
use crate::wire::parse_u32;
use crate::wire::read_address;
use crate::wire::read_bool;
use crate::wire::read_text;
use crate::wire::read_u32;
use crate::wire::text_fits;
use crate::wire::text_le;
use crate::wire::u32_le;
use crate::wire::write_address;
use crate::wire::write_bool;
use crate::wire::write_text;
use crate::wire::write_u32;
use vstd::prelude::*;

verus! {

/// The record of an election that keeps, for each candidate, the list of
/// the voters' records that voted for it, in the order of the votes. No
/// candidate stands in `votes` twice.
#[derive(Clone, Debug, PartialEq, Eq)]
pub struct VoteAccountState {
    pub is_initialized: bool,
    pub name: String,
    pub start_date: String,
    pub end_date: String,
    pub votes: Vec<(Address, Vec<Address>)>,
    pub is_active: bool,
}

/// What such a record holds, as mathematical values.
pub struct VoteAccountView {
    pub is_initialized: bool,
    pub name: Seq<char>,
    pub start_date: Seq<char>,
    pub end_date: Seq<char>,
    pub votes: Seq<(Address, Seq<Address>)>,
    pub is_active: bool,
}

/// The lists of voters as mathematical values.
pub open spec fn ballots_view(votes: Seq<(Address, Vec<Address>)>) -> Seq<(Address, Seq<Address>)> {
    Seq::new(votes.len(), |i: int| (votes[i].0, votes[i].1@))
}

impl View for VoteAccountState {
    type V = VoteAccountView;

    open spec fn view(&self) -> VoteAccountView {
        VoteAccountView {
            is_initialized: self.is_initialized,
            name: self.name@,
            start_date: self.start_date@,
            end_date: self.end_date@,
            votes: ballots_view(self.votes@),
            is_active: self.is_active,
        }
    }
}

/// The bytes of a list of addresses, one after the other.
pub open spec fn addresses_le(addresses: Seq<Address>) -> Seq<u8>
    decreases addresses.len(),
{
    if addresses.len() == 0 {
        Seq::empty()
    } else {
        addresses[0]@ + addresses_le(addresses.drop_first())
    }
}

/// Reads `count` addresses from `pos` on.
pub open spec fn parse_addresses(bytes: Seq<u8>, pos: int, count: nat) -> Option<
    (Seq<Address>, int),
>
    decreases count,
{
    if count == 0 {
        Some((Seq::empty(), pos))
    } else {
        match parse_address(bytes, pos) {
            Some((address, next)) => match parse_addresses(bytes, next, (count - 1) as nat) {
                Some((rest, end)) => Some((seq![address] + rest, end)),
                None => None,
            },
            None => None,
        }
    }
}

/// Whether every list of voters is short enough for its length to be
/// written down.
pub open spec fn ballots_fit(votes: Seq<(Address, Seq<Address>)>) -> bool {
    forall|i: int| 0 <= i < votes.len() ==> (#[trigger] votes[i]).1.len() <= u32::MAX
}

/// The bytes of the lists of voters: for each candidate its address, the
/// number of its voters, and the voters.
pub open spec fn ballots_le(votes: Seq<(Address, Seq<Address>)>) -> Seq<u8>
    decreases votes.len(),
{
    if votes.len() == 0 {
        Seq::empty()
    } else {
        (votes[0].0@ + u32_le(votes[0].1.len() as u32) + addresses_le(votes[0].1)) + ballots_le(
            votes.drop_first(),
        )
    }
}

/// Reads the lists of voters of `count` candidates from `pos` on.
pub open spec fn parse_ballots(bytes: Seq<u8>, pos: int, count: nat) -> Option<
    (Seq<(Address, Seq<Address>)>, int),
>
    decreases count,
{
    if count == 0 {
        Some((Seq::empty(), pos))
    } else {
        match parse_address(bytes, pos) {
            Some((candidate, at_a)) => match parse_u32(bytes, at_a) {
                Some((voters, at_b)) => match parse_addresses(bytes, at_b, voters as nat) {
                    Some((list, at_c)) => match parse_ballots(bytes, at_c, (count - 1) as nat) {
                        Some((rest, end)) => Some((seq![(candidate, list)] + rest, end)),
                        None => None,
                    },
                    None => None,
                },
                None => None,
            },
            None => None,
        }
    }
}

/// Reading gives back the addresses that were written.
pub proof fn lemma_addresses_round_trip(bytes: Seq<u8>, pos: int, addresses: Seq<Address>)
    requires
        has_at(bytes, pos, addresses_le(addresses)),
    ensures
        parse_addresses(bytes, pos, addresses.len()) == Some(
            (addresses, pos + addresses_le(addresses).len()),
        ),
    decreases addresses.len(),
{
    if addresses.len() > 0 {
        let rest = addresses.drop_first();
        lemma_has_at_split(bytes, pos, addresses[0]@, addresses_le(rest));
        lemma_address_round_trip(bytes, pos, addresses[0]);
        lemma_addresses_round_trip(bytes, pos + 32, rest);
        assert(seq![addresses[0]] + rest =~= addresses);
    }
}

/// Reading gives back the lists of voters that were written.
pub proof fn lemma_ballots_round_trip(bytes: Seq<u8>, pos: int, votes: Seq<(Address, Seq<Address>)>)
    requires
        ballots_fit(votes),
        has_at(bytes, pos, ballots_le(votes)),
    ensures
        parse_ballots(bytes, pos, votes.len()) == Some((votes, pos + ballots_le(votes).len())),
    decreases votes.len(),
{
    if votes.len() > 0 {
        let rest = votes.drop_first();
        let head = votes[0].0@ + u32_le(votes[0].1.len() as u32) + addresses_le(votes[0].1);
        assert(votes[0].1.len() <= u32::MAX);
        assert forall|i: int| 0 <= i < rest.len() implies (#[trigger] rest[i]).1.len()
            <= u32::MAX by {
            assert(rest[i] == votes[i + 1]);
        }
        lemma_has_at_split(bytes, pos, head, ballots_le(rest));
        lemma_has_at_split(
            bytes,
            pos,
            votes[0].0@ + u32_le(votes[0].1.len() as u32),
            addresses_le(votes[0].1),
        );
        lemma_has_at_split(bytes, pos, votes[0].0@, u32_le(votes[0].1.len() as u32));
        lemma_address_round_trip(bytes, pos, votes[0].0);
        lemma_u32_round_trip(bytes, pos + 32, votes[0].1.len() as u32);
        lemma_addresses_round_trip(bytes, pos + 36, votes[0].1);
        lemma_ballots_round_trip(bytes, pos + head.len(), rest);
        assert(seq![votes[0]] + rest =~= votes);
    }
}

impl VoteAccountView {
    /// The invariant of the record: no candidate has two lists.
    pub open spec fn well_formed(self) -> bool {
        distinct_keys(self.votes)
    }

    /// Whether the record can be written down: the texts fit, and so do
    /// the numbers of candidates and of each candidate's voters.
    pub open spec fn encodable(self) -> bool {
        &&& text_fits(self.name)
        &&& text_fits(self.start_date)
        &&& text_fits(self.end_date)
        &&& self.votes.len() <= u32::MAX
        &&& ballots_fit(self.votes)
    }

    /// The bytes of the record: flag, name, start, end, the number of
    /// candidates and their lists, the second flag.
    pub open spec fn encoding(self) -> Seq<u8> {
        bool_le(self.is_initialized) + text_le(self.name) + text_le(self.start_date) + text_le(
            self.end_date,
        ) + u32_le(self.votes.len() as u32) + ballots_le(self.votes) + bool_le(self.is_active)
    }

    /// The record that `bytes` starts with, if it starts with a well-formed
    /// one. Bytes behind the record are not looked at.
    pub open spec fn decoding(bytes: Seq<u8>) -> Option<VoteAccountView> {
        match parse_bool(bytes, 0) {
            Some((is_initialized, at_a)) => match parse_text(bytes, at_a) {
                Some((name, at_b)) => match parse_text(bytes, at_b) {
                    Some((start_date, at_c)) => match parse_text(bytes, at_c) {
                        Some((end_date, at_d)) => match parse_u32(bytes, at_d) {
                            Some((count, at_e)) => match parse_ballots(bytes, at_e, count as nat) {
                                Some((votes, at_f)) => match parse_bool(bytes, at_f) {
                                    Some((is_active, _)) => if distinct_keys(votes) {
                                        Some(
                                            VoteAccountView {
                                                is_initialized,
                                                name,
                                                start_date,
                                                end_date,
                                                votes,
                                                is_active,
                                            },
                                        )
                                    } else {
                                        None
                                    },
                                    None => None,
                                },
                                None => None,
                            },
                            None => None,
                        },
                        None => None,
                    },
                    None => None,
                },
                None => None,
            },
            None => None,
        }
    }

    /// The voters of `candidate`, in the order of their votes.
    pub open spec fn voters_of(self, candidate: Address) -> Seq<Address> {
        match crate::assoc::value_of(self.votes, candidate) {
            Some(voters) => voters,
            None => Seq::empty(),
        }
    }

    /// The record after `voter` voted for `candidate`: the voter stands at
    /// the end of the candidate's list.
    pub open spec fn with_vote(self, candidate: Address, voter: Address) -> VoteAccountView {
        VoteAccountView {
            is_initialized: self.is_initialized,
            name: self.name,
            start_date: self.start_date,
            end_date: self.end_date,
            votes: crate::assoc::put(self.votes, candidate, self.voters_of(candidate).push(voter)),
            is_active: self.is_active,
        }
    }
}

/// Decoding what was encoded gives the record back, whatever follows it in
/// the buffer.
pub proof fn lemma_vote_account_round_trip(record: VoteAccountView, tail: Seq<u8>)
    requires
        record.well_formed(),
        record.encodable(),
    ensures
        VoteAccountView::decoding(record.encoding() + tail) == Some(record),
{
    let bytes = record.encoding() + tail;
    let f1 = bool_le(record.is_initialized);
    let f2 = text_le(record.name);
    let f3 = text_le(record.start_date);
    let f4 = text_le(record.end_date);
    let f5 = u32_le(record.votes.len() as u32);
    let f6 = ballots_le(record.votes);
    let f7 = bool_le(record.is_active);
    assert(bytes.subrange(0, record.encoding().len() as int) =~= record.encoding());
    lemma_has_at_split(bytes, 0, f1 + f2 + f3 + f4 + f5 + f6, f7);
    lemma_has_at_split(bytes, 0, f1 + f2 + f3 + f4 + f5, f6);
    lemma_has_at_split(bytes, 0, f1 + f2 + f3 + f4, f5);
    lemma_has_at_split(bytes, 0, f1 + f2 + f3, f4);
    lemma_has_at_split(bytes, 0, f1 + f2, f3);
    lemma_has_at_split(bytes, 0, f1, f2);
    let at_a = 1int;
    let at_b = at_a + f2.len();
    let at_c = at_b + f3.len();
    let at_d = at_c + f4.len();
    let at_e = at_d + 4;
    let at_f = at_e + f6.len();
    lemma_bool_round_trip(bytes, 0, record.is_initialized);
    lemma_text_round_trip(bytes, at_a, record.name);
    lemma_text_round_trip(bytes, at_b, record.start_date);
    lemma_text_round_trip(bytes, at_c, record.end_date);
    lemma_u32_round_trip(bytes, at_d, record.votes.len() as u32);
    lemma_ballots_round_trip(bytes, at_e, record.votes);
    lemma_bool_round_trip(bytes, at_f, record.is_active);
}

/// Appends the addresses.
pub fn write_addresses(out: &mut Vec<u8>, addresses: &Vec<Address>)
    ensures
        final(out)@ == old(out)@ + addresses_le(addresses@),
{
    let mut i: usize = 0;
    assert(addresses@.skip(0) =~= addresses@);
    while i < addresses.len()
        invariant
            i <= addresses.len(),
            old(out)@ + addresses_le(addresses@) == out@ + addresses_le(addresses@.skip(i as int)),
        decreases addresses.len() - i,
    {
        let ghost before = out@;
        let ghost rest = addresses@.skip(i as int);
        write_address(out, &addresses[i]);
        proof {
            assert(rest[0] == addresses@[i as int]);
            assert(rest.drop_first() =~= addresses@.skip(i + 1));
            assert(out@ + addresses_le(addresses@.skip(i + 1)) =~= before + addresses_le(rest));
        }
        i += 1;
    }
    assert(out@ =~= old(out)@ + addresses_le(addresses@));
}

/// Reads `count` addresses from `pos` on.
pub fn read_addresses(data: &[u8], pos: usize, count: u32) -> (r: Option<(Vec<Address>, usize)>)
    ensures
        match r {
            Some((addresses, next)) => parse_addresses(data@, pos as int, count as nat) == Some(
                (addresses@, next as int),
            ),
            None => parse_addresses(data@, pos as int, count as nat) is None,
        },
{
    let mut addresses: Vec<Address> = Vec::new();
    let mut at: usize = pos;
    let mut i: u32 = 0;
    while i < count
        invariant
            i <= count,
            parse_addresses(data@, pos as int, count as nat) == match parse_addresses(
                data@,
                at as int,
                (count - i) as nat,
            ) {
                Some((rest, end)) => Some((addresses@ + rest, end)),
                None => None,
            },
        decreases count - i,
    {
        let (address, next) = match read_address(data, at) {
            Some(found) => found,
            None => { return None; },
        };
        proof {
            match parse_addresses(data@, next as int, (count - i - 1) as nat) {
                Some((rest, end)) => {
                    assert(addresses@.push(address) + rest =~= addresses@ + (seq![address] + rest));
                },
                None => {},
            }
        }
        addresses.push(address);
        at = next;
        i += 1;
    }
    assert(addresses@ + Seq::<Address>::empty() =~= addresses@);
    Some((addresses, at))
}

/// Appends the lists of voters, unless one of them is too long for its
/// length to be written down: then what was appended is of no use.
pub fn write_ballots(out: &mut Vec<u8>, votes: &Vec<(Address, Vec<Address>)>) -> (ok: bool)
    ensures
        ok == ballots_fit(ballots_view(votes@)),
        ok ==> final(out)@ == old(out)@ + ballots_le(ballots_view(votes@)),
{
    let ghost view = ballots_view(votes@);
    let mut i: usize = 0;
    assert(view.skip(0) =~= view);
    while i < votes.len()
        invariant
            i <= votes.len(),
            view == ballots_view(votes@),
            forall|j: int| 0 <= j < i ==> (#[trigger] view[j]).1.len() <= u32::MAX,
            old(out)@ + ballots_le(view) == out@ + ballots_le(view.skip(i as int)),
        decreases votes.len() - i,
    {
        let ghost before = out@;
        let ghost rest = view.skip(i as int);
        if votes[i].1.len() > u32::MAX as usize {
            assert(view[i as int].1.len() > u32::MAX);
            return false;
        }
        write_address(out, &votes[i].0);
        write_u32(out, votes[i].1.len() as u32);
        write_addresses(out, &votes[i].1);
        proof {
            assert(rest[0] == view[i as int]);
            assert(rest.drop_first() =~= view.skip(i + 1));
            assert(out@ + ballots_le(view.skip(i + 1)) =~= before + ballots_le(rest));
        }
        i += 1;
    }
    assert(out@ =~= old(out)@ + ballots_le(view));
    true
}

/// Reads the lists of voters of `count` candidates from `pos` on.
pub fn read_ballots(data: &[u8], pos: usize, count: u32) -> (r: Option<
    (Vec<(Address, Vec<Address>)>, usize),
>)
    ensures
        match r {
            Some((votes, next)) => parse_ballots(data@, pos as int, count as nat) == Some(
                (ballots_view(votes@), next as int),
            ),
            None => parse_ballots(data@, pos as int, count as nat) is None,
        },
{
    let mut votes: Vec<(Address, Vec<Address>)> = Vec::new();
    let mut at: usize = pos;
    let mut i: u32 = 0;
    assert(ballots_view(votes@) =~= Seq::empty());
    while i < count
        invariant
            i <= count,
            parse_ballots(data@, pos as int, count as nat) == match parse_ballots(
                data@,
                at as int,
                (count - i) as nat,
            ) {
                Some((rest, end)) => Some((ballots_view(votes@) + rest, end)),
                None => None,
            },
        decreases count - i,
    {
        let (candidate, at_a) = match read_address(data, at) {
            Some(found) => found,
            None => { return None; },
        };
        let (voters, at_b) = match read_u32(data, at_a) {
            Some(found) => found,
            None => { return None; },
        };
        let (list, at_c) = match read_addresses(data, at_b, voters) {
            Some(found) => found,
            None => { return None; },
        };
        proof {
            assert(ballots_view(votes@.push((candidate, list))) =~= ballots_view(votes@).push(
                (candidate, list@),
            ));
            match parse_ballots(data@, at_c as int, (count - i - 1) as nat) {
                Some((rest, end)) => {
                    assert(ballots_view(votes@).push((candidate, list@)) + rest =~= ballots_view(
                        votes@,
                    ) + (seq![(candidate, list@)] + rest));
                },
                None => {},
            }
        }
        votes.push((candidate, list));
        at = at_c;
        i += 1;
    }
    assert(ballots_view(votes@) + Seq::<(Address, Seq<Address>)>::empty() =~= ballots_view(votes@));
    Some((votes, at))
}

/// Finds the list of the voters of `candidate`.
pub fn find_ballots(votes: &Vec<(Address, Vec<Address>)>, candidate: &Address) -> (r: Option<usize>)
    ensures
        match r {
            Some(i) => is_first_with_key(ballots_view(votes@), *candidate, i as int),
            None => !crate::assoc::holds_key(ballots_view(votes@), *candidate),
        },
{
    let mut i: usize = 0;
    while i < votes.len()
        invariant
            i <= votes.len(),
            forall|j: int| 0 <= j < i ==> (#[trigger] ballots_view(votes@)[j]).0 != *candidate,
        decreases votes.len() - i,
    {
        if votes[i].0.same(candidate) {
            return Some(i);
        }
        i += 1;
    }
    None
}

/// Whether no candidate has two lists.
pub fn ballots_distinct(votes: &Vec<(Address, Vec<Address>)>) -> (r: bool)
    ensures
        r == distinct_keys(ballots_view(votes@)),
{
    let ghost view = ballots_view(votes@);
    let mut j: usize = 0;
    while j < votes.len()
        invariant
            j <= votes.len(),
            view == ballots_view(votes@),
            forall|a: int, b: int| 0 <= a < b < j ==> (#[trigger] view[a]).0 != (#[trigger] view[b]).0,
        decreases votes.len() - j,
    {
        let mut i: usize = 0;
        while i < j
            invariant
                i <= j < votes.len(),
                view == ballots_view(votes@),
                forall|a: int| 0 <= a < i ==> (#[trigger] view[a]).0 != view[j as int].0,
            decreases j - i,
        {
            if votes[i].0.same(&votes[j].0) {
                assert(view[i as int].0 == view[j as int].0);
                return false;
            }
            i += 1;
        }
        j += 1;
    }
    true
}

impl VoteAccountState {
    /// Writes the record down.
    pub fn encode(&self) -> (r: Result<Vec<u8>, ElectionError>)
        ensures
            match r {
                Ok(bytes) => self@.encodable() && bytes@ == self@.encoding(),
                Err(e) => !self@.encodable() && e == ElectionError::RecordOverflow,
            },
    {
        let mut out: Vec<u8> = Vec::new();
        write_bool(&mut out, self.is_initialized);
        if !write_text(&mut out, self.name.as_str()) {
            return Err(ElectionError::RecordOverflow);
        }
        if !write_text(&mut out, self.start_date.as_str()) {
            return Err(ElectionError::RecordOverflow);
        }
        if !write_text(&mut out, self.end_date.as_str()) {
            return Err(ElectionError::RecordOverflow);
        }
        if self.votes.len() > u32::MAX as usize {
            return Err(ElectionError::RecordOverflow);
        }
        write_u32(&mut out, self.votes.len() as u32);
        if !write_ballots(&mut out, &self.votes) {
            return Err(ElectionError::RecordOverflow);
        }
        write_bool(&mut out, self.is_active);
        assert(out@ =~= self@.encoding());
        Ok(out)
    }

    /// Reads the record that `data` starts with.
    pub fn decode(data: &[u8]) -> (r: Result<VoteAccountState, ElectionError>)
        ensures
            match r {
                Ok(record) => VoteAccountView::decoding(data@) == Some(record@)
                    && record@.well_formed(),
                Err(e) => VoteAccountView::decoding(data@) is None && e == ElectionError::DecodeError,
            },
    {
        let (is_initialized, at_a) = match read_bool(data, 0) {
            Some(found) => found,
            None => { return Err(ElectionError::DecodeError); },
        };
        let (name, at_b) = match read_text(data, at_a) {
            Some(found) => found,
            None => { return Err(ElectionError::DecodeError); },
        };
        let (start_date, at_c) = match read_text(data, at_b) {
            Some(found) => found,
            None => { return Err(ElectionError::DecodeError); },
        };
        let (end_date, at_d) = match read_text(data, at_c) {
            Some(found) => found,
            None => { return Err(ElectionError::DecodeError); },
        };
        let (count, at_e) = match read_u32(data, at_d) {
            Some(found) => found,
            None => { return Err(ElectionError::DecodeError); },
        };
        let (votes, at_f) = match read_ballots(data, at_e, count) {
            Some(found) => found,
            None => { return Err(ElectionError::DecodeError); },
        };
        let (is_active, _) = match read_bool(data, at_f) {
            Some(found) => found,
            None => { return Err(ElectionError::DecodeError); },
        };
        if !ballots_distinct(&votes) {
            return Err(ElectionError::DecodeError);
        }
        Ok(VoteAccountState { is_initialized, name, start_date, end_date, votes, is_active })
    }

    /// Takes the vote of `voter` for `candidate`.
    pub fn record_vote(&mut self, candidate: Address, voter: Address)
        ensures
            final(self)@ == old(self)@.with_vote(candidate, voter),
    {
        match find_ballots(&self.votes, &candidate) {
            Some(i) => {
                proof {
                    crate::assoc::lemma_first_with_key(
                        ballots_view(self.votes@),
                        candidate,
                        i as int,
                    );
                }
                let mut voters: Vec<Address> = Vec::new();
                let mut k: usize = 0;
                while k < self.votes[i].1.len()
                    invariant
                        i < self.votes.len(),
                        k <= self.votes[i as int].1.len(),
                        voters@ == self.votes[i as int].1@.take(k as int),
                    decreases self.votes[i as int].1.len() - k,
                {
                    voters.push(self.votes[i].1[k]);
                    assert(voters@ =~= self.votes[i as int].1@.take(k + 1));
                    k += 1;
                }
                assert(voters@ =~= self.votes[i as int].1@);
                voters.push(voter);
                self.votes[i] = (candidate, voters);
                assert(ballots_view(self.votes@) =~= crate::assoc::put(
                    ballots_view(old(self).votes@),
                    candidate,
                    old(self)@.voters_of(candidate).push(voter),
                ));
            },
            None => {
                let mut voters: Vec<Address> = Vec::new();
                voters.push(voter);
                assert(voters@ =~= Seq::<Address>::empty().push(voter));
                self.votes.push((candidate, voters));
                assert(ballots_view(self.votes@) =~= crate::assoc::put(
                    ballots_view(old(self).votes@),
                    candidate,
                    old(self)@.voters_of(candidate).push(voter),
                ));
            },
        }
    }
}

} // verus!

use crate::address::attached_address;
use crate::address::candidate_list_tag;
use crate::address::election_address;
use crate::address::find_attached_address;
use crate::address::find_election_address;
use crate::address::result_tag;
use crate::address::Address;
use crate::assoc::distinct_keys;
use crate::assoc::first_with_key;
use crate::assoc::holds_key;
use crate::assoc::lemma_holds_key_has_first;
use crate::assoc::lemma_named_view_push;
use crate::assoc::lemma_value_of_entry;
use crate::assoc::named_view;
use crate::assoc::names_distinct;
use crate::assoc::value_of;
use crate::error::ElectionError;
use crate::pda_management::candidate_list_manager_account::candidate_list_loaded;
use crate::pda_management::candidate_list_manager_account::retrieve_candidate_list;
use crate::pda_management::election_manager_account::election_loaded;
use crate::pda_management::election_manager_account::load_election;
use crate::record::applied;
use crate::record::applied_all;
use crate::record::is_expected;
use crate::record::lemma_stored;
use crate::record::records_view;
use crate::record::replace_record;
use crate::record::RecordHandle;
use crate::record::RecordView;
use crate::state::election_account_state::ElectionAccountState;
use crate::state::election_account_state::ElectionView;
use crate::state::result_state::lemma_result_round_trip;
use crate::state::result_state::ResultState;
use crate::state::result_state::ResultView;
use vstd::prelude::*;

verus! {

/// The size of the tally of an election.
pub const RESULT_SIZE: usize = 10000;

/// The place of the tally among the records of an instruction that
/// announces an election.
pub const NEW_RESULT_INDEX: usize = 4;

/// The records after the tally was created in its place.
pub open spec fn result_created(program: Address, records: Seq<RecordView>, result: Option<Address>) -> Result<
    Seq<RecordView>,
    ElectionError,
> {
    if records.len() <= NEW_RESULT_INDEX {
        Err(ElectionError::MissingRecordArgument)
    } else if result != Some(records[NEW_RESULT_INDEX as int].address) {
        Err(ElectionError::AddressMismatch)
    } else {
        match records[NEW_RESULT_INDEX as int].created(RESULT_SIZE as int, program) {
            Err(e) => Err(e),
            Ok(fresh) => Ok(records.update(NEW_RESULT_INDEX as int, fresh)),
        }
    }
}

/// Creates the tally of an election, at the address that was derived for
/// it.
pub fn generate_result_account_at(
    program_id: &Address,
    records: &mut Vec<RecordHandle>,
    result: Option<Address>,
) -> (r: Result<(), ElectionError>)
    ensures
        applied_all(
            result_created(*program_id, records_view(old(records)@), result),
            records_view(old(records)@),
            records_view(final(records)@),
            r,
        ),
{
    if records.len() <= NEW_RESULT_INDEX {
        return Err(ElectionError::MissingRecordArgument);
    }
    if !is_expected(&result, &records[NEW_RESULT_INDEX].address) {
        return Err(ElectionError::AddressMismatch);
    }
    match records[NEW_RESULT_INDEX].create(Some(RESULT_SIZE), program_id) {
        Ok(fresh) => {
            replace_record(records, NEW_RESULT_INDEX, fresh);
            Ok(())
        },
        Err(e) => Err(e),
    }
}

/// Creates the tally of the election `election_name`.
pub fn generate_result_account(
    program_id: &Address,
    records: &mut Vec<RecordHandle>,
    election_name: String,
) -> (r: Result<(), ElectionError>)
    ensures
        applied_all(
            result_created(
                *program_id,
                records_view(old(records)@),
                attached_address(*program_id, election_name@, result_tag()),
            ),
            records_view(old(records)@),
            records_view(final(records)@),
            r,
        ),
{
    let result = find_attached_address(program_id, election_name.as_str(), "result");
    generate_result_account_at(program_id, records, result)
}

/// How many records an instruction that counts the votes needs.
pub const COUNTING_RECORDS: usize = 5;

/// The place of the election record among the records of such an
/// instruction.
pub const COUNTING_ELECTION_INDEX: usize = 1;

/// The place of the registry.
pub const COUNTING_CANDIDATE_LIST_INDEX: usize = 2;

/// The place of the tally.
pub const COUNTING_RESULT_INDEX: usize = 3;

/// Whether a candidate with `votes` of `total` votes has a larger share
/// than one with `other`. Where no vote was cast all shares are the same.
pub open spec fn outranks(votes: i64, other: i64, total: i64) -> bool {
    (total > 0 && votes > other) || (total < 0 && votes < other)
}

/// Whether `place` is where an entry with `votes` goes into a ranking:
/// behind every entry that it does not outrank, in front of the first that
/// it outranks.
pub open spec fn is_rank_position(
    ranking: Seq<(Seq<char>, i64)>,
    votes: i64,
    total: i64,
    place: int,
) -> bool {
    &&& 0 <= place <= ranking.len()
    &&& forall|j: int| 0 <= j < place ==> !outranks(votes, (#[trigger] ranking[j]).1, total)
    &&& place < ranking.len() ==> outranks(votes, ranking[place].1, total)
}

/// The place where an entry with `votes` goes into a ranking.
pub open spec fn rank_position(ranking: Seq<(Seq<char>, i64)>, votes: i64, total: i64) -> int {
    choose|place: int| is_rank_position(ranking, votes, total, place)
}

/// The ranking with one more entry in its place.
pub open spec fn ranked_insert(
    ranking: Seq<(Seq<char>, i64)>,
    entry: (Seq<char>, i64),
    total: i64,
) -> Seq<(Seq<char>, i64)> {
    ranking.insert(rank_position(ranking, entry.1, total), entry)
}

/// The entries in the order of their shares, the largest first. Entries
/// with the same share keep the order in which they came.
pub open spec fn ranking(scores: Seq<(Seq<char>, i64)>, total: i64) -> Seq<(Seq<char>, i64)>
    decreases scores.len(),
{
    if scores.len() == 0 {
        Seq::empty()
    } else {
        ranked_insert(ranking(scores.drop_last(), total), scores.last(), total)
    }
}

/// Whether no entry of the ranking is outranked by one behind it.
pub open spec fn is_ranked(ranking: Seq<(Seq<char>, i64)>, total: i64) -> bool {
    forall|i: int, j: int|
        0 <= i < j < ranking.len() ==> !outranks(
            (#[trigger] ranking[j]).1,
            (#[trigger] ranking[i]).1,
            total,
        )
}

/// For each candidate of the registry, its name and the votes that the
/// election has counted for it.
pub open spec fn scores(candidates: Seq<(Seq<char>, Address)>, election: ElectionView) -> Seq<
    (Seq<char>, i64),
> {
    Seq::new(candidates.len(), |i: int| (candidates[i].0, election.votes_for(candidates[i].1)))
}

/// There is one place for an entry in a ranking: a place that fits is
/// `rank_position`.
pub proof fn lemma_rank_position(
    ranking: Seq<(Seq<char>, i64)>,
    votes: i64,
    total: i64,
    place: int,
)
    requires
        is_rank_position(ranking, votes, total, place),
    ensures
        rank_position(ranking, votes, total) == place,
{
    let chosen = rank_position(ranking, votes, total);
    assert(is_rank_position(ranking, votes, total, chosen));
    if chosen < place {
        assert(!outranks(votes, ranking[chosen].1, total));
    }
    if place < chosen {
        assert(!outranks(votes, ranking[place].1, total));
    }
}

/// Every ranking has a place for one more entry.
pub proof fn lemma_rank_position_exists(ranking: Seq<(Seq<char>, i64)>, votes: i64, total: i64)
    ensures
        is_rank_position(ranking, votes, total, rank_position(ranking, votes, total)),
{
    lemma_rank_position_from(ranking, votes, total, 0);
}

proof fn lemma_rank_position_from(
    ranking: Seq<(Seq<char>, i64)>,
    votes: i64,
    total: i64,
    start: int,
)
    requires
        0 <= start <= ranking.len(),
        forall|j: int| 0 <= j < start ==> !outranks(votes, (#[trigger] ranking[j]).1, total),
    ensures
        is_rank_position(ranking, votes, total, rank_position(ranking, votes, total)),
    decreases ranking.len() - start,
{
    if start == ranking.len() || outranks(votes, ranking[start].1, total) {
        assert(is_rank_position(ranking, votes, total, start));
    } else {
        lemma_rank_position_from(ranking, votes, total, start + 1);
    }
}

/// One more entry in its place keeps the ranking in order, adds nothing
/// but the entry, and keeps the names distinct.
pub proof fn lemma_ranked_insert(
    ranking: Seq<(Seq<char>, i64)>,
    entry: (Seq<char>, i64),
    total: i64,
)
    requires
        is_ranked(ranking, total),
    ensures
        is_ranked(ranked_insert(ranking, entry, total), total),
        ranked_insert(ranking, entry, total).to_multiset() == ranking.to_multiset().insert(entry),
        ranked_insert(ranking, entry, total).len() == ranking.len() + 1,
        distinct_keys(ranking) && !holds_key(ranking, entry.0) ==> distinct_keys(
            ranked_insert(ranking, entry, total),
        ),
        forall|name: Seq<char>|
            holds_key(ranked_insert(ranking, entry, total), name) ==> name == entry.0
                || holds_key(ranking, name),
{
    lemma_rank_position_exists(ranking, entry.1, total);
    let place = rank_position(ranking, entry.1, total);
    let after = ranked_insert(ranking, entry, total);
    assert forall|i: int, j: int| 0 <= i < j < after.len() implies !outranks(
        (#[trigger] after[j]).1,
        (#[trigger] after[i]).1,
        total,
    ) by {
        if j == place {
            assert(after[i] == ranking[i]);
        } else if i == place {
            assert(after[j] == ranking[j - 1]);
            if place < j - 1 {
                assert(!outranks(ranking[j - 1].1, ranking[place].1, total));
            }
        } else {
            let a = if i < place { i } else { i - 1 };
            let b = if j < place { j } else { j - 1 };
            assert(after[i] == ranking[a]);
            assert(after[j] == ranking[b]);
        }
    }
    assert(after.remove(place) =~= ranking);
    vstd::seq_lib::to_multiset_remove(after, place);
    assert(after.to_multiset().count(entry) > 0) by {
        after.to_multiset_ensures();
        assert(after[place] == entry);
        assert(after.contains(entry));
    }
    assert(after.to_multiset() =~= ranking.to_multiset().insert(entry));
    if distinct_keys(ranking) && !holds_key(ranking, entry.0) {
        assert forall|i: int, j: int| 0 <= i < j < after.len() implies (#[trigger] after[i]).0 != (
        #[trigger] after[j]).0 by {
            let a = if i < place { i } else { i - 1 };
            let b = if j < place { j } else { j - 1 };
            if i == place {
                assert(after[j] == ranking[b]);
            } else if j == place {
                assert(after[i] == ranking[a]);
            } else {
                assert(after[i] == ranking[a]);
                assert(after[j] == ranking[b]);
            }
        }
    }
    assert forall|name: Seq<char>| holds_key(after, name) implies name == entry.0
        || holds_key(ranking, name) by {
        let k = choose|k: int| 0 <= k < after.len() && (#[trigger] after[k]).0 == name;
        if k != place {
            let b = if k < place { k } else { k - 1 };
            assert(after[k] == ranking[b]);
        }
    }
}

/// The ranking of a list of scores is in order, holds exactly the scores,
/// and names no candidate twice where the scores name none twice.
pub proof fn lemma_ranking(scores: Seq<(Seq<char>, i64)>, total: i64)
    ensures
        is_ranked(ranking(scores, total), total),
        ranking(scores, total).to_multiset() == scores.to_multiset(),
        ranking(scores, total).len() == scores.len(),
        distinct_keys(scores) ==> distinct_keys(ranking(scores, total)),
        forall|name: Seq<char>|
            holds_key(ranking(scores, total), name) ==> holds_key(
                scores,
                name,
            ),
    decreases scores.len(),
{
    if scores.len() == 0 {
        assert(scores.to_multiset() =~= ranking(scores, total).to_multiset()) by {
            assert(scores =~= Seq::empty());
        }
    } else {
        let front = scores.drop_last();
        let last = scores.last();
        lemma_ranking(front, total);
        lemma_ranked_insert(ranking(front, total), last, total);
        assert(front.push(last) =~= scores);
        vstd::seq_lib::to_multiset_build(front, last);
        assert forall|name: Seq<char>|
            holds_key(ranking(scores, total), name) implies holds_key(
            scores,
            name,
        ) by {
            if name == last.0 {
                assert(scores[scores.len() - 1].0 == name);
            } else {
                assert(holds_key(front, name));
                let k = choose|k: int| 0 <= k < front.len() && (#[trigger] front[k]).0 == name;
                assert(scores[k].0 == name);
            }
        }
        if distinct_keys(scores) {
            assert(distinct_keys(front)) by {
                assert forall|i: int, j: int| 0 <= i < j < front.len() implies (
                #[trigger] front[i]).0 != (#[trigger] front[j]).0 by {
                    assert(front[i] == scores[i]);
                    assert(front[j] == scores[j]);
                }
            }
            if holds_key(ranking(front, total), last.0) {
                assert(holds_key(front, last.0));
                let k = choose|k: int| 0 <= k < front.len() && (#[trigger] front[k]).0 == last.0;
                assert(scores[k].0 == scores[scores.len() - 1].0);
            }
        }
    }
}

/// Whether a candidate with `votes` of `total` votes outranks one with
/// `other`.
pub fn has_larger_share(votes: i64, other: i64, total: i64) -> (r: bool)
    ensures
        r == outranks(votes, other, total),
{
    (total > 0 && votes > other) || (total < 0 && votes < other)
}

/// Puts the scores in the order of their shares of `total` votes, the
/// largest first; scores with the same share keep their order.
pub fn rank(scores: &Vec<(String, i64)>, total: i64) -> (r: Vec<(String, i64)>)
    ensures
        named_view(r@) == ranking(named_view(scores@), total),
{
    let ghost view = named_view(scores@);
    let mut out: Vec<(String, i64)> = Vec::new();
    let mut i: usize = 0;
    assert(view.take(0) =~= Seq::empty());
    assert(named_view(out@) =~= Seq::empty());
    while i < scores.len()
        invariant
            i <= scores.len(),
            view == named_view(scores@),
            named_view(out@) == ranking(view.take(i as int), total),
        decreases scores.len() - i,
    {
        let votes = scores[i].1;
        let mut place: usize = 0;
        while place < out.len() && !has_larger_share(votes, out[place].1, total)
            invariant
                place <= out.len(),
                forall|j: int|
                    0 <= j < place ==> !outranks(votes, (#[trigger] named_view(out@)[j]).1, total),
            decreases out.len() - place,
        {
            place += 1;
        }
        let name = scores[i].0.clone();
        proof {
            let before = named_view(out@);
            assert(is_rank_position(before, votes, total, place as int));
            lemma_rank_position(before, votes, total, place as int);
            assert(view.take(i + 1).drop_last() =~= view.take(i as int));
            assert(view.take(i + 1).last() == (name@, votes));
            assert(named_view(out@.insert(place as int, (name, votes))) =~= before.insert(
                place as int,
                (name@, votes),
            ));
        }
        out.insert(place, (name, votes));
        i += 1;
    }
    assert(view.take(scores.len() as int) =~= view);
    out
}

/// Looks up, for each candidate, the votes that the election has counted
/// for it.
pub fn collect_scores(candidates: &Vec<(String, Address)>, election: &ElectionAccountState) -> (r:
    Vec<(String, i64)>)
    ensures
        named_view(r@) == scores(named_view(candidates@), election@),
{
    let mut out: Vec<(String, i64)> = Vec::new();
    let mut i: usize = 0;
    while i < candidates.len()
        invariant
            i <= candidates.len(),
            out.len() == i,
            forall|j: int|
                0 <= j < i ==> (#[trigger] named_view(out@)[j]) == scores(
                    named_view(candidates@),
                    election@,
                )[j],
        decreases candidates.len() - i,
    {
        let name = candidates[i].0.clone();
        let votes = election.votes_for(&candidates[i].1);
        proof {
            lemma_named_view_push(out@, (name, votes));
        }
        out.push((name, votes));
        i += 1;
    }
    assert(named_view(out@) =~= scores(named_view(candidates@), election@));
    out
}

/// The tally that a record holds, where the record was created.
pub open spec fn result_loaded(record: RecordView) -> Result<ResultView, ElectionError> {
    if !record.allocated() {
        Err(ElectionError::AccountNotInitialized)
    } else {
        match ResultView::decoding(record.data) {
            None => Err(ElectionError::DecodeError),
            Some(tally) => Ok(tally),
        }
    }
}

/// The tally record after the number of all votes was written into it.
pub open spec fn number_recorded(record: RecordView, number_of_votes: i64) -> Result<
    RecordView,
    ElectionError,
> {
    match result_loaded(record) {
        Err(e) => Err(e),
        Ok(tally) => {
            let next = ResultView { results: tally.results, number_of_votes };
            record.stored(next.encodable(), next.encoding())
        },
    }
}

/// The tally record after the scores were written into it, ranked by
/// their shares of the number of votes that the record holds, in place of
/// what it held before. Scores that name a candidate twice are refused.
pub open spec fn results_recorded(record: RecordView, scores: Seq<(Seq<char>, i64)>) -> Result<
    RecordView,
    ElectionError,
> {
    match result_loaded(record) {
        Err(e) => Err(e),
        Ok(tally) => if !distinct_keys(scores) {
            Err(ElectionError::InvalidCandidate)
        } else {
            let next = ResultView {
                results: ranking(scores, tally.number_of_votes),
                number_of_votes: tally.number_of_votes,
            };
            record.stored(next.encodable(), next.encoding())
        },
    }
}

/// The tally record after the candidates were scored by the election
/// record and ranked.
pub open spec fn results_shown(
    candidates: Seq<(Seq<char>, Address)>,
    election: RecordView,
    result: RecordView,
) -> Result<RecordView, ElectionError> {
    match election_loaded(election) {
        Err(e) => Err(e),
        Ok(found) => results_recorded(result, scores(candidates, found)),
    }
}

/// The records after the votes were counted: the tally holds the number
/// of all votes and, for each candidate of the registry, its votes, ranked.
/// `election`, `list` and `result` are the addresses derived for the three
/// records; each record must lie at its address.
pub open spec fn votes_counted(
    records: Seq<RecordView>,
    election: Option<Address>,
    list: Option<Address>,
    result: Option<Address>,
) -> Result<Seq<RecordView>, ElectionError> {
    if records.len() < COUNTING_RECORDS {
        Err(ElectionError::MissingRecordArgument)
    } else if election != Some(records[COUNTING_ELECTION_INDEX as int].address) || list != Some(
        records[COUNTING_CANDIDATE_LIST_INDEX as int].address,
    ) || result != Some(records[COUNTING_RESULT_INDEX as int].address) {
        Err(ElectionError::AddressMismatch)
    } else {
        match candidate_list_loaded(records[COUNTING_CANDIDATE_LIST_INDEX as int]) {
            Err(e) => Err(e),
            Ok(list) => match election_loaded(records[COUNTING_ELECTION_INDEX as int]) {
                Err(e) => Err(e),
                Ok(found) => match number_recorded(
                    records[COUNTING_RESULT_INDEX as int],
                    found.number_of_votes,
                ) {
                    Err(e) => Err(e),
                    Ok(numbered) => match results_shown(
                        list.candidates,
                        records[COUNTING_ELECTION_INDEX as int],
                        numbered,
                    ) {
                        Err(e) => Err(e),
                        Ok(ranked) => Ok(records.update(COUNTING_RESULT_INDEX as int, ranked)),
                    },
                },
            },
        }
    }
}

/// What counting the votes of the election `election_name` does to the
/// records, with the three addresses derived from the program and the
/// election's name.
pub open spec fn election_tallied(
    program: Address,
    records: Seq<RecordView>,
    election_name: Seq<char>,
) -> Result<Seq<RecordView>, ElectionError> {
    votes_counted(
        records,
        election_address(program, election_name),
        attached_address(program, election_name, candidate_list_tag()),
        attached_address(program, election_name, result_tag()),
    )
}

/// Reads the tally that a record holds.
pub fn load_result(record: &RecordHandle) -> (r: Result<ResultState, ElectionError>)
    ensures
        match r {
            Ok(tally) => result_loaded(record@) == Ok::<ResultView, ElectionError>(tally@)
                && tally@.well_formed(),
            Err(e) => result_loaded(record@) == Err::<ResultView, ElectionError>(e),
        },
{
    if record.data.len() == 0 {
        return Err(ElectionError::AccountNotInitialized);
    }
    ResultState::decode(record.data.as_slice())
}

/// Writes the number of all votes into the tally that a record holds.
pub fn add_number_of_votes(record: &mut RecordHandle, number_of_votes: i64) -> (r: Result<
    (),
    ElectionError,
>)
    ensures
        applied(number_recorded(old(record)@, number_of_votes), old(record)@, final(record)@, r),
{
    let mut tally = match load_result(record) {
        Ok(tally) => tally,
        Err(e) => { return Err(e); },
    };
    tally.number_of_votes = number_of_votes;
    match record.store(tally.encode()) {
        Ok(next) => {
            *record = next;
            Ok(())
        },
        Err(e) => Err(e),
    }
}

/// Ranks the scores and writes them into the tally that a record holds,
/// in place of what it held.
pub fn sort_and_add_results(record: &mut RecordHandle, scores: Vec<(String, i64)>) -> (r: Result<
    (),
    ElectionError,
>)
    ensures
        applied(
            results_recorded(old(record)@, named_view(scores@)),
            old(record)@,
            final(record)@,
            r,
        ),
{
    let mut tally = match load_result(record) {
        Ok(tally) => tally,
        Err(e) => { return Err(e); },
    };
    if !names_distinct(&scores) {
        return Err(ElectionError::InvalidCandidate);
    }
    tally.results = rank(&scores, tally.number_of_votes);
    match record.store(tally.encode()) {
        Ok(next) => {
            *record = next;
            Ok(())
        },
        Err(e) => Err(e),
    }
}

/// Scores the candidates by the election record, ranks them, and writes
/// them into the tally.
pub fn add_and_show_result(
    candidate_list: Vec<(String, Address)>,
    election_record: &RecordHandle,
    result_record: &mut RecordHandle,
) -> (r: Result<(), ElectionError>)
    ensures
        applied(
            results_shown(named_view(candidate_list@), election_record@, old(result_record)@),
            old(result_record)@,
            final(result_record)@,
            r,
        ),
{
    let election = match load_election(election_record) {
        Ok(election) => election,
        Err(e) => { return Err(e); },
    };
    let scores = collect_scores(&candidate_list, &election);
    sort_and_add_results(result_record, scores)
}

/// Counts the votes, with the three addresses as they were derived.
pub fn counting_votes_at(
    records: &mut Vec<RecordHandle>,
    election: Option<Address>,
    list: Option<Address>,
    result: Option<Address>,
) -> (r: Result<(), ElectionError>)
    ensures
        applied_all(
            votes_counted(records_view(old(records)@), election, list, result),
            records_view(old(records)@),
            records_view(final(records)@),
            r,
        ),
{
    if records.len() < COUNTING_RECORDS {
        return Err(ElectionError::MissingRecordArgument);
    }
    if !is_expected(&election, &records[COUNTING_ELECTION_INDEX].address) || !is_expected(
        &list,
        &records[COUNTING_CANDIDATE_LIST_INDEX].address,
    ) || !is_expected(&result, &records[COUNTING_RESULT_INDEX].address) {
        return Err(ElectionError::AddressMismatch);
    }
    let candidate_list = match retrieve_candidate_list(&records[COUNTING_CANDIDATE_LIST_INDEX]) {
        Ok(candidate_list) => candidate_list,
        Err(e) => { return Err(e); },
    };
    let total = match crate::pda_management::election_manager_account::get_number_of_votes(
        &records[COUNTING_ELECTION_INDEX],
    ) {
        Ok(total) => total,
        Err(e) => { return Err(e); },
    };
    let mut tally = records[COUNTING_RESULT_INDEX].duplicate();
    match add_number_of_votes(&mut tally, total) {
        Ok(()) => {},
        Err(e) => { return Err(e); },
    }
    match add_and_show_result(candidate_list, &records[COUNTING_ELECTION_INDEX], &mut tally) {
        Ok(()) => {},
        Err(e) => { return Err(e); },
    }
    replace_record(records, COUNTING_RESULT_INDEX, tally);
    Ok(())
}

/// Counts the votes of the election `election_name`: writes into its tally
/// the number of all votes and the votes of each registered candidate,
/// ranked by share. Counting again without a new vote writes the same
/// tally.
pub fn counting_votes(
    program_id: &Address,
    records: &mut Vec<RecordHandle>,
    election_name: String,
) -> (r: Result<(), ElectionError>)
    ensures
        applied_all(
            election_tallied(*program_id, records_view(old(records)@), election_name@),
            records_view(old(records)@),
            records_view(final(records)@),
            r,
        ),
{
    let election = find_election_address(program_id, election_name.as_str());
    let list = find_attached_address(program_id, election_name.as_str(), "candidate-list");
    let result = find_attached_address(program_id, election_name.as_str(), "result");
    counting_votes_at(records, election, list, result)
}


/// The tally that counting the votes of `election` for the candidates of
/// `registry` gives.
pub open spec fn tally_of(registry: Seq<(Seq<char>, Address)>, election: ElectionView) -> ResultView {
    ResultView {
        results: ranking(scores(registry, election), election.number_of_votes),
        number_of_votes: election.number_of_votes,
    }
}

/// After the votes were counted, the tally record holds the number of all
/// votes and the votes of each registered candidate, ranked; no other
/// record has changed.
pub proof fn lemma_counted_tally(
    records: Seq<RecordView>,
    election: Option<Address>,
    list: Option<Address>,
    result: Option<Address>,
    after: Seq<RecordView>,
)
    requires
        votes_counted(records, election, list, result) == Ok::<Seq<RecordView>, ElectionError>(
            after,
        ),
    ensures
        after.len() == records.len(),
        forall|k: int|
            0 <= k < records.len() && k != COUNTING_RESULT_INDEX ==> after[k] == records[k],
        candidate_list_loaded(records[COUNTING_CANDIDATE_LIST_INDEX as int]) is Ok,
        election_loaded(records[COUNTING_ELECTION_INDEX as int]) is Ok,
        result_loaded(after[COUNTING_RESULT_INDEX as int]) == Ok::<ResultView, ElectionError>(
            tally_of(
                candidate_list_loaded(records[COUNTING_CANDIDATE_LIST_INDEX as int])->Ok_0.candidates,
                election_loaded(records[COUNTING_ELECTION_INDEX as int])->Ok_0,
            ),
        ),
        tally_of(
            candidate_list_loaded(records[COUNTING_CANDIDATE_LIST_INDEX as int])->Ok_0.candidates,
            election_loaded(records[COUNTING_ELECTION_INDEX as int])->Ok_0,
        ).well_formed(),
{
    let registry = candidate_list_loaded(records[COUNTING_CANDIDATE_LIST_INDEX as int])->Ok_0;
    let found = election_loaded(records[COUNTING_ELECTION_INDEX as int])->Ok_0;
    let total = found.number_of_votes;
    let start = records[COUNTING_RESULT_INDEX as int];
    let old_tally = result_loaded(start)->Ok_0;
    let first = ResultView { results: old_tally.results, number_of_votes: total };
    let numbered = number_recorded(start, total)->Ok_0;
    lemma_stored(start, first.encodable(), first.encoding(), numbered);
    lemma_result_round_trip(first, start.data.skip(first.encoding().len() as int));
    assert(result_loaded(numbered) == Ok::<ResultView, ElectionError>(first));
    let entries = scores(registry.candidates, found);
    let second = tally_of(registry.candidates, found);
    let ranked = results_recorded(numbered, entries)->Ok_0;
    lemma_ranking(entries, total);
    lemma_stored(numbered, second.encodable(), second.encoding(), ranked);
    lemma_result_round_trip(second, numbered.data.skip(second.encoding().len() as int));
}

/// Counting the votes again, with nothing changed in between, leaves every
/// record as the first count left it.
pub proof fn lemma_counting_again_changes_nothing(
    records: Seq<RecordView>,
    election: Option<Address>,
    list: Option<Address>,
    result: Option<Address>,
    after: Seq<RecordView>,
)
    requires
        votes_counted(records, election, list, result) == Ok::<Seq<RecordView>, ElectionError>(
            after,
        ),
    ensures
        votes_counted(after, election, list, result) == Ok::<Seq<RecordView>, ElectionError>(after),
{
    lemma_counted_tally(records, election, list, result, after);
    let registry = candidate_list_loaded(records[COUNTING_CANDIDATE_LIST_INDEX as int])->Ok_0;
    let found = election_loaded(records[COUNTING_ELECTION_INDEX as int])->Ok_0;
    let total = found.number_of_votes;
    let start = records[COUNTING_RESULT_INDEX as int];
    let old_tally = result_loaded(start)->Ok_0;
    let first = ResultView { results: old_tally.results, number_of_votes: total };
    let numbered = number_recorded(start, total)->Ok_0;
    lemma_stored(start, first.encodable(), first.encoding(), numbered);
    lemma_result_round_trip(first, start.data.skip(first.encoding().len() as int));
    let entries = scores(registry.candidates, found);
    let second = tally_of(registry.candidates, found);
    let ranked = results_recorded(numbered, entries)->Ok_0;
    lemma_stored(numbered, second.encodable(), second.encoding(), ranked);
    assert(after[COUNTING_RESULT_INDEX as int] == ranked);
    assert(after[COUNTING_ELECTION_INDEX as int] == records[COUNTING_ELECTION_INDEX as int]);
    assert(after[COUNTING_CANDIDATE_LIST_INDEX as int]
        == records[COUNTING_CANDIDATE_LIST_INDEX as int]);
    assert(number_recorded(ranked, total) == Ok::<RecordView, ElectionError>(ranked));
    assert(results_recorded(ranked, entries) == Ok::<RecordView, ElectionError>(ranked));
    assert(after.update(COUNTING_RESULT_INDEX as int, ranked) =~= after);
}


/// Ranking moves the entries and changes none: under every name the
/// ranking holds what the scores hold.
pub proof fn lemma_ranking_keeps_the_votes(
    scores: Seq<(Seq<char>, i64)>,
    total: i64,
    name: Seq<char>,
)
    requires
        distinct_keys(scores),
    ensures
        value_of(ranking(scores, total), name) == value_of(scores, name),
    decreases scores.len(),
{
    lemma_ranking(scores, total);
    let ranked = ranking(scores, total);
    if scores.len() > 0 {
        let front = scores.drop_last();
        let last = scores.last();
        let inner = ranking(front, total);
        assert(distinct_keys(front)) by {
            assert forall|i: int, j: int| 0 <= i < j < front.len() implies (#[trigger] front[i]).0
                != (#[trigger] front[j]).0 by {
                assert(front[i] == scores[i]);
                assert(front[j] == scores[j]);
            }
        }
        lemma_ranking(front, total);
        lemma_ranking_keeps_the_votes(front, total, name);
        lemma_rank_position_exists(inner, last.1, total);
        let place = rank_position(inner, last.1, total);
        assert(ranked == inner.insert(place, last));
        if name == last.0 {
            assert(ranked[place] == last);
            lemma_value_of_entry(ranked, place);
            lemma_value_of_entry(scores, scores.len() - 1);
        } else if holds_key(front, name) {
            lemma_holds_key_has_first(front, name);
            let k = first_with_key(front, name);
            assert(scores[k] == front[k]);
            lemma_value_of_entry(scores, k);
            lemma_value_of_entry(front, k);
            lemma_holds_key_has_first(inner, name);
            let m = first_with_key(inner, name);
            let moved = if m < place { m } else { m + 1 };
            assert(ranked[moved] == inner[m]);
            lemma_value_of_entry(ranked, moved);
            lemma_value_of_entry(inner, m);
        } else {
            if holds_key(scores, name) {
                let k = choose|k: int| 0 <= k < scores.len() && (#[trigger] scores[k]).0 == name;
                assert(front[k] == scores[k]);
            }
            if holds_key(inner, name) {
                lemma_holds_key_has_first(inner, name);
            }
        }
    }
}

/// The tally reports the election's counts: under the name of every
/// registered candidate it holds the votes that the election has counted for
/// the candidate's address.
pub proof fn lemma_tally_reports_the_counts(
    registry: Seq<(Seq<char>, Address)>,
    election: ElectionView,
    i: int,
)
    requires
        distinct_keys(registry),
        0 <= i < registry.len(),
    ensures
        value_of(tally_of(registry, election).results, registry[i].0) == Some(
            election.votes_for(registry[i].1),
        ),
        tally_of(registry, election).results.len() == registry.len(),
        is_ranked(tally_of(registry, election).results, election.number_of_votes),
{
    let entries = scores(registry, election);
    assert(distinct_keys(entries)) by {
        assert forall|a: int, b: int| 0 <= a < b < entries.len() implies (#[trigger] entries[a]).0
            != (#[trigger] entries[b]).0 by {
            assert(registry[a].0 != registry[b].0);
        }
    }
    lemma_value_of_entry(entries, i);
    lemma_ranking_keeps_the_votes(entries, election.number_of_votes, registry[i].0);
    lemma_ranking(entries, election.number_of_votes);
}


} // verus!

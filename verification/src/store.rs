//! The persistent store's two tables, held in memory: the keyword responses
//! in the order they were added, and one reputation counter for each user of
//! each community.

use crate::model::{
    distinct_keys, entries_of, has_key, lemma_push_keeps_distinct, lemma_without_absent_key,
    lemma_without_key_properties, lemma_without_key_removes, without_key, Entry, ResponseRow,
};
use vstd::prelude::*;

verus! {

/// Why the store refused an operation.
#[derive(Clone, Copy, Debug, PartialEq, Eq, Structural)]
pub enum StoreError {
    /// A response for this keyword exists in this community.
    DuplicateKey,
    /// The store could not carry the operation out.
    Failure,
}

/// One reputation counter.
#[derive(Clone, Copy, Debug, PartialEq, Eq, Structural)]
pub struct ScoreRow {
    pub community: u64,
    pub user: u64,
    pub score: u64,
}

/// The store as a mathematical value.
pub struct StoreView {
    /// The responses, oldest first.
    pub responses: Seq<Entry>,
    /// The score of each user of each community that was ever awarded a point.
    pub scores: Map<(u64, u64), nat>,
}

/// Whether `rows` holds a counter for `user` in `community`.
pub open spec fn has_counter(rows: Seq<ScoreRow>, community: u64, user: u64) -> bool {
    exists|i: int|
        0 <= i < rows.len() && (#[trigger] rows[i]).community == community && rows[i].user == user
}

/// No two of `rows` count for the same user in the same community.
pub open spec fn distinct_counters(rows: Seq<ScoreRow>) -> bool {
    forall|i: int, j: int|
        #![trigger rows[i], rows[j]]
        0 <= i < j < rows.len() ==> !(rows[i].community == rows[j].community && rows[i].user
            == rows[j].user)
}

/// The score that `rows` holds for `user` in `community`; 0 where it holds none.
pub open spec fn counted(rows: Seq<ScoreRow>, community: u64, user: u64) -> nat
    decreases rows.len(),
{
    if rows.len() == 0 {
        0
    } else if rows.last().community == community && rows.last().user == user {
        rows.last().score as nat
    } else {
        counted(rows.drop_last(), community, user)
    }
}

/// The counters of `rows` as a map from community and user to score.
pub open spec fn ledger_of(rows: Seq<ScoreRow>) -> Map<(u64, u64), nat> {
    Map::new(
        |key: (u64, u64)| has_counter(rows, key.0, key.1),
        |key: (u64, u64)| counted(rows, key.0, key.1),
    )
}

/// Where counters are distinct, the score counted for a row's key is that row's.
pub proof fn lemma_counted_at(rows: Seq<ScoreRow>, at: int)
    requires
        distinct_counters(rows),
        0 <= at < rows.len(),
    ensures
        counted(rows, rows[at].community, rows[at].user) == rows[at].score,
    decreases rows.len(),
{
    if at < rows.len() - 1 {
        let front = rows.drop_last();
        assert(front[at] == rows[at]);
        assert(rows.last() == rows[rows.len() - 1]);
        assert(!(rows[at].community == rows.last().community && rows[at].user
            == rows.last().user));
        assert(distinct_counters(front)) by {
            assert forall|i: int, j: int| 0 <= i < j < front.len() implies !((
            #[trigger] front[i]).community == (#[trigger] front[j]).community && front[i].user
                == front[j].user) by {
                assert(front[i] == rows[i] && front[j] == rows[j]);
            }
        }
        lemma_counted_at(front, at);
    }
}

/// A key that no row holds counts 0.
pub proof fn lemma_counted_absent(rows: Seq<ScoreRow>, community: u64, user: u64)
    requires
        !has_counter(rows, community, user),
    ensures
        counted(rows, community, user) == 0,
    decreases rows.len(),
{
    if rows.len() > 0 {
        let front = rows.drop_last();
        assert(rows.last() == rows[rows.len() - 1]);
        assert forall|i: int| 0 <= i < front.len() implies !((#[trigger] front[i]).community
            == community && front[i].user == user) by {
            assert(front[i] == rows[i]);
        }
        lemma_counted_absent(front, community, user);
    }
}

} // verus!

verus! {

/// The store: both tables in memory.
pub struct MemoryStore {
    responses: Vec<ResponseRow>,
    scores: Vec<ScoreRow>,
}

impl View for MemoryStore {
    type V = StoreView;

    closed spec fn view(&self) -> StoreView {
        StoreView { responses: entries_of(self.responses@), scores: ledger_of(self.scores@) }
    }
}

impl MemoryStore {
    /// Each table holds at most one row for each key.
    pub closed spec fn wf(&self) -> bool {
        &&& distinct_keys(entries_of(self.responses@))
        &&& distinct_counters(self.scores@)
    }

    /// What every well-formed store has: no keyword twice in one community.
    pub proof fn lemma_wf(&self)
        requires
            self.wf(),
        ensures
            distinct_keys(self@.responses),
    {
    }

    /// A store with no rows.
    pub fn new() -> (store: MemoryStore)
        ensures
            store.wf(),
            store@.responses == Seq::<Entry>::empty(),
            store@.scores == Map::<(u64, u64), nat>::empty(),
    {
        let store = MemoryStore { responses: Vec::new(), scores: Vec::new() };
        assert(entries_of(store.responses@) =~= Seq::<Entry>::empty());
        assert(ledger_of(store.scores@) =~= Map::<(u64, u64), nat>::empty());
        store
    }

    /// The index of the response for `keyword` in `community`.
    fn find_response(&self, community: u64, keyword: &String) -> (found: Option<usize>)
        ensures
            found matches Some(at) ==> at < self.responses.len() && self.responses[at as int]@.has_key(
                community,
                keyword@,
            ),
            found is None ==> !has_key(self@.responses, community, keyword@),
    {
        let mut i: usize = 0;
        while i < self.responses.len()
            invariant
                i <= self.responses.len(),
                forall|j: int| 0 <= j < i ==> !(#[trigger] self.responses[j])@.has_key(community, keyword@),
            decreases self.responses.len() - i,
        {
            if self.responses[i].community == community && self.responses[i].keyword == *keyword {
                return Some(i);
            }
            i += 1;
        }
        assert forall|j: int| 0 <= j < self@.responses.len() implies !(#[trigger] self@.responses[j]).has_key(
            community,
            keyword@,
        ) by {
            assert(self@.responses[j] == self.responses[j]@);
        }
        None
    }

    /// Every stored response, oldest first.
    pub fn load_all_responses(&self) -> (rows: Vec<ResponseRow>)
        ensures
            entries_of(rows@) == self@.responses,
    {
        let mut rows: Vec<ResponseRow> = Vec::new();
        let mut i: usize = 0;
        while i < self.responses.len()
            invariant
                i <= self.responses.len(),
                rows.len() == i,
                forall|j: int| 0 <= j < i ==> (#[trigger] rows[j])@ == self.responses[j]@,
            decreases self.responses.len() - i,
        {
            rows.push(self.responses[i].duplicate());
            i += 1;
        }
        assert(entries_of(rows@) =~= entries_of(self.responses@));
        rows
    }

    /// Stores `row`, unless a response for its keyword exists in its community.
    pub fn insert_response(&mut self, row: ResponseRow) -> (r: Result<(), StoreError>)
        requires
            old(self).wf(),
        ensures
            final(self).wf(),
            final(self)@.scores == old(self)@.scores,
            r is Ok <==> !has_key(old(self)@.responses, row.community, row.keyword@),
            r is Ok ==> final(self)@.responses == old(self)@.responses.push(row@),
            r matches Err(e) ==> e == StoreError::DuplicateKey && final(self)@ == old(self)@,
    {
        match self.find_response(row.community, &row.keyword) {
            Some(at) => {
                assert(old(self)@.responses[at as int] == self.responses[at as int]@);
                Err(StoreError::DuplicateKey)
            },
            None => {
                proof {
                    lemma_push_keeps_distinct(self@.responses, row@);
                }
                self.responses.push(row);
                assert(entries_of(self.responses@) =~= old(self)@.responses.push(row@));
                Ok(())
            },
        }
    }

    /// Deletes the response for `keyword` in `community`; returns how many
    /// rows went.
    pub fn delete_response(&mut self, community: u64, keyword: &str) -> (removed: usize)
        requires
            old(self).wf(),
        ensures
            final(self).wf(),
            final(self)@.scores == old(self)@.scores,
            final(self)@.responses == without_key(old(self)@.responses, community, keyword@),
            removed == (if has_key(old(self)@.responses, community, keyword@) {
                1usize
            } else {
                0usize
            }),
    {
        let key = keyword.to_owned();
        proof {
            lemma_without_key_properties(self@.responses, community, keyword@);
        }
        match self.find_response(community, &key) {
            Some(at) => {
                proof {
                    assert(self@.responses[at as int] == self.responses[at as int]@);
                    lemma_without_key_removes(self@.responses, at as int, community, keyword@);
                }
                self.responses.remove(at);
                assert(entries_of(self.responses@) =~= old(self)@.responses.remove(at as int));
                1
            },
            None => {
                proof {
                    lemma_without_absent_key(self@.responses, community, keyword@);
                }
                0
            },
        }
    }
}

} // verus!

verus! {

/// The score that `scores` holds for `user` in `community`; 0 where it holds none.
pub open spec fn score_in(scores: Map<(u64, u64), nat>, community: u64, user: u64) -> nat {
    if scores.contains_key((community, user)) {
        scores[(community, user)]
    } else {
        0
    }
}

/// Whether `ranking` lists the users of `community` that `scores` knows, each
/// once with its score, the highest score first.
pub open spec fn is_ranking(
    scores: Map<(u64, u64), nat>,
    community: u64,
    ranking: Seq<(u64, u64)>,
) -> bool {
    &&& forall|a: int, b: int|
        #![trigger ranking[a], ranking[b]]
        0 <= a < b < ranking.len() ==> ranking[a].1 >= ranking[b].1 && ranking[a].0
            != ranking[b].0
    &&& forall|a: int|
        0 <= a < ranking.len() ==> scores.contains_key((community, (#[trigger] ranking[a]).0))
            && scores[(community, ranking[a].0)] == ranking[a].1
    &&& forall|user: u64| #[trigger]
        scores.contains_key((community, user)) ==> exists|a: int|
            0 <= a < ranking.len() && (#[trigger] ranking[a]).0 == user
}

/// Changing the score of one row changes what is counted for its key, and
/// for no other.
proof fn lemma_counted_update(rows: Seq<ScoreRow>, at: int, score: u64, community: u64, user: u64)
    requires
        0 <= at < rows.len(),
    ensures
        !(rows[at].community == community && rows[at].user == user) ==> counted(
            rows.update(at, ScoreRow { score, ..rows[at] }),
            community,
            user,
        ) == counted(rows, community, user),
    decreases rows.len(),
{
    let changed = rows.update(at, ScoreRow { score, ..rows[at] });
    if !(rows[at].community == community && rows[at].user == user) {
        if at == rows.len() - 1 {
            assert(changed.drop_last() =~= rows.drop_last());
        } else {
            let front = rows.drop_last();
            assert(front[at] == rows[at]);
            assert(changed.drop_last() =~= front.update(at, ScoreRow { score, ..front[at] }));
            assert(changed.last() == rows.last());
            lemma_counted_update(front, at, score, community, user);
        }
    }
}

impl MemoryStore {
    /// The index of the counter of `user` in `community`.
    fn find_counter(&self, community: u64, user: u64) -> (found: Option<usize>)
        ensures
            found matches Some(at) ==> at < self.scores.len() && self.scores[at as int].community
                == community && self.scores[at as int].user == user,
            found is None ==> !has_counter(self.scores@, community, user),
    {
        let mut i: usize = 0;
        while i < self.scores.len()
            invariant
                i <= self.scores.len(),
                forall|j: int|
                    0 <= j < i ==> !((#[trigger] self.scores[j]).community == community
                        && self.scores[j].user == user),
            decreases self.scores.len() - i,
        {
            if self.scores[i].community == community && self.scores[i].user == user {
                return Some(i);
            }
            i += 1;
        }
        None
    }

    /// Gives `user` one point in `community` and returns the new score: 1 for
    /// a user without a counter, one more than before for the others. One
    /// step: nothing is read first and written later.
    pub fn award_point(&mut self, community: u64, user: u64) -> (r: Result<u64, StoreError>)
        requires
            old(self).wf(),
        ensures
            final(self).wf(),
            final(self)@.responses == old(self)@.responses,
            r is Ok <==> score_in(old(self)@.scores, community, user) < u64::MAX,
            r matches Ok(score) ==> score == score_in(old(self)@.scores, community, user) + 1
                && final(self)@.scores == old(self)@.scores.insert((community, user), score as nat),
            r matches Err(e) ==> e == StoreError::Failure && final(self)@ == old(self)@,
    {
        match self.find_counter(community, user) {
            Some(at) => {
                let row = self.scores[at];
                proof {
                    lemma_counted_at(self.scores@, at as int);
                }
                if row.score == u64::MAX {
                    return Err(StoreError::Failure);
                }
                let score = row.score + 1;
                self.scores.set(at, ScoreRow { community, user, score });
                proof {
                    let before = old(self).scores@;
                    let after = self.scores@;
                    assert(after == before.update(at as int, ScoreRow { score, ..before[at as int] }));
                    assert(distinct_counters(after)) by {
                        assert forall|i: int, j: int| 0 <= i < j < after.len() implies !((
                        #[trigger] after[i]).community == (#[trigger] after[j]).community
                            && after[i].user == after[j].user) by {
                            assert(before[i].community == after[i].community && before[i].user
                                == after[i].user);
                            assert(before[j].community == after[j].community && before[j].user
                                == after[j].user);
                        }
                    }
                    lemma_counted_at(after, at as int);
                    assert forall|key: (u64, u64)| has_counter(after, key.0, key.1) == has_counter(
                        before,
                        key.0,
                        key.1,
                    ) by {
                        if has_counter(after, key.0, key.1) {
                            let i = choose|i: int|
                                0 <= i < after.len() && (#[trigger] after[i]).community == key.0
                                    && after[i].user == key.1;
                            assert(before[i].community == key.0 && before[i].user == key.1);
                        }
                        if has_counter(before, key.0, key.1) {
                            let i = choose|i: int|
                                0 <= i < before.len() && (#[trigger] before[i]).community == key.0
                                    && before[i].user == key.1;
                            assert(after[i].community == key.0 && after[i].user == key.1);
                        }
                    }
                    assert forall|key: (u64, u64)| key != (community, user) implies counted(
                        after,
                        key.0,
                        key.1,
                    ) == counted(before, key.0, key.1) by {
                        lemma_counted_update(before, at as int, score, key.0, key.1);
                    }
                    assert(has_counter(before, community, user));
                    assert(ledger_of(after) =~= ledger_of(before).insert(
                        (community, user),
                        score as nat,
                    ));
                }
                Ok(score)
            },
            None => {
                proof {
                    lemma_counted_absent(self.scores@, community, user);
                }
                self.scores.push(ScoreRow { community, user, score: 1 });
                proof {
                    let before = old(self).scores@;
                    let after = self.scores@;
                    assert(after.drop_last() =~= before);
                    assert(distinct_counters(after)) by {
                        assert forall|i: int, j: int| 0 <= i < j < after.len() implies !((
                        #[trigger] after[i]).community == (#[trigger] after[j]).community
                            && after[i].user == after[j].user) by {
                            assert(after[i] == before[i]);
                            if j < before.len() {
                                assert(after[j] == before[j]);
                            }
                        }
                    }
                    assert forall|key: (u64, u64)| has_counter(after, key.0, key.1) == (has_counter(
                        before,
                        key.0,
                        key.1,
                    ) || key == (community, user)) by {
                        if has_counter(after, key.0, key.1) {
                            let i = choose|i: int|
                                0 <= i < after.len() && (#[trigger] after[i]).community == key.0
                                    && after[i].user == key.1;
                            if i < before.len() {
                                assert(before[i] == after[i]);
                            }
                        }
                        if has_counter(before, key.0, key.1) {
                            let i = choose|i: int|
                                0 <= i < before.len() && (#[trigger] before[i]).community == key.0
                                    && before[i].user == key.1;
                            assert(after[i] == before[i]);
                        }
                        if key == (community, user) {
                            assert(after[before.len() as int].community == community);
                        }
                    }
                    assert(ledger_of(after) =~= ledger_of(before).insert((community, user), 1nat));
                }
                Ok(1)
            },
        }
    }
}

} // verus!

verus! {

/// Whether one of the first `upto` rows counts `item.1` for user `item.0` in
/// `community`.
spec fn counted_among(rows: Seq<ScoreRow>, upto: int, community: u64, item: (u64, u64)) -> bool {
    exists|j: int|
        0 <= j < upto && (#[trigger] rows[j]) == (ScoreRow {
            community,
            user: item.0,
            score: item.1,
        })
}

impl MemoryStore {
    /// The users of `community` with their scores, the highest score first.
    pub fn list_scores(&self, community: u64) -> (ranking: Vec<(u64, u64)>)
        requires
            self.wf(),
        ensures
            is_ranking(self@.scores, community, ranking@),
    {
        let mut ranking: Vec<(u64, u64)> = Vec::new();
        let mut i: usize = 0;
        while i < self.scores.len()
            invariant
                i <= self.scores.len(),
                distinct_counters(self.scores@),
                forall|a: int, b: int|
                    #![trigger ranking[a], ranking[b]]
                    0 <= a < b < ranking.len() ==> ranking[a].1 >= ranking[b].1 && ranking[a].0
                        != ranking[b].0,
                forall|a: int|
                    0 <= a < ranking.len() ==> counted_among(
                        self.scores@,
                        i as int,
                        community,
                        #[trigger] ranking[a],
                    ),
                forall|j: int|
                    0 <= j < i && (#[trigger] self.scores[j]).community == community
                        ==> ranking@.contains((self.scores[j].user, self.scores[j].score)),
            decreases self.scores.len() - i,
        {
            let row = self.scores[i];
            if row.community == community {
                let mut at: usize = 0;
                while at < ranking.len() && ranking[at].1 >= row.score
                    invariant
                        at <= ranking.len(),
                        forall|a: int| 0 <= a < at ==> (#[trigger] ranking[a]).1 >= row.score,
                    decreases ranking.len() - at,
                {
                    at += 1;
                }
                let ghost before = ranking@;
                let item = (row.user, row.score);
                ranking.insert(at, item);
                proof {
                    let after = ranking@;
                    before.insert_ensures(at as int, item);
                    assert forall|a: int| 0 <= a < after.len() implies a == at || (a < at
                        && after[a] == before[a]) || (a > at && after[a] == before[a - 1]) by {
                        if a > at {
                            assert(after[(a - 1) + 1] == before[a - 1]);
                        }
                    }
                    assert forall|a: int| 0 <= a < before.len() implies (#[trigger] before[a]).0
                        != row.user by {
                        assert(counted_among(self.scores@, i as int, community, before[a]));
                        let j = choose|j: int|
                            0 <= j < i && (#[trigger] self.scores@[j]) == (ScoreRow {
                                community,
                                user: before[a].0,
                                score: before[a].1,
                            });
                        assert(!(self.scores@[j].community == self.scores@[i as int].community
                            && self.scores@[j].user == self.scores@[i as int].user));
                    }
                    assert forall|a: int, b: int| 0 <= a < b < after.len() implies (
                    #[trigger] after[a]).1 >= (#[trigger] after[b]).1 && after[a].0
                        != after[b].0 by {
                        let sa = if a < at { a } else { a - 1 };
                        let sb = if b < at { b } else { b - 1 };
                        if a != at && b != at {
                            assert(after[a] == before[sa] && after[b] == before[sb]);
                            assert(before[sa].1 >= before[sb].1 && before[sa].0 != before[sb].0);
                        } else if a == at {
                            assert(after[b] == before[sb]);
                            assert(before[sb].0 != row.user);
                            assert(before[at as int].1 < row.score);
                            if sb > at {
                                assert(before[at as int].1 >= before[sb].1);
                            }
                        } else {
                            assert(after[a] == before[sa]);
                            assert(before[sa].0 != row.user);
                        }
                    }
                    assert forall|a: int| 0 <= a < after.len() implies counted_among(
                        self.scores@,
                        i + 1,
                        community,
                        #[trigger] after[a],
                    ) by {
                        if a == at {
                            assert(self.scores@[i as int] == (ScoreRow {
                                community,
                                user: item.0,
                                score: item.1,
                            }));
                        } else {
                            let sa = if a < at { a } else { a - 1 };
                            assert(after[a] == before[sa]);
                            assert(counted_among(self.scores@, i as int, community, before[sa]));
                        }
                    }
                    assert forall|j: int|
                        0 <= j < i + 1 && (#[trigger] self.scores[j]).community
                            == community implies after.contains(
                        (self.scores[j].user, self.scores[j].score),
                    ) by {
                        if j == i {
                            assert(after[at as int] == item);
                        } else {
                            let wanted = (self.scores[j].user, self.scores[j].score);
                            assert(before.contains(wanted));
                            let p = choose|p: int| 0 <= p < before.len() && before[p] == wanted;
                            let np = if p < at { p } else { p + 1 };
                            assert(after[np] == wanted);
                        }
                    }
                }
            } else {
                proof {
                    assert forall|a: int| 0 <= a < ranking.len() implies counted_among(
                        self.scores@,
                        i + 1,
                        community,
                        #[trigger] ranking[a],
                    ) by {
                        assert(counted_among(self.scores@, i as int, community, ranking[a]));
                    }
                }
            }
            i += 1;
        }
        proof {
            let rows = self.scores@;
            assert forall|a: int| 0 <= a < ranking.len() implies self@.scores.contains_key(
                (community, (#[trigger] ranking[a]).0),
            ) && self@.scores[(community, ranking[a].0)] == ranking[a].1 by {
                assert(counted_among(rows, i as int, community, ranking[a]));
                let j = choose|j: int|
                    0 <= j < i && (#[trigger] rows[j]) == (ScoreRow {
                        community,
                        user: ranking[a].0,
                        score: ranking[a].1,
                    });
                lemma_counted_at(rows, j);
                assert(rows[j].community == community && rows[j].user == ranking[a].0);
            }
            assert forall|user: u64| #[trigger]
                self@.scores.contains_key((community, user)) implies exists|a: int|
                0 <= a < ranking.len() && (#[trigger] ranking[a]).0 == user by {
                let j = choose|j: int|
                    0 <= j < rows.len() && (#[trigger] rows[j]).community == community && rows[j].user
                        == user;
                assert(ranking@.contains((self.scores[j].user, self.scores[j].score)));
                let a = choose|a: int|
                    0 <= a < ranking.len() && ranking@[a] == (
                        self.scores[j].user,
                        self.scores[j].score,
                    );
                assert(ranking[a].0 == user);
            }
        }
        ranking
    }
}

} // verus!

verus! {

impl MemoryStore {
    /// The score of `user` in `community`; 0 for a user that was never
    /// awarded a point.
    pub fn score(&self, community: u64, user: u64) -> (score: u64)
        requires
            self.wf(),
        ensures
            score == score_in(self@.scores, community, user),
    {
        match self.find_counter(community, user) {
            Some(at) => {
                proof {
                    lemma_counted_at(self.scores@, at as int);
                }
                self.scores[at].score
            },
            None => 0,
        }
    }
}

} // verus!

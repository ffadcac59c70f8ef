//! What holds of the engine whatever it was asked before: the laws that
//! relate its operations to each other.

use crate::cache::{
    lemma_listed_push, lemma_matching_push, listed_pairs, matching_replies, reply_of, AddError,
};
use crate::dispatch::{
    is_line_end, is_quote, line_end, next_quote, next_space, next_word, parsed_set,
};
use crate::engine::{add_result, after_add, after_award, award_result, remove_result};
use crate::ledger::AwardError;
use crate::model::{
    distinct_keys, has_key, lemma_without_absent_key, lemma_without_key_removes, without_key, Entry,
};
use crate::pattern::hits;
use crate::store::{is_ranking, score_in};
use crate::text::is_space;
use vstd::prelude::*;

verus! {

/// The test that picks the entries for `keyword` in `community` whose
/// keyword occurs in `text`.
pub open spec fn answers_for(community: u64, keyword: Seq<char>, text: Seq<char>) -> spec_fn(
    Entry,
) -> bool {
    |e: Entry| e.has_key(community, keyword) && hits(e.keyword, text)
}

/// The replies that `text` draws from the responses for `keyword` in
/// `community`.
pub open spec fn keyword_replies(
    entries: Seq<Entry>,
    community: u64,
    keyword: Seq<char>,
    text: Seq<char>,
) -> Seq<Seq<char>> {
    entries.filter(answers_for(community, keyword, text)).map_values(reply_of())
}

proof fn lemma_no_reply_without_key(
    entries: Seq<Entry>,
    community: u64,
    keyword: Seq<char>,
    text: Seq<char>,
)
    requires
        !has_key(entries, community, keyword),
    ensures
        entries.filter(answers_for(community, keyword, text)) == Seq::<Entry>::empty(),
    decreases entries.len(),
{
    reveal(Seq::filter);
    if entries.len() > 0 {
        let front = entries.drop_last();
        assert forall|i: int| 0 <= i < front.len() implies !(#[trigger] front[i]).has_key(
            community,
            keyword,
        ) by {
            assert(front[i] == entries[i]);
        }
        assert(entries.last() == entries[entries.len() - 1]);
        lemma_no_reply_without_key(front, community, keyword, text);
    }
}

/// A response that was added answers from the next message on. After a
/// successful `add` of `reply` for `keyword`, a text that holds the keyword
/// as a whole word draws what it drew before and then `reply`, and the
/// keyword draws `reply` and nothing else. A second `add` for the keyword
/// fails as a duplicate, whatever its reply, and changes nothing: the
/// listing still holds the keyword with the first reply.
pub proof fn law_added_response_answers(
    entries: Seq<Entry>,
    community: u64,
    keyword: Seq<char>,
    reply: Seq<char>,
    second_reply: Seq<char>,
    text: Seq<char>,
)
    requires
        distinct_keys(entries),
        add_result(entries, community, keyword) is Ok,
        hits(keyword, text),
    ensures
        matching_replies(after_add(entries, community, keyword, reply), community, text)
            == matching_replies(entries, community, text).push(reply),
        keyword_replies(after_add(entries, community, keyword, reply), community, keyword, text)
            == seq![reply],
        add_result(after_add(entries, community, keyword, reply), community, keyword) matches Err(
            e,
        ) && e == AddError::DuplicateKey,
        after_add(
            after_add(entries, community, keyword, reply),
            community,
            keyword,
            second_reply,
        ) == after_add(entries, community, keyword, reply),
        listed_pairs(after_add(entries, community, keyword, reply), community).contains(
            (keyword, reply),
        ),
{
    let entry = Entry { community, keyword, reply };
    let after = after_add(entries, community, keyword, reply);
    assert(after == entries.push(entry));
    lemma_matching_push(entries, entry, community, text);
    lemma_no_reply_without_key(entries, community, keyword, text);
    entries.lemma_filter_push(entry, answers_for(community, keyword, text));
    entries.filter(answers_for(community, keyword, text)).lemma_push_map_commute(
        reply_of(),
        entry,
    );
    assert(keyword_replies(after, community, keyword, text) =~= seq![reply]);
    assert(after[entries.len() as int].has_key(community, keyword));
    lemma_listed_push(entries, entry, community);
    let listed = listed_pairs(after, community);
    assert(listed[listed.len() - 1] == (keyword, reply));
}

/// A text that does not hold the keyword draws nothing new after the
/// keyword's response was added, and in no other community does any text.
pub proof fn law_added_response_is_scoped(
    entries: Seq<Entry>,
    community: u64,
    keyword: Seq<char>,
    reply: Seq<char>,
    elsewhere: u64,
    text: Seq<char>,
)
    requires
        elsewhere != community || !hits(keyword, text),
    ensures
        matching_replies(after_add(entries, community, keyword, reply), elsewhere, text)
            == matching_replies(entries, elsewhere, text),
{
    lemma_matching_push(entries, Entry { community, keyword, reply }, elsewhere, text);
}

/// Removing a keyword that has no response answers `None` and changes
/// nothing: the listing of the community is what it was.
pub proof fn law_remove_missing_changes_nothing(
    entries: Seq<Entry>,
    community: u64,
    keyword: Seq<char>,
)
    requires
        !has_key(entries, community, keyword),
    ensures
        remove_result(entries, community, keyword) is None,
        without_key(entries, community, keyword) == entries,
        listed_pairs(without_key(entries, community, keyword), community) == listed_pairs(
            entries,
            community,
        ),
{
    lemma_without_absent_key(entries, community, keyword);
}

/// Removing a response that was just added gives back the responses as they
/// were before the addition.
pub proof fn law_remove_undoes_add(
    entries: Seq<Entry>,
    community: u64,
    keyword: Seq<char>,
    reply: Seq<char>,
)
    requires
        distinct_keys(entries),
        add_result(entries, community, keyword) is Ok,
    ensures
        remove_result(after_add(entries, community, keyword, reply), community, keyword) is Some,
        without_key(after_add(entries, community, keyword, reply), community, keyword) == entries,
{
    let entry = Entry { community, keyword, reply };
    let after = entries.push(entry);
    assert(after[entries.len() as int].has_key(community, keyword));
    crate::model::lemma_push_keeps_distinct(entries, entry);
    lemma_without_key_removes(after, entries.len() as int, community, keyword);
    assert(after.remove(entries.len() as int) =~= entries);
}

/// No user awards itself: the award fails as a self-award and the scores
/// are what they were.
pub proof fn law_self_award_refused(scores: Map<(u64, u64), nat>, community: u64, user: u64)
    ensures
        award_result(scores, community, user, user) == Err::<u64, AwardError>(
            AwardError::SelfAward,
        ),
        after_award(scores, community, user, user) == scores,
{
}

/// The scores after one award to `target` from each of `granters`, in order.
pub open spec fn after_awards(
    scores: Map<(u64, u64), nat>,
    community: u64,
    target: u64,
    granters: Seq<u64>,
) -> Map<(u64, u64), nat>
    decreases granters.len(),
{
    if granters.len() == 0 {
        scores
    } else {
        after_award(
            after_awards(scores, community, target, granters.drop_last()),
            community,
            granters.last(),
            target,
        )
    }
}

/// No award is lost. Of awards to one target by other users, taken in any
/// order, each succeeds and answers one more than the one before, and in the
/// end the target has as many points more as there were awards. The scores
/// of all others are what they were.
pub proof fn law_awards_add_up(
    scores: Map<(u64, u64), nat>,
    community: u64,
    target: u64,
    granters: Seq<u64>,
)
    requires
        forall|i: int| 0 <= i < granters.len() ==> granters[i] != target,
        score_in(scores, community, target) + granters.len() <= u64::MAX,
    ensures
        score_in(after_awards(scores, community, target, granters), community, target)
            == score_in(scores, community, target) + granters.len(),
        forall|i: int|
            0 <= i < granters.len() ==> award_result(
                after_awards(scores, community, target, #[trigger] granters.take(i)),
                community,
                granters[i],
                target,
            ) == Ok::<u64, AwardError>((score_in(scores, community, target) + i + 1) as u64),
        forall|c: u64, user: u64|
            !(c == community && user == target) ==> score_in(
                after_awards(scores, community, target, granters),
                c,
                user,
            ) == #[trigger] score_in(scores, c, user),
    decreases granters.len(),
{
    if granters.len() > 0 {
        let front = granters.drop_last();
        law_awards_add_up(scores, community, target, front);
        let before = after_awards(scores, community, target, front);
        assert(award_result(before, community, granters.last(), target) is Ok);
        assert forall|i: int| 0 <= i < granters.len() implies award_result(
            after_awards(scores, community, target, #[trigger] granters.take(i)),
            community,
            granters[i],
            target,
        ) == Ok::<u64, AwardError>((score_in(scores, community, target) + i + 1) as u64) by {
            if i < front.len() {
                assert(granters.take(i) =~= front.take(i));
                assert(granters[i] == front[i]);
            } else {
                assert(granters.take(i) =~= front);
            }
        }
        assert forall|c: u64, user: u64| !(c == community && user == target) implies score_in(
            after_awards(scores, community, target, granters),
            c,
            user,
        ) == #[trigger] score_in(scores, c, user) by {
            assert(score_in(before, c, user) == score_in(scores, c, user));
        }
    } else {
        assert forall|i: int| 0 <= i < granters.len() implies award_result(
            after_awards(scores, community, target, #[trigger] granters.take(i)),
            community,
            granters[i],
            target,
        ) == Ok::<u64, AwardError>((score_in(scores, community, target) + i + 1) as u64) by {}
    }
}

/// In a ranking, a user with more points stands before a user with fewer.
pub proof fn law_ranking_puts_higher_first(
    scores: Map<(u64, u64), nat>,
    community: u64,
    ranking: Seq<(u64, u64)>,
    higher: int,
    lower: int,
)
    requires
        is_ranking(scores, community, ranking),
        0 <= higher < ranking.len(),
        0 <= lower < ranking.len(),
        ranking[higher].1 > ranking[lower].1,
    ensures
        higher < lower,
{
    if lower < higher {
        assert(ranking[lower].1 >= ranking[higher].1);
    }
}

} // verus!

verus! {

proof fn lemma_next_space_at(s: Seq<char>, from: int, at: int)
    requires
        0 <= from <= at <= s.len(),
        forall|j: int| from <= j < at ==> !is_space(#[trigger] s[j]),
        at == s.len() || is_space(s[at]),
    ensures
        next_space(s, from) == at,
    decreases at - from,
{
    if from < at {
        lemma_next_space_at(s, from + 1, at);
    }
}

proof fn lemma_line_end_from(s: Seq<char>, from: int, upto: int)
    requires
        0 <= from <= upto <= s.len(),
        forall|j: int| from <= j < upto ==> !is_line_end(#[trigger] s[j]),
    ensures
        upto <= line_end(s, from) <= s.len(),
    decreases upto - from,
{
    if from < upto {
        lemma_line_end_from(s, from + 1, upto);
    } else {
        lemma_line_end_bounds(s, from);
    }
}

proof fn lemma_line_end_bounds(s: Seq<char>, from: int)
    requires
        0 <= from <= s.len(),
    ensures
        from <= line_end(s, from) <= s.len(),
    decreases s.len() - from,
{
    if from < s.len() && !is_line_end(s[from]) {
        lemma_line_end_bounds(s, from + 1);
    }
}

proof fn lemma_next_quote_at(s: Seq<char>, from: int, at: int)
    requires
        0 <= from <= at < s.len(),
        forall|j: int| from <= j < at ==> !is_quote(#[trigger] s[j]),
        is_quote(s[at]),
    ensures
        next_quote(s, from) == at,
    decreases at - from,
{
    if from < at {
        lemma_next_quote_at(s, from + 1, at);
    }
}

/// A `set` command with a single word gives that word and the reply as
/// typed: a keyword without white space, one character of white space, and a
/// reply that is not empty are read back as they were written.
pub proof fn law_set_reads_word_and_reply(keyword: Seq<char>, separator: char, reply: Seq<char>)
    requires
        keyword.len() > 0,
        !is_quote(keyword[0]),
        forall|i: int| 0 <= i < keyword.len() ==> !is_space(#[trigger] keyword[i]),
        is_space(separator),
        reply.len() > 0,
    ensures
        parsed_set(keyword + seq![separator] + reply) matches Ok(read) && read == (keyword, reply),
{
    let body = keyword + seq![separator] + reply;
    let at = keyword.len() as int;
    assert(body[0] == keyword[0]);
    assert(next_word(body, 0) == 0);
    assert forall|j: int| 0 <= j < at implies !is_space(#[trigger] body[j]) by {
        assert(body[j] == keyword[j]);
    }
    assert(body[at] == separator);
    lemma_next_space_at(body, 0, at);
    assert(body.subrange(0, at) =~= keyword);
    assert(body.skip(at + 1) =~= reply);
}

/// A `set` command with a quoted phrase gives the phrase and the reply as
/// typed: a keyword on one line without a quote in it, between quotes, one
/// separating character, and a reply that is not empty are read back as
/// they were written, whatever the reply holds.
pub proof fn law_set_reads_quoted_phrase(keyword: Seq<char>, separator: char, reply: Seq<char>)
    requires
        forall|i: int|
            0 <= i < keyword.len() ==> !is_line_end(#[trigger] keyword[i]) && !is_quote(
                keyword[i],
            ),
        reply.len() > 0,
    ensures
        parsed_set(seq!['"'] + keyword + seq!['"'] + seq![separator] + reply) matches Ok(read)
            && read == (keyword, reply),
{
    let body = seq!['"'] + keyword + seq!['"'] + seq![separator] + reply;
    let close = keyword.len() as int + 1;
    assert(body[0] == '"');
    assert(body[close] == '"');
    assert forall|j: int| 1 <= j < close implies !is_quote(#[trigger] body[j]) by {
        assert(body[j] == keyword[j - 1]);
    }
    lemma_next_quote_at(body, 1, close);
    assert forall|j: int| 0 <= j < close + 1 implies !is_line_end(#[trigger] body[j]) by {
        if 1 <= j < close {
            assert(body[j] == keyword[j - 1]);
        }
    }
    lemma_line_end_from(body, 0, close + 1);
    assert(body.subrange(1, close) =~= keyword);
    assert(body.skip(close + 2) =~= reply);
}

} // verus!

//! The guild-state cache: the keyword responses of every community with
//! their compiled patterns, in the order they were added. It mirrors the
//! persistent store and is changed only after the store accepted the change.

use crate::model::{
    distinct_keys, entries_of, has_key, lemma_push_keeps_distinct, lemma_without_absent_key,
    lemma_without_key_properties, lemma_without_key_removes, in_community, of_community,
    without_key, Entry,
    ResponseRow,
};
use crate::pattern::{hits, keyword_compiles, to_lowercase, KeywordMatcher};
use crate::store::StoreError;
use crate::text::{joined, NEWLINE};
use vstd::prelude::*;
use vstd::string::StringExecFns;

verus! {

/// Why a response was not added.
#[derive(Clone, Copy, Debug, PartialEq, Eq, Structural)]
pub enum AddError {
    /// A response for this keyword exists in this community.
    DuplicateKey,
    /// The pattern engine refused the pattern of the keyword. Every
    /// character of a keyword stands for itself, so this answers the
    /// engine's own limits, not what the keyword holds.
    InvalidKeyword,
    /// The store could not carry the write out.
    Storage,
}

/// One response with its compiled pattern.
pub struct CachedResponse {
    community: u64,
    matcher: KeywordMatcher,
    reply: String,
}

impl View for CachedResponse {
    type V = Entry;

    closed spec fn view(&self) -> Entry {
        Entry {
            community: self.community,
            keyword: self.matcher.keyword_text(),
            reply: self.reply@,
        }
    }
}

impl CachedResponse {
    /// The compiled pattern is the one of the keyword.
    pub closed spec fn wf(&self) -> bool {
        self.matcher.wf()
    }

    /// The response as a row for the store.
    pub fn row(&self) -> (row: ResponseRow)
        ensures
            row@ == self@,
    {
        ResponseRow {
            community: self.community,
            keyword: self.matcher.keyword().clone(),
            reply: self.reply.clone(),
        }
    }
}

/// The views of `items`, in order.
pub open spec fn cached_entries(items: Seq<CachedResponse>) -> Seq<Entry> {
    items.map_values(|item: CachedResponse| item@)
}

/// The test that picks the entries of `community` whose keyword occurs in
/// `text`.
pub open spec fn responds_to(community: u64, text: Seq<char>) -> spec_fn(Entry) -> bool {
    |e: Entry| e.community == community && hits(e.keyword, text)
}

/// The reply of an entry.
pub open spec fn reply_of() -> spec_fn(Entry) -> Seq<char> {
    |e: Entry| e.reply
}

/// The replies that `text` draws in `community`: one for each entry whose
/// keyword occurs in it as a whole word, in the order of `entries`.
pub open spec fn matching_replies(entries: Seq<Entry>, community: u64, text: Seq<char>) -> Seq<
    Seq<char>,
> {
    entries.filter(responds_to(community, text)).map_values(reply_of())
}

/// For each of `entries`, whether it is of `community` and its keyword
/// occurs in `text`.
pub open spec fn hit_marks(entries: Seq<Entry>, community: u64, text: Seq<char>) -> Seq<bool> {
    Seq::new(
        entries.len(),
        |i: int| entries[i].community == community && hits(entries[i].keyword, text),
    )
}

/// The replies of the entries of `community` that are marked in `found`, in
/// the order of `entries`. Entry `i` is marked where `found[i]` holds.
pub open spec fn selected_replies(entries: Seq<Entry>, community: u64, found: Seq<bool>) -> Seq<
    Seq<char>,
>
    decreases entries.len(),
{
    if entries.len() == 0 {
        Seq::empty()
    } else {
        let at = entries.len() - 1;
        let before = selected_replies(entries.take(at), community, found.take(at));
        if entries[at].community == community && found[at] {
            before.push(entries[at].reply)
        } else {
            before
        }
    }
}

/// The keyword and the reply of an entry.
pub open spec fn pair_of() -> spec_fn(Entry) -> (Seq<char>, Seq<char>) {
    |e: Entry| (e.keyword, e.reply)
}

/// The keywords of `community` with their replies, in the order of `entries`.
pub open spec fn listed_pairs(entries: Seq<Entry>, community: u64) -> Seq<
    (Seq<char>, Seq<char>),
> {
    of_community(entries, community).map_values(pair_of())
}

/// What stands between a keyword and its reply in a listing.
pub const ARROW: &'static str = " => ";

/// What a listing says of a community without responses.
pub const NO_RESPONSES: &'static str = "No responses yet! Add some using `!set` command";

/// The line that lists one response.
pub open spec fn line_of() -> spec_fn((Seq<char>, Seq<char>)) -> Seq<char> {
    |pair: (Seq<char>, Seq<char>)| pair.0 + ARROW@ + pair.1
}

/// The listing of the responses of `community`: one line for each, or the
/// fixed text where there is none.
pub open spec fn listing_text(entries: Seq<Entry>, community: u64) -> Seq<char> {
    if listed_pairs(entries, community).len() == 0 {
        NO_RESPONSES@
    } else {
        joined(listed_pairs(entries, community).map_values(line_of()), NEWLINE@)
    }
}

} // verus!

verus! {

/// One more entry adds its reply to what a text draws, if the entry is of
/// the community and its keyword occurs in the text, and nothing otherwise.
pub proof fn lemma_matching_push(entries: Seq<Entry>, entry: Entry, community: u64, text: Seq<char>)
    ensures
        matching_replies(entries.push(entry), community, text) == if entry.community == community
            && hits(entry.keyword, text) {
            matching_replies(entries, community, text).push(entry.reply)
        } else {
            matching_replies(entries, community, text)
        },
{
    entries.lemma_filter_push(entry, responds_to(community, text));
    entries.filter(responds_to(community, text)).lemma_push_map_commute(reply_of(), entry);
}

/// The replies that a text draws are those of the entries that it marks:
/// the entries whose keyword occurs in it.
pub proof fn lemma_selected_by_hits(entries: Seq<Entry>, community: u64, text: Seq<char>)
    ensures
        selected_replies(entries, community, hit_marks(entries, community, text))
            == matching_replies(
            entries,
            community,
            text,
        ),
    decreases entries.len(),
{
    if entries.len() == 0 {
        reveal(Seq::filter);
        assert(matching_replies(entries, community, text) =~= Seq::<Seq<char>>::empty());
    } else {
        let at = entries.len() - 1;
        let front = entries.take(at);
        lemma_selected_by_hits(front, community, text);
        assert(hit_marks(entries, community, text).take(at) =~= hit_marks(
            front,
            community,
            text,
        ));
        assert(front.push(entries[at]) =~= entries);
        lemma_matching_push(front, entries[at], community, text);
    }
}

/// One more entry adds its pair to the listing of its community, and to no
/// other.
pub proof fn lemma_listed_push(entries: Seq<Entry>, entry: Entry, community: u64)
    ensures
        listed_pairs(entries.push(entry), community) == if entry.community == community {
            listed_pairs(entries, community).push((entry.keyword, entry.reply))
        } else {
            listed_pairs(entries, community)
        },
{
    entries.lemma_filter_push(entry, in_community(community));
    entries.filter(in_community(community)).lemma_push_map_commute(pair_of(), entry);
}

/// The keyword responses of every community, oldest first.
pub struct ResponseCache {
    items: Vec<CachedResponse>,
}

impl View for ResponseCache {
    type V = Seq<Entry>;

    closed spec fn view(&self) -> Seq<Entry> {
        cached_entries(self.items@)
    }
}

impl ResponseCache {
    /// Every pattern is the one of its keyword, and no keyword stands twice
    /// in one community.
    pub closed spec fn wf(&self) -> bool {
        &&& forall|i: int| 0 <= i < self.items.len() ==> (#[trigger] self.items[i]).wf()
        &&& distinct_keys(self@)
    }

    /// What every well-formed cache has: distinct keys, and keywords that compile.
    pub proof fn lemma_wf(&self)
        requires
            self.wf(),
        ensures
            distinct_keys(self@),
            forall|i: int| 0 <= i < self@.len() ==> keyword_compiles((#[trigger] self@[i]).keyword),
    {
        assert forall|i: int| 0 <= i < self@.len() implies keyword_compiles(
            (#[trigger] self@[i]).keyword,
        ) by {
            assert(self.items[i].wf());
            self.items[i].matcher.lemma_wf();
        }
    }

    /// A cache without responses.
    pub fn new() -> (cache: ResponseCache)
        ensures
            cache.wf(),
            cache@ == Seq::<Entry>::empty(),
    {
        let cache = ResponseCache { items: Vec::new() };
        assert(cache@ =~= Seq::<Entry>::empty());
        cache
    }

    /// How many responses the cache holds, over all communities.
    pub fn len(&self) -> (n: usize)
        ensures
            n == self@.len(),
    {
        self.items.len()
    }

    fn position(&self, community: u64, keyword: &String) -> (found: Option<usize>)
        ensures
            found matches Some(at) ==> at < self@.len() && self@[at as int].has_key(
                community,
                keyword@,
            ),
            found is None ==> !has_key(self@, community, keyword@),
    {
        let mut i: usize = 0;
        while i < self.items.len()
            invariant
                i <= self.items.len(),
                forall|j: int| 0 <= j < i ==> !(#[trigger] self@[j]).has_key(community, keyword@),
            decreases self.items.len() - i,
        {
            if self.items[i].community == community && *self.items[i].matcher.keyword() == *keyword {
                assert(self@[i as int] == self.items[i as int]@);
                return Some(i);
            }
            assert(self@[i as int] == self.items[i as int]@);
            i += 1;
        }
        None
    }

    /// Whether a response for `keyword` exists in `community`.
    pub fn contains(&self, community: u64, keyword: &str) -> (held: bool)
        ensures
            held == has_key(self@, community, keyword@),
    {
        let key = keyword.to_owned();
        self.position(community, &key).is_some()
    }

    /// The replies of the responses of `community` that `found` marks, oldest
    /// response first: `found` says of each response of the cache, in order,
    /// whether its keyword was found.
    pub fn select_replies(&self, community: u64, found: &Vec<bool>) -> (replies: Vec<String>)
        requires
            found@.len() == self@.len(),
        ensures
            replies.deep_view() == selected_replies(self@, community, found@),
    {
        let mut replies: Vec<String> = Vec::new();
        let mut i: usize = 0;
        assert(replies.deep_view() =~= Seq::<Seq<char>>::empty());
        while i < self.items.len()
            invariant
                i <= self.items.len(),
                found@.len() == self@.len(),
                replies.deep_view() == selected_replies(
                    self@.take(i as int),
                    community,
                    found@.take(i as int),
                ),
            decreases self.items.len() - i,
        {
            let ghost before = replies.deep_view();
            let item = &self.items[i];
            proof {
                assert(self@[i as int] == item@);
                assert(self@.take(i + 1).take(i as int) =~= self@.take(i as int));
                assert(found@.take(i + 1).take(i as int) =~= found@.take(i as int));
            }
            if item.community == community && found[i] {
                replies.push(item.reply.clone());
                assert(replies.deep_view() =~= before.push(item.reply@));
            }
            i += 1;
        }
        assert(self@.take(i as int) =~= self@);
        assert(found@.take(i as int) =~= found@);
        replies
    }

    /// The replies that `text` draws in `community`: the reply of every
    /// response of the community whose keyword occurs in the text as a whole
    /// word, whatever the case of the letters, oldest response first.
    pub fn find_matches(&self, community: u64, text: &str) -> (replies: Vec<String>)
        requires
            self.wf(),
        ensures
            replies.deep_view() == matching_replies(self@, community, text@),
    {
        let lowered = to_lowercase(text);
        let mut found: Vec<bool> = Vec::new();
        let mut i: usize = 0;
        while i < self.items.len()
            invariant
                i <= self.items.len(),
                self.wf(),
                lowered@ == crate::pattern::lowercase(text@),
                found@.len() == i,
                forall|j: int|
                    0 <= j < i ==> found@[j] == (self@[j].community == community && hits(
                        self@[j].keyword,
                        text@,
                    )),
            decreases self.items.len() - i,
        {
            assert(self@[i as int] == self.items[i as int]@);
            let item = &self.items[i];
            found.push(item.community == community && item.matcher.is_found_in(lowered.as_str()));
            i += 1;
        }
        proof {
            assert(found@ =~= hit_marks(self@, community, text@));
            lemma_selected_by_hits(self@, community, text@);
        }
        self.select_replies(community, &found)
    }

    /// The keywords of `community` with their replies, oldest first.
    pub fn list(&self, community: u64) -> (pairs: Vec<(String, String)>)
        ensures
            pairs.deep_view() == listed_pairs(self@, community),
    {
        let mut pairs: Vec<(String, String)> = Vec::new();
        let mut i: usize = 0;
        assert(self@.take(0) =~= Seq::<Entry>::empty());
        assert(listed_pairs(Seq::<Entry>::empty(), community) =~= Seq::<
            (Seq<char>, Seq<char>),
        >::empty()) by {
            reveal(Seq::filter);
        }
        assert(pairs.deep_view() =~= Seq::<(Seq<char>, Seq<char>)>::empty());
        while i < self.items.len()
            invariant
                i <= self.items.len(),
                pairs.deep_view() == listed_pairs(self@.take(i as int), community),
            decreases self.items.len() - i,
        {
            let ghost before = pairs.deep_view();
            let item = &self.items[i];
            proof {
                assert(self@[i as int] == item@);
                assert(self@.take(i + 1) =~= self@.take(i as int).push(self@[i as int]));
                lemma_listed_push(self@.take(i as int), self@[i as int], community);
            }
            if item.community == community {
                pairs.push((item.matcher.keyword().clone(), item.reply.clone()));
                assert(pairs.deep_view() =~= before.push((item@.keyword, item@.reply)));
            }
            i += 1;
        }
        assert(self@.take(i as int) =~= self@);
        pairs
    }
}

} // verus!

verus! {

/// Writes the listing of `pairs`: for each pair a line with the keyword, the
/// arrow and the reply, and a line break between each two lines.
pub fn render_pairs(pairs: &Vec<(String, String)>) -> (text: String)
    ensures
        text@ == joined(pairs.deep_view().map_values(line_of()), NEWLINE@),
{
    let mut lines: Vec<String> = Vec::new();
    let mut i: usize = 0;
    while i < pairs.len()
        invariant
            i <= pairs.len(),
            lines.len() == i,
            forall|j: int|
                0 <= j < i ==> (#[trigger] lines[j])@ == pairs[j].0@ + ARROW@ + pairs[j].1@,
        decreases pairs.len() - i,
    {
        let mut line = pairs[i].0.clone();
        line.append(ARROW);
        line.append(pairs[i].1.as_str());
        lines.push(line);
        i += 1;
    }
    assert(lines.deep_view() =~= pairs.deep_view().map_values(line_of()));
    crate::text::join_lines(&lines)
}

/// Whether a cache can be built of `entries`: no keyword stands twice in one
/// community, and every keyword makes a pattern that compiles.
pub open spec fn loadable(entries: Seq<Entry>) -> bool {
    &&& distinct_keys(entries)
    &&& forall|i: int| 0 <= i < entries.len() ==> keyword_compiles((#[trigger] entries[i]).keyword)
}

/// Whether entry `n` is the first that cannot be loaded, and `error` says why.
pub open spec fn fails_at(entries: Seq<Entry>, n: int, error: AddError) -> bool {
    &&& 0 <= n < entries.len()
    &&& loadable(entries.take(n))
    &&& if has_key(entries.take(n), entries[n].community, entries[n].keyword) {
        error == AddError::DuplicateKey
    } else {
        !keyword_compiles(entries[n].keyword) && error == AddError::InvalidKeyword
    }
}

impl ResponseCache {
    /// The listing of the responses of `community`, as it is shown to users.
    pub fn render_list(&self, community: u64) -> (text: String)
        ensures
            text@ == listing_text(self@, community),
    {
        let pairs = self.list(community);
        if pairs.len() == 0 {
            String::from_str(NO_RESPONSES)
        } else {
            render_pairs(&pairs)
        }
    }

    /// Checks a new response before anything is written: the keyword must be
    /// new in the community and must make a pattern that compiles. The
    /// result waits for the store's write and is then handed to
    /// [`ResponseCache::commit_add`].
    pub fn plan_add(&self, community: u64, keyword: &str, reply: &str) -> (r: Result<
        CachedResponse,
        AddError,
    >)
        ensures
            has_key(self@, community, keyword@) ==> (r matches Err(e) && e
                == AddError::DuplicateKey),
            !has_key(self@, community, keyword@) && !keyword_compiles(keyword@) ==> (r matches Err(
                e,
            ) && e == AddError::InvalidKeyword),
            !has_key(self@, community, keyword@) && keyword_compiles(keyword@) ==> (r matches Ok(
                item,
            ) && item.wf() && item@ == (Entry { community, keyword: keyword@, reply: reply@ })),
    {
        if self.contains(community, keyword) {
            return Err(AddError::DuplicateKey);
        }
        match KeywordMatcher::new(keyword) {
            Some(matcher) => Ok(CachedResponse { community, matcher, reply: reply.to_owned() }),
            None => Err(AddError::InvalidKeyword),
        }
    }

    /// Ends an addition once the store has answered. The response enters the
    /// cache only if the store wrote it, and never beside another response
    /// for the same keyword; the store's refusal is handed on.
    pub fn commit_add(&mut self, item: CachedResponse, outcome: Result<(), StoreError>) -> (r:
        Result<(), AddError>)
        requires
            old(self).wf(),
            item.wf(),
        ensures
            final(self).wf(),
            r is Ok <==> outcome is Ok && !has_key(old(self)@, item@.community, item@.keyword),
            r is Ok ==> final(self)@ == old(self)@.push(item@),
            r matches Err(e) ==> final(self)@ == old(self)@ && e == (match outcome {
                Err(StoreError::Failure) => AddError::Storage,
                _ => AddError::DuplicateKey,
            }),
    {
        match outcome {
            Err(StoreError::Failure) => Err(AddError::Storage),
            Err(StoreError::DuplicateKey) => Err(AddError::DuplicateKey),
            Ok(()) => {
                match self.position(item.community, item.matcher.keyword()) {
                    Some(_) => Err(AddError::DuplicateKey),
                    None => {
                        proof {
                            lemma_push_keeps_distinct(self@, item@);
                        }
                        self.items.push(item);
                        assert(self@ =~= old(self)@.push(item@));
                        Ok(())
                    },
                }
            },
        }
    }

    /// Ends a removal once the store has answered with the number of rows it
    /// deleted. The response leaves the cache only if the store deleted one.
    pub fn apply_remove(&mut self, community: u64, keyword: &str, deleted: usize) -> (r: Option<()>)
        requires
            old(self).wf(),
        ensures
            final(self).wf(),
            r is Some <==> deleted > 0,
            deleted == 0 ==> final(self)@ == old(self)@,
            deleted > 0 ==> final(self)@ == without_key(old(self)@, community, keyword@),
    {
        if deleted == 0 {
            return None;
        }
        let key = keyword.to_owned();
        proof {
            lemma_without_key_properties(self@, community, keyword@);
        }
        match self.position(community, &key) {
            Some(at) => {
                proof {
                    lemma_without_key_removes(self@, at as int, community, keyword@);
                }
                self.items.remove(at);
                assert(self@ =~= old(self)@.remove(at as int));
                assert forall|i: int| 0 <= i < self.items.len() implies (
                #[trigger] self.items[i]).wf() by {
                    if i < at {
                        assert(self.items[i] == old(self).items[i]);
                    } else {
                        assert(self.items[i] == old(self).items[i + 1]);
                    }
                }
            },
            None => {
                proof {
                    lemma_without_absent_key(self@, community, keyword@);
                }
            },
        }
        Some(())
    }

    /// Builds the cache of the rows that the store holds, in their order.
    /// Fails at the first row whose keyword stands in an earlier row of the
    /// same community, or whose pattern the engine refuses.
    pub fn from_rows(rows: &Vec<ResponseRow>) -> (r: Result<ResponseCache, AddError>)
        ensures
            r is Ok <==> loadable(entries_of(rows@)),
            r matches Ok(cache) ==> cache.wf() && cache@ == entries_of(rows@),
            r matches Err(e) ==> exists|n: int| fails_at(entries_of(rows@), n, e),
    {
        let ghost entries = entries_of(rows@);
        let mut cache = ResponseCache::new();
        let mut i: usize = 0;
        assert(entries.take(0) =~= cache@);
        while i < rows.len()
            invariant
                i <= rows.len(),
                entries == entries_of(rows@),
                cache.wf(),
                cache@ == entries.take(i as int),
                loadable(entries.take(i as int)),
            decreases rows.len() - i,
        {
            let row = &rows[i];
            assert(entries[i as int] == row@);
            assert(entries.take(i + 1) =~= entries.take(i as int).push(entries[i as int]));
            match cache.plan_add(row.community, row.keyword.as_str(), row.reply.as_str()) {
                Ok(item) => {
                    proof {
                        lemma_push_keeps_distinct(cache@, item@);
                    }
                    cache.items.push(item);
                    assert(cache@ =~= entries.take(i + 1));
                    assert(loadable(entries.take(i + 1))) by {
                        assert forall|j: int| 0 <= j < i + 1 implies keyword_compiles(
                            (#[trigger] entries.take(i + 1)[j]).keyword,
                        ) by {
                            if j < i {
                                assert(entries.take(i as int)[j] == entries.take(i + 1)[j]);
                            }
                        }
                    }
                },
                Err(e) => {
                    proof {
                        assert(fails_at(entries, i as int, e));
                        if has_key(entries.take(i as int), row@.community, row@.keyword) {
                            let j = choose|j: int|
                                0 <= j < i && (#[trigger] entries.take(i as int)[j]).has_key(
                                    row@.community,
                                    row@.keyword,
                                );
                            assert(entries[j].has_key(entries[i as int].community, entries[i as int].keyword));
                        }
                        assert(!loadable(entries));
                    }
                    return Err(e);
                },
            }
            i += 1;
        }
        assert(entries.take(i as int) =~= entries);
        Ok(cache)
    }
}

} // verus!

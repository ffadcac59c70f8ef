//! The data model: keyword responses and reputation rows, with the
//! mathematical view that the contracts of the other modules speak of.

use vstd::prelude::*;

verus! {

/// A keyword response as a mathematical value.
pub struct Entry {
    pub community: u64,
    pub keyword: Seq<char>,
    pub reply: Seq<char>,
}

impl Entry {
    /// Whether this entry is the one of `keyword` in `community`.
    pub open spec fn has_key(self, community: u64, keyword: Seq<char>) -> bool {
        self.community == community && self.keyword == keyword
    }
}

/// A keyword response: in `community`, a message that holds `keyword` as a
/// whole word is answered with `reply`.
pub struct ResponseRow {
    pub community: u64,
    pub keyword: String,
    pub reply: String,
}

impl View for ResponseRow {
    type V = Entry;

    open spec fn view(&self) -> Entry {
        Entry { community: self.community, keyword: self.keyword@, reply: self.reply@ }
    }
}

impl ResponseRow {
    /// A row of the three values.
    pub fn new(community: u64, keyword: &str, reply: &str) -> (row: ResponseRow)
        ensures
            row@ == (Entry { community, keyword: keyword@, reply: reply@ }),
    {
        ResponseRow { community, keyword: keyword.to_owned(), reply: reply.to_owned() }
    }

    /// A second row with the same values.
    pub fn duplicate(&self) -> (row: ResponseRow)
        ensures
            row@ == self@,
    {
        ResponseRow {
            community: self.community,
            keyword: self.keyword.clone(),
            reply: self.reply.clone(),
        }
    }
}

/// The views of `rows`, in order.
pub open spec fn entries_of(rows: Seq<ResponseRow>) -> Seq<Entry> {
    rows.map_values(|row: ResponseRow| row@)
}

/// Whether `entries` holds a response for `keyword` in `community`.
pub open spec fn has_key(entries: Seq<Entry>, community: u64, keyword: Seq<char>) -> bool {
    exists|i: int| 0 <= i < entries.len() && (#[trigger] entries[i]).has_key(community, keyword)
}

/// No two of `entries` answer the same keyword in the same community.
pub open spec fn distinct_keys(entries: Seq<Entry>) -> bool {
    forall|i: int, j: int|
        #![trigger entries[i], entries[j]]
        0 <= i < j < entries.len() ==> !entries[i].has_key(entries[j].community, entries[j].keyword)
}

/// `entries` without the response for `keyword` in `community`.
pub open spec fn without_key(entries: Seq<Entry>, community: u64, keyword: Seq<char>) -> Seq<
    Entry,
> {
    entries.filter(|e: Entry| !e.has_key(community, keyword))
}

/// The test that picks the entries of `community`.
pub open spec fn in_community(community: u64) -> spec_fn(Entry) -> bool {
    |e: Entry| e.community == community
}

/// The responses of `community` among `entries`, in order.
pub open spec fn of_community(entries: Seq<Entry>, community: u64) -> Seq<Entry> {
    entries.filter(in_community(community))
}

/// Nothing is taken out of entries that do not hold the key.
pub proof fn lemma_without_absent_key(entries: Seq<Entry>, community: u64, keyword: Seq<char>)
    requires
        !has_key(entries, community, keyword),
    ensures
        without_key(entries, community, keyword) == entries,
    decreases entries.len(),
{
    reveal(Seq::filter);
    if entries.len() > 0 {
        let front = entries.drop_last();
        assert forall|i: int| 0 <= i < front.len() implies !(#[trigger] front[i]).has_key(
            community,
            keyword,
        ) by {
            assert(front[i] == entries[i]);
        }
        lemma_without_absent_key(front, community, keyword);
        assert(entries.last() == entries[entries.len() - 1]);
        assert(front.push(entries.last()) =~= entries);
    }
}

/// Where keys are distinct, taking a key out removes the one entry that holds it.
pub proof fn lemma_without_key_removes(
    entries: Seq<Entry>,
    at: int,
    community: u64,
    keyword: Seq<char>,
)
    requires
        distinct_keys(entries),
        0 <= at < entries.len(),
        entries[at].has_key(community, keyword),
    ensures
        without_key(entries, community, keyword) == entries.remove(at),
    decreases entries.len(),
{
    reveal(Seq::filter);
    let front = entries.drop_last();
    let last = entries.last();
    if at == entries.len() - 1 {
        assert forall|i: int| 0 <= i < front.len() implies !(#[trigger] front[i]).has_key(
            community,
            keyword,
        ) by {
            assert(front[i] == entries[i]);
            assert(!entries[i].has_key(entries[at].community, entries[at].keyword));
        }
        lemma_without_absent_key(front, community, keyword);
        assert(entries.remove(at) =~= front);
    } else {
        assert(front[at] == entries[at]);
        assert(distinct_keys(front)) by {
            assert forall|i: int, j: int| 0 <= i < j < front.len() implies !(#[trigger] front[i]).has_key(
                (#[trigger] front[j]).community,
                front[j].keyword,
            ) by {
                assert(front[i] == entries[i] && front[j] == entries[j]);
            }
        }
        lemma_without_key_removes(front, at, community, keyword);
        assert(!entries[at].has_key(last.community, last.keyword));
        assert(!last.has_key(community, keyword));
        assert(front.remove(at).push(last) =~= entries.remove(at));
    }
}

/// Taking a key out leaves entries that do not hold it, and keeps keys distinct.
pub proof fn lemma_without_key_properties(entries: Seq<Entry>, community: u64, keyword: Seq<char>)
    requires
        distinct_keys(entries),
    ensures
        !has_key(without_key(entries, community, keyword), community, keyword),
        distinct_keys(without_key(entries, community, keyword)),
        forall|c: u64, k: Seq<char>|
            !(c == community && k == keyword) ==> (has_key(
                without_key(entries, community, keyword),
                c,
                k,
            ) <==> has_key(entries, c, k)),
{
    if has_key(entries, community, keyword) {
        let at = choose|i: int|
            0 <= i < entries.len() && (#[trigger] entries[i]).has_key(community, keyword);
        lemma_without_key_removes(entries, at, community, keyword);
        let rest = entries.remove(at);
        assert forall|i: int| 0 <= i < rest.len() implies !(#[trigger] rest[i]).has_key(
            community,
            keyword,
        ) by {
            if i < at {
                assert(rest[i] == entries[i]);
                assert(!entries[i].has_key(entries[at].community, entries[at].keyword));
            } else {
                assert(rest[i] == entries[i + 1]);
                assert(!entries[at].has_key(entries[i + 1].community, entries[i + 1].keyword));
            }
        }
        assert forall|i: int, j: int| 0 <= i < j < rest.len() implies !(#[trigger] rest[i]).has_key(
            (#[trigger] rest[j]).community,
            rest[j].keyword,
        ) by {
            let si = if i < at { i } else { i + 1 };
            let sj = if j < at { j } else { j + 1 };
            assert(rest[i] == entries[si] && rest[j] == entries[sj]);
        }
        assert forall|c: u64, k: Seq<char>| !(c == community && k == keyword) implies (has_key(
            rest,
            c,
            k,
        ) <==> has_key(entries, c, k)) by {
            if has_key(rest, c, k) {
                let i = choose|i: int| 0 <= i < rest.len() && (#[trigger] rest[i]).has_key(c, k);
                let si = if i < at { i } else { i + 1 };
                assert(rest[i] == entries[si]);
            }
            if has_key(entries, c, k) {
                let s = choose|i: int|
                    0 <= i < entries.len() && (#[trigger] entries[i]).has_key(c, k);
                assert(s != at);
                let i = if s < at { s } else { s - 1 };
                assert(rest[i] == entries[s]);
            }
        }
    } else {
        lemma_without_absent_key(entries, community, keyword);
    }
}

/// Adding an entry under a key that is not held keeps keys distinct.
pub proof fn lemma_push_keeps_distinct(entries: Seq<Entry>, entry: Entry)
    requires
        distinct_keys(entries),
        !has_key(entries, entry.community, entry.keyword),
    ensures
        distinct_keys(entries.push(entry)),
        forall|c: u64, k: Seq<char>|
            has_key(entries.push(entry), c, k) <==> (has_key(entries, c, k) || entry.has_key(c, k)),
{
    let more = entries.push(entry);
    assert forall|i: int, j: int| 0 <= i < j < more.len() implies !(#[trigger] more[i]).has_key(
        (#[trigger] more[j]).community,
        more[j].keyword,
    ) by {
        assert(more[i] == entries[i]);
        if j < entries.len() {
            assert(more[j] == entries[j]);
        }
    }
    assert forall|c: u64, k: Seq<char>| has_key(more, c, k) <==> (has_key(entries, c, k)
        || entry.has_key(c, k)) by {
        if has_key(more, c, k) {
            let i = choose|i: int| 0 <= i < more.len() && (#[trigger] more[i]).has_key(c, k);
            if i < entries.len() {
                assert(entries[i] == more[i]);
            }
        }
        if has_key(entries, c, k) {
            let i = choose|i: int| 0 <= i < entries.len() && (#[trigger] entries[i]).has_key(c, k);
            assert(more[i] == entries[i]);
        }
        if entry.has_key(c, k) {
            assert(more[entries.len() as int] == entry);
        }
    }
}

} // verus!

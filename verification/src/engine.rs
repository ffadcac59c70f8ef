//! The engine: the cache, the store and the last-message pointers behind one
//! owner. Whoever holds the engine mutably is alone with it, so every
//! operation runs to its end before the next begins.

use crate::cache::{listed_pairs, listing_text, matching_replies, AddError, ResponseCache};
use crate::dispatch::{
    begins_with_prefix, classified, classify_text, is_command, Command, CommandView,
};
use crate::ledger::{
    check_award, pointed, pointed_author, resolve_target, resolved_target, AwardError,
    LastMessage, LastSeen,
};
use crate::model::{distinct_keys, has_key, lemma_without_absent_key, without_key, Entry};
use crate::pattern::keyword_compiles;
use crate::replies::{
    add_error_text, award_error_text, parse_error_text, removal_text, set_done_text,
};
use crate::store::{is_ranking, score_in, MemoryStore};
use vstd::prelude::*;

verus! {

/// What one message leads to, before any command is carried out.
pub struct Step {
    /// The replies that the text draws from the keyword responses.
    pub replies: Vec<String>,
    /// The command that the text stands for.
    pub command: Command,
    /// The message that the community pointed to when this one came in.
    pub last: Option<LastMessage>,
}

/// The pointers after a message of `author` came in: the community points
/// to the message, unless it is a command.
pub open spec fn seen_after(
    before: Map<u64, LastMessage>,
    community: u64,
    message: u64,
    author: u64,
    content: Seq<char>,
) -> Map<u64, LastMessage> {
    if is_command(content) {
        before
    } else {
        before.insert(community, LastMessage { message, author })
    }
}

/// Takes one message in. A message of the bot itself leads to nothing.
/// Every other message draws the replies of the keywords that occur in it,
/// command or not, and is read as a command; and where it is no command,
/// the community points to it from now on.
pub fn step(
    bot: u64,
    cache: &ResponseCache,
    seen: &mut LastSeen,
    community: u64,
    message: u64,
    author: u64,
    content: &str,
) -> (s: Step)
    requires
        cache.wf(),
    ensures
        author == bot ==> s.replies@.len() == 0 && s.command@ is Nothing && s.last is None
            && final(seen)@ == old(seen)@,
        author != bot ==> s.replies.deep_view() == matching_replies(cache@, community, content@)
            && s.command@ == classified(content@) && s.last == pointed(old(seen)@, community),
        author != bot ==> final(seen)@ == seen_after(
            old(seen)@,
            community,
            message,
            author,
            content@,
        ),
{
    if author == bot {
        return Step { replies: Vec::new(), command: Command::Nothing, last: None };
    }
    let replies = cache.find_matches(community, content);
    let command = classify_text(content);
    let last = seen.latest(community);
    let plain = match command {
        Command::Nothing => !begins_with_prefix(content),
        _ => false,
    };
    if plain {
        seen.record(community, LastMessage { message, author });
    }
    Step { replies, command, last }
}

/// What an addition answers, by what the responses hold before it.
pub open spec fn add_result(entries: Seq<Entry>, community: u64, keyword: Seq<char>) -> Result<
    (),
    AddError,
> {
    if has_key(entries, community, keyword) {
        Err(AddError::DuplicateKey)
    } else if !keyword_compiles(keyword) {
        Err(AddError::InvalidKeyword)
    } else {
        Ok(())
    }
}

/// The responses after an addition: one more at the end where it succeeds,
/// the same where it fails.
pub open spec fn after_add(
    entries: Seq<Entry>,
    community: u64,
    keyword: Seq<char>,
    reply: Seq<char>,
) -> Seq<Entry> {
    if add_result(entries, community, keyword) is Ok {
        entries.push(Entry { community, keyword, reply })
    } else {
        entries
    }
}

/// What a removal answers: `None` where there was nothing to remove.
pub open spec fn remove_result(entries: Seq<Entry>, community: u64, keyword: Seq<char>) -> Option<
    (),
> {
    if has_key(entries, community, keyword) {
        Some(())
    } else {
        None
    }
}

/// What an award answers, by what the scores hold before it: the new score
/// of the target, unless the granter awards itself or the counter is full.
pub open spec fn award_result(
    scores: Map<(u64, u64), nat>,
    community: u64,
    granter: u64,
    target: u64,
) -> Result<u64, AwardError> {
    if granter == target {
        Err(AwardError::SelfAward)
    } else if score_in(scores, community, target) >= u64::MAX {
        Err(AwardError::Storage)
    } else {
        Ok((score_in(scores, community, target) + 1) as u64)
    }
}

/// The scores after an award: the target has one point more where the award
/// succeeds, and nothing has changed where it fails.
pub open spec fn after_award(
    scores: Map<(u64, u64), nat>,
    community: u64,
    granter: u64,
    target: u64,
) -> Map<(u64, u64), nat> {
    if award_result(scores, community, granter, target) is Ok {
        scores.insert((community, target), score_in(scores, community, target) + 1)
    } else {
        scores
    }
}

/// The engine as a mathematical value.
pub struct EngineView {
    /// The keyword responses, oldest first: what the store holds and the
    /// cache mirrors.
    pub responses: Seq<Entry>,
    /// The score of each user of each community.
    pub scores: Map<(u64, u64), nat>,
    /// The last message of each community that was no command.
    pub seen: Map<u64, LastMessage>,
}

/// The cache, the store and the pointers of one bot.
pub struct Engine {
    bot: u64,
    cache: ResponseCache,
    store: MemoryStore,
    seen: LastSeen,
}

impl View for Engine {
    type V = EngineView;

    closed spec fn view(&self) -> EngineView {
        EngineView { responses: self.cache@, scores: self.store@.scores, seen: self.seen@ }
    }
}

impl Engine {
    /// The cache and the store are well formed, and the cache holds what the
    /// store holds.
    pub closed spec fn wf(&self) -> bool {
        &&& self.cache.wf()
        &&& self.store.wf()
        &&& self.cache@ == self.store@.responses
    }

    /// The id of the bot's own account.
    pub closed spec fn bot_id(&self) -> u64 {
        self.bot
    }

    /// What every well-formed engine has: no keyword twice in one community.
    pub proof fn lemma_wf(&self)
        requires
            self.wf(),
        ensures
            distinct_keys(self@.responses),
    {
        self.cache.lemma_wf();
    }

    /// An engine without responses, scores or pointers.
    pub fn new(bot: u64) -> (engine: Engine)
        ensures
            engine.wf(),
            engine.bot_id() == bot,
            engine@.responses == Seq::<Entry>::empty(),
            engine@.scores == Map::<(u64, u64), nat>::empty(),
            engine@.seen == LastSeen::nothing(),
    {
        Engine {
            bot,
            cache: ResponseCache::new(),
            store: MemoryStore::new(),
            seen: LastSeen::new(),
        }
    }

    /// Adds a response: the cache is asked first, then the store is written,
    /// and only then the cache is changed.
    pub fn add(&mut self, community: u64, keyword: &str, reply: &str) -> (r: Result<(), AddError>)
        requires
            old(self).wf(),
        ensures
            final(self).wf(),
            final(self).bot_id() == old(self).bot_id(),
            r == add_result(old(self)@.responses, community, keyword@),
            final(self)@.responses == after_add(
                old(self)@.responses,
                community,
                keyword@,
                reply@,
            ),
            final(self)@.scores == old(self)@.scores,
            final(self)@.seen == old(self)@.seen,
    {
        match self.cache.plan_add(community, keyword, reply) {
            Err(e) => Err(e),
            Ok(item) => {
                let row = item.row();
                assert(row@ == (Entry { community, keyword: keyword@, reply: reply@ }));
                assert(row.community == community && row.keyword@ == keyword@);
                let outcome = self.store.insert_response(row);
                assert(outcome is Ok);
                match self.cache.commit_add(item, outcome) {
                    Ok(_) => Ok(()),
                    Err(e) => Err(e),
                }
            },
        }
    }

    /// Removes a response: the store is written first, and the cache is
    /// changed only if the store deleted a row.
    pub fn remove(&mut self, community: u64, keyword: &str) -> (r: Option<()>)
        requires
            old(self).wf(),
        ensures
            final(self).wf(),
            final(self).bot_id() == old(self).bot_id(),
            r == remove_result(old(self)@.responses, community, keyword@),
            final(self)@.responses == without_key(old(self)@.responses, community, keyword@),
            final(self)@.scores == old(self)@.scores,
            final(self)@.seen == old(self)@.seen,
    {
        let deleted = self.store.delete_response(community, keyword);
        proof {
            if deleted == 0 {
                lemma_without_absent_key(old(self)@.responses, community, keyword@);
            }
        }
        match self.cache.apply_remove(community, keyword, deleted) {
            Some(_) => Some(()),
            None => None,
        }
    }

    /// Awards `target` one point from `granter`. A user cannot award itself.
    /// The store is asked once, for the increment and the new score in one.
    pub fn award(&mut self, community: u64, granter: u64, target: u64) -> (r: Result<
        u64,
        AwardError,
    >)
        requires
            old(self).wf(),
        ensures
            final(self).wf(),
            final(self).bot_id() == old(self).bot_id(),
            r == award_result(old(self)@.scores, community, granter, target),
            final(self)@.scores == after_award(old(self)@.scores, community, granter, target),
            final(self)@.responses == old(self)@.responses,
            final(self)@.seen == old(self)@.seen,
    {
        match check_award(granter, Some(target)) {
            Err(e) => Err(e),
            Ok(user) => crate::ledger::settle_award(self.store.award_point(community, user)),
        }
    }
}

} // verus!

verus! {

/// What an award by message answers: the target and its new score, once a
/// target is found and the award goes through.
pub open spec fn message_award_result(
    scores: Map<(u64, u64), nat>,
    community: u64,
    granter: u64,
    target: Option<u64>,
) -> Result<(u64, u64), AwardError> {
    match target {
        None => Err(AwardError::NoTarget),
        Some(user) => match award_result(scores, community, granter, user) {
            Ok(score) => Ok((user, score)),
            Err(e) => Err(e),
        },
    }
}

/// The scores after an award by message: those after the award to the
/// target, and the same where there is no target.
pub open spec fn after_message_award(
    scores: Map<(u64, u64), nat>,
    community: u64,
    granter: u64,
    target: Option<u64>,
) -> Map<(u64, u64), nat> {
    match target {
        None => scores,
        Some(user) => after_award(scores, community, granter, user),
    }
}

impl Engine {
    /// Builds the engine of a store that was filled before: the cache is
    /// rebuilt of all its responses at once. Fails where the pattern engine
    /// refuses a keyword of the store, so that no engine runs on a cache that
    /// holds less than its store.
    pub fn restore(bot: u64, store: MemoryStore) -> (r: Result<Engine, AddError>)
        requires
            store.wf(),
        ensures
            r is Ok <==> forall|i: int|
                0 <= i < store@.responses.len() ==> keyword_compiles(
                    (#[trigger] store@.responses[i]).keyword,
                ),
            r matches Ok(engine) ==> {
                &&& engine.wf()
                &&& engine.bot_id() == bot
                &&& engine@.responses == store@.responses
                &&& engine@.scores == store@.scores
                &&& engine@.seen == LastSeen::nothing()
            },
            r matches Err(e) ==> e == AddError::InvalidKeyword,
    {
        let rows = store.load_all_responses();
        proof {
            store.lemma_wf();
        }
        match ResponseCache::from_rows(&rows) {
            Ok(cache) => Ok(Engine { bot, cache, store, seen: LastSeen::new() }),
            Err(e) => {
                proof {
                    let entries = store@.responses;
                    let n = choose|n: int| crate::cache::fails_at(entries, n, e);
                    if has_key(entries.take(n), entries[n].community, entries[n].keyword) {
                        let j = choose|j: int|
                            0 <= j < n && (#[trigger] entries.take(n)[j]).has_key(
                                entries[n].community,
                                entries[n].keyword,
                            );
                        assert(entries[j].has_key(entries[n].community, entries[n].keyword));
                    }
                }
                Err(e)
            },
        }
    }

    /// The replies that `text` draws in `community`.
    pub fn find_matches(&self, community: u64, text: &str) -> (replies: Vec<String>)
        requires
            self.wf(),
        ensures
            replies.deep_view() == matching_replies(self@.responses, community, text@),
    {
        self.cache.find_matches(community, text)
    }

    /// The keywords of `community` with their replies, oldest first.
    pub fn list(&self, community: u64) -> (pairs: Vec<(String, String)>)
        ensures
            pairs.deep_view() == listed_pairs(self@.responses, community),
    {
        self.cache.list(community)
    }

    /// The listing of the responses of `community`, as it is shown to users.
    pub fn render_list(&self, community: u64) -> (text: String)
        ensures
            text@ == listing_text(self@.responses, community),
    {
        self.cache.render_list(community)
    }

    /// The users of `community` with their scores, the highest score first.
    pub fn list_scores(&self, community: u64) -> (ranking: Vec<(u64, u64)>)
        requires
            self.wf(),
        ensures
            is_ranking(self@.scores, community, ranking@),
    {
        self.store.list_scores(community)
    }

    /// The score of `user` in `community`.
    pub fn score(&self, community: u64, user: u64) -> (score: u64)
        requires
            self.wf(),
        ensures
            score == score_in(self@.scores, community, user),
    {
        self.store.score(community, user)
    }

    /// Takes one message in: see [`step`].
    pub fn on_message(&mut self, community: u64, message: u64, author: u64, content: &str) -> (s:
        Step)
        requires
            old(self).wf(),
        ensures
            final(self).wf(),
            final(self).bot_id() == old(self).bot_id(),
            final(self)@.responses == old(self)@.responses,
            final(self)@.scores == old(self)@.scores,
            author == old(self).bot_id() ==> s.replies@.len() == 0 && s.command@ is Nothing
                && s.last is None && final(self)@.seen == old(self)@.seen,
            author != old(self).bot_id() ==> s.replies.deep_view() == matching_replies(
                old(self)@.responses,
                community,
                content@,
            ) && s.command@ == classified(content@) && s.last == pointed(
                old(self)@.seen,
                community,
            ),
            author != old(self).bot_id() ==> final(self)@.seen == seen_after(
                old(self)@.seen,
                community,
                message,
                author,
                content@,
            ),
    {
        step(self.bot, &self.cache, &mut self.seen, community, message, author, content)
    }

    /// Awards a point by a message of `granter`. The target is the one user
    /// that the message mentions, else the author of the message it replies
    /// to, else the author of the message that the community points to.
    /// Without a target nothing is written.
    pub fn award_by_message(
        &mut self,
        community: u64,
        granter: u64,
        mentions: &Vec<u64>,
        replied_to: Option<u64>,
    ) -> (r: Result<(u64, u64), AwardError>)
        requires
            old(self).wf(),
        ensures
            final(self).wf(),
            final(self).bot_id() == old(self).bot_id(),
            r == message_award_result(
                old(self)@.scores,
                community,
                granter,
                resolved_target(mentions@, replied_to, pointed_author(old(self)@.seen, community)),
            ),
            final(self)@.scores == after_message_award(
                old(self)@.scores,
                community,
                granter,
                resolved_target(mentions@, replied_to, pointed_author(old(self)@.seen, community)),
            ),
            final(self)@.responses == old(self)@.responses,
            final(self)@.seen == old(self)@.seen,
    {
        let last_author = match self.seen.latest(community) {
            Some(last) => Some(last.author),
            None => None,
        };
        match resolve_target(mentions, replied_to, last_author) {
            None => Err(AwardError::NoTarget),
            Some(user) => match self.award(community, granter, user) {
                Ok(score) => Ok((user, score)),
                Err(e) => Err(e),
            },
        }
    }
}

} // verus!

verus! {

/// What the engine answers to a command.
#[derive(Debug)]
pub enum Outcome {
    /// Nothing.
    Silent,
    /// A text, to be sent as it stands.
    Say(String),
    /// A point was awarded: the target and its new score, to be told with
    /// the target's name.
    Awarded { target: u64, score: u64 },
    /// The scores, the highest first, to be shown with the users' names.
    Ranking(Vec<(u64, u64)>),
    /// A picture is to be drawn from the messages of the designated
    /// channel, by [`crate::attachments::draw`], which also gives the text
    /// for a channel that is missing or holds no attachment.
    Picture,
}

/// An answer as a mathematical value.
pub enum OutcomeView {
    Silent,
    Say(Seq<char>),
    Awarded { target: u64, score: u64 },
    Ranking(Seq<(u64, u64)>),
    Picture,
}

impl View for Outcome {
    type V = OutcomeView;

    open spec fn view(&self) -> OutcomeView {
        match *self {
            Outcome::Silent => OutcomeView::Silent,
            Outcome::Say(text) => OutcomeView::Say(text@),
            Outcome::Awarded { target, score } => OutcomeView::Awarded { target, score },
            Outcome::Ranking(ranking) => OutcomeView::Ranking(ranking@),
            Outcome::Picture => OutcomeView::Picture,
        }
    }
}

/// Whether `outcome` answers `command`, sent by `author` in `community` to
/// an engine in state `before`. Every failure is answered with its text.
pub open spec fn answers(
    before: EngineView,
    community: u64,
    author: u64,
    command: CommandView,
    target: Option<u64>,
    outcome: OutcomeView,
) -> bool {
    match command {
        CommandView::Nothing => outcome is Silent,
        CommandView::Award => match message_award_result(
            before.scores,
            community,
            author,
            target,
        ) {
            Ok(awarded) => outcome == (OutcomeView::Awarded {
                target: awarded.0,
                score: awarded.1,
            }),
            Err(e) => outcome == OutcomeView::Say(award_error_text(e)),
        },
        CommandView::ListScores => outcome matches OutcomeView::Ranking(ranking) && is_ranking(
            before.scores,
            community,
            ranking,
        ),
        CommandView::ListResponses => outcome == OutcomeView::Say(
            listing_text(before.responses, community),
        ),
        CommandView::AddResponse { keyword, reply } => outcome == OutcomeView::Say(
            match add_result(before.responses, community, keyword) {
                Ok(_) => set_done_text(keyword, reply),
                Err(e) => add_error_text(e),
            },
        ),
        CommandView::RemoveResponse { keyword } => outcome == OutcomeView::Say(
            removal_text(keyword, has_key(before.responses, community, keyword)),
        ),
        CommandView::FetchAttachment => outcome is Picture,
        CommandView::Malformed(e) => outcome == OutcomeView::Say(parse_error_text(e)),
    }
}

/// The responses after `command`: only an addition and a removal change them.
pub open spec fn responses_after(before: Seq<Entry>, community: u64, command: CommandView) -> Seq<
    Entry,
> {
    match command {
        CommandView::AddResponse { keyword, reply } => after_add(before, community, keyword, reply),
        CommandView::RemoveResponse { keyword } => without_key(before, community, keyword),
        _ => before,
    }
}

/// The scores after `command`: only an award changes them.
pub open spec fn scores_after(
    before: Map<(u64, u64), nat>,
    community: u64,
    author: u64,
    command: CommandView,
    target: Option<u64>,
) -> Map<(u64, u64), nat> {
    match command {
        CommandView::Award => after_message_award(before, community, author, target),
        _ => before,
    }
}

impl Engine {
    /// Carries out `command`, sent by `author` in `community`. The message
    /// of an award may mention users and may reply to the message of
    /// `replied_to`; other commands read neither.
    pub fn execute(
        &mut self,
        community: u64,
        author: u64,
        command: &Command,
        mentions: &Vec<u64>,
        replied_to: Option<u64>,
    ) -> (outcome: Outcome)
        requires
            old(self).wf(),
        ensures
            final(self).wf(),
            final(self).bot_id() == old(self).bot_id(),
            answers(
                old(self)@,
                community,
                author,
                command@,
                resolved_target(mentions@, replied_to, pointed_author(old(self)@.seen, community)),
                outcome@,
            ),
            final(self)@.responses == responses_after(old(self)@.responses, community, command@),
            final(self)@.scores == scores_after(
                old(self)@.scores,
                community,
                author,
                command@,
                resolved_target(mentions@, replied_to, pointed_author(old(self)@.seen, community)),
            ),
            final(self)@.seen == old(self)@.seen,
    {
        match command {
            Command::Nothing => Outcome::Silent,
            Command::Award => match self.award_by_message(community, author, mentions, replied_to) {
                Ok((target, score)) => Outcome::Awarded { target, score },
                Err(e) => Outcome::Say(crate::replies::award_error(e)),
            },
            Command::ListScores => Outcome::Ranking(self.list_scores(community)),
            Command::ListResponses => Outcome::Say(self.render_list(community)),
            Command::AddResponse { keyword, reply } => {
                match self.add(community, keyword.as_str(), reply.as_str()) {
                    Ok(_) => Outcome::Say(crate::replies::set_done(keyword.as_str(), reply.as_str())),
                    Err(e) => Outcome::Say(crate::replies::add_error(e)),
                }
            },
            Command::RemoveResponse { keyword } => {
                let removed = self.remove(community, keyword.as_str()).is_some();
                Outcome::Say(crate::replies::removal(keyword.as_str(), removed))
            },
            Command::FetchAttachment => Outcome::Picture,
            Command::Malformed(e) => Outcome::Say(crate::replies::parse_error(*e)),
        }
    }

    /// Takes one message in and carries out the command it stands for. The
    /// replies of the keywords come first, command or not; a message of the
    /// bot itself draws nothing and does nothing.
    pub fn handle(
        &mut self,
        community: u64,
        message: u64,
        author: u64,
        content: &str,
        mentions: &Vec<u64>,
        replied_to: Option<u64>,
    ) -> (r: (Vec<String>, Outcome))
        requires
            old(self).wf(),
        ensures
            final(self).wf(),
            final(self).bot_id() == old(self).bot_id(),
            author == old(self).bot_id() ==> r.0@.len() == 0 && r.1@ is Silent && final(self)@
                == old(self)@,
            author != old(self).bot_id() ==> r.0.deep_view() == matching_replies(
                old(self)@.responses,
                community,
                content@,
            ) && answers(
                old(self)@,
                community,
                author,
                classified(content@),
                resolved_target(mentions@, replied_to, pointed_author(old(self)@.seen, community)),
                r.1@,
            ) && final(self)@.responses == responses_after(
                old(self)@.responses,
                community,
                classified(content@),
            ) && final(self)@.scores == scores_after(
                old(self)@.scores,
                community,
                author,
                classified(content@),
                resolved_target(mentions@, replied_to, pointed_author(old(self)@.seen, community)),
            ),
            author != old(self).bot_id() ==> final(self)@.seen == seen_after(
                old(self)@.seen,
                community,
                message,
                author,
                content@,
            ),
    {
        if author == self.bot {
            return (Vec::new(), Outcome::Silent);
        }
        let taken = self.on_message(community, message, author, content);
        let outcome = match taken.command {
            Command::Nothing => Outcome::Silent,
            command => self.execute(community, author, &command, mentions, replied_to),
        };
        (taken.replies, outcome)
    }
}

} // verus!

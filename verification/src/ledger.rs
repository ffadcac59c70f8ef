//! The reputation ledger's policy: who an award goes to, which awards are
//! refused, and the pointer to the last message of each community that
//! stands in for a target where the message names none.

use crate::store::StoreError;
use std::collections::HashMap;
use vstd::prelude::*;

verus! {

broadcast use vstd::std_specs::hash::group_hash_axioms;

/// Why no point was awarded.
#[derive(Clone, Copy, Debug, PartialEq, Eq, Structural)]
pub enum AwardError {
    /// The message names nobody, answers nobody, and no earlier message is
    /// known in the community.
    NoTarget,
    /// The granter and the target are the same user.
    SelfAward,
    /// The store could not carry the increment out.
    Storage,
}

/// The target of an award: the user that the message mentions, if it
/// mentions exactly one; else the author of the message it replies to; else
/// the author of the last message seen in the community.
pub open spec fn resolved_target(
    mentions: Seq<u64>,
    replied_to: Option<u64>,
    last_author: Option<u64>,
) -> Option<u64> {
    if mentions.len() == 1 {
        Some(mentions[0])
    } else if replied_to is Some {
        replied_to
    } else {
        last_author
    }
}

/// Finds the target of an award.
pub fn resolve_target(mentions: &Vec<u64>, replied_to: Option<u64>, last_author: Option<u64>) -> (target:
    Option<u64>)
    ensures
        target == resolved_target(mentions@, replied_to, last_author),
{
    if mentions.len() == 1 {
        Some(mentions[0])
    } else if replied_to.is_some() {
        replied_to
    } else {
        last_author
    }
}

/// Whether `granter` may award `target`: there must be a target, and it must
/// be another user.
pub open spec fn award_check(granter: u64, target: Option<u64>) -> Result<u64, AwardError> {
    match target {
        None => Err(AwardError::NoTarget),
        Some(user) => if user == granter {
            Err(AwardError::SelfAward)
        } else {
            Ok(user)
        },
    }
}

/// Decides an award before the store is touched.
pub fn check_award(granter: u64, target: Option<u64>) -> (r: Result<u64, AwardError>)
    ensures
        r == award_check(granter, target),
{
    match target {
        None => Err(AwardError::NoTarget),
        Some(user) => if user == granter {
            Err(AwardError::SelfAward)
        } else {
            Ok(user)
        },
    }
}

/// What the granter is told once the store has answered: the new score, or
/// that the store failed.
pub open spec fn award_outcome(outcome: Result<u64, StoreError>) -> Result<u64, AwardError> {
    match outcome {
        Ok(score) => Ok(score),
        Err(_) => Err(AwardError::Storage),
    }
}

/// Turns the store's answer into the granter's.
pub fn settle_award(outcome: Result<u64, StoreError>) -> (r: Result<u64, AwardError>)
    ensures
        r == award_outcome(outcome),
{
    match outcome {
        Ok(score) => Ok(score),
        Err(_) => Err(AwardError::Storage),
    }
}

/// A message that was seen: its id and its author.
#[derive(Clone, Copy, Debug, PartialEq, Eq, Structural)]
pub struct LastMessage {
    pub message: u64,
    pub author: u64,
}

/// For each community, the last message seen in it that was no command.
/// Held in memory only.
pub struct LastSeen {
    latest: HashMap<u64, LastMessage>,
}

impl View for LastSeen {
    type V = Map<u64, LastMessage>;

    closed spec fn view(&self) -> Map<u64, LastMessage> {
        self.latest@
    }
}

/// The message that `seen` points to in `community`.
pub open spec fn pointed(seen: Map<u64, LastMessage>, community: u64) -> Option<LastMessage> {
    if seen.contains_key(community) {
        Some(seen[community])
    } else {
        None
    }
}

/// The author of the message that `seen` points to in `community`.
pub open spec fn pointed_author(seen: Map<u64, LastMessage>, community: u64) -> Option<u64> {
    match pointed(seen, community) {
        Some(last) => Some(last.author),
        None => None,
    }
}

impl LastSeen {
    /// The pointers before any message was seen.
    pub open spec fn nothing() -> Map<u64, LastMessage> {
        Map::empty()
    }

    /// No message seen anywhere.
    pub fn new() -> (seen: LastSeen)
        ensures
            seen@ == LastSeen::nothing(),
    {
        LastSeen { latest: HashMap::new() }
    }

    /// Points `community` to `message`, whatever it pointed to before.
    pub fn record(&mut self, community: u64, message: LastMessage)
        ensures
            final(self)@ == old(self)@.insert(community, message),
    {
        self.latest.insert(community, message);
    }

    /// The message that `community` points to.
    pub fn latest(&self, community: u64) -> (last: Option<LastMessage>)
        ensures
            last == pointed(self@, community),
    {
        match self.latest.get(&community) {
            Some(last) => Some(*last),
            None => None,
        }
    }
}

} // verus!

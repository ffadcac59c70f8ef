//! The picture command: of the messages of the designated channel, one that
//! carries attachments is drawn at random.

use rand::seq::IteratorRandom;
use vstd::prelude::*;

verus! {

/// The name of the channel that the pictures are drawn from.
pub const PICTURE_CHANNEL: &'static str = "national-gank-bureau";

/// A message of the channel: its id and the addresses of its attachments.
pub struct ChannelMessage {
    pub id: u64,
    pub attachments: Vec<String>,
}

/// Draws one of `candidates` at random.
///
/// Trusted: the body is `rand::seq::IteratorRandom::choose` on the
/// candidates, with the thread's generator. It is documented to return
/// `None` if and only if there is nothing to choose from; what it returns
/// otherwise is one of the items. Which one is left open.
#[verifier::external_body]
pub(crate) fn choose_one(candidates: &Vec<usize>) -> (chosen: Option<usize>)
    ensures
        chosen is None <==> candidates@.len() == 0,
        chosen matches Some(item) ==> candidates@.contains(item),
{
    candidates.iter().copied().choose(&mut rand::thread_rng())
}

/// Whether `candidates` holds the index of every message with attachments,
/// in rising order, and no other.
pub open spec fn are_carriers(messages: Seq<ChannelMessage>, candidates: Seq<usize>) -> bool {
    &&& forall|k: int|
        0 <= k < candidates.len() ==> (#[trigger] candidates[k]) < messages.len()
            && messages[candidates[k] as int].attachments.len() > 0
    &&& forall|j: int, k: int|
        #![trigger candidates[j], candidates[k]]
        0 <= j < k < candidates.len() ==> candidates[j] < candidates[k]
    &&& forall|i: int|
        0 <= i < messages.len() && (#[trigger] messages[i]).attachments.len() > 0
            ==> candidates.contains(i as usize)
}

/// The indices of the messages that carry attachments.
pub fn carriers(messages: &Vec<ChannelMessage>) -> (candidates: Vec<usize>)
    ensures
        are_carriers(messages@, candidates@),
{
    let mut candidates: Vec<usize> = Vec::new();
    let mut i: usize = 0;
    while i < messages.len()
        invariant
            i <= messages.len(),
            are_carriers(messages@.take(i as int), candidates@),
            forall|k: int| 0 <= k < candidates.len() ==> (#[trigger] candidates[k]) < i,
        decreases messages.len() - i,
    {
        let ghost before = candidates@;
        if messages[i].attachments.len() > 0 {
            candidates.push(i);
        }
        proof {
            let upto = messages@.take(i + 1);
            assert forall|m: int|
                0 <= m < upto.len() && (#[trigger] upto[m]).attachments.len()
                    > 0 implies candidates@.contains(m as usize) by {
                if m < i {
                    assert(messages@.take(i as int)[m] == upto[m]);
                    assert(before.contains(m as usize));
                    let k = choose|k: int| 0 <= k < before.len() && before[k] == m as usize;
                    assert(candidates@[k] == m as usize);
                } else {
                    assert(candidates@[candidates.len() - 1] == i);
                }
            }
            assert forall|k: int| 0 <= k < candidates.len() implies (#[trigger] candidates[k])
                < upto.len() && upto[candidates[k] as int].attachments.len() > 0 by {
                if k < before.len() {
                    assert(candidates[k] == before[k]);
                    assert(messages@.take(i as int)[before[k] as int] == upto[before[k] as int]);
                }
            }
        }
        i += 1;
    }
    assert(messages@.take(i as int) =~= messages@);
    candidates
}

/// Draws one message that carries attachments; `None` if and only if no
/// message carries any. Which one is drawn is left to chance.
pub fn pick_carrier(messages: &Vec<ChannelMessage>) -> (picked: Option<usize>)
    ensures
        picked is None <==> forall|i: int|
            0 <= i < messages.len() ==> (#[trigger] messages[i]).attachments.len() == 0,
        picked matches Some(at) ==> at < messages.len() && messages[at as int].attachments.len()
            > 0,
{
    let candidates = carriers(messages);
    let picked = choose_one(&candidates);
    proof {
        if candidates.len() == 0 {
            assert forall|i: int| 0 <= i < messages.len() implies (
            #[trigger] messages[i]).attachments.len() == 0 by {
                if messages[i].attachments.len() > 0 {
                    assert(candidates@.contains(i as usize));
                }
            }
        } else {
            assert(candidates[0] < messages.len());
            assert(messages[candidates[0] as int].attachments.len() > 0);
        }
        if let Some(item) = picked {
            let k = choose|k: int| 0 <= k < candidates.len() && candidates[k] == item;
            assert(candidates[k] < messages.len());
        }
    }
    picked
}

} // verus!

verus! {

/// What the picture command leads to.
#[derive(Debug)]
pub enum Picture {
    /// The addresses of the attachments of the message that was drawn, to be
    /// sent as files.
    Files(Vec<String>),
    /// Nothing could be drawn; the text says so.
    Missing(String),
}

fn copy_texts(texts: &Vec<String>) -> (copy: Vec<String>)
    ensures
        copy.deep_view() == texts.deep_view(),
{
    let mut copy: Vec<String> = Vec::new();
    let mut i: usize = 0;
    while i < texts.len()
        invariant
            i <= texts.len(),
            copy.len() == i,
            forall|j: int| 0 <= j < i ==> (#[trigger] copy[j])@ == texts[j]@,
        decreases texts.len() - i,
    {
        copy.push(texts[i].clone());
        i += 1;
    }
    assert(copy.deep_view() =~= texts.deep_view());
    copy
}

/// Whether `files` are the attachments of one of `messages` that carries
/// some.
pub open spec fn drawn_from(messages: Seq<ChannelMessage>, files: Seq<Seq<char>>) -> bool {
    exists|at: int|
        0 <= at < messages.len() && (#[trigger] messages[at]).attachments.len() > 0 && files
            == messages[at].attachments.deep_view()
}

/// Carries the picture command out on the messages of the designated
/// channel; `None` stands for a community without that channel. Where a
/// message carries attachments, those of one such message are drawn. Where
/// the channel is missing or no message carries any, the text of
/// [`crate::replies::NO_PICTURE`] reports it.
pub fn draw(messages: Option<&Vec<ChannelMessage>>) -> (drawn: Picture)
    ensures
        drawn matches Picture::Files(files) ==> (messages matches Some(all) && drawn_from(
            all@,
            files.deep_view(),
        )),
        drawn matches Picture::Missing(text) ==> text@ == crate::replies::NO_PICTURE@,
        drawn is Missing <==> (messages matches Some(all) ==> forall|i: int|
            0 <= i < all.len() ==> (#[trigger] all[i]).attachments.len() == 0),
{
    match messages {
        None => Picture::Missing(crate::replies::picture_missing()),
        Some(all) => match pick_carrier(all) {
            None => Picture::Missing(crate::replies::picture_missing()),
            Some(at) => {
                let files = copy_texts(&all[at].attachments);
                assert(all@[at as int].attachments.len() > 0);
                Picture::Files(files)
            },
        },
    }
}

} // verus!

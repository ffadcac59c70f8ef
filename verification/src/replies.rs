//! The texts that answer a command. Every failure has one: nothing is
//! dropped in silence.

use crate::cache::{AddError, ARROW};
use crate::dispatch::ParseError;
use crate::ledger::AwardError;
use crate::text::{decimal_text, push_decimal, terminated, NEWLINE};
use vstd::prelude::*;
use vstd::string::StringExecFns;

verus! {

/// What follows the keyword and the reply of a response that was added.
pub const SET_DONE: &'static str = " - successfully set";

/// What follows the keyword of a response that was removed.
pub const REMOVE_DONE: &'static str = " - successfully removed";

/// What follows a keyword that had no response to remove.
pub const REMOVE_MISSING: &'static str = " - does not exist";

/// The keyword has a response in the community.
pub const ALREADY_EXISTS: &'static str = "Error: already exists";

/// The pattern engine refused the keyword.
pub const INVALID_KEYWORD: &'static str = "Error: the keyword cannot be matched";

/// The store failed on a write.
pub const STORE_FAILED: &'static str = "Error: the store could not be written";

/// The store failed on a read.
pub const STORE_UNREAD: &'static str = "Error: the store could not be read";

/// No picture can be drawn: the designated channel is missing, or none of
/// its messages carries an attachment.
pub const NO_PICTURE: &'static str = "Error: no picture to draw";

/// No keyword was given; the syntax follows.
pub const NO_KEYWORD: &'static str =
    "Error: no keyword\nSyntax: `!set \"some keywords\" a response`";

/// No reply was given; the syntax follows.
pub const NO_REPLY: &'static str = "Error: no reply\nSyntax: `!set \"some keywords\" a response`";

/// The granter is the target.
pub const SELF_AWARD: &'static str = "You can't increase your own based score!";

/// The award has no target; the syntax follows.
pub const NO_TARGET: &'static str =
    "Error: no target\nSyntax: `based`, with a mention or as a reply to a message";

/// The store failed on an award.
pub const AWARD_FAILED: &'static str = "Error: can't increase based score";

/// What stands between the target's name and its new score.
pub const AWARD_DONE: &'static str = " is now more based. Their based score is now: ";

/// The first line of the scores.
pub const SCORES_HEADER: &'static str = "Based stats:\n";

/// What stands between a name and its score.
pub const SCORE_SEPARATOR: &'static str = ": ";

/// What is said after a response was added.
pub open spec fn set_done_text(keyword: Seq<char>, reply: Seq<char>) -> Seq<char> {
    keyword + ARROW@ + reply + SET_DONE@
}

/// Writes what is said after a response was added.
pub fn set_done(keyword: &str, reply: &str) -> (text: String)
    ensures
        text@ == set_done_text(keyword@, reply@),
{
    let mut text = String::from_str(keyword);
    text.append(ARROW);
    text.append(reply);
    text.append(SET_DONE);
    text
}

/// What is said after a removal: that the response went, or that there was
/// none.
pub open spec fn removal_text(keyword: Seq<char>, removed: bool) -> Seq<char> {
    if removed {
        keyword + REMOVE_DONE@
    } else {
        keyword + REMOVE_MISSING@
    }
}

/// Writes what is said after a removal.
pub fn removal(keyword: &str, removed: bool) -> (text: String)
    ensures
        text@ == removal_text(keyword@, removed),
{
    let mut text = String::from_str(keyword);
    if removed {
        text.append(REMOVE_DONE);
    } else {
        text.append(REMOVE_MISSING);
    }
    text
}

/// What is said when a response was not added.
pub open spec fn add_error_text(error: AddError) -> Seq<char> {
    match error {
        AddError::DuplicateKey => ALREADY_EXISTS@,
        AddError::InvalidKeyword => INVALID_KEYWORD@,
        AddError::Storage => STORE_FAILED@,
    }
}

/// Writes what is said when a response was not added.
pub fn add_error(error: AddError) -> (text: String)
    ensures
        text@ == add_error_text(error),
{
    match error {
        AddError::DuplicateKey => String::from_str(ALREADY_EXISTS),
        AddError::InvalidKeyword => String::from_str(INVALID_KEYWORD),
        AddError::Storage => String::from_str(STORE_FAILED),
    }
}

/// Writes what is said when a response could not be removed because the
/// store failed.
pub fn write_failed() -> (text: String)
    ensures
        text@ == STORE_FAILED@,
{
    String::from_str(STORE_FAILED)
}

/// Writes what is said when the scores could not be read.
pub fn read_failed() -> (text: String)
    ensures
        text@ == STORE_UNREAD@,
{
    String::from_str(STORE_UNREAD)
}

/// Writes what is said when the picture command finds nothing to draw: no
/// designated channel in the community, or no message with an attachment in
/// it.
pub fn picture_missing() -> (text: String)
    ensures
        text@ == NO_PICTURE@,
{
    String::from_str(NO_PICTURE)
}

/// What is said when a command could not be read: the fault and the syntax.
pub open spec fn parse_error_text(error: ParseError) -> Seq<char> {
    match error {
        ParseError::MissingKeyword => NO_KEYWORD@,
        ParseError::EmptyReply => NO_REPLY@,
    }
}

/// Writes what is said when a command could not be read.
pub fn parse_error(error: ParseError) -> (text: String)
    ensures
        text@ == parse_error_text(error),
{
    match error {
        ParseError::MissingKeyword => String::from_str(NO_KEYWORD),
        ParseError::EmptyReply => String::from_str(NO_REPLY),
    }
}

/// What is said when no point was awarded.
pub open spec fn award_error_text(error: AwardError) -> Seq<char> {
    match error {
        AwardError::NoTarget => NO_TARGET@,
        AwardError::SelfAward => SELF_AWARD@,
        AwardError::Storage => AWARD_FAILED@,
    }
}

/// Writes what is said when no point was awarded.
pub fn award_error(error: AwardError) -> (text: String)
    ensures
        text@ == award_error_text(error),
{
    match error {
        AwardError::NoTarget => String::from_str(NO_TARGET),
        AwardError::SelfAward => String::from_str(SELF_AWARD),
        AwardError::Storage => String::from_str(AWARD_FAILED),
    }
}

/// What is said after a point was awarded: the name of the target and the
/// new score.
pub open spec fn award_done_text(name: Seq<char>, score: u64) -> Seq<char> {
    name + AWARD_DONE@ + decimal_text(score as nat)
}

/// Writes what is said after a point was awarded.
pub fn award_done(name: &str, score: u64) -> (text: String)
    ensures
        text@ == award_done_text(name@, score),
{
    let mut text = String::from_str(name);
    text.append(AWARD_DONE);
    push_decimal(&mut text, score);
    text
}

/// The line of one user in the scores: the name, a colon and the score.
pub open spec fn score_line() -> spec_fn((Seq<char>, u64)) -> Seq<char> {
    |row: (Seq<char>, u64)| row.0 + SCORE_SEPARATOR@ + decimal_text(row.1 as nat)
}

/// The names and scores of `rows`, in order.
pub open spec fn score_rows(rows: Seq<(String, u64)>) -> Seq<(Seq<char>, u64)> {
    rows.map_values(|row: (String, u64)| (row.0@, row.1))
}

/// The scores as they are shown: the header, then one line for each user, in
/// the order given, each ended by a line break.
pub open spec fn scores_text(rows: Seq<(Seq<char>, u64)>) -> Seq<char> {
    SCORES_HEADER@ + terminated(rows.map_values(score_line()), NEWLINE@)
}

/// Writes the scores of `rows`, each a name with its score, in their order.
pub fn render_scores(rows: &Vec<(String, u64)>) -> (text: String)
    ensures
        text@ == scores_text(score_rows(rows@)),
{
    let ghost lines = score_rows(rows@).map_values(score_line());
    let mut text = String::from_str(SCORES_HEADER);
    let mut i: usize = 0;
    assert(lines.take(0) =~= Seq::<Seq<char>>::empty());
    assert(text@ =~= SCORES_HEADER@ + terminated(lines.take(0), NEWLINE@));
    while i < rows.len()
        invariant
            i <= rows.len(),
            lines == score_rows(rows@).map_values(score_line()),
            text@ == SCORES_HEADER@ + terminated(lines.take(i as int), NEWLINE@),
        decreases rows.len() - i,
    {
        let ghost before = text@;
        text.append(rows[i].0.as_str());
        text.append(SCORE_SEPARATOR);
        push_decimal(&mut text, rows[i].1);
        text.append(NEWLINE);
        proof {
            let upto = lines.take(i + 1);
            assert(upto.drop_last() =~= lines.take(i as int));
            assert(upto.last() == lines[i as int]);
            assert(score_rows(rows@)[i as int] == (rows[i as int].0@, rows[i as int].1));
            assert(lines[i as int] == rows[i as int].0@ + SCORE_SEPARATOR@ + decimal_text(
                rows[i as int].1 as nat,
            ));
            assert(text@ =~= before + lines[i as int] + NEWLINE@);
            assert(text@ =~= SCORES_HEADER@ + terminated(upto, NEWLINE@));
        }
        i += 1;
    }
    assert(lines.take(i as int) =~= lines);
    text
}

} // verus!

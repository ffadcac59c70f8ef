use guild_engine::cache::AddError;
use guild_engine::dispatch::ParseError;
use guild_engine::ledger::AwardError;
use guild_engine::replies::{
    add_error, award_done, award_error, parse_error, picture_missing, read_failed, removal,
    render_scores, set_done, write_failed,
};

#[test]
fn a_picture_that_cannot_be_drawn_has_a_text() {
    assert_eq!(picture_missing(), "Error: no picture to draw");
}

#[test]
fn store_failures_have_texts() {
    assert_eq!(write_failed(), "Error: the store could not be written");
    assert_eq!(read_failed(), "Error: the store could not be read");
}

#[test]
fn set_done_names_keyword_and_reply() {
    assert_eq!(set_done("hello", "hi there"), "hello => hi there - successfully set");
    assert_eq!(set_done("", ""), " =>  - successfully set");
}

#[test]
fn removal_says_what_happened() {
    assert_eq!(removal("hello", true), "hello - successfully removed");
    assert_eq!(removal("hello", false), "hello - does not exist");
}

#[test]
fn every_add_error_has_a_text() {
    assert_eq!(add_error(AddError::DuplicateKey), "Error: already exists");
    assert_eq!(add_error(AddError::InvalidKeyword), "Error: the keyword cannot be matched");
    assert_eq!(add_error(AddError::Storage), "Error: the store could not be written");
}

#[test]
fn parse_errors_show_the_syntax() {
    assert_eq!(
        parse_error(ParseError::MissingKeyword),
        "Error: no keyword\nSyntax: `!set \"some keywords\" a response`"
    );
    assert_eq!(
        parse_error(ParseError::EmptyReply),
        "Error: no reply\nSyntax: `!set \"some keywords\" a response`"
    );
}

#[test]
fn every_award_error_has_a_text() {
    assert_eq!(award_error(AwardError::SelfAward), "You can't increase your own based score!");
    assert_eq!(
        award_error(AwardError::NoTarget),
        "Error: no target\nSyntax: `based`, with a mention or as a reply to a message"
    );
    assert_eq!(award_error(AwardError::Storage), "Error: can't increase based score");
}

#[test]
fn award_done_shows_the_new_score() {
    assert_eq!(award_done("Ann", 1), "Ann is now more based. Their based score is now: 1");
    assert_eq!(award_done("Bob", 120), "Bob is now more based. Their based score is now: 120");
}

#[test]
fn scores_are_rendered_line_by_line() {
    assert_eq!(render_scores(&vec![]), "Based stats:\n");
    assert_eq!(
        render_scores(&vec![(String::from("Ann"), 12), (String::from("Bob"), 3), (String::from("Cy"), 0)]),
        "Based stats:\nAnn: 12\nBob: 3\nCy: 0\n"
    );
}

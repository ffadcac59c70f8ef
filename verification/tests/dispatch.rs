use guild_engine::dispatch::{
    begins_with_prefix, classify_command, classify_text, is_command_text, parse_set_body, Command,
    ParseError, COMMAND_PREFIX,
};

fn pair(keyword: &str, reply: &str) -> Result<(String, String), ParseError> {
    Ok((String::from(keyword), String::from(reply)))
}

fn options(pairs: &[(&str, &str)]) -> Vec<(String, String)> {
    pairs.iter().map(|(name, value)| (String::from(*name), String::from(*value))).collect()
}

#[test]
fn set_body_with_a_first_word() {
    assert_eq!(parse_set_body("hello hi there"), pair("hello", "hi there"));
    assert_eq!(parse_set_body("k r"), pair("k", "r"));
}

#[test]
fn set_body_with_a_quoted_phrase() {
    assert_eq!(parse_set_body("\"multi word\" the reply"), pair("multi word", "the reply"));
    assert_eq!(parse_set_body("\"a\" b"), pair("a", "b"));
    assert_eq!(parse_set_body("\"\" b"), pair("", "b"));
}

#[test]
fn set_body_keeps_the_reply_as_typed() {
    assert_eq!(parse_set_body("hello  hi there "), pair("hello", " hi there "));
    assert_eq!(parse_set_body("\"a b\"  two  spaces\n"), pair("a b", " two  spaces\n"));
    assert_eq!(parse_set_body("hello\thi\nthere"), pair("hello", "hi\nthere"));
}

#[test]
fn set_body_ends_the_phrase_at_its_closing_quote() {
    assert_eq!(parse_set_body("\"a b\" say \"hi\""), pair("a b", "say \"hi\""));
    assert_eq!(parse_set_body("\"a\" says \"b\" end"), pair("a", "says \"b\" end"));
    assert_eq!(parse_set_body("\"a\" x\n\"later\" y"), pair("a", "x\n\"later\" y"));
    assert_eq!(parse_set_body("\"a\"\"b"), pair("a", "b"));
    assert_eq!(parse_set_body("\"a\" \""), pair("a", "\""));
}

#[test]
fn set_body_skips_white_space_before_the_first_word() {
    assert_eq!(parse_set_body("  hello hi"), pair("hello", "hi"));
    assert_eq!(parse_set_body(" \"quoted later\" x"), pair("\"quoted", "later\" x"));
}

#[test]
fn set_body_skips_one_separator_whatever_it_is() {
    assert_eq!(parse_set_body("\"a\"bc"), pair("a", "c"));
    assert_eq!(parse_set_body("\"a\"\u{2003}bc"), pair("a", "bc"));
    assert_eq!(parse_set_body("k\u{00A0}reply"), pair("k", "reply"));
}

#[test]
fn set_body_without_a_keyword() {
    assert_eq!(parse_set_body(""), Err(ParseError::MissingKeyword));
    assert_eq!(parse_set_body("   \t "), Err(ParseError::MissingKeyword));
    assert_eq!(parse_set_body("\"never closed"), Err(ParseError::MissingKeyword));
    assert_eq!(parse_set_body("\""), Err(ParseError::MissingKeyword));
    assert_eq!(parse_set_body("\"first line\nclosed\" late"), Err(ParseError::MissingKeyword));
}

#[test]
fn set_body_without_a_reply() {
    assert_eq!(parse_set_body("hello"), Err(ParseError::EmptyReply));
    assert_eq!(parse_set_body("hello "), Err(ParseError::EmptyReply));
    assert_eq!(parse_set_body("\"a b\""), Err(ParseError::EmptyReply));
    assert_eq!(parse_set_body("\"a b\" "), Err(ParseError::EmptyReply));
    assert_eq!(parse_set_body("hello  "), pair("hello", " "));
}

#[test]
fn exact_texts_are_commands() {
    assert!(matches!(classify_text("gank"), Command::FetchAttachment));
    assert!(matches!(classify_text("based"), Command::Award));
    assert!(matches!(classify_text("!basedstats"), Command::ListScores));
    assert!(matches!(classify_text("!list"), Command::ListResponses));
}

#[test]
fn near_misses_are_no_commands() {
    for text in ["", "Based", "based ", " based", "gank!", "!list ", "!set", "list", "!basedstat", "hello"] {
        assert!(matches!(classify_text(text), Command::Nothing), "{:?}", text);
    }
}

#[test]
fn set_prefix_carries_its_body() {
    match classify_text("!set hello hi there") {
        Command::AddResponse { keyword, reply } => {
            assert_eq!(keyword, "hello");
            assert_eq!(reply, "hi there");
        }
        other => panic!("{:?}", other),
    }
    match classify_text("!set \"multi word\" reply") {
        Command::AddResponse { keyword, reply } => {
            assert_eq!(keyword, "multi word");
            assert_eq!(reply, "reply");
        }
        other => panic!("{:?}", other),
    }
    assert!(matches!(classify_text("!set "), Command::Malformed(ParseError::MissingKeyword)));
    assert!(matches!(classify_text("!set word"), Command::Malformed(ParseError::EmptyReply)));
}

#[test]
fn commands_are_told_from_plain_messages() {
    assert!(is_command_text("based"));
    assert!(is_command_text("gank"));
    assert!(is_command_text("!list"));
    assert!(is_command_text("!set a b"));
    assert!(is_command_text("!set"));
    assert!(is_command_text("!anything"));
    assert!(!is_command_text("hello"));
    assert!(!is_command_text(""));
    assert!(!is_command_text("based on what?"));
    assert!(!is_command_text(" !list"));
}

#[test]
fn structured_commands_by_name() {
    assert!(matches!(classify_command("basedstats", &vec![]), Command::ListScores));
    assert!(matches!(classify_command("listresponses", &vec![]), Command::ListResponses));
    assert!(matches!(classify_command("unknown", &vec![]), Command::Nothing));
    assert!(matches!(classify_command("based", &vec![]), Command::Nothing));
}

#[test]
fn structured_set_reads_both_options() {
    match classify_command("setresp", &options(&[("fraza", "multi word"), ("odpowiedz", " as typed ")])) {
        Command::AddResponse { keyword, reply } => {
            assert_eq!(keyword, "multi word");
            assert_eq!(reply, " as typed ");
        }
        other => panic!("{:?}", other),
    }
    match classify_command(
        "setresp",
        &options(&[("odpowiedz", "first"), ("fraza", "k1"), ("other", "x"), ("fraza", "k2"), ("odpowiedz", "last")]),
    ) {
        Command::AddResponse { keyword, reply } => {
            assert_eq!(keyword, "k2");
            assert_eq!(reply, "last");
        }
        other => panic!("{:?}", other),
    }
}

#[test]
fn structured_set_needs_keyword_and_reply() {
    assert!(matches!(
        classify_command("setresp", &options(&[("odpowiedz", "r")])),
        Command::Malformed(ParseError::MissingKeyword)
    ));
    assert!(matches!(
        classify_command("setresp", &options(&[("fraza", "k")])),
        Command::Malformed(ParseError::EmptyReply)
    ));
    assert!(matches!(
        classify_command("setresp", &options(&[("fraza", "k"), ("odpowiedz", "")])),
        Command::Malformed(ParseError::EmptyReply)
    ));
}

#[test]
fn structured_remove_takes_the_keyword_or_its_pattern() {
    match classify_command("delresp", &options(&[("fraza", "\\bhello\\b")])) {
        Command::RemoveResponse { keyword } => assert_eq!(keyword, "hello"),
        other => panic!("{:?}", other),
    }
    match classify_command("delresp", &options(&[("anything", "hello"), ("fraza", "other")])) {
        Command::RemoveResponse { keyword } => assert_eq!(keyword, "hello"),
        other => panic!("{:?}", other),
    }
    assert!(matches!(
        classify_command("delresp", &vec![]),
        Command::Malformed(ParseError::MissingKeyword)
    ));
}

#[test]
fn the_prefix_is_the_first_character() {
    assert_eq!(COMMAND_PREFIX, '!');
    assert!(begins_with_prefix("!"));
    assert!(begins_with_prefix("!list"));
    assert!(!begins_with_prefix(""));
    assert!(!begins_with_prefix(" !list"));
    assert!(!begins_with_prefix("list!"));
}

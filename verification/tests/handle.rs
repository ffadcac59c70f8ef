use guild_engine::attachments::{draw, ChannelMessage, Picture};
use guild_engine::dispatch::{classify_command, Command, ParseError};
use guild_engine::engine::{Engine, Outcome};

const BOT: u64 = 999;

fn said(outcome: Outcome) -> String {
    match outcome {
        Outcome::Say(text) => text,
        other => panic!("{:?}", other),
    }
}

fn options(pairs: &[(&str, &str)]) -> Vec<(String, String)> {
    pairs.iter().map(|(name, value)| (String::from(*name), String::from(*value))).collect()
}

#[test]
fn set_list_and_remove_by_text_and_by_name() {
    let mut engine = Engine::new(BOT);
    let (replies, outcome) = engine.handle(42, 1, 5, "!set hello hi there", &vec![], None);
    assert!(replies.is_empty());
    assert_eq!(said(outcome), "hello => hi there - successfully set");
    let (_, outcome) = engine.handle(42, 2, 5, "!list", &vec![], None);
    assert_eq!(said(outcome), "hello => hi there");
    let (replies, outcome) = engine.handle(42, 3, 6, "oh hello", &vec![], None);
    assert_eq!(replies, vec![String::from("hi there")]);
    assert!(matches!(outcome, Outcome::Silent));
    let remove = classify_command("delresp", &options(&[("fraza", "\\bhello\\b")]));
    let outcome = engine.execute(42, 5, &remove, &vec![], None);
    assert_eq!(said(outcome), "hello - successfully removed");
    let (_, outcome) = engine.handle(42, 4, 5, "!list", &vec![], None);
    assert_eq!(said(outcome), "No responses yet! Add some using `!set` command");
    let outcome = engine.execute(42, 5, &remove, &vec![], None);
    assert_eq!(said(outcome), "hello - does not exist");
}

#[test]
fn every_failure_is_answered_with_a_text() {
    let mut engine = Engine::new(BOT);
    let (_, outcome) = engine.handle(1, 1, 5, "!set cat meow", &vec![], None);
    assert_eq!(said(outcome), "cat => meow - successfully set");
    let (_, outcome) = engine.handle(1, 2, 5, "!set cat purr", &vec![], None);
    assert_eq!(said(outcome), "Error: already exists");
    let (_, outcome) = engine.handle(1, 3, 5, "!set ( x", &vec![], None);
    assert_eq!(said(outcome), "( => x - successfully set");
    let (_, outcome) = engine.handle(1, 4, 5, "!set ", &vec![], None);
    assert_eq!(said(outcome), "Error: no keyword\nSyntax: `!set \"some keywords\" a response`");
    let (_, outcome) = engine.handle(1, 5, 5, "!set lonely", &vec![], None);
    assert_eq!(said(outcome), "Error: no reply\nSyntax: `!set \"some keywords\" a response`");
    let (_, outcome) = engine.handle(1, 6, 5, "based", &vec![], None);
    assert_eq!(
        said(outcome),
        "Error: no target\nSyntax: `based`, with a mention or as a reply to a message"
    );
    let (_, outcome) = engine.handle(1, 7, 5, "based", &vec![5], None);
    assert_eq!(said(outcome), "You can't increase your own based score!");
    let outcome = engine.execute(1, 5, &Command::Malformed(ParseError::EmptyReply), &vec![], None);
    assert_eq!(said(outcome), "Error: no reply\nSyntax: `!set \"some keywords\" a response`");
    assert_eq!(
        engine.list(1),
        vec![(String::from("cat"), String::from("meow")), (String::from("("), String::from("x"))]
    );
}

#[test]
fn based_awards_the_author_of_the_last_plain_message() {
    let mut engine = Engine::new(BOT);
    engine.handle(1, 1, 10, "something wise", &vec![], None);
    let (_, outcome) = engine.handle(1, 2, 11, "based", &vec![], None);
    assert!(matches!(outcome, Outcome::Awarded { target: 10, score: 1 }));
    let (_, outcome) = engine.handle(1, 3, 12, "based", &vec![], None);
    assert!(matches!(outcome, Outcome::Awarded { target: 10, score: 2 }));
    let (_, outcome) = engine.handle(1, 4, 10, "based", &vec![], None);
    assert_eq!(said(outcome), "You can't increase your own based score!");
    let (_, outcome) = engine.handle(1, 5, 10, "based", &vec![11], None);
    assert!(matches!(outcome, Outcome::Awarded { target: 11, score: 1 }));
    let (_, outcome) = engine.handle(1, 6, 10, "based", &vec![], Some(12));
    assert!(matches!(outcome, Outcome::Awarded { target: 12, score: 1 }));
    let (_, outcome) = engine.handle(1, 7, 12, "based", &vec![], None);
    assert!(matches!(outcome, Outcome::Awarded { target: 10, score: 3 }));
    match engine.handle(1, 8, 13, "!basedstats", &vec![], None).1 {
        Outcome::Ranking(ranking) => {
            assert_eq!(ranking[0], (10, 3));
            assert_eq!(ranking.len(), 3);
        }
        other => panic!("{:?}", other),
    }
    assert_eq!(engine.score(1, 10), 3);
}

#[test]
fn the_bot_does_not_answer_itself() {
    let mut engine = Engine::new(BOT);
    engine.add(1, "cat", "meow").unwrap();
    let (replies, outcome) = engine.handle(1, 1, BOT, "cat", &vec![], None);
    assert!(replies.is_empty());
    assert!(matches!(outcome, Outcome::Silent));
    let (_, outcome) = engine.handle(1, 2, BOT, "!set dog woof", &vec![], None);
    assert!(matches!(outcome, Outcome::Silent));
    assert_eq!(engine.list(1).len(), 1);
    let (_, outcome) = engine.handle(1, 3, 5, "based", &vec![], None);
    assert!(matches!(outcome, Outcome::Say(_)));
}

#[test]
fn gank_asks_for_a_picture() {
    let mut engine = Engine::new(BOT);
    let (_, outcome) = engine.handle(1, 1, 5, "gank", &vec![], None);
    assert!(matches!(outcome, Outcome::Picture));
    let outcome = engine.execute(1, 5, &Command::Nothing, &vec![], None);
    assert!(matches!(outcome, Outcome::Silent));
}

#[test]
fn structured_set_adds_like_the_text_command() {
    let mut engine = Engine::new(BOT);
    let set = classify_command("setresp", &options(&[("fraza", "good bot"), ("odpowiedz", ":)")]));
    let outcome = engine.execute(1, 5, &set, &vec![], None);
    assert_eq!(said(outcome), "good bot => :) - successfully set");
    let outcome = engine.execute(1, 5, &set, &vec![], None);
    assert_eq!(said(outcome), "Error: already exists");
    let list = classify_command("listresponses", &vec![]);
    assert_eq!(said(engine.execute(1, 5, &list, &vec![], None)), "good bot => :)");
    assert_eq!(engine.find_matches(1, "GOOD BOT!"), vec![String::from(":)")]);
}

#[test]
fn a_message_that_draws_a_reply_still_moves_the_pointer() {
    let mut engine = Engine::new(BOT);
    engine.add(1, "cat", "meow").unwrap();
    let (replies, outcome) = engine.handle(1, 1, 10, "look, a cat", &vec![], None);
    assert_eq!(replies, vec![String::from("meow")]);
    assert!(matches!(outcome, Outcome::Silent));
    let (_, outcome) = engine.handle(1, 2, 11, "based", &vec![], None);
    assert!(matches!(outcome, Outcome::Awarded { target: 10, score: 1 }));
    let (_, outcome) = engine.handle(1, 3, 12, "!unknown", &vec![], None);
    assert!(matches!(outcome, Outcome::Silent));
    let (_, outcome) = engine.handle(1, 4, 11, "based", &vec![], None);
    assert!(matches!(outcome, Outcome::Awarded { target: 10, score: 2 }));
}

#[test]
fn a_quoted_phrase_may_be_followed_by_a_reply_with_quotes() {
    let mut engine = Engine::new(BOT);
    let (_, outcome) = engine.handle(42, 1, 5, "!set \"a b\" say \"hi\"", &vec![], None);
    assert_eq!(said(outcome), "a b => say \"hi\" - successfully set");
    assert_eq!(engine.list(42), vec![(String::from("a b"), String::from("say \"hi\""))]);
    let (replies, _) = engine.handle(42, 2, 6, "well, A B it is", &vec![], None);
    assert_eq!(replies, vec![String::from("say \"hi\"")]);
}

#[test]
fn gank_leaves_the_failure_text_to_the_draw() {
    let mut engine = Engine::new(BOT);
    let (_, outcome) = engine.handle(1, 1, 5, "gank", &vec![], None);
    assert!(matches!(outcome, Outcome::Picture));
    let none = vec![ChannelMessage { id: 1, attachments: vec![] }];
    match draw(Some(&none)) {
        Picture::Missing(text) => assert_eq!(text, "Error: no picture to draw"),
        other => panic!("{:?}", other),
    }
    match draw(None) {
        Picture::Missing(text) => assert_eq!(text, "Error: no picture to draw"),
        other => panic!("{:?}", other),
    }
    let some = vec![
        ChannelMessage { id: 1, attachments: vec![] },
        ChannelMessage { id: 2, attachments: vec![String::from("u1"), String::from("u2")] },
    ];
    match draw(Some(&some)) {
        Picture::Files(files) => assert_eq!(files, vec![String::from("u1"), String::from("u2")]),
        other => panic!("{:?}", other),
    }
}

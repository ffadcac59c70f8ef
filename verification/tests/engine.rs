use guild_engine::cache::AddError;
use guild_engine::dispatch::Command;
use guild_engine::engine::{step, Engine};
use guild_engine::cache::ResponseCache;
use guild_engine::ledger::{AwardError, LastMessage, LastSeen};
use guild_engine::model::ResponseRow;
use guild_engine::replies::render_scores;
use guild_engine::store::MemoryStore;

const BOT: u64 = 999;

#[test]
fn add_then_match_returns_the_reply_once() {
    let mut engine = Engine::new(BOT);
    assert_eq!(engine.add(3, "cat", "meow"), Ok(()));
    assert_eq!(engine.find_matches(3, "my cat sleeps"), vec![String::from("meow")]);
    assert_eq!(engine.find_matches(3, "cat cat cat"), vec![String::from("meow")]);
    assert_eq!(engine.find_matches(4, "my cat sleeps"), Vec::<String>::new());
}

#[test]
fn second_add_fails_and_keeps_the_first_reply() {
    let mut engine = Engine::new(BOT);
    assert_eq!(engine.add(3, "cat", "meow"), Ok(()));
    assert_eq!(engine.add(3, "cat", "purr"), Err(AddError::DuplicateKey));
    assert_eq!(engine.add(3, "cat", "meow"), Err(AddError::DuplicateKey));
    assert_eq!(engine.list(3), vec![(String::from("cat"), String::from("meow"))]);
    assert_eq!(engine.find_matches(3, "cat"), vec![String::from("meow")]);
    assert_eq!(engine.add(4, "cat", "purr"), Ok(()));
}

#[test]
fn add_takes_a_keyword_of_pattern_characters() {
    let mut engine = Engine::new(BOT);
    assert_eq!(engine.add(3, "(", "x"), Ok(()));
    assert_eq!(engine.list(3), vec![(String::from("("), String::from("x"))]);
    assert_eq!(engine.find_matches(3, "a ( b"), Vec::<String>::new());
    assert_eq!(engine.add(3, "c++", "plus"), Ok(()));
    assert_eq!(engine.find_matches(3, "I like C++"), Vec::<String>::new());
    assert_eq!(engine.add(3, "a.c", "dot"), Ok(()));
    assert_eq!(engine.find_matches(3, "abc"), Vec::<String>::new());
    assert_eq!(engine.find_matches(3, "A.C"), vec![String::from("dot")]);
}

#[test]
fn upper_case_keyword_matches_whatever_the_case() {
    let mut engine = Engine::new(BOT);
    assert_eq!(engine.add(7, "Cat", "meow"), Ok(()));
    assert_eq!(engine.find_matches(7, "a cat"), vec![String::from("meow")]);
    assert_eq!(engine.find_matches(7, "a CAT"), vec![String::from("meow")]);
    assert_eq!(engine.find_matches(7, "concatenate"), Vec::<String>::new());
}

#[test]
fn keyword_cat_matches_the_word_not_the_substring() {
    let mut engine = Engine::new(BOT);
    engine.add(1, "cat", "meow").unwrap();
    assert_eq!(engine.find_matches(1, "I saw a CAT today"), vec![String::from("meow")]);
    assert_eq!(engine.find_matches(1, "concatenate"), Vec::<String>::new());
}

#[test]
fn remove_missing_returns_none_and_keeps_the_list() {
    let mut engine = Engine::new(BOT);
    engine.add(3, "cat", "meow").unwrap();
    engine.add(3, "dog", "woof").unwrap();
    let before = engine.list(3);
    assert_eq!(engine.remove(3, "missing"), None);
    assert_eq!(engine.remove(4, "cat"), None);
    assert_eq!(engine.list(3), before);
    assert_eq!(engine.render_list(3), "cat => meow\ndog => woof");
}

#[test]
fn hello_is_listed_until_it_is_removed() {
    let mut engine = Engine::new(BOT);
    assert_eq!(engine.add(42, "hello", "hi there"), Ok(()));
    assert_eq!(engine.list(42), vec![(String::from("hello"), String::from("hi there"))]);
    assert_eq!(engine.render_list(42), "hello => hi there");
    assert_eq!(engine.remove(42, "hello"), Some(()));
    assert_eq!(engine.list(42), Vec::<(String, String)>::new());
    assert_eq!(engine.render_list(42), "No responses yet! Add some using `!set` command");
    assert_eq!(engine.find_matches(42, "hello"), Vec::<String>::new());
    assert_eq!(engine.add(42, "hello", "again"), Ok(()));
}

#[test]
fn fifty_awards_from_fifty_granters_make_fifty() {
    let mut engine = Engine::new(BOT);
    let target = 7;
    for granter in 100..150u64 {
        assert_eq!(engine.award(1, granter, target), Ok(granter - 99));
    }
    assert_eq!(engine.score(1, target), 50);
    assert_eq!(engine.list_scores(1), vec![(target, 50)]);
}

#[test]
fn self_award_fails_and_leaves_the_score() {
    let mut engine = Engine::new(BOT);
    assert_eq!(engine.award(1, 5, 5), Err(AwardError::SelfAward));
    assert_eq!(engine.score(1, 5), 0);
    assert_eq!(engine.list_scores(1), Vec::<(u64, u64)>::new());
    assert_eq!(engine.award(1, 6, 5), Ok(1));
    assert_eq!(engine.award(1, 5, 5), Err(AwardError::SelfAward));
    assert_eq!(engine.score(1, 5), 1);
}

#[test]
fn the_awarded_user_leads_the_scores() {
    let (a, b, c) = (10u64, 11u64, 12u64);
    let mut engine = Engine::new(BOT);
    assert_eq!(engine.award(1, b, a), Ok(1));
    assert_eq!(engine.award(1, c, a), Ok(2));
    let ranking = engine.list_scores(1);
    assert_eq!(ranking, vec![(a, 2)]);
    let name = |user: u64| String::from(if user == a { "A" } else if user == b { "B" } else { "C" });
    let mut shown: Vec<(String, u64)> =
        ranking.iter().map(|(user, score)| (name(*user), *score)).collect();
    for user in [b, c] {
        shown.push((name(user), engine.score(1, user)));
    }
    let text = render_scores(&shown);
    assert_eq!(text, "Based stats:\nA: 2\nB: 0\nC: 0\n");
    assert!(text.find("A: 2").unwrap() < text.find("B: 0").unwrap());
    assert_eq!(engine.award(1, c, b), Ok(1));
    assert_eq!(engine.list_scores(1), vec![(a, 2), (b, 1)]);
}

#[test]
fn scores_are_scoped_by_community() {
    let mut engine = Engine::new(BOT);
    engine.award(1, 2, 3).unwrap();
    engine.award(2, 2, 3).unwrap();
    engine.award(2, 4, 3).unwrap();
    assert_eq!(engine.score(1, 3), 1);
    assert_eq!(engine.score(2, 3), 2);
    assert_eq!(engine.score(3, 3), 0);
}

#[test]
fn bot_messages_are_ignored() {
    let mut engine = Engine::new(BOT);
    engine.add(1, "cat", "meow").unwrap();
    let s = engine.on_message(1, 500, BOT, "cat");
    assert!(s.replies.is_empty());
    assert!(matches!(s.command, Command::Nothing));
    assert_eq!(s.last, None);
    let s = engine.on_message(1, 501, BOT, "based");
    assert!(matches!(s.command, Command::Nothing));
    let s = engine.on_message(1, 502, 5, "hi");
    assert_eq!(s.last, None);
}

#[test]
fn every_message_draws_replies_command_or_not() {
    let mut engine = Engine::new(BOT);
    engine.add(1, "based", "indeed").unwrap();
    engine.add(1, "set", "ready").unwrap();
    let s = engine.on_message(1, 500, 5, "based");
    assert_eq!(s.replies, vec![String::from("indeed")]);
    assert!(matches!(s.command, Command::Award));
    let s = engine.on_message(1, 501, 5, "!set cat meow");
    assert_eq!(s.replies, vec![String::from("ready")]);
    assert!(matches!(s.command, Command::AddResponse { .. }));
    let s = engine.on_message(1, 502, 5, "so BASED");
    assert_eq!(s.replies, vec![String::from("indeed")]);
    assert!(matches!(s.command, Command::Nothing));
}

#[test]
fn plain_messages_move_the_pointer_and_commands_do_not() {
    let mut engine = Engine::new(BOT);
    let s = engine.on_message(1, 500, 5, "hello");
    assert_eq!(s.last, None);
    let s = engine.on_message(1, 501, 6, "based");
    assert_eq!(s.last, Some(LastMessage { message: 500, author: 5 }));
    let s = engine.on_message(1, 502, 6, "!list");
    assert_eq!(s.last, Some(LastMessage { message: 500, author: 5 }));
    let s = engine.on_message(1, 503, 7, "world");
    assert_eq!(s.last, Some(LastMessage { message: 500, author: 5 }));
    let s = engine.on_message(1, 504, 8, "again");
    assert_eq!(s.last, Some(LastMessage { message: 503, author: 7 }));
    let s = engine.on_message(2, 505, 8, "elsewhere");
    assert_eq!(s.last, None);
}

#[test]
fn award_by_message_resolves_the_target() {
    let mut engine = Engine::new(BOT);
    assert_eq!(engine.award_by_message(1, 5, &vec![], None), Err(AwardError::NoTarget));
    assert_eq!(engine.award_by_message(1, 5, &vec![8, 9], None), Err(AwardError::NoTarget));
    assert_eq!(engine.award_by_message(1, 5, &vec![8], Some(9)), Ok((8, 1)));
    assert_eq!(engine.award_by_message(1, 5, &vec![], Some(9)), Ok((9, 1)));
    engine.on_message(1, 500, 7, "a plain message");
    assert_eq!(engine.award_by_message(1, 5, &vec![], None), Ok((7, 1)));
    assert_eq!(engine.award_by_message(1, 5, &vec![8, 9], None), Ok((7, 2)));
    assert_eq!(engine.award_by_message(1, 7, &vec![], None), Err(AwardError::SelfAward));
    assert_eq!(engine.award_by_message(1, 5, &vec![5], Some(9)), Err(AwardError::SelfAward));
    assert_eq!(engine.score(1, 7), 2);
    assert_eq!(engine.score(1, 5), 0);
}

#[test]
fn restore_rebuilds_the_cache_of_the_store() {
    let mut store = MemoryStore::new();
    store.insert_response(ResponseRow::new(1, "cat", "meow")).unwrap();
    store.insert_response(ResponseRow::new(1, "dog", "woof")).unwrap();
    store.award_point(1, 5).unwrap();
    let mut engine = Engine::restore(BOT, store).ok().unwrap();
    assert_eq!(engine.render_list(1), "cat => meow\ndog => woof");
    assert_eq!(engine.find_matches(1, "Dog and Cat"), vec![String::from("meow"), String::from("woof")]);
    assert_eq!(engine.score(1, 5), 1);
    assert_eq!(engine.add(1, "cat", "x"), Err(AddError::DuplicateKey));
}

#[test]
fn restore_takes_keywords_of_pattern_characters() {
    let mut store = MemoryStore::new();
    store.insert_response(ResponseRow::new(1, "cat", "meow")).unwrap();
    store.insert_response(ResponseRow::new(1, "(", "paren")).unwrap();
    let engine = Engine::restore(BOT, store).ok().unwrap();
    assert_eq!(engine.render_list(1), "cat => meow\n( => paren");
}

#[test]
fn step_works_on_a_cache_and_pointers_alone() {
    let mut cache = ResponseCache::new();
    let item = cache.plan_add(1, "cat", "meow").unwrap();
    cache.commit_add(item, Ok(())).unwrap();
    let mut seen = LastSeen::new();
    let s = step(BOT, &cache, &mut seen, 1, 500, 5, "a cat");
    assert_eq!(s.replies, vec![String::from("meow")]);
    assert!(matches!(s.command, Command::Nothing));
    assert_eq!(seen.latest(1), Some(LastMessage { message: 500, author: 5 }));
    let s = step(BOT, &cache, &mut seen, 1, 501, BOT, "a cat");
    assert!(s.replies.is_empty());
    assert_eq!(seen.latest(1), Some(LastMessage { message: 500, author: 5 }));
}

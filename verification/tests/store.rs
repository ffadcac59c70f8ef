use guild_engine::model::ResponseRow;
use guild_engine::store::{MemoryStore, ScoreRow, StoreError};

#[test]
fn new_store_is_empty() {
    let store = MemoryStore::new();
    assert!(store.load_all_responses().is_empty());
    assert!(store.list_scores(1).is_empty());
    assert_eq!(store.score(1, 2), 0);
}

#[test]
fn insert_response_keeps_the_order() {
    let mut store = MemoryStore::new();
    assert_eq!(store.insert_response(ResponseRow::new(1, "b", "x")), Ok(()));
    assert_eq!(store.insert_response(ResponseRow::new(1, "a", "y")), Ok(()));
    assert_eq!(store.insert_response(ResponseRow::new(2, "b", "z")), Ok(()));
    let rows = store.load_all_responses();
    let plain: Vec<(u64, String, String)> =
        rows.into_iter().map(|r| (r.community, r.keyword, r.reply)).collect();
    assert_eq!(
        plain,
        vec![
            (1, String::from("b"), String::from("x")),
            (1, String::from("a"), String::from("y")),
            (2, String::from("b"), String::from("z")),
        ]
    );
}

#[test]
fn insert_response_refuses_a_duplicate_key() {
    let mut store = MemoryStore::new();
    assert_eq!(store.insert_response(ResponseRow::new(1, "a", "x")), Ok(()));
    assert_eq!(
        store.insert_response(ResponseRow::new(1, "a", "other")),
        Err(StoreError::DuplicateKey)
    );
    let rows = store.load_all_responses();
    assert_eq!(rows.len(), 1);
    assert_eq!(rows[0].reply, "x");
}

#[test]
fn delete_response_counts_the_rows() {
    let mut store = MemoryStore::new();
    store.insert_response(ResponseRow::new(1, "a", "x")).unwrap();
    store.insert_response(ResponseRow::new(1, "b", "y")).unwrap();
    store.insert_response(ResponseRow::new(2, "a", "z")).unwrap();
    assert_eq!(store.delete_response(1, "missing"), 0);
    assert_eq!(store.delete_response(3, "a"), 0);
    assert_eq!(store.load_all_responses().len(), 3);
    assert_eq!(store.delete_response(1, "a"), 1);
    assert_eq!(store.delete_response(1, "a"), 0);
    let rows = store.load_all_responses();
    assert_eq!(rows.len(), 2);
    assert_eq!((rows[0].community, rows[0].keyword.as_str()), (1, "b"));
    assert_eq!((rows[1].community, rows[1].keyword.as_str()), (2, "a"));
}

#[test]
fn row_duplicate_copies_every_field() {
    let row = ResponseRow::new(9, "key", "value");
    let copy = row.duplicate();
    assert_eq!((copy.community, copy.keyword, copy.reply), (9, String::from("key"), String::from("value")));
}

#[test]
fn first_award_yields_one() {
    let mut store = MemoryStore::new();
    assert_eq!(store.award_point(1, 10), Ok(1));
    assert_eq!(store.score(1, 10), 1);
    assert_eq!(store.score(2, 10), 0);
    assert_eq!(store.score(1, 11), 0);
}

#[test]
fn award_increments_by_one_each_time() {
    let mut store = MemoryStore::new();
    assert_eq!(store.award_point(1, 10), Ok(1));
    assert_eq!(store.award_point(1, 10), Ok(2));
    assert_eq!(store.award_point(2, 10), Ok(1));
    assert_eq!(store.award_point(1, 11), Ok(1));
    assert_eq!(store.award_point(1, 10), Ok(3));
    assert_eq!(store.score(1, 10), 3);
    assert_eq!(store.score(2, 10), 1);
    assert_eq!(store.score(1, 11), 1);
}

#[test]
fn scores_are_listed_highest_first() {
    let mut store = MemoryStore::new();
    for (user, points) in [(10u64, 2), (11u64, 5), (12u64, 1), (13u64, 3)] {
        for _ in 0..points {
            store.award_point(1, user).unwrap();
        }
    }
    store.award_point(2, 99).unwrap();
    assert_eq!(store.list_scores(1), vec![(11, 5), (13, 3), (10, 2), (12, 1)]);
    assert_eq!(store.list_scores(2), vec![(99, 1)]);
    assert_eq!(store.list_scores(3), Vec::<(u64, u64)>::new());
}

#[test]
fn equal_scores_are_all_listed() {
    let mut store = MemoryStore::new();
    store.award_point(1, 10).unwrap();
    store.award_point(1, 11).unwrap();
    store.award_point(1, 12).unwrap();
    store.award_point(1, 11).unwrap();
    let ranking = store.list_scores(1);
    assert_eq!(ranking.len(), 3);
    assert_eq!(ranking[0], (11, 2));
    let mut rest = vec![ranking[1], ranking[2]];
    rest.sort();
    assert_eq!(rest, vec![(10, 1), (12, 1)]);
}

#[test]
fn score_row_is_plain_data() {
    let row = ScoreRow { community: 1, user: 2, score: 3 };
    assert_eq!(row, ScoreRow { community: 1, user: 2, score: 3 });
    assert_ne!(row, ScoreRow { community: 1, user: 2, score: 4 });
}

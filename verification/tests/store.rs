use pastebin::db::Database;
use pastebin::errors::StoreError;
use pastebin::handlers::{submit, FormData, TOKEN_LEN};

#[test]
fn create_then_get_returns_stored_pair() {
    let mut db = Database::new();
    assert_eq!(db.insert_paste("tok0000001", "my title", "my body", 1000), Ok(()));
    assert_eq!(
        db.get_paste_by_token("tok0000001"),
        Ok(("my body".to_string(), "my title".to_string()))
    );
}

#[test]
fn unknown_token_fails_both_lookups() {
    let mut db = Database::new();
    assert_eq!(db.insert_paste("tok0000001", "t", "c", 0), Ok(()));
    assert_eq!(db.get_paste_by_token("neverused1"), Err(StoreError::NotFound));
    assert_eq!(db.get_content_by_token("neverused1"), Err(StoreError::NotFound));
}

#[test]
fn empty_store_finds_nothing() {
    let db = Database::new();
    assert_eq!(db.get_paste_by_token(""), Err(StoreError::NotFound));
    assert_eq!(db.get_content_by_token("tok0000001"), Err(StoreError::NotFound));
}

#[test]
fn second_create_with_same_token_conflicts() {
    let mut db = Database::new();
    assert_eq!(db.insert_paste("dup0000001", "first title", "first body", 1), Ok(()));
    assert_eq!(
        db.insert_paste("dup0000001", "second title", "second body", 2),
        Err(StoreError::Conflict)
    );
    assert_eq!(
        db.get_paste_by_token("dup0000001"),
        Ok(("first body".to_string(), "first title".to_string()))
    );
}

#[test]
fn content_lookup_agrees_with_full_lookup() {
    let mut db = Database::new();
    assert_eq!(db.insert_paste("agr0000001", "a title", "a body", 3), Ok(()));
    let full = db.get_paste_by_token("agr0000001").unwrap();
    assert_eq!(db.get_content_by_token("agr0000001"), Ok(full.0));
    assert_eq!(
        db.get_content_by_token("missing001").is_err(),
        db.get_paste_by_token("missing001").is_err()
    );
}

#[test]
fn repeated_lookups_return_identical_results() {
    let mut db = Database::new();
    assert_eq!(db.insert_paste("idm0000001", "t", "c", 4), Ok(()));
    let first = db.get_paste_by_token("idm0000001");
    let second = db.get_paste_by_token("idm0000001");
    let third = db.get_paste_by_token("idm0000001");
    assert_eq!(first, second);
    assert_eq!(second, third);
    let raw1 = db.get_content_by_token("idm0000001");
    let raw2 = db.get_content_by_token("idm0000001");
    assert_eq!(raw1, raw2);
}

#[test]
fn end_to_end_scenario() {
    let mut db = Database::new();
    assert_eq!(db.insert_paste("abc1234567", "Hello", "World body", 5), Ok(()));
    assert_eq!(
        db.get_paste_by_token("abc1234567"),
        Ok(("World body".to_string(), "Hello".to_string()))
    );
    assert_eq!(db.get_content_by_token("abc1234567"), Ok("World body".to_string()));
    assert_eq!(db.get_paste_by_token("nonexistent"), Err(StoreError::NotFound));
}

#[test]
fn two_creates_with_distinct_tokens_both_retrievable() {
    let mut db = Database::new();
    assert_eq!(db.insert_paste("one0000001", "title one", "body one", 6), Ok(()));
    assert_eq!(db.insert_paste("two0000002", "title two", "body two", 7), Ok(()));
    assert_eq!(
        db.get_paste_by_token("one0000001"),
        Ok(("body one".to_string(), "title one".to_string()))
    );
    assert_eq!(
        db.get_paste_by_token("two0000002"),
        Ok(("body two".to_string(), "title two".to_string()))
    );
}

#[test]
fn empty_title_and_content_are_accepted() {
    let mut db = Database::new();
    assert_eq!(db.insert_paste("emp0000001", "", "", 8), Ok(()));
    assert_eq!(db.get_paste_by_token("emp0000001"), Ok((String::new(), String::new())));
    assert_eq!(db.get_content_by_token("emp0000001"), Ok(String::new()));
}

#[test]
fn submit_issues_fresh_alphanumeric_token() {
    let mut db = Database::new();
    let form = FormData {
        title: "a submission".to_string(),
        content: "its body".to_string(),
    };
    let token = submit(&mut db, &form, 9).expect("an empty store has no token to collide with");
    assert_eq!(token.len(), TOKEN_LEN);
    assert!(token.chars().all(|c| c.is_ascii_alphanumeric()));
    assert_eq!(
        db.get_paste_by_token(&token),
        Ok(("its body".to_string(), "a submission".to_string()))
    );
    assert_eq!(db.get_content_by_token(&token), Ok("its body".to_string()));
}

#[test]
fn submitted_tokens_differ_across_calls() {
    let mut db = Database::new();
    let form = FormData {
        title: "t".to_string(),
        content: "c".to_string(),
    };
    let first = submit(&mut db, &form, 10).expect("an empty store has no token to collide with");
    let second = submit(&mut db, &form, 11).expect("a one-row store collides only on a full token match");
    assert_ne!(first, second);
    assert!(db.get_paste_by_token(&first).is_ok());
    assert!(db.get_paste_by_token(&second).is_ok());
}

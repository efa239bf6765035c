use bookstore::record::{Record, RepoError};
use bookstore::repo::Store;

fn rec(title: &str, author: &str, isbn: &str) -> Record {
    Record { title: title.to_string(), author: author.to_string(), isbn: isbn.to_string() }
}

fn count_isbn(rows: &[Record], isbn: &str) -> usize {
    rows.iter().filter(|r| r.isbn == isbn).count()
}

#[test]
fn create_then_read_contains_exactly_one() {
    let mut store = Store::new();
    let res = store.create(&rec("A", "B", "111"));
    assert_eq!(res, Ok(1));
    let rows = store.read();
    assert_eq!(rows.len(), 1);
    assert_eq!(count_isbn(&rows, "111"), 1);
    assert_eq!(rows[0].title, "A");
    assert_eq!(rows[0].author, "B");
}

#[test]
fn create_duplicate_isbn_is_constraint_violation() {
    let mut store = Store::new();
    assert_eq!(store.create(&rec("A", "B", "111")), Ok(1));
    let res = store.create(&rec("Other", "Person", "111"));
    assert_eq!(res, Err(RepoError::ConstraintViolation));
    let rows = store.read();
    assert_eq!(rows.len(), 1);
    assert_eq!(rows[0].title, "A");
}

#[test]
fn update_rewrites_fields_and_keeps_count() {
    let mut store = Store::new();
    assert_eq!(store.create(&rec("A", "B", "111")), Ok(1));
    assert_eq!(store.create(&rec("X", "Y", "222")), Ok(1));
    let n = store.update(&rec("New Title", "New Author", "ignored"), &"111".to_string());
    assert_eq!(n, 1);
    let rows = store.read();
    assert_eq!(rows.len(), 2);
    assert_eq!(count_isbn(&rows, "111"), 1);
    let hit = rows.iter().find(|r| r.isbn == "111").unwrap();
    assert_eq!(hit.title, "New Title");
    assert_eq!(hit.author, "New Author");
    let other = rows.iter().find(|r| r.isbn == "222").unwrap();
    assert_eq!(other.title, "X");
    assert_eq!(other.author, "Y");
}

#[test]
fn update_absent_key_affects_zero_rows_and_is_not_an_error() {
    let mut store = Store::new();
    assert_eq!(store.create(&rec("A", "B", "111")), Ok(1));
    let n = store.update(&rec("New", "New", ""), &"999".to_string());
    assert_eq!(n, 0);
    let rows = store.read();
    assert_eq!(rows.len(), 1);
    assert_eq!(rows[0].title, "A");
}

#[test]
fn delete_existing_key_leaves_zero_matches() {
    let mut store = Store::new();
    assert_eq!(store.create(&rec("A", "B", "111")), Ok(1));
    assert_eq!(store.create(&rec("X", "Y", "222")), Ok(1));
    let n = store.delete(&"111".to_string());
    assert_eq!(n, 1);
    let rows = store.read();
    assert_eq!(count_isbn(&rows, "111"), 0);
    assert_eq!(rows.len(), 1);
    assert_eq!(rows[0].isbn, "222");
}

#[test]
fn delete_absent_key_affects_zero_rows_and_is_not_an_error() {
    let mut store = Store::new();
    assert_eq!(store.create(&rec("A", "B", "111")), Ok(1));
    let n = store.delete(&"999".to_string());
    assert_eq!(n, 0);
    let rows = store.read();
    assert_eq!(rows.len(), 1);
    assert_eq!(rows[0].isbn, "111");
}

#[test]
fn delete_by_author_removes_every_match() {
    let mut store = Store::new();
    assert_eq!(store.create(&rec("One", "John", "111")), Ok(1));
    assert_eq!(store.create(&rec("Two", "Jane", "222")), Ok(1));
    assert_eq!(store.create(&rec("Three", "John", "333")), Ok(1));
    let n = store.delete_by_author(&"John".to_string());
    assert_eq!(n, 2);
    let rows = store.read();
    assert_eq!(rows.len(), 1);
    assert_eq!(rows[0].isbn, "222");
    assert_eq!(rows[0].author, "Jane");
}

#[test]
fn from_records_reads_back_the_given_rows() {
    let rows = vec![rec("A", "B", "111"), rec("X", "Y", "222")];
    let store = Store::from_records(rows);
    let out = store.read();
    assert_eq!(out.len(), 2);
    assert_eq!(out[0].isbn, "111");
    assert_eq!(out[1].isbn, "222");
}

#[test]
fn read_on_empty_store_is_empty_not_an_error() {
    let store = Store::new();
    assert!(store.read().is_empty());
}

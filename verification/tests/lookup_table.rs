use cattongue::error::ServiceError;
use cattongue::plan::Reply;
use cattongue::table::LookupTable;

fn created() -> LookupTable {
    let mut table = LookupTable::new();
    table.create();
    table
}

#[test]
fn new_table_holds_nothing_and_refuses() {
    let mut table = LookupTable::new();
    assert!(!table.is_created());
    assert_eq!(table.len(), 0);
    assert_eq!(table.find(&String::new()), None);
    assert_eq!(table.get_or_store("a".to_string()), Err(ServiceError::Storage));
    assert_eq!(table.select(&"a".to_string()), Reply::Failed);
    assert_eq!(table.insert("a".to_string()), Reply::Failed);
    assert!(!table.can_store(&"a".to_string()));
    assert_eq!(table.len(), 0);
}

#[test]
fn create_seeds_the_sentinel_once() {
    let mut table = created();
    assert!(table.is_created());
    assert_eq!(table.len(), 1);
    assert_eq!(table.find(&String::new()), Some(0));
    assert_eq!(table.value(0), Some(&String::new()));
    table.create();
    assert_eq!(table.len(), 1);
    assert_eq!(table.get_or_store("a".to_string()), Ok(1));
    table.create();
    assert_eq!(table.len(), 2);
    assert_eq!(table.find(&"a".to_string()), Some(1));
}

#[test]
fn get_or_store_twice_gives_one_row_and_one_id() {
    let mut table = created();
    let first = table.get_or_store("https://cdn.example.com".to_string());
    let second = table.get_or_store("https://cdn.example.com".to_string());
    assert_eq!(first, Ok(1));
    assert_eq!(second, Ok(1));
    assert_eq!(table.len(), 2);
}

#[test]
fn ids_are_given_out_in_order() {
    let mut table = created();
    assert_eq!(table.get_or_store("a".to_string()), Ok(1));
    assert_eq!(table.get_or_store("b".to_string()), Ok(2));
    assert_eq!(table.get_or_store("a".to_string()), Ok(1));
    assert_eq!(table.get_or_store("c".to_string()), Ok(3));
    assert_eq!(table.get_or_store(String::new()), Ok(0));
    assert_eq!(table.len(), 4);
    assert_eq!(table.value(2), Some(&"b".to_string()));
    assert_eq!(table.value(4), None);
    assert_eq!(table.value(-1), None);
    assert_eq!(table.find(&"d".to_string()), None);
}

#[test]
fn select_and_insert_answer_as_statements() {
    let mut table = created();
    assert_eq!(table.select(&"a".to_string()), Reply::Missing);
    assert_eq!(table.insert("a".to_string()), Reply::Stored(1));
    assert_eq!(table.select(&"a".to_string()), Reply::Found(1));
    assert_eq!(table.insert("a".to_string()), Reply::Failed);
    assert_eq!(table.select(&String::new()), Reply::Found(0));
    assert_eq!(table.insert(String::new()), Reply::Failed);
    assert_eq!(table.len(), 2);
}

#[test]
fn truncate_goes_back_to_an_earlier_length() {
    let mut table = created();
    assert_eq!(table.insert("a".to_string()), Reply::Stored(1));
    assert_eq!(table.insert("b".to_string()), Reply::Stored(2));
    table.truncate(5);
    assert_eq!(table.len(), 3);
    table.truncate(2);
    assert_eq!(table.len(), 2);
    assert_eq!(table.find(&"b".to_string()), None);
    assert_eq!(table.find(&"a".to_string()), Some(1));
    assert_eq!(table.insert("c".to_string()), Reply::Stored(2));
}

#[test]
fn can_store_tells_what_get_or_store_does() {
    let mut table = created();
    assert!(table.can_store(&"a".to_string()));
    assert_eq!(table.get_or_store("a".to_string()), Ok(1));
    assert!(table.can_store(&"a".to_string()));
}

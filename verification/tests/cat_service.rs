use cattongue::error::ServiceError;
use cattongue::service::{checked_offset, count_of_cats, delete_cat, list_cats, save_cat};
use cattongue::session::{check_session, Session};
use cattongue::store::Database;

fn database() -> Database {
    let mut db = Database::new();
    db.create_tables();
    db
}

fn session(bicmid: &str) -> Session {
    let mut session = Session::new();
    assert!(check_session(&mut session, bicmid.to_string()));
    session
}

fn image(n: usize) -> String {
    format!("https://cdn.example.com/img/{}.jpg", n)
}

#[test]
fn saved_url_is_listed_as_it_was_given() {
    let mut db = database();
    let s = session("browser-a");
    assert_eq!(save_cat(&mut db, &s, "https://cdn.example.com/img/42.jpg".to_string()), Ok(()));
    assert_eq!(
        list_cats(&db, &s, 0),
        Ok(vec![(1, "https://cdn.example.com/img/42.jpg".to_string())])
    );
    assert_eq!(db.url_origins().find(&"https://cdn.example.com".to_string()), Some(1));
    assert_eq!(db.bicmids().find(&"browser-a".to_string()), Some(1));
    assert_eq!(count_of_cats(&db, &s), Ok(1));
}

#[test]
fn malformed_url_is_saved_whole() {
    let mut db = database();
    let s = session("browser-a");
    assert_eq!(save_cat(&mut db, &s, "not a url".to_string()), Ok(()));
    assert_eq!(save_cat(&mut db, &s, String::new()), Ok(()));
    assert_eq!(
        list_cats(&db, &s, 0),
        Ok(vec![(2, String::new()), (1, "not a url".to_string())])
    );
    assert_eq!(db.url_origins().find(&"not a url".to_string()), Some(1));
    assert_eq!(db.url_origins().len(), 2);
}

#[test]
fn list_is_newest_first_and_capped_at_twenty() {
    let mut db = database();
    let s = session("browser-a");
    for n in 1..=25 {
        assert_eq!(save_cat(&mut db, &s, image(n)), Ok(()));
    }
    let first = list_cats(&db, &s, 0).unwrap();
    assert_eq!(first.len(), 20);
    for (i, line) in first.iter().enumerate() {
        assert_eq!(line.0, 25 - i as i64);
        assert_eq!(line.1, image(25 - i));
    }
    for pair in first.windows(2) {
        assert!(pair[0].0 > pair[1].0);
    }
    let second = list_cats(&db, &s, 20).unwrap();
    assert_eq!(second.len(), 5);
    assert_eq!(second[0], (5, image(5)));
    assert_eq!(second[4], (1, image(1)));
    let middle = list_cats(&db, &s, 3).unwrap();
    assert_eq!(middle.len(), 20);
    assert_eq!(middle[0].0, 22);
    assert_eq!(middle[19].0, 3);
    assert_eq!(list_cats(&db, &s, 25), Ok(vec![]));
    assert_eq!(list_cats(&db, &s, 24), Ok(vec![(1, image(1))]));
    assert_eq!(list_cats(&db, &s, 1000), Ok(vec![]));
    assert_eq!(count_of_cats(&db, &s), Ok(25));
    assert_eq!(db.url_origins().len(), 2);
}

#[test]
fn each_session_sees_its_own_images() {
    let mut db = database();
    let a = session("browser-a");
    let b = session("browser-b");
    assert_eq!(save_cat(&mut db, &a, image(1)), Ok(()));
    assert_eq!(save_cat(&mut db, &b, image(2)), Ok(()));
    assert_eq!(save_cat(&mut db, &a, image(3)), Ok(()));
    assert_eq!(save_cat(&mut db, &b, "https://other.example/x.png".to_string()), Ok(()));
    assert_eq!(list_cats(&db, &a, 0), Ok(vec![(3, image(3)), (1, image(1))]));
    assert_eq!(
        list_cats(&db, &b, 0),
        Ok(vec![(4, "https://other.example/x.png".to_string()), (2, image(2))])
    );
    assert_eq!(count_of_cats(&db, &a), Ok(2));
    assert_eq!(count_of_cats(&db, &b), Ok(2));
    assert_eq!(db.total_cats(), 4);
    assert_eq!(db.bicmids().len(), 3);
    assert_eq!(db.url_origins().len(), 3);
    let c = session("browser-c");
    assert_eq!(list_cats(&db, &c, 0), Ok(vec![]));
    assert_eq!(count_of_cats(&db, &c), Ok(0));
    assert_eq!(db.bicmids().len(), 3);
}

#[test]
fn deleting_another_sessions_image_changes_nothing() {
    let mut db = database();
    let a = session("browser-a");
    let b = session("browser-b");
    assert_eq!(save_cat(&mut db, &a, image(1)), Ok(()));
    assert_eq!(save_cat(&mut db, &b, image(2)), Ok(()));
    assert_eq!(delete_cat(&mut db, &b, 1), Ok(()));
    assert_eq!(db.total_cats(), 2);
    assert_eq!(list_cats(&db, &a, 0), Ok(vec![(1, image(1))]));
    assert_eq!(list_cats(&db, &b, 0), Ok(vec![(2, image(2))]));
    let c = session("browser-c");
    assert_eq!(delete_cat(&mut db, &c, 1), Ok(()));
    assert_eq!(delete_cat(&mut db, &c, 2), Ok(()));
    assert_eq!(db.total_cats(), 2);
}

#[test]
fn deleting_an_unknown_id_changes_nothing() {
    let mut db = database();
    let a = session("browser-a");
    assert_eq!(save_cat(&mut db, &a, image(1)), Ok(()));
    assert_eq!(delete_cat(&mut db, &a, 7), Ok(()));
    assert_eq!(delete_cat(&mut db, &a, 0), Ok(()));
    assert_eq!(delete_cat(&mut db, &a, -1), Ok(()));
    assert_eq!(delete_cat(&mut db, &a, i64::MAX), Ok(()));
    assert_eq!(delete_cat(&mut db, &a, i64::MIN), Ok(()));
    assert_eq!(list_cats(&db, &a, 0), Ok(vec![(1, image(1))]));
}

#[test]
fn deleting_an_own_image_removes_that_row_only() {
    let mut db = database();
    let a = session("browser-a");
    let b = session("browser-b");
    assert_eq!(save_cat(&mut db, &a, image(1)), Ok(()));
    assert_eq!(save_cat(&mut db, &a, image(2)), Ok(()));
    assert_eq!(save_cat(&mut db, &b, image(3)), Ok(()));
    assert_eq!(save_cat(&mut db, &a, image(4)), Ok(()));
    assert_eq!(delete_cat(&mut db, &a, 2), Ok(()));
    assert_eq!(list_cats(&db, &a, 0), Ok(vec![(4, image(4)), (1, image(1))]));
    assert_eq!(list_cats(&db, &b, 0), Ok(vec![(3, image(3))]));
    assert_eq!(count_of_cats(&db, &a), Ok(2));
    assert_eq!(delete_cat(&mut db, &a, 2), Ok(()));
    assert_eq!(count_of_cats(&db, &a), Ok(2));
    assert_eq!(db.total_cats(), 3);
    assert_eq!(db.bicmids().len(), 3);
    assert_eq!(db.url_origins().len(), 2);
}

#[test]
fn next_id_follows_the_largest_in_use() {
    let mut db = database();
    let a = session("browser-a");
    assert_eq!(save_cat(&mut db, &a, image(1)), Ok(()));
    assert_eq!(save_cat(&mut db, &a, image(2)), Ok(()));
    assert_eq!(delete_cat(&mut db, &a, 1), Ok(()));
    assert_eq!(save_cat(&mut db, &a, image(3)), Ok(()));
    assert_eq!(list_cats(&db, &a, 0), Ok(vec![(3, image(3)), (2, image(2))]));
    assert_eq!(delete_cat(&mut db, &a, 3), Ok(()));
    assert_eq!(delete_cat(&mut db, &a, 2), Ok(()));
    assert_eq!(save_cat(&mut db, &a, image(4)), Ok(()));
    assert_eq!(list_cats(&db, &a, 0), Ok(vec![(1, image(4))]));
}

#[test]
fn unbound_session_is_turned_away() {
    let mut db = database();
    let nobody = Session::new();
    assert_eq!(list_cats(&db, &nobody, 0), Err(ServiceError::NoSession));
    assert_eq!(list_cats(&db, &nobody, usize::MAX), Err(ServiceError::NoSession));
    assert_eq!(count_of_cats(&db, &nobody), Err(ServiceError::NoSession));
    assert_eq!(delete_cat(&mut db, &nobody, 1), Err(ServiceError::NoSession));
    assert_eq!(save_cat(&mut db, &nobody, image(1)), Err(ServiceError::NoSession));
    assert_eq!(db.total_cats(), 0);
    assert_eq!(db.bicmids().len(), 1);
    assert_eq!(db.url_origins().len(), 1);
}

#[test]
fn offset_beyond_the_storage_range_is_refused() {
    let db = database();
    let a = session("browser-a");
    assert_eq!(list_cats(&db, &a, usize::MAX), Err(ServiceError::InvalidOffset));
    assert_eq!(checked_offset(usize::MAX), Err(ServiceError::InvalidOffset));
    assert_eq!(checked_offset(i64::MAX as usize + 1), Err(ServiceError::InvalidOffset));
    assert_eq!(checked_offset(i64::MAX as usize), Ok(i64::MAX));
    assert_eq!(checked_offset(0), Ok(0));
    assert_eq!(checked_offset(20), Ok(20));
    assert_eq!(list_cats(&db, &a, i64::MAX as usize), Ok(vec![]));
}

#[test]
fn database_without_tables_fails_every_call() {
    let mut db = Database::new();
    let a = session("browser-a");
    assert_eq!(list_cats(&db, &a, 0), Err(ServiceError::Storage));
    assert_eq!(count_of_cats(&db, &a), Err(ServiceError::Storage));
    assert_eq!(delete_cat(&mut db, &a, 1), Err(ServiceError::Storage));
    assert_eq!(save_cat(&mut db, &a, image(1)), Err(ServiceError::Storage));
    assert_eq!(db.total_cats(), 0);
    assert_eq!(db.bicmids().len(), 0);
    assert_eq!(db.url_origins().len(), 0);
    db.create_tables();
    assert_eq!(save_cat(&mut db, &a, image(1)), Ok(()));
    assert_eq!(list_cats(&db, &a, 0), Ok(vec![(1, image(1))]));
}

#[test]
fn creating_the_tables_again_keeps_the_rows() {
    let mut db = database();
    assert_eq!(db.bicmids().len(), 1);
    assert_eq!(db.url_origins().len(), 1);
    assert_eq!(db.bicmids().value(0), Some(&String::new()));
    assert_eq!(db.url_origins().value(0), Some(&String::new()));
    let a = session("browser-a");
    assert_eq!(save_cat(&mut db, &a, image(1)), Ok(()));
    db.create_tables();
    db.create_tables();
    assert_eq!(db.bicmids().len(), 2);
    assert_eq!(db.url_origins().len(), 2);
    assert_eq!(list_cats(&db, &a, 0), Ok(vec![(1, image(1))]));
}

#[test]
fn session_with_the_empty_identity_uses_the_sentinel_row() {
    let mut db = database();
    let empty = session("");
    assert_eq!(save_cat(&mut db, &empty, image(1)), Ok(()));
    assert_eq!(db.bicmids().len(), 1);
    assert_eq!(list_cats(&db, &empty, 0), Ok(vec![(1, image(1))]));
    assert_eq!(count_of_cats(&db, &empty), Ok(1));
}

#[test]
fn origins_are_stored_once() {
    let mut db = database();
    let a = session("browser-a");
    let b = session("browser-b");
    assert_eq!(save_cat(&mut db, &a, "https://cdn.example.com/a.jpg".to_string()), Ok(()));
    assert_eq!(save_cat(&mut db, &b, "https://cdn.example.com/b.jpg".to_string()), Ok(()));
    assert_eq!(save_cat(&mut db, &a, "https://cdn.example.com".to_string()), Ok(()));
    assert_eq!(save_cat(&mut db, &a, "http://cdn.example.com/a.jpg".to_string()), Ok(()));
    assert_eq!(db.url_origins().len(), 3);
    assert_eq!(db.url_origins().find(&"https://cdn.example.com".to_string()), Some(1));
    assert_eq!(db.url_origins().find(&"http://cdn.example.com".to_string()), Some(2));
    assert_eq!(
        list_cats(&db, &a, 0),
        Ok(vec![
            (4, "http://cdn.example.com/a.jpg".to_string()),
            (3, "https://cdn.example.com".to_string()),
            (1, "https://cdn.example.com/a.jpg".to_string()),
        ])
    );
}

#[test]
fn the_same_url_can_be_saved_twice() {
    let mut db = database();
    let a = session("browser-a");
    assert_eq!(save_cat(&mut db, &a, image(1)), Ok(()));
    assert_eq!(save_cat(&mut db, &a, image(1)), Ok(()));
    assert_eq!(list_cats(&db, &a, 0), Ok(vec![(2, image(1)), (1, image(1))]));
    assert_eq!(count_of_cats(&db, &a), Ok(2));
}

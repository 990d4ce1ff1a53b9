use cattongue::plan::Reply;
use cattongue::store::Database;

#[test]
fn add_cat_needs_both_rows() {
    let mut db = Database::new();
    assert_eq!(db.add_cat(0, 0, "/x".to_string()), Reply::Failed);
    db.create_tables();
    assert_eq!(db.add_cat(0, 1, "/x".to_string()), Reply::Failed);
    assert_eq!(db.add_cat(1, 0, "/x".to_string()), Reply::Failed);
    assert_eq!(db.add_cat(-1, 0, "/x".to_string()), Reply::Failed);
    assert_eq!(db.total_cats(), 0);
    assert_eq!(db.add_cat(0, 0, "/x".to_string()), Reply::Done);
    assert_eq!(db.total_cats(), 1);
    assert_eq!(db.list(&String::new(), 0), Ok(vec![(1, "/x".to_string())]));
    assert_eq!(db.count(&String::new()), Ok(1));
}

#[test]
fn database_methods_take_the_identity_itself() {
    let mut db = Database::new();
    db.create_tables();
    assert_eq!(db.save("me".to_string(), "https://h/p"), Ok(()));
    assert_eq!(db.save("you".to_string(), "https://h/q"), Ok(()));
    assert_eq!(db.list(&"me".to_string(), 0), Ok(vec![(1, "https://h/p".to_string())]));
    assert_eq!(db.count(&"you".to_string()), Ok(1));
    assert_eq!(db.count(&"nobody".to_string()), Ok(0));
    assert_eq!(db.delete(&"me".to_string(), 2), Ok(()));
    assert_eq!(db.total_cats(), 2);
    assert_eq!(db.delete(&"you".to_string(), 2), Ok(()));
    assert_eq!(db.total_cats(), 1);
    assert_eq!(db.count(&"you".to_string()), Ok(0));
    assert_eq!(db.bicmids().len(), 3);
}

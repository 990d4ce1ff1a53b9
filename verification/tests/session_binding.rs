use cattongue::error::ServiceError;
use cattongue::session::{check_session, get_bicmid_from_session, Session};

#[test]
fn fresh_session_is_unbound() {
    let session = Session::new();
    assert_eq!(session.bicmid(), None);
    assert_eq!(get_bicmid_from_session(&session), Err(ServiceError::NoSession));
}

#[test]
fn first_candidate_is_bound_and_accepted() {
    let mut session = Session::new();
    assert!(check_session(&mut session, "browser-a".to_string()));
    assert_eq!(session.bicmid(), Some(&"browser-a".to_string()));
    assert_eq!(get_bicmid_from_session(&session), Ok("browser-a".to_string()));
}

#[test]
fn other_candidate_is_refused_and_does_not_rebind() {
    let mut session = Session::new();
    assert!(check_session(&mut session, "browser-a".to_string()));
    assert!(!check_session(&mut session, "browser-b".to_string()));
    assert_eq!(session.bicmid(), Some(&"browser-a".to_string()));
    assert!(check_session(&mut session, "browser-a".to_string()));
    assert!(!check_session(&mut session, "browser-b".to_string()));
    assert_eq!(get_bicmid_from_session(&session), Ok("browser-a".to_string()));
}

#[test]
fn same_candidate_is_accepted_again() {
    let mut session = Session::new();
    assert!(check_session(&mut session, "browser-a".to_string()));
    assert!(check_session(&mut session, "browser-a".to_string()));
    assert!(check_session(&mut session, "browser-a".to_string()));
}

#[test]
fn empty_candidate_binds_like_any_other() {
    let mut session = Session::new();
    assert!(check_session(&mut session, String::new()));
    assert_eq!(session.bicmid(), Some(&String::new()));
    assert!(!check_session(&mut session, "x".to_string()));
    assert!(check_session(&mut session, String::new()));
}

#[test]
fn session_read_back_from_a_store_is_bound() {
    let mut session = Session::bound_to("browser-a".to_string());
    assert_eq!(session.bicmid(), Some(&"browser-a".to_string()));
    assert!(!check_session(&mut session, "browser-b".to_string()));
    assert!(check_session(&mut session, "browser-a".to_string()));
}

#[test]
fn error_messages() {
    assert_eq!(ServiceError::NoSession.message(), "Failed to get the bicmid from session");
    assert_eq!(ServiceError::InvalidOffset.message(), "offset out of range");
    assert_eq!(ServiceError::Storage.message(), "storage failure");
}

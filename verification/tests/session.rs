use webauth::session::{Session, DEFAULT_EXPIRATION};
use webauth::store::Error;
use webauth::value::Value;

#[test]
fn store() {
    let mut session = Session::new(DEFAULT_EXPIRATION);
    let uid = uuid::Uuid::new_v4().as_u128();

    // Insert and get to make sure we stored properly
    session.insert("user_uid", Value::Uid(uid)).unwrap();
    assert_eq!(Some(Value::Uid(uid)), session.get("user_uid"));

    // Generate a new uid, insert with the same key and make sure
    // we now get the new value.
    let new_uid = uuid::Uuid::new_v4().as_u128();
    assert_ne!(uid, new_uid);
    session.insert("user_uid", Value::Uid(new_uid)).unwrap();
    assert_eq!(Some(Value::Uid(new_uid)), session.get("user_uid"));

    assert_eq!(1, session.len());
    session.insert("u64", Value::Int(42)).unwrap();
    assert_eq!(2, session.len());

    // Remove a key
    assert_eq!(Some(Value::Int(42)), session.remove("u64"));
    assert_eq!(None, session.remove("unknown"));
    assert_eq!(1, session.len());

    // Clear the store
    session.clear();
    assert_eq!(0, session.len());
}

#[test]
fn cycle_uid() {
    let mut session = Session::new(DEFAULT_EXPIRATION);

    let uid = session.uid();
    let old_uid = session.cycle_uid();

    assert_eq!(uid, old_uid);
    assert_ne!(old_uid, session.uid());
}

#[test]
fn is_modified() {
    let mut session = Session::new(DEFAULT_EXPIRATION);
    assert!(session.is_modified());

    session.mark_saved();

    session.get("sdf");
    assert!(!session.is_modified());

    session.insert("user_uid", Value::Int(42)).unwrap();
    assert!(session.is_modified());
    session.mark_saved();

    session.remove("user_uid");
    assert!(session.is_modified());
    session.mark_saved();

    session.remove("unknown");
    assert!(!session.is_modified());

    session.clear();
    assert!(session.is_modified());
}

#[test]
fn fresh_session_is_modified() {
    let session = Session::new(DEFAULT_EXPIRATION);
    assert!(session.is_modified());
    assert_eq!(0, session.len());
}

#[test]
fn insert_then_get_every_shape() {
    let mut session = Session::new(DEFAULT_EXPIRATION);
    session.insert("name", Value::Str("ada".to_owned())).unwrap();
    assert_eq!(Some(Value::Str("ada".to_owned())), session.get("name"));
    session.insert("flag", Value::Bool(true)).unwrap();
    assert_eq!(Some(Value::Bool(true)), session.get("flag"));
    session.insert("nothing", Value::Null).unwrap();
    assert_eq!(Some(Value::Null), session.get("nothing"));
    assert_eq!(None, session.get("absent"));
}

#[test]
fn clear_on_empty_marks_modified() {
    let mut session = Session::new(DEFAULT_EXPIRATION);
    session.mark_saved();
    assert_eq!(0, session.len());
    assert!(!session.is_modified());
    session.clear();
    assert!(session.is_modified());
    assert_eq!(0, session.len());
}

#[test]
fn remove_absent_returns_not_found_and_stays_clean() {
    let mut session = Session::new(DEFAULT_EXPIRATION);
    session.insert("kept", Value::Int(1)).unwrap();
    session.mark_saved();
    assert_eq!(None, session.remove("absent"));
    assert!(!session.is_modified());
    assert_eq!(Some(Value::Int(1)), session.get("kept"));
}

#[test]
fn get_uid_decodes_only_identifiers() {
    let mut session = Session::new(DEFAULT_EXPIRATION);
    assert_eq!(Ok(None), session.get_uid("user_uid"));
    session.insert("user_uid", Value::Uid(77)).unwrap();
    assert_eq!(Ok(Some(77)), session.get_uid("user_uid"));
    session.insert("user_uid", Value::Int(7)).unwrap();
    assert_eq!(Err(Error::Decode), session.get_uid("user_uid"));
}

#[test]
fn expiry_is_now_plus_lifetime_saturating() {
    let session = Session::new_at(3_600_000, 1_000);
    assert_eq!(3_601_000, session.expires_at());
    let session = Session::new_at(u64::MAX, 5);
    assert_eq!(u64::MAX, session.expires_at());
}

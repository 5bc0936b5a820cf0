use webauth::memory::Store;
use webauth::session::{Session, SessionManager};
use webauth::store::Store as StoreTrait;
use webauth::uid::format_uid;
use webauth::value::Value;

fn manager() -> SessionManager<Store<Session>> {
    SessionManager::new(Store::new(), "sid")
}

#[test]
fn no_cookie_untouched_session_leaves_no_trace() {
    // Scenario: no cookie, handler does not touch the session.
    let mut mgr = manager();
    let now: u64 = 1_000;

    let session = mgr.prepare(None, now).unwrap();
    let uid = session.uid();

    let cookie = mgr.finish(session).unwrap();
    assert_eq!(None, cookie);
    assert!(!mgr.store().contains_record(uid));
}

#[test]
fn no_cookie_modified_session_is_saved_with_cookie() {
    // Scenario: no cookie, handler inserts a value.
    let mut mgr = manager();
    let now: u64 = 1_000;

    let mut session = mgr.prepare(None, now).unwrap();
    session.insert("x", Value::Int(1)).unwrap();
    let uid = session.uid();

    let cookie = mgr.finish(session).unwrap();
    assert_eq!(Some(uid), cookie);

    let stored = mgr.store().load(uid, now).unwrap().expect("record saved");
    assert_eq!(Some(Value::Int(1)), stored.get("x"));
    assert_eq!(1, stored.len());
}

#[test]
fn valid_cookie_read_only_request_writes_nothing() {
    // Scenario: a valid cookie to a live record, handler only reads.
    let mut mgr = manager();
    let now: u64 = 1_000;

    // First request establishes the record.
    let mut session = mgr.prepare(None, now).unwrap();
    session.insert("x", Value::Int(1)).unwrap();
    let uid = session.uid();
    assert_eq!(Some(uid), mgr.finish(session).unwrap());

    // Second request carries the cookie and only reads.
    let cookie_value = format_uid(uid);
    let session = mgr.prepare(Some(cookie_value.as_str()), now + 10).unwrap();
    assert_eq!(uid, session.uid());
    assert_eq!(Some(Value::Int(1)), session.get("x"));
    assert!(!session.is_modified());

    let cookie = mgr.finish(session).unwrap();
    assert_eq!(None, cookie);
}

#[test]
fn expired_record_yields_fresh_session_and_is_kept() {
    // Scenario: a valid cookie to an expired record.
    let now: u64 = 1_000;
    let mut store: Store<Session> = Store::new();
    let mut old_session = Session::new_at(10, now);  // expires at 1010
    old_session.insert("x", Value::Int(1)).unwrap();
    let old_uid = old_session.uid();
    store.save(old_uid, &old_session).unwrap();

    let mut mgr = SessionManager::new(store, "sid");
    let cookie_value = format_uid(old_uid);
    let session = mgr.prepare(Some(cookie_value.as_str()), 2_000).unwrap();

    // A brand-new empty session, not the stale record.
    assert_eq!(0, session.len());
    assert!(!session.is_modified());
    assert_eq!(None, session.get("x"));

    // The old record is untouched.
    assert_eq!(None, mgr.finish(session).unwrap());
    assert!(mgr.store().contains_record(old_uid));
}

#[test]
fn unparseable_cookie_degrades_to_fresh_session() {
    let mut mgr = manager();
    let now: u64 = 1_000;
    let session = mgr.prepare(Some("definitely-not-an-id"), now).unwrap();
    assert_eq!(0, session.len());
    assert!(!session.is_modified());
    assert_eq!(None, mgr.finish(session).unwrap());
}

#[test]
fn cycled_uid_is_saved_under_the_new_id() {
    let mut mgr = manager();
    let now: u64 = 1_000;

    let mut session = mgr.prepare(None, now).unwrap();
    session.insert("x", Value::Int(1)).unwrap();
    let first_uid = session.uid();
    let prior = session.cycle_uid();
    assert_eq!(first_uid, prior);
    let new_uid = session.uid();
    assert_ne!(prior, new_uid);

    let cookie = mgr.finish(session).unwrap();
    assert_eq!(Some(new_uid), cookie);
    assert!(mgr.store().contains_record(new_uid));
    assert!(!mgr.store().contains_record(prior));
}

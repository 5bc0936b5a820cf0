use webauth::memory::Store;
use webauth::session::Session;
use webauth::store::Store as StoreTrait;
use webauth::value::Value;

#[test]
fn save_then_load_round_trip() {
    let mut store: Store<Session> = Store::new();
    let now: u64 = 1_000;
    let mut session = Session::new_at(3_600_000, now);
    session.insert("x", Value::Int(1)).unwrap();
    session.insert("name", Value::Str("ada".to_owned())).unwrap();
    let uid = session.uid();

    store.save(uid, &session).unwrap();

    let loaded = store.load(uid, now).unwrap().expect("live record");
    assert_eq!(session.uid(), loaded.uid());
    assert_eq!(session.expires_at(), loaded.expires_at());
    assert_eq!(session.is_modified(), loaded.is_modified());
    assert_eq!(session.len(), loaded.len());
    assert_eq!(Some(Value::Int(1)), loaded.get("x"));
    assert_eq!(Some(Value::Str("ada".to_owned())), loaded.get("name"));
}

#[test]
fn save_is_an_upsert() {
    let mut store: Store<Session> = Store::new();
    let now: u64 = 1_000;
    let mut session = Session::new_at(3_600_000, now);
    let uid = session.uid();

    store.save(uid, &session).unwrap();
    session.insert("x", Value::Int(2)).unwrap();
    store.save(uid, &session).unwrap();

    let loaded = store.load(uid, now).unwrap().expect("live record");
    assert_eq!(Some(Value::Int(2)), loaded.get("x"));
    assert_eq!(1, loaded.len());
}

#[test]
fn expired_record_reports_not_found() {
    let mut store: Store<Session> = Store::new();
    let now: u64 = 1_000;
    let session = Session::new_at(10, now);
    let uid = session.uid();
    store.save(uid, &session).unwrap();

    // Still valid at its very expiry instant, absent afterwards.
    assert!(store.load(uid, 1_010).unwrap().is_some());
    assert!(store.load(uid, 1_011).unwrap().is_none());
    assert!(store.load(uid, 2_000).unwrap().is_none());

    // The physical record is still there until deleted.
    assert!(store.contains_record(uid));
}

#[test]
fn delete_is_idempotent() {
    let mut store: Store<Session> = Store::new();
    let now: u64 = 1_000;
    let session = Session::new_at(3_600_000, now);
    let uid = session.uid();
    store.save(uid, &session).unwrap();
    assert!(store.contains_record(uid));

    store.delete(uid).unwrap();
    assert!(!store.contains_record(uid));
    assert!(store.load(uid, now).unwrap().is_none());

    // Deleting again succeeds and changes nothing.
    store.delete(uid).unwrap();
    assert!(!store.contains_record(uid));
    assert!(store.load(uid, now).unwrap().is_none());

    // Deleting an id that never existed succeeds too.
    store.delete(42).unwrap();
}

use webauth::auth::AuthBackend;
use webauth::extract::ProtectedUser;
use webauth::memory::Store;
use webauth::session::Session;
use webauth::store::Store as StoreTrait;
use webauth::user::{Resolution, User, UserManager, USER_UID_KEY};
use webauth::value::Value;

struct EmptyBackend;

impl AuthBackend for EmptyBackend {
    type User = User;
    type Credentials = (String, String);
    type Error = u32;

    fn authenticate(&self, _credentials: (String, String)) -> Result<Option<User>, u32> {
        Ok(None)
    }

    fn get_user(&self, _id: u128) -> Result<Option<User>, u32> {
        Ok(None)
    }
}

#[test]
fn backend_without_users_authenticates_nobody() {
    let backend = EmptyBackend;
    assert_eq!(
        None,
        backend
            .authenticate(("ada".to_owned(), "pw".to_owned()))
            .unwrap()
            .map(|u| u.id)
    );
    assert_eq!(None, backend.get_user(7).unwrap().map(|u| u.id));
}

#[test]
fn protected_user_carries_the_user() {
    let p = ProtectedUser(User { id: 9 });
    assert_eq!(9, p.0.id);
}

#[test]
fn absent_session_is_unauthorized() {
    let mgr: UserManager<User, Store<User>> = UserManager::new(Store::new());
    assert!(matches!(mgr.resolve(None, 1_000), Resolution::Unauthorized));
}

#[test]
fn session_without_user_uid_is_unauthorized() {
    // Scenario: the session lacks the user entry entirely.
    let mgr: UserManager<User, Store<User>> = UserManager::new(Store::new());
    let session = Session::new_at(3_600_000, 1_000);
    assert!(matches!(
        mgr.resolve(Some(&session), 1_000),
        Resolution::Unauthorized
    ));
}

#[test]
fn unresolvable_user_uid_is_unauthorized() {
    // Scenario: the session names a user the store no longer resolves.
    let mgr: UserManager<User, Store<User>> = UserManager::new(Store::new());
    let mut session = Session::new_at(3_600_000, 1_000);
    session.insert(USER_UID_KEY, Value::Uid(77)).unwrap();
    assert!(matches!(
        mgr.resolve(Some(&session), 1_000),
        Resolution::Unauthorized
    ));
}

#[test]
fn wrong_shape_user_uid_is_a_server_error() {
    let mgr: UserManager<User, Store<User>> = UserManager::new(Store::new());
    let mut session = Session::new_at(3_600_000, 1_000);
    session.insert(USER_UID_KEY, Value::Str("77".to_owned())).unwrap();
    assert!(matches!(
        mgr.resolve(Some(&session), 1_000),
        Resolution::ServerError
    ));
}

#[test]
fn resolved_user_is_attached() {
    let mut store: Store<User> = Store::new();
    store.save(77, &User { id: 77 }).unwrap();
    let mgr: UserManager<User, Store<User>> = UserManager::new(store);

    let mut session = Session::new_at(3_600_000, 1_000);
    session.insert(USER_UID_KEY, Value::Uid(77)).unwrap();

    match mgr.resolve(Some(&session), 1_000) {
        Resolution::User(u) => assert_eq!(77, u.id),
        _ => panic!("expected a resolved user"),
    }
}

use pastr::entity::{login_result, DECOY_HASH, Accounts, ActivationError, LoginError, RegistrationError, User};
use pastr::auth::{verify_password_hash, AuthError};

const PEPPER: &[u8] = b"long and bad pepper value - not use in production";

fn register(store: &mut Accounts, mail: &str, name: &str, password: &str) -> u128 {
    User::create(mail, name, password.to_string(), store, PEPPER.to_vec()).expect("registration failed")
}

#[test]
fn duplicate_handle_is_a_conflict() {
    let mut store = Accounts::new();
    let id = register(&mut store, "a@example.com", "alice", "secret1");
    let second = User::create("b@example.com", "alice", "secret2".to_string(), &mut store, PEPPER.to_vec());
    assert_eq!(second, Err(RegistrationError::DuplicatePrincipal));
    // nothing was added: the only pending activation is the first one
    assert!(store.activation_exists(id));
    assert_eq!(User::activate(&id, &mut store), Ok(()));
    assert_eq!(
        User::login("alice", "secret2", &store, PEPPER.to_vec()),
        Err(LoginError::InvalidCredentials)
    );
}

#[test]
fn duplicate_contact_is_a_conflict() {
    let mut store = Accounts::new();
    register(&mut store, "a@example.com", "alice", "secret1");
    let second = User::create("a@example.com", "bob", "secret2".to_string(), &mut store, PEPPER.to_vec());
    assert_eq!(second, Err(RegistrationError::DuplicatePrincipal));
    assert_eq!(
        User::login("bob", "secret2", &store, PEPPER.to_vec()),
        Err(LoginError::InvalidCredentials)
    );
}

#[test]
fn activation_succeeds_once() {
    let mut store = Accounts::new();
    let id = register(&mut store, "a@example.com", "alice", "secret1");
    assert!(store.activation_exists(id));
    assert_eq!(User::activate(&id, &mut store), Ok(()));
    assert!(!store.activation_exists(id));
    assert_eq!(
        User::activate(&id, &mut store),
        Err(ActivationError::NoSuchPendingActivation)
    );
}

#[test]
fn activation_of_unknown_identity_fails() {
    let mut store = Accounts::new();
    register(&mut store, "a@example.com", "alice", "secret1");
    assert_eq!(
        User::activate(&42u128, &mut store),
        Err(ActivationError::NoSuchPendingActivation)
    );
}

#[test]
fn interleaved_activations_one_succeeds() {
    let mut store = Accounts::new();
    let a = register(&mut store, "a@example.com", "alice", "secret1");
    let first = User::activate(&a, &mut store);
    let b = register(&mut store, "b@example.com", "bob", "secret2");
    assert_eq!(User::activate(&b, &mut store), Ok(()));
    let second = User::activate(&a, &mut store);
    assert_eq!(first, Ok(()));
    assert_eq!(second, Err(ActivationError::NoSuchPendingActivation));
}

#[test]
fn login_after_activation() {
    let mut store = Accounts::new();
    let id = register(&mut store, "a@example.com", "alice", "secret1");
    User::activate(&id, &mut store).unwrap();
    assert_eq!(User::login("alice", "secret1", &store, PEPPER.to_vec()), Ok(()));
}

#[test]
fn login_before_activation_is_not_refused_here() {
    let mut store = Accounts::new();
    register(&mut store, "a@example.com", "alice", "secret1");
    assert_eq!(User::login("alice", "secret1", &store, PEPPER.to_vec()), Ok(()));
}

#[test]
fn unknown_handle_and_wrong_password_look_alike() {
    let mut store = Accounts::new();
    let id = register(&mut store, "a@example.com", "alice", "secret1");
    User::activate(&id, &mut store).unwrap();
    let unknown = User::login("mallory", "secret1", &store, PEPPER.to_vec());
    let wrong = User::login("alice", "secret2", &store, PEPPER.to_vec());
    assert_eq!(unknown, Err(LoginError::InvalidCredentials));
    assert_eq!(wrong, unknown);
}

#[test]
fn corrupt_hash_is_reported() {
    let mut store = Accounts::new();
    store
        .insert_pending(7, "alice".to_string(), "a@example.com".to_string(), "garbage".to_string())
        .unwrap();
    assert_eq!(
        User::login("alice", "secret1", &store, PEPPER.to_vec()),
        Err(LoginError::CorruptHash)
    );
}

#[test]
fn insert_pending_refuses_taken_identity() {
    let mut store = Accounts::new();
    store
        .insert_pending(7, "alice".to_string(), "a@example.com".to_string(), "x".to_string())
        .unwrap();
    assert_eq!(
        store.insert_pending(7, "bob".to_string(), "b@example.com".to_string(), "y".to_string()),
        Err(RegistrationError::IdentityCollision)
    );
    assert_eq!(
        store.insert_pending(8, "alice".to_string(), "b@example.com".to_string(), "y".to_string()),
        Err(RegistrationError::DuplicatePrincipal)
    );
    assert!(!store.activation_exists(8));
}

#[test]
fn handle_or_contact_taken_checks_both() {
    let mut store = Accounts::new();
    store
        .insert_pending(7, "alice".to_string(), "a@example.com".to_string(), "x".to_string())
        .unwrap();
    assert!(store.handle_or_contact_taken(&"alice".to_string(), &"z@example.com".to_string()));
    assert!(store.handle_or_contact_taken(&"zed".to_string(), &"a@example.com".to_string()));
    assert!(!store.handle_or_contact_taken(&"zed".to_string(), &"z@example.com".to_string()));
}

#[test]
fn login_result_mapping() {
    assert_eq!(login_result(Ok(())), Ok(()));
    assert_eq!(login_result(Err(AuthError::MalformedHash)), Err(LoginError::CorruptHash));
    assert_eq!(login_result(Err(AuthError::HasherInit)), Err(LoginError::HasherInit));
    assert_eq!(
        login_result(Err(AuthError::InvalidCredentials)),
        Err(LoginError::InvalidCredentials)
    );
}

#[test]
fn registration_ids_are_distinct() {
    let mut store = Accounts::new();
    let a = register(&mut store, "a@example.com", "alice", "secret1");
    let b = register(&mut store, "b@example.com", "bob", "secret2");
    assert_ne!(a, b);
}

#[test]
fn decoy_hash_is_well_formed_and_matches_nothing() {
    assert_eq!(
        verify_password_hash("secret1", DECOY_HASH, PEPPER),
        Err(AuthError::InvalidCredentials)
    );
    assert_eq!(verify_password_hash("", DECOY_HASH, PEPPER), Err(AuthError::InvalidCredentials));
}

#[test]
fn create_hashed_stores_the_given_hash() {
    let mut store = Accounts::new();
    let hash = pastr::auth::hash_password("secret1", PEPPER).unwrap();
    let id = User::create_hashed("a@example.com", "alice", hash, &mut store).unwrap();
    assert!(store.activation_exists(id));
    assert_eq!(User::login("alice", "secret1", &store, PEPPER.to_vec()), Ok(()));
    assert_eq!(
        User::create_hashed("a@example.com", "bob", "x".to_string(), &mut store),
        Err(RegistrationError::DuplicatePrincipal)
    );
}

#[test]
fn activation_flag_is_exposed() {
    let mut store = Accounts::new();
    let id = register(&mut store, "a@example.com", "alice", "secret1");
    assert_eq!(store.is_activated("alice"), Some(false));
    User::activate(&id, &mut store).unwrap();
    assert_eq!(store.is_activated("alice"), Some(true));
    assert_eq!(store.is_activated("bob"), None);
}

use pastr::auth::{argon2_with_pepper, hash_password, verify_password_hash, AuthError};

const PEPPER: &str = "long and bad pepper value - not use in production";

#[test]
fn simple_hash() {
    let password = "p4ssw0rd1";
    let pepper = "long and bad pepper value - not use in production";

    let hash = hash_password(password, pepper.as_bytes()).expect("hashing of password failed");
    let result = verify_password_hash(password, &hash, pepper.as_bytes());

    assert!(result.is_ok());
}

#[test]
fn invalid_password() {
    let password = "p4ssw0rd1";
    let pepper = "long and bad pepper value - not use in production";

    let hash = hash_password(password, pepper.as_bytes()).expect("hashing of password failed");
    let result = verify_password_hash("p4ssw0rd1337", &hash, pepper.as_bytes());

    assert!(result.is_err());
}

#[test]
fn empty_password() {
    let password = "p4ssw0rd1";
    let pepper = "long and bad pepper value - not use in production";

    let hash = hash_password(password, pepper.as_bytes()).expect("hashing of password failed");
    let result = verify_password_hash("", &hash, pepper.as_bytes());

    assert!(result.is_err());
}

#[test]
fn wrong_password_is_a_credential_fault() {
    let hash = hash_password("p4ssw0rd1", PEPPER.as_bytes()).unwrap();
    assert_eq!(
        verify_password_hash("p4ssw0rd2", &hash, PEPPER.as_bytes()),
        Err(AuthError::InvalidCredentials)
    );
}

#[test]
fn hash_is_a_phc_string_not_the_password() {
    let hash = hash_password("p4ssw0rd1", PEPPER.as_bytes()).unwrap();
    assert!(hash.starts_with("$argon2id$v=19$m=19456,t=2,p=1$"));
    assert_eq!(hash.len(), 31 + 22 + 1 + 43);
    assert_eq!(&hash[53..54], "$");
    let last_salt_char = hash.as_bytes()[52];
    assert!(matches!(last_salt_char, b'A' | b'Q' | b'g' | b'w'));
    assert!(!hash.contains("p4ssw0rd1"));
    assert!(!hash.contains(PEPPER));
}

#[test]
fn two_hashes_of_one_password_differ_and_both_verify() {
    let a = hash_password("p4ssw0rd1", PEPPER.as_bytes()).unwrap();
    let b = hash_password("p4ssw0rd1", PEPPER.as_bytes()).unwrap();
    assert_ne!(a, b);
    assert_eq!(verify_password_hash("p4ssw0rd1", &a, PEPPER.as_bytes()), Ok(()));
    assert_eq!(verify_password_hash("p4ssw0rd1", &b, PEPPER.as_bytes()), Ok(()));
}

#[test]
fn changed_pepper_fails_verification() {
    let hash = hash_password("p4ssw0rd1", PEPPER.as_bytes()).unwrap();
    assert_eq!(
        verify_password_hash("p4ssw0rd1", &hash, b"another pepper"),
        Err(AuthError::InvalidCredentials)
    );
}

#[test]
fn empty_pepper_round_trip() {
    let hash = hash_password("p4ssw0rd1", b"").unwrap();
    assert_eq!(verify_password_hash("p4ssw0rd1", &hash, b""), Ok(()));
}

#[test]
fn malformed_hash_is_not_a_credential_fault() {
    assert_eq!(
        verify_password_hash("p4ssw0rd1", "not a phc string", PEPPER.as_bytes()),
        Err(AuthError::MalformedHash)
    );
    assert_eq!(
        verify_password_hash("p4ssw0rd1", "", PEPPER.as_bytes()),
        Err(AuthError::MalformedHash)
    );
}

#[test]
fn hasher_accepts_ordinary_pepper() {
    assert!(argon2_with_pepper(PEPPER.as_bytes()).is_ok());
}

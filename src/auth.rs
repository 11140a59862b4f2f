//! Peppered Argon2 password hashing and verification.
use argon2::password_hash::rand_core::OsRng;
use argon2::password_hash::{PasswordHash, PasswordHasher, PasswordVerifier, Salt, SaltString};
use argon2::{Algorithm, Argon2, Params, Version};
use vstd::prelude::*;

verus! {

/// `argon2::Argon2`, carried opaque inside `Hasher`.
#[verifier::external_type_specification]
#[verifier::external_body]
pub struct ExArgon2<'key>(Argon2<'key>);

/// `argon2::Error`, returned by `Argon2::new_with_secret`.
#[verifier::external_type_specification]
#[verifier::external_body]
pub struct ExArgon2Error(argon2::Error);

/// `password_hash::PasswordHash`, carried opaque inside `ParsedHash`.
#[verifier::external_type_specification]
#[verifier::external_body]
pub struct ExPasswordHash<'a>(PasswordHash<'a>);

/// `password_hash::Error`, returned by hashing, parsing and verification.
#[verifier::external_type_specification]
#[verifier::external_body]
pub struct ExPasswordHashError(argon2::password_hash::Error);

/// The longest pepper Argon2 accepts as its secret key, in bytes.
pub const MAX_PEPPER_LEN: usize = 0xFFFF_FFFF;

/// The longest password, in characters, that is sure to hash: at most four
/// UTF-8 bytes each, so within Argon2's `MAX_PWD_LEN` of 0xFFFFFFFF bytes.
pub const MAX_PASSWORD_CHARS: usize = 0x3FFF_FFFF;

/// A character of the B64 alphabet of PHC strings.
pub open spec fn is_b64_char(c: char) -> bool {
    ||| 'A' <= c <= 'Z'
    ||| 'a' <= c <= 'z'
    ||| '0' <= c <= '9'
    ||| c == '+'
    ||| c == '/'
}

/// The unpadded B64 text of a 16-byte salt: 22 characters, the last of which
/// carries two bits and four zero bits.
pub open spec fn is_salt_text(s: Seq<char>) -> bool {
    &&& s.len() == 22
    &&& forall|i: int| 0 <= i < 22 ==> is_b64_char(#[trigger] s[i])
    &&& (s[21] == 'A' || s[21] == 'Q' || s[21] == 'g' || s[21] == 'w')
}

/// The head of every PHC string the hasher writes: Argon2id, version 0x13,
/// and the default cost parameters.
pub open spec fn phc_prefix() -> Seq<char> {
    "$argon2id$v=19$m=19456,t=2,p=1$"@
}

/// `phc` is the prefix, then `salt`, then `$` and a 43-character digest (the
/// B64 text of 32 bytes).
pub open spec fn is_default_phc_with_salt(phc: Seq<char>, salt: Seq<char>) -> bool {
    let n = (phc_prefix().len() + salt.len()) as int;
    &&& phc.len() == n + 1 + 43
    &&& phc.subrange(0, phc_prefix().len() as int) == phc_prefix()
    &&& phc.subrange(phc_prefix().len() as int, n) == salt
    &&& phc[n] == '$'
}

/// `phc` is written with the default algorithm, version and parameters, and a
/// 16-byte salt.
pub open spec fn is_default_phc(phc: Seq<char>) -> bool {
    let salt = phc.subrange(phc_prefix().len() as int, phc_prefix().len() + 22int);
    &&& is_salt_text(salt)
    &&& is_default_phc_with_salt(phc, salt)
}

/// Whether `phc` parses as a PHC string (`PasswordHash::new` succeeds on it).
pub uninterp spec fn phc_parses(phc: Seq<char>) -> bool;

/// Whether Argon2 keyed with `pepper` accepts `password` against the PHC string
/// `phc` (`PasswordVerifier::verify_password` succeeds).
pub uninterp spec fn phc_matches(password: Seq<char>, phc: Seq<char>, pepper: Seq<u8>) -> bool;

/// Errors of the hasher.
#[derive(Debug, Clone, Copy, PartialEq, Eq, Structural)]
pub enum AuthError {
    /// Argon2 cannot be keyed with the given pepper: a configuration fault.
    HasherInit,
    /// Argon2 failed while computing a new hash.
    HashingFailed,
    /// The stored hash is not a PHC string: corrupt storage.
    MalformedHash,
    /// The password does not match the hash under the given pepper.
    InvalidCredentials,
}

/// An Argon2 instance keyed with a pepper, together with that pepper.
pub struct Hasher<'k> {
    argon2: Argon2<'k>,
    pepper: &'k [u8],
}

impl<'k> Hasher<'k> {
    /// The pepper this hasher was keyed with.
    pub closed spec fn pepper(&self) -> Seq<u8> {
        self.pepper@
    }
}

/// A parsed PHC string, together with the text it was parsed from.
pub struct ParsedHash<'a> {
    inner: PasswordHash<'a>,
    text: &'a str,
}

impl<'a> ParsedHash<'a> {
    /// The text this hash was parsed from.
    pub closed spec fn text(&self) -> Seq<char> {
        self.text@
    }
}

/// Relies on `argon2::Argon2::new_with_secret` with the default algorithm,
/// version and parameters: it fails exactly when the secret is longer than
/// `MAX_SECRET_LEN` (0xFFFFFFFF bytes), and keys the instance with `pepper`.
#[verifier::external_body]
fn new_hasher<'k>(pepper: &'k [u8]) -> (r: Result<Hasher<'k>, argon2::Error>)
    ensures
        r is Ok <==> pepper@.len() <= MAX_PEPPER_LEN,
        r matches Ok(h) ==> h.pepper() == pepper@,
{
    Argon2::new_with_secret(pepper, Algorithm::default(), Version::default(), Params::default())
        .map(|argon2| Hasher { argon2, pepper })
}

/// Relies on `SaltString::generate` over `OsRng`: the unpadded B64 encoding
/// of 16 random bytes (`Salt::RECOMMENDED_LENGTH`). Nothing more is known of it.
#[verifier::external_body]
fn fresh_salt() -> (r: String)
    ensures
        is_salt_text(r@),
{
    SaltString::generate(&mut OsRng).as_str().to_owned()
}

/// Relies on `Salt::from_b64` and `PasswordHasher::hash_password` for
/// `Argon2` with the default algorithm, version and parameters, rendered with
/// `PasswordHash`'s `Display`:
/// - it fails only on a salt that does not decode or is under 8 bytes, or a
///   password over 0xFFFFFFFF bytes;
/// - it writes `$argon2id$v=19$m=19456,t=2,p=1$`, the salt, `$` and the
///   32-byte digest in B64;
/// - the string parses again, and the verifier keyed with the same pepper
///   accepts the same password against it (it recomputes the digest from the
///   salt and parameters stored in the string).
#[verifier::external_body]
fn hash_with(hasher: &Hasher, password: &str, salt: &str) -> (r: Result<
    String,
    argon2::password_hash::Error,
>)
    ensures
        password@.len() <= MAX_PASSWORD_CHARS && is_salt_text(salt@) ==> r is Ok,
        r matches Ok(phc) ==> {
            &&& phc_parses(phc@)
            &&& phc_matches(password@, phc@, hasher.pepper())
            &&& is_default_phc_with_salt(phc@, salt@)
        },
{
    let salt = Salt::from_b64(salt)?;
    hasher.argon2.hash_password(password.as_bytes(), salt).map(|h| h.to_string())
}

/// Relies on `PasswordHash::new`: parses a PHC string, keeping the text.
#[verifier::external_body]
fn parse_phc<'a>(text: &'a str) -> (r: Result<ParsedHash<'a>, argon2::password_hash::Error>)
    ensures
        r is Ok <==> phc_parses(text@),
        r matches Ok(p) ==> p.text() == text@,
{
    PasswordHash::new(text).map(|inner| ParsedHash { inner, text })
}

/// Relies on `PasswordVerifier::verify_password` for `Argon2`.
#[verifier::external_body]
fn verify_with(hasher: &Hasher, password: &str, expected: &ParsedHash) -> (r: Result<
    (),
    argon2::password_hash::Error,
>)
    ensures
        r is Ok <==> phc_matches(password@, expected.text(), hasher.pepper()),
{
    hasher.argon2.verify_password(password.as_bytes(), &expected.inner)
}

/// Create an Argon2 instance keyed with `pepper`, for hashing and verification.
pub fn argon2_with_pepper<'k>(pepper: &'k [u8]) -> (r: Result<Hasher<'k>, AuthError>)
    ensures
        r is Ok <==> pepper@.len() <= MAX_PEPPER_LEN,
        r matches Ok(h) ==> h.pepper() == pepper@,
        r matches Err(e) ==> e == AuthError::HasherInit,
{
    match new_hasher(pepper) {
        Ok(h) => Ok(h),
        Err(_) => Err(AuthError::HasherInit),
    }
}

/// Hash `password` under `pepper` with a fresh random salt, as a PHC string.
///
/// Succeeds unless the pepper or the password is too long. Whatever salt is
/// drawn, the hash is an Argon2id string with the default parameters, and it
/// verifies against the same password and pepper.
pub fn hash_password(password: &str, pepper: &[u8]) -> (r: Result<String, AuthError>)
    ensures
        pepper@.len() > MAX_PEPPER_LEN ==> r == Err::<String, AuthError>(AuthError::HasherInit),
        pepper@.len() <= MAX_PEPPER_LEN && password@.len() <= MAX_PASSWORD_CHARS ==> r is Ok,
        pepper@.len() <= MAX_PEPPER_LEN ==> r != Err::<String, AuthError>(AuthError::HasherInit),
        r matches Err(e) ==> e == AuthError::HasherInit || e == AuthError::HashingFailed,
        r matches Ok(phc) ==> is_hash_of(password@, pepper@, phc@) && is_default_phc(phc@),
{
    let hasher = argon2_with_pepper(pepper)?;
    let salt = fresh_salt();
    match hash_with(&hasher, password, salt.as_str()) {
        Ok(phc) => {
            proof {
                let pl = phc_prefix().len() as int;
                assert(phc@.subrange(pl, pl + 22) == salt@);
            }
            Ok(phc)
        },
        Err(_) => Err(AuthError::HashingFailed),
    }
}

/// Whether `phc` is a hash that the hasher keyed with `pepper` produced for
/// `password`: it parses, and it matches that password under that pepper.
pub open spec fn is_hash_of(password: Seq<char>, pepper: Seq<u8>, phc: Seq<char>) -> bool {
    &&& pepper.len() <= MAX_PEPPER_LEN
    &&& phc_parses(phc)
    &&& phc_matches(password, phc, pepper)
}

/// What verifying `password` against the stored `phc` under `pepper` yields.
pub open spec fn verify_outcome(password: Seq<char>, phc: Seq<char>, pepper: Seq<u8>) -> Result<
    (),
    AuthError,
> {
    if pepper.len() > MAX_PEPPER_LEN {
        Err(AuthError::HasherInit)
    } else if !phc_parses(phc) {
        Err(AuthError::MalformedHash)
    } else if !phc_matches(password, phc, pepper) {
        Err(AuthError::InvalidCredentials)
    } else {
        Ok(())
    }
}

/// Verify `password` against a salted and peppered PHC string.
///
/// A string that does not parse is reported as `MalformedHash`, never as a
/// wrong password.
pub fn verify_password_hash(password: &str, hash: &str, pepper: &[u8]) -> (r: Result<
    (),
    AuthError,
>)
    ensures
        r == verify_outcome(password@, hash@, pepper@),
{
    let hasher = argon2_with_pepper(pepper)?;
    let expected = match parse_phc(hash) {
        Ok(p) => p,
        Err(_) => return Err(AuthError::MalformedHash),
    };
    match verify_with(&hasher, password, &expected) {
        Ok(()) => Ok(()),
        Err(_) => Err(AuthError::InvalidCredentials),
    }
}

/// A hash produced for a password under a pepper verifies against that
/// password under that pepper.
pub proof fn lemma_hash_then_verify(password: Seq<char>, pepper: Seq<u8>, phc: Seq<char>)
    requires
        is_hash_of(password, pepper, phc),
    ensures
        verify_outcome(password, phc, pepper) == Ok::<(), AuthError>(()),
{
}

} // verus!

//! Password hashing: a stateless hash/verify pair over Argon2id, the
//! collaborator consumed by whatever populates the session's user entry
//! during login. The hashing itself is the argon2 crate's work, behind
//! trusted wrappers; what this module pins down is how the pieces relate.

use vstd::prelude::*;

use argon2::password_hash::rand_core::OsRng;
use argon2::password_hash::{PasswordHash, PasswordHasher, PasswordVerifier, SaltString};
use argon2::Argon2;

verus! {

/// Why a password operation failed: the PHC hash string was missing a
/// field, or the hashing backend refused the operation for another
/// reason. A failed verification of a well-formed hash is not an error:
/// it is `Ok(false)`.
#[derive(Clone, Copy, Debug, PartialEq, Eq, Structural)]
pub enum PasswordError {
    PhcStringField,
    Other,
}

/// Names what `Argon2::verify_password` answers for a password and a PHC
/// hash string: whether the password matches. The answer depends on the
/// two arguments alone, since every parameter and the salt are embedded
/// in the string.
pub uninterp spec fn verifies(password: Seq<u8>, phc: Seq<char>) -> bool;

/// Hash the given password. Relies on `SaltString::generate` (a fresh
/// random salt from the operating system) and `Argon2::hash_password`
/// with the default Argon2id parameters, serialized into PHC string form.
/// The salt is random, so only what holds of every outcome is stated:
/// the produced string verifies against the password it was made from.
#[verifier::external_body]
pub fn hash(password: &[u8]) -> (r: Result<String, PasswordError>)
    ensures
        r matches Ok(h) ==> verifies(password@, h@),
{
    let salt = SaltString::generate(&mut OsRng);
    match Argon2::default().hash_password(password, &salt) {
        Ok(h) => Ok(h.serialize().as_str().to_owned()),
        Err(argon2::password_hash::Error::PhcStringField) => Err(PasswordError::PhcStringField),
        Err(_) => Err(PasswordError::Other),
    }
}

/// Verify that the given password matches the given PHC hash string (as
/// produced by [`hash`]). Relies on `PasswordHash::new` for the parse and
/// on `Argon2::verify_password` for the answer; a string that does not
/// parse as a PHC string is an error.
#[verifier::external_body]
pub fn verify(password: &[u8], phc: &str) -> (r: Result<bool, PasswordError>)
    ensures
        r matches Ok(b) ==> b == verifies(password@, phc@),
{
    match PasswordHash::new(phc) {
        Ok(parsed) => Ok(Argon2::default().verify_password(password, &parsed).is_ok()),
        Err(argon2::password_hash::Error::PhcStringField) => Err(PasswordError::PhcStringField),
        Err(_) => Err(PasswordError::Other),
    }
}

/// Relies on `PasswordHash::new`: validates a PHC hash string, handing
/// back its serialized form, or the parse error for anything that is not
/// one. Serialization writes back exactly the fields the parse read —
/// algorithm, version, params, salt and hash — so the result verifies
/// the same passwords as the input.
#[verifier::external_body]
fn parse_phc(s: &str) -> (r: Result<String, PasswordError>)
    ensures
        r matches Ok(p) ==> forall|pw: Seq<u8>| #[trigger] verifies(pw, p@) == verifies(
            pw,
            s@,
        ),
{
    match PasswordHash::new(s) {
        Ok(parsed) => Ok(parsed.serialize().as_str().to_owned()),
        Err(argon2::password_hash::Error::PhcStringField) => Err(PasswordError::PhcStringField),
        Err(_) => Err(PasswordError::Other),
    }
}

/// Represents a plain password.
#[derive(Debug)]
pub struct PlainPassword(String);

impl View for PlainPassword {
    type V = Seq<char>;

    closed spec fn view(&self) -> Seq<char> {
        self.0@
    }
}

impl From<String> for PlainPassword {
    fn from(value: String) -> (r: PlainPassword)
        ensures
            r@ == value@,
    {
        PlainPassword(value)
    }
}

impl vstd::std_specs::convert::FromSpecImpl<String> for PlainPassword {
    open spec fn obeys_from_spec() -> bool {
        true
    }

    closed spec fn from_spec(v: String) -> PlainPassword {
        PlainPassword(v)
    }
}

impl PlainPassword {
    /// Ciphers the plain password.
    pub fn cipher(self) -> (r: Result<CipheredPassword, PasswordError>)
        ensures
            r matches Ok(c) ==> verifies(vstd::utf8::encode_utf8(self@), c@),
    {
        match hash(self.0.as_str().as_bytes()) {
            Ok(h) => Ok(CipheredPassword(h)),
            Err(e) => Err(e),
        }
    }
}

/// Represents a ciphered password: a validated PHC hash string.
#[derive(Debug)]
pub struct CipheredPassword(String);

impl View for CipheredPassword {
    type V = Seq<char>;

    closed spec fn view(&self) -> Seq<char> {
        self.0@
    }
}

impl CipheredPassword {
    /// Take a ciphered password back in from its PHC string form,
    /// refusing anything that does not parse as one. What comes back
    /// verifies exactly the passwords the given string did.
    pub fn parse(s: &str) -> (r: Result<CipheredPassword, PasswordError>)
        ensures
            r matches Ok(c) ==> forall|pw: Seq<u8>| #[trigger] verifies(pw, c@) == verifies(
                pw,
                s@,
            ),
    {
        match parse_phc(s) {
            Ok(p) => Ok(CipheredPassword(p)),
            Err(e) => Err(e),
        }
    }

    /// The PHC string form.
    pub fn as_str(&self) -> (r: &str)
        ensures
            r@ == self@,
    {
        self.0.as_str()
    }

    /// Verify that the given password matches this ciphered password.
    pub fn verify(&self, password: &[u8]) -> (r: Result<bool, PasswordError>)
        ensures
            r matches Ok(b) ==> b == verifies(password@, self@),
    {
        verify(password, self.0.as_str())
    }
}

} // verus!

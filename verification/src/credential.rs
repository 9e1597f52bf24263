//! Stored credentials and the policy by which a password is held against
//! one.
//!
//! A credential is a bcrypt hash. Hashing and verifying are done by the
//! `bcrypt` crate; what this module proves is the policy around those two
//! calls: when a check is made at all, and what each of its answers means.

use vstd::prelude::*;
use crate::error::ErrorKind;
use crate::records::{opt_text, Text};

verus! {

#[verifier::external_type_specification]
#[verifier::external_body]
pub struct ExBcryptError(bcrypt::BcryptError);

/// The answer of `bcrypt::verify` to a password and a hash: `Some(b)` where
/// it returns `Ok(b)`, `None` where it returns an error because the hash
/// cannot be read as a bcrypt hash. The answer depends on the two texts
/// alone.
pub uninterp spec fn bcrypt_verdict(password: Text, hash: Text) -> Option<bool>;

/// Calls `bcrypt::verify`. Nothing is proved of it: the contract only names
/// its answer, so that callers can say what they do with each answer.
#[verifier::external_body]
fn verify_hash(password: &String, hash: &String) -> (r: Result<bool, bcrypt::BcryptError>)
    ensures
        match r {
            Ok(b) => bcrypt_verdict(password@, hash@) == Some(b),
            Err(_) => bcrypt_verdict(password@, hash@) is None,
        },
{
    bcrypt::verify(password.as_str(), hash.as_str())
}

/// Calls `bcrypt::hash` at the cost `bcrypt::DEFAULT_COST`. The salt is
/// drawn at random, so two calls on one password differ, and the call
/// fails where the system hands out no random bytes for the salt: whether
/// it succeeds is no function of the password, and nothing is claimed of
/// it. Trusted of every hash that comes back: it is not empty (the format
/// starts with `$`), and `bcrypt::verify` accepts the password it was made
/// from, since it reads cost and salt back out of the hash and repeats the
/// computation.
#[verifier::external_body]
fn hash_password(password: &String) -> (r: Result<String, bcrypt::BcryptError>)
    ensures
        r matches Ok(hash) ==> hash@.len() > 0 && bcrypt_verdict(password@, hash@) == Some(true),
{
    bcrypt::hash(password.as_str(), bcrypt::DEFAULT_COST)
}

/// No credential has been set: the field is absent or empty.
pub open spec fn credential_absent(stored: Option<Text>) -> bool {
    match stored {
        Some(hash) => hash.len() == 0,
        None => true,
    }
}

/// What a check against a stored credential means. Where no credential has
/// been set, anyone is let through and the check is not consulted.
/// Otherwise `check` is the answer of the verification: a match lets
/// through, a mismatch does not, and a credential that cannot be read is a
/// failure of authentication.
pub open spec fn judged(stored: Option<Text>, check: Option<bool>) -> Result<bool, ErrorKind> {
    if credential_absent(stored) {
        Ok(true)
    } else {
        match check {
            Some(matches) => Ok(matches),
            None => Err(ErrorKind::AuthenticationFailed),
        }
    }
}

/// Whether `password` is let through by the stored credential.
pub open spec fn credential_accepts(stored: Option<Text>, password: Text) -> Result<
    bool,
    ErrorKind,
> {
    judged(
        stored,
        match stored {
            Some(hash) => bcrypt_verdict(password, hash),
            None => None,
        },
    )
}

/// Executable form of [`judged`]: the verdict on a credential, given the
/// answer that verifying a password against it gave.
pub fn judge(stored: &Option<String>, check: Option<bool>) -> (r: Result<bool, ErrorKind>)
    ensures
        r == judged(opt_text(*stored), check),
{
    let absent = match stored {
        Some(hash) => hash.as_str().is_empty(),
        None => true,
    };
    if absent {
        Ok(true)
    } else {
        match check {
            Some(matches) => Ok(matches),
            None => Err(ErrorKind::AuthenticationFailed),
        }
    }
}

/// Holds `password` against a stored credential. The password is verified
/// only where a credential has been set.
pub fn check_credential(stored: &Option<String>, password: &String) -> (r: Result<
    bool,
    ErrorKind,
>)
    ensures
        r == credential_accepts(opt_text(*stored), password@),
{
    match stored {
        Some(hash) => {
            if hash.as_str().is_empty() {
                judge(stored, None)
            } else {
                let check = match verify_hash(password, hash) {
                    Ok(matches) => Some(matches),
                    Err(_) => None,
                };
                judge(stored, check)
            }
        },
        None => judge(stored, None),
    }
}

/// A fresh credential for `password`, or `None` where none could be made.
/// Whether one can be made rests with the randomness of the system, which
/// salts the hash, so no password is promised a credential. Whatever hash
/// comes back is a set credential that accepts `password`; what is done
/// with it, and with the lack of one, is said by the function that takes
/// it, `install_credential`.
pub fn new_credential(password: &String) -> (r: Option<String>)
    ensures
        r matches Some(hash) ==> !credential_absent(Some(hash@)) && credential_accepts(
            Some(hash@),
            password@,
        ) == Ok::<bool, ErrorKind>(true),
{
    match hash_password(password) {
        Ok(hash) => Some(hash),
        Err(_) => None,
    }
}

/// A credential that has not been set lets every password through.
pub proof fn lemma_absent_credential_accepts_all(stored: Option<Text>, password: Text)
    requires
        credential_absent(stored),
    ensures
        credential_accepts(stored, password) == Ok::<bool, ErrorKind>(true),
{
}

} // verus!

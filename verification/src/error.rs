//! The failure kinds shared by every operation of the data layer.

use vstd::prelude::*;

verus! {

/// Why an operation did not complete. No operation retries by itself: the
/// kind goes to the caller as it is.
#[derive(Clone, Copy, Debug, PartialEq, Eq, Structural)]
pub enum ErrorKind {
    /// The remote catalogue could not be fetched; retry at the next refresh.
    SourceUnavailable,
    /// The local store could not be reached or could not take a write.
    StoreUnavailable,
    /// A duplicate key or an unresolved reference was rejected by the store.
    ConstraintViolation,
    /// The credential could not be verified, or no operator is signed in.
    AuthenticationFailed,
    /// The request itself is malformed, such as an empty new password.
    ValidationFailed,
}

impl ErrorKind {
    /// The words in which a kind is shown to the operator.
    pub open spec fn message_text(self) -> Seq<char> {
        match self {
            ErrorKind::SourceUnavailable => "Failed to fetch from the remote catalog"@,
            ErrorKind::StoreUnavailable => "Local store unavailable"@,
            ErrorKind::ConstraintViolation => "Rejected by a constraint of the local store"@,
            ErrorKind::AuthenticationFailed => "Current user not authenticated"@,
            ErrorKind::ValidationFailed => "New password cannot be empty"@,
        }
    }

    /// The words in which this kind is shown to the operator.
    pub fn message(&self) -> (s: &'static str)
        ensures
            s@ == self.message_text(),
    {
        match self {
            ErrorKind::SourceUnavailable => "Failed to fetch from the remote catalog",
            ErrorKind::StoreUnavailable => "Local store unavailable",
            ErrorKind::ConstraintViolation => "Rejected by a constraint of the local store",
            ErrorKind::AuthenticationFailed => "Current user not authenticated",
            ErrorKind::ValidationFailed => "New password cannot be empty",
        }
    }
}

} // verus!

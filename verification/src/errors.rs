//! Errors that the library's operations report.

use vstd::prelude::*;

verus! {

/// Kinds of failure of the account, moderation and storage operations.
#[derive(PartialEq, Eq, Structural)]
pub enum Error {
    /// The operation cannot be carried out in the current state.
    OperationFailed,
    /// A token, code or ticket did not match.
    InvalidToken,
    /// The password is wrong (or its hash could not be read).
    InvalidCredentials,
    /// The account does not accept this MFA method.
    DisallowedMFAMethod,
    /// The account's email is not verified yet.
    UnverifiedAccount,
    /// No account with that id.
    UnknownUser,
    /// No account invite with that code.
    InvalidInvite,
    /// The record does not exist.
    NotFound,
    /// A record with the same id exists already.
    DatabaseError,
}

} // verus!

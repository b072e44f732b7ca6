//! The failures that the vault reports to its caller.

use vstd::prelude::*;

verus! {

/// Every way in which an operation of the vault can fail.
#[derive(Clone, Copy, Debug, PartialEq, Eq, Structural)]
pub enum VaultError {
    /// The backing store could not be reached or opened.
    ConnectionError,
    /// No client carries the given username and password.
    AuthenticationFailed,
    /// The store refused a row or broke one of its own rules.
    PersistenceError,
    /// The text given as a password length is no number in range.
    InvalidLength,
    /// The operation is declared but has no behaviour yet.
    Unsupported,
}

} // verus!

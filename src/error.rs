//! The failures that the vault operations report.
use vstd::prelude::*;

verus! {

#[derive(Clone, Copy, Debug, PartialEq, Eq, Structural)]
pub enum VaultError {
    /// Stored key-derivation parameters are malformed or out of the supported range.
    InvalidParameters,
    /// The key-derivation primitive rejected the parameters or the password.
    DerivationFailed,
    /// The integrity check failed: wrong master password, or a damaged vault.
    AuthenticationFailed,
    /// A byte layout does not parse, or a value is too large to be laid out.
    SerializationError,
}

} // verus!

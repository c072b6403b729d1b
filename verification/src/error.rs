//! Errors of the library.
use vstd::prelude::*;

verus! {

/// What can go wrong in the library's operations.
#[derive(Debug, Clone, Copy, PartialEq, Eq, Structural)]
pub enum Error {
    /// The credentials presented were not accepted.
    AuthentificationError,
    /// The random secret drawn for a new key pair was not a valid secp256k1 secret.
    KeyGenerationError,
}

/// The library's result type.
pub type Result<T> = core::result::Result<T, Error>;

} // verus!

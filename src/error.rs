use vstd::prelude::*;

verus! {

/// Every way a vault operation can fail.
#[derive(Debug, Clone, Copy, PartialEq, Eq, Structural)]
pub enum VaultError {
    /// The operation is not allowed in the vault's current lifecycle state.
    InvalidState,
    /// The master password does not match the stored verification hash.
    AuthenticationError,
    /// A hardware token is required but none is present.
    HardwareUnavailable,
    /// The hardware token failed or answered with unusable data.
    HardwareError,
    /// The key-derivation or password-hashing function rejected its inputs.
    DerivationError,
    /// Authenticated decryption failed: wrong key, corruption or tampering.
    IntegrityError,
    /// A blob or record is malformed (too short, or too long to seal).
    FormatError,
    /// A record with this service name already exists.
    AlreadyExists,
    /// No record with this service name exists.
    NotFound,
    /// The operating system's random source failed.
    RandomnessUnavailable,
}

} // verus!

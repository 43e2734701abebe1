use vstd::prelude::*;

verus! {

/// Failure of hardware fingerprinting: raised only when no hardware
/// identifier at all could be collected on this host.
#[derive(Clone, Copy, Debug, PartialEq, Eq, Structural)]
pub enum IdentityError {
    NoIdentifiers,
}

/// Failures of the credential vault.
///
/// Format and decryption errors are not transient: a caller should ask the
/// user to re-register rather than retry them. I/O and permission errors come
/// from the surrounding file handling and may be transient.
#[derive(Clone, Copy, Debug, PartialEq, Eq, Structural)]
pub enum VaultError {
    IoFailure,
    EncodeFailure,
    DecryptionFailed,
    InvalidFormat,
    PermissionFailure,
}

/// Classified failure of one delivery attempt, driven by the response status.
#[derive(Debug)]
pub enum DeliveryError {
    /// Status 401: the credential is invalid or expired; re-register.
    Unauthorized,
    /// Status 403: the credential was revoked.
    Forbidden,
    /// Status 400, with the server-provided error detail.
    BadRequest(String),
    /// Status 500-599: transient server-side failure, safe to retry.
    ServerError(u16),
    /// The request never produced a response (DNS, refused, timeout).
    Network(String),
    /// Any other status, with the status and the response body.
    Unexpected(u16, String),
}

} // verus!

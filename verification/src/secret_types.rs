//! Common types of the secret store backends.

use vstd::prelude::*;

verus! {

use vstd::string::StringExecFns;

/// Information about a secret: whether it exists and which store holds it,
/// without revealing the value.
pub struct SecretInfo {
    /// Whether the secret exists.
    pub available: bool,
    /// Which store provided it.
    pub source: String,
}

impl SecretInfo {
    /// Make a probe result.
    pub fn new(available: bool, source: &str) -> (r: Self)
        ensures
            r.available == available,
            r.source@ == source@,
    {
        SecretInfo { available, source: String::from_str(source) }
    }

    /// The probe result for a secret that no store holds.
    pub fn not_found() -> (r: Self)
        ensures
            !r.available,
            r.source@ == "none"@,
    {
        SecretInfo { available: false, source: String::from_str("none") }
    }
}

/// Errors of secret store operations.
#[derive(Debug)]
pub enum SecretStoreError {
    /// The store cannot write or delete.
    ReadOnly,
    /// No secret exists under the key.
    NotFound(String),
    /// The store cannot be used here at all.
    NotAvailable(String),
    /// Reading or writing the underlying medium failed.
    Io(String),
    /// Any other failure, described in the message.
    Other(String),
}

pub type SecretStoreResult<T> = Result<T, SecretStoreError>;

impl SecretStoreError {
    /// A human-readable description, in place of a `Display` impl.
    pub fn message(&self) -> (r: String)
        ensures
            match self {
                SecretStoreError::ReadOnly => r@ == "Store is read-only"@,
                SecretStoreError::NotFound(m) => r@ == "Secret not found: "@ + m@,
                SecretStoreError::NotAvailable(m) => r@ == "Store not available: "@ + m@,
                SecretStoreError::Io(m) => r@ == "IO error: "@ + m@,
                SecretStoreError::Other(m) => r@ == "Store error: "@ + m@,
            },
    {
        match self {
            SecretStoreError::ReadOnly => String::from_str("Store is read-only"),
            SecretStoreError::NotFound(m) => {
                let mut s = String::from_str("Secret not found: ");
                s.append(m.as_str());
                s
            },
            SecretStoreError::NotAvailable(m) => {
                let mut s = String::from_str("Store not available: ");
                s.append(m.as_str());
                s
            },
            SecretStoreError::Io(m) => {
                let mut s = String::from_str("IO error: ");
                s.append(m.as_str());
                s
            },
            SecretStoreError::Other(m) => {
                let mut s = String::from_str("Store error: ");
                s.append(m.as_str());
                s
            },
        }
    }
}

} // verus!

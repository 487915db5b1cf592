//! Secret store backed by the operating system's credential manager, through
//! the keyring crate.
//!
//! Secrets are namespaced by a service identifier. A write is verified: the
//! value is read back through a fresh handle and the write is reported
//! successful only when the same bytes come back, because credential daemons
//! are known to accept writes they do not commit.

use vstd::prelude::*;

verus! {

use crate::secret_types::{SecretInfo, SecretStoreError, SecretStoreResult};
use vstd::string::StringExecFns;

#[verifier::external_type_specification]
#[verifier::external_body]
pub struct ExEntry(keyring::Entry);

/// What reading a credential yields.
pub enum KcReadOutcome {
    /// The stored password.
    Found(String),
    /// No credential exists under the entry.
    Missing,
    /// The platform store failed; the message describes how.
    Failed(String),
}

/// What deleting a credential yields.
pub enum KcDeleteOutcome {
    /// The credential was removed.
    Done,
    /// No credential existed under the entry.
    Missing,
    /// The platform store failed; the message describes how.
    Failed(String),
}

/// Relies on keyring::Entry::new: a handle for the credential of `user`
/// under `service`. Whether it can be made depends on the platform, so
/// nothing is promised of the outcome.
#[verifier::external_body]
fn kc_new_entry(service: &str, user: &str) -> (r: Result<keyring::Entry, String>) {
    keyring::Entry::new(service, user).map_err(|e| e.to_string())
}

/// Relies on keyring::Entry::get_password: the credential's value, `Missing`
/// for keyring's NoEntry. The outcome depends on the platform store, so
/// nothing is promised of it.
#[verifier::external_body]
fn kc_get_password(entry: &keyring::Entry) -> (r: KcReadOutcome) {
    match entry.get_password() {
        Ok(password) => KcReadOutcome::Found(password),
        Err(keyring::Error::NoEntry) => KcReadOutcome::Missing,
        Err(e) => KcReadOutcome::Failed(e.to_string()),
    }
}

/// Relies on keyring::Entry::set_password. The outcome depends on the
/// platform store, so nothing is promised of it.
#[verifier::external_body]
fn kc_set_password(entry: &keyring::Entry, value: &str) -> (r: Result<(), String>) {
    entry.set_password(value).map_err(|e| e.to_string())
}

/// Relies on keyring::Entry::delete_credential: `Missing` for keyring's
/// NoEntry. The outcome depends on the platform store, so nothing is
/// promised of it.
#[verifier::external_body]
fn kc_delete_credential(entry: &keyring::Entry) -> (r: KcDeleteOutcome) {
    match entry.delete_credential() {
        Ok(()) => KcDeleteOutcome::Done,
        Err(keyring::Error::NoEntry) => KcDeleteOutcome::Missing,
        Err(e) => KcDeleteOutcome::Failed(e.to_string()),
    }
}

/// Judge a verification read-back: a write counts as successful exactly when
/// the store returned the same bytes that were written.
pub fn verify_readback(expected: &str, readback: KcReadOutcome) -> (r: SecretStoreResult<()>)
    ensures
        r is Ok <==> (readback matches KcReadOutcome::Found(v) && v@ == expected@),
{
    match readback {
        KcReadOutcome::Found(v) => {
            if v == String::from_str(expected) {
                Ok(())
            } else {
                Err(SecretStoreError::Other(String::from_str(
                    "Keychain store verification failed: value mismatch",
                )))
            }
        },
        KcReadOutcome::Missing => Err(SecretStoreError::Other(String::from_str(
            "Keychain store verification failed: could not read back: no entry",
        ))),
        KcReadOutcome::Failed(m) => {
            let mut s = String::from_str("Keychain store verification failed: could not read back: ");
            s.append(m.as_str());
            Err(SecretStoreError::Other(s))
        },
    }
}

/// Secret store over the system credential manager.
pub struct KeychainSecretStore {
    service_name: String,
}

impl KeychainSecretStore {
    /// Make a store under the default service name.
    pub fn new() -> (r: Self)
        ensures
            r.spec_service() == "openllm"@,
    {
        Self::with_service("openllm")
    }

    /// Make a store under a custom service name, which namespaces its
    /// credentials.
    pub fn with_service(service: &str) -> (r: Self)
        ensures
            r.spec_service() == service@,
    {
        KeychainSecretStore { service_name: String::from_str(service) }
    }

    /// The service identifier credentials are namespaced by.
    pub closed spec fn spec_service(&self) -> Seq<char> {
        self.service_name@
    }

    fn entry(&self, key: &str) -> (r: Result<keyring::Entry, SecretStoreError>) {
        match kc_new_entry(self.service_name.as_str(), key) {
            Ok(e) => Ok(e),
            Err(m) => {
                let mut s = String::from_str("Failed to create keychain entry: ");
                s.append(m.as_str());
                Err(SecretStoreError::Other(s))
            },
        }
    }

    /// The store's name.
    pub fn name(&self) -> (r: &'static str)
        ensures
            r@ == "keychain"@,
    {
        "keychain"
    }

    /// Whether a credential handle can be made at all; false on hosts
    /// without a usable credential service.
    pub fn is_available(&self) -> (r: bool) {
        match kc_new_entry(self.service_name.as_str(), "__openllm_availability_check__") {
            Ok(_) => true,
            Err(_) => false,
        }
    }

    /// The credential stored under a key, if the platform store returns one.
    pub fn get(&self, key: &str) -> (r: Option<String>) {
        match self.entry(key) {
            Ok(entry) => match kc_get_password(&entry) {
                KcReadOutcome::Found(password) => Some(password),
                KcReadOutcome::Missing => None,
                KcReadOutcome::Failed(_) => None,
            },
            Err(_) => None,
        }
    }

    /// Store a credential, then read it back through a fresh handle: the
    /// result is `Ok` only when the read-back returned the written value.
    pub fn store(&self, key: &str, value: &str) -> (r: SecretStoreResult<()>) {
        let entry = match self.entry(key) {
            Ok(e) => e,
            Err(e) => {
                return Err(e);
            },
        };
        match kc_set_password(&entry, value) {
            Ok(()) => {},
            Err(m) => {
                let mut s = String::from_str("Failed to store in keychain: ");
                s.append(m.as_str());
                return Err(SecretStoreError::Other(s));
            },
        }
        let verify_entry = match self.entry(key) {
            Ok(e) => e,
            Err(e) => {
                return Err(e);
            },
        };
        verify_readback(value, kc_get_password(&verify_entry))
    }

    /// Delete the credential under a key; deleting an absent key is fine.
    pub fn delete(&self, key: &str) -> (r: SecretStoreResult<()>) {
        let entry = match self.entry(key) {
            Ok(e) => e,
            Err(e) => {
                return Err(e);
            },
        };
        match kc_delete_credential(&entry) {
            KcDeleteOutcome::Done => Ok(()),
            KcDeleteOutcome::Missing => Ok(()),
            KcDeleteOutcome::Failed(m) => {
                let mut s = String::from_str("Failed to delete from keychain: ");
                s.append(m.as_str());
                Err(SecretStoreError::Other(s))
            },
        }
    }

    /// Whether a credential exists under the key.
    pub fn has(&self, key: &str) -> (r: bool) {
        self.get(key).is_some()
    }

    /// Whether the key exists, with this store's name as the source.
    pub fn get_info(&self, key: &str) -> (r: SecretInfo)
        ensures
            r.source@ == "keychain"@,
    {
        let available = self.has(key);
        SecretInfo::new(available, "keychain")
    }
}

} // verus!

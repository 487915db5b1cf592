//! Secret store that proxies to a remote host over the RPC wire protocol.
//!
//! Every operation is one RPC call: this module prepares the exact request
//! bytes and interprets the reply bytes; the embedding program moves the
//! bytes over the socket.

use vstd::prelude::*;

verus! {

use crate::client::{spec_call_bytes, RpcClient, RpcError};
use crate::endpoint::RpcEndpoint;
use crate::envelope::push_bytes;
use crate::jsonio::{
    decode_secret_value, decode_success, json_quote_bytes, json_quoted_bytes, keys_of, secret_value_of,
    success_of, wire_decoded, decode_keys,
};
use crate::secret_types::{SecretInfo, SecretStoreError, SecretStoreResult};
use crate::wire::{spec_scan, SpecScan};
use vstd::string::StringExecFns;

/// The serialized parameters of a `secrets/get` or `secrets/delete` call:
/// `{"key":<key>}`.
pub open spec fn spec_key_params(key: Seq<char>) -> Seq<u8> {
    seq![123u8, 34u8, 107u8, 101u8, 121u8, 34u8, 58u8] + json_quoted_bytes(key) + seq![125u8]
}

/// The serialized parameters of a `secrets/store` call:
/// `{"key":<key>,"value":<value>}`.
pub open spec fn spec_key_value_params(key: Seq<char>, value: Seq<char>) -> Seq<u8> {
    seq![123u8, 34u8, 107u8, 101u8, 121u8, 34u8, 58u8] + json_quoted_bytes(key)
        + seq![44u8, 34u8, 118u8, 97u8, 108u8, 117u8, 101u8, 34u8, 58u8] + json_quoted_bytes(value)
        + seq![125u8]
}

/// Build `{"key":<key>}`.
pub fn key_params(key: &str) -> (r: Vec<u8>)
    ensures
        r@ == spec_key_params(key@),
{
    let mut out: Vec<u8> = Vec::new();
    out.push(123u8);
    out.push(34u8);
    out.push(107u8);
    out.push(101u8);
    out.push(121u8);
    out.push(34u8);
    out.push(58u8);
    proof {
        assert(out@ =~= seq![123u8, 34u8, 107u8, 101u8, 121u8, 34u8, 58u8]);
    }
    let quoted = json_quote_bytes(key);
    push_bytes(&mut out, quoted.as_slice());
    out.push(125u8);
    proof {
        assert(out@ =~= spec_key_params(key@));
    }
    out
}

/// Build `{"key":<key>,"value":<value>}`.
pub fn key_value_params(key: &str, value: &str) -> (r: Vec<u8>)
    ensures
        r@ == spec_key_value_params(key@, value@),
{
    let mut out: Vec<u8> = Vec::new();
    out.push(123u8);
    out.push(34u8);
    out.push(107u8);
    out.push(101u8);
    out.push(121u8);
    out.push(34u8);
    out.push(58u8);
    let quoted_key = json_quote_bytes(key);
    push_bytes(&mut out, quoted_key.as_slice());
    out.push(44u8);
    out.push(34u8);
    out.push(118u8);
    out.push(97u8);
    out.push(108u8);
    out.push(117u8);
    out.push(101u8);
    out.push(34u8);
    out.push(58u8);
    let quoted_value = json_quote_bytes(value);
    push_bytes(&mut out, quoted_value.as_slice());
    out.push(125u8);
    proof {
        assert(out@ =~= spec_key_value_params(key@, value@));
    }
    out
}

/// A secret store that reaches a remote host over RPC.
pub struct RpcSecretStore {
    name: String,
    client: RpcClient,
}

impl RpcSecretStore {
    /// The store's name: `rpc:` followed by the endpoint name.
    pub closed spec fn spec_name(&self) -> Seq<char> {
        self.name@
    }

    /// The client this store calls through.
    pub closed spec fn spec_client(&self) -> RpcClient {
        self.client
    }

    /// Make a store for a registered endpoint.
    pub fn new(endpoint: &RpcEndpoint) -> (r: Self)
        ensures
            r.spec_name() == "rpc:"@ + endpoint.name@,
            r.spec_client().socket_path@ == endpoint.socket_path@,
            r.spec_client().auth_token@ == endpoint.auth_token@,
    {
        let mut name = String::from_str("rpc:");
        name.append(endpoint.name.as_str());
        RpcSecretStore {
            name,
            client: RpcClient::new(endpoint.socket_path.as_str(), endpoint.auth_token.as_str()),
        }
    }

    /// Make a store from a socket path and auth token directly.
    pub fn from_parts(name: &str, socket_path: &str, auth_token: &str) -> (r: Self)
        ensures
            r.spec_name() == "rpc:"@ + name@,
            r.spec_client().socket_path@ == socket_path@,
            r.spec_client().auth_token@ == auth_token@,
    {
        let mut full = String::from_str("rpc:");
        full.append(name);
        RpcSecretStore { name: full, client: RpcClient::new(socket_path, auth_token) }
    }

    /// The store's name.
    pub fn name(&self) -> (r: &str)
        ensures
            r@ == self.spec_name(),
    {
        self.name.as_str()
    }

    /// The socket path of the endpoint this store calls.
    pub fn socket_path(&self) -> (r: &str)
        ensures
            r@ == self.spec_client().socket_path@,
    {
        self.client.socket_path.as_str()
    }

    /// Prepare a ping; the caller writes the bytes and hands the reply to
    /// `interpret_reachable`.
    pub fn prepare_ping(&self) -> (r: Vec<u8>)
        ensures
            r@ == crate::client::spec_ping_bytes(),
    {
        self.client.prepare_ping()
    }

    /// Whether a ping reply reports the host ready; any failure counts as
    /// unreachable.
    pub fn interpret_reachable(&self, buf: &[u8]) -> (r: bool)
        ensures
            match spec_scan(buf@) {
                SpecScan::Complete(body) => match wire_decoded(body) {
                    Ok(Ok(text)) => r == (crate::jsonio::ping_result_of(text) == Some(true)),
                    _ => !r,
                },
                _ => !r,
            },
    {
        match self.client.interpret_ping(buf) {
            Ok(ok) => ok,
            Err(_) => false,
        }
    }

    /// Prepare a `secrets/get` call for a key.
    pub fn prepare_get(&mut self, key: &str) -> (r: Vec<u8>)
        ensures
            r@ == spec_call_bytes(
                old(self).spec_client().request_id as nat,
                "secrets/get"@,
                spec_key_params(key@),
                old(self).spec_client().auth_token@,
            ),
            final(self).spec_name() == old(self).spec_name(),
            final(self).spec_client().auth_token == old(self).spec_client().auth_token,
            final(self).spec_client().socket_path == old(self).spec_client().socket_path,
    {
        let params = key_params(key);
        let (_, bytes) = self.client.prepare_call("secrets/get", params.as_slice());
        bytes
    }

    /// The value a `secrets/get` reply carries, or `None` on any failure.
    pub fn interpret_get(&self, buf: &[u8]) -> (r: Option<String>)
        ensures
            match spec_scan(buf@) {
                SpecScan::Complete(body) => match wire_decoded(body) {
                    Ok(Ok(text)) => match secret_value_of(text) {
                        Some(Some(v)) => (r matches Some(s) && s@ == v),
                        _ => r is None,
                    },
                    _ => r is None,
                },
                _ => r is None,
            },
    {
        let text = match self.client.interpret_response(buf) {
            Ok(text) => text,
            Err(_) => {
                return None;
            },
        };
        match decode_secret_value(text.as_str()) {
            Some(Some(v)) => Some(v),
            _ => None,
        }
    }

    /// Prepare a `secrets/store` call for a key and value.
    pub fn prepare_store(&mut self, key: &str, value: &str) -> (r: Vec<u8>)
        ensures
            r@ == spec_call_bytes(
                old(self).spec_client().request_id as nat,
                "secrets/store"@,
                spec_key_value_params(key@, value@),
                old(self).spec_client().auth_token@,
            ),
            final(self).spec_name() == old(self).spec_name(),
            final(self).spec_client().auth_token == old(self).spec_client().auth_token,
            final(self).spec_client().socket_path == old(self).spec_client().socket_path,
    {
        let params = key_value_params(key, value);
        let (_, bytes) = self.client.prepare_call("secrets/store", params.as_slice());
        bytes
    }

    /// Whether a store or delete reply reports success: `Ok` exactly when the
    /// host answered with `success: true`; any other outcome is the error.
    pub fn interpret_outcome(&self, buf: &[u8]) -> (r: SecretStoreResult<()>)
        ensures
            match spec_scan(buf@) {
                SpecScan::Complete(body) => match wire_decoded(body) {
                    Ok(Ok(text)) => (r is Ok <==> success_of(text) == Some(true)),
                    _ => r is Err,
                },
                _ => r is Err,
            },
    {
        let text = match self.client.interpret_response(buf) {
            Ok(text) => text,
            Err(e) => {
                return Err(SecretStoreError::Other(e.message()));
            },
        };
        match decode_success(text.as_str()) {
            Some(true) => Ok(()),
            Some(false) => Err(SecretStoreError::Other(String::from_str("Store operation failed"))),
            None => Err(SecretStoreError::Other(String::from_str("Store operation failed"))),
        }
    }

    /// Prepare a `secrets/delete` call for a key.
    pub fn prepare_delete(&mut self, key: &str) -> (r: Vec<u8>)
        ensures
            r@ == spec_call_bytes(
                old(self).spec_client().request_id as nat,
                "secrets/delete"@,
                spec_key_params(key@),
                old(self).spec_client().auth_token@,
            ),
            final(self).spec_name() == old(self).spec_name(),
            final(self).spec_client().auth_token == old(self).spec_client().auth_token,
            final(self).spec_client().socket_path == old(self).spec_client().socket_path,
    {
        let params = key_params(key);
        let (_, bytes) = self.client.prepare_call("secrets/delete", params.as_slice());
        bytes
    }

    /// Prepare a `secrets/list` call.
    pub fn prepare_list(&mut self) -> (r: Vec<u8>)
        ensures
            r@ == spec_call_bytes(
                old(self).spec_client().request_id as nat,
                "secrets/list"@,
                seq![123u8, 125u8],
                old(self).spec_client().auth_token@,
            ),
            final(self).spec_name() == old(self).spec_name(),
            final(self).spec_client().auth_token == old(self).spec_client().auth_token,
            final(self).spec_client().socket_path == old(self).spec_client().socket_path,
    {
        let mut params: Vec<u8> = Vec::new();
        params.push(123u8);
        params.push(125u8);
        proof {
            assert(params@ =~= seq![123u8, 125u8]);
        }
        let (_, bytes) = self.client.prepare_call("secrets/list", params.as_slice());
        bytes
    }

    /// The keys a `secrets/list` reply carries.
    pub fn interpret_list(&self, buf: &[u8]) -> (r: Result<Vec<String>, SecretStoreError>)
        ensures
            match spec_scan(buf@) {
                SpecScan::Complete(body) => match wire_decoded(body) {
                    Ok(Ok(text)) => match keys_of(text) {
                        Some(keys) => (r matches Ok(v) && v.deep_view() == keys),
                        None => r is Err,
                    },
                    _ => r is Err,
                },
                _ => r is Err,
            },
    {
        let text = match self.client.interpret_response(buf) {
            Ok(text) => text,
            Err(e) => {
                return Err(SecretStoreError::Other(e.message()));
            },
        };
        match decode_keys(text.as_str()) {
            Some(keys) => Ok(keys),
            None => Err(SecretStoreError::Other(String::from_str("invalid key list"))),
        }
    }

    /// Whether a get reply holds a value, with this store's name as the
    /// source.
    pub fn interpret_get_info(&self, buf: &[u8]) -> (r: SecretInfo)
        ensures
            r.source@ == self.spec_name(),
    {
        let available = self.interpret_get(buf).is_some();
        SecretInfo::new(available, self.name.as_str())
    }
}

} // verus!

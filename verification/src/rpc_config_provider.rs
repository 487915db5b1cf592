//! Configuration access that proxies to a remote host over the RPC wire
//! protocol.
//!
//! As with the RPC secret store, this module prepares the exact request
//! bytes and interprets the reply bytes; the embedding program moves the
//! bytes over the socket.

use vstd::prelude::*;

verus! {

use crate::client::{spec_call_bytes, RpcClient};
use crate::config_types::{ConfigSource, ProviderConfig};
use crate::envelope::push_bytes;
use crate::jsonio::{
    decode_provider_array, decode_provider_item, decode_settings, decode_success,
    decode_workspace_paths, decode_workspace_root, json_quote_bytes, json_quoted_bytes,
    provider_array_of, provider_item_of, settings_of, success_of, wire_decoded, workspace_paths_of,
    workspace_root_of,
};
use crate::wire::{spec_scan, SpecScan};
use vstd::string::StringExecFns;

/// Host settings carried by a `config/getSettings` reply.
pub struct Settings {
    /// The host's preferred configuration source.
    pub config_source: Option<String>,
    /// The host's preferred secrets source.
    pub secrets_source: Option<String>,
}

/// Errors of RPC configuration operations.
#[derive(Debug)]
pub enum RpcConfigError {
    /// The call failed; the message describes how.
    Rpc(String),
    /// The host answered, but reported no success.
    Failed,
}

impl RpcConfigError {
    /// A human-readable description, in place of a `Display` impl.
    pub fn message(&self) -> (r: String)
        ensures
            match self {
                RpcConfigError::Rpc(m) => r@ == "RPC error: "@ + m@,
                RpcConfigError::Failed => r@ == "Operation failed"@,
            },
    {
        match self {
            RpcConfigError::Rpc(m) => {
                let mut s = String::from_str("RPC error: ");
                s.append(m.as_str());
                s
            },
            RpcConfigError::Failed => String::from_str("Operation failed"),
        }
    }
}

/// The serialized parameters of a `config/get` call:
/// `{"provider":<p>,"scope":<s>}` with an optional `workspacePath`.
pub open spec fn spec_config_get_params(
    provider: Seq<char>,
    scope: Seq<char>,
    workspace: Option<Seq<char>>,
) -> Seq<u8> {
    let head = "{\"provider\":"@.map(|i: int, c: char| c as u8) + json_quoted_bytes(provider)
        + ",\"scope\":"@.map(|i: int, c: char| c as u8) + json_quoted_bytes(scope);
    match workspace {
        Some(w) => head + ",\"workspacePath\":"@.map(|i: int, c: char| c as u8)
            + json_quoted_bytes(w) + seq![125u8],
        None => head + seq![125u8],
    }
}

fn push_ascii_lit(out: &mut Vec<u8>, s: &str)
    requires
        s@ =~= "{\"provider\":"@ || s@ =~= ",\"scope\":"@ || s@ =~= ",\"workspacePath\":"@ || s@
            =~= ",\"config\":"@,
    ensures
        final(out)@ == old(out)@ + s@.map(|i: int, c: char| c as u8),
{
    proof {
        reveal_strlit("{\"provider\":");
        reveal_strlit(",\"scope\":");
        reveal_strlit(",\"workspacePath\":");
        reveal_strlit(",\"config\":");
    }
    let n = s.unicode_len();
    let mut i: usize = 0;
    while i < n
        invariant
            n == s@.len(),
            i <= n,
            s.is_ascii(),
            out@ == old(out)@ + s@.map(|k: int, c: char| c as u8).subrange(0, i as int),
        decreases n - i,
    {
        let c = s.get_ascii(i);
        out.push(c);
        i = i + 1;
        proof {
            assert(out@ =~= old(out)@ + s@.map(|k: int, c: char| c as u8).subrange(0, i as int));
        }
    }
    proof {
        let m = s@.map(|k: int, c: char| c as u8);
        assert(m.subrange(0, m.len() as int) =~= m);
    }
}

/// Build the `config/get` parameters.
pub fn config_get_params(provider: &str, scope: &str, workspace: Option<&str>) -> (r: Vec<u8>)
    ensures
        r@ == spec_config_get_params(
            provider@,
            scope@,
            match workspace {
                Some(w) => Some(w@),
                None => None,
            },
        ),
{
    let mut out: Vec<u8> = Vec::new();
    push_ascii_lit(&mut out, "{\"provider\":");
    let qp = json_quote_bytes(provider);
    push_bytes(&mut out, qp.as_slice());
    push_ascii_lit(&mut out, ",\"scope\":");
    let qs = json_quote_bytes(scope);
    push_bytes(&mut out, qs.as_slice());
    match workspace {
        Some(w) => {
            push_ascii_lit(&mut out, ",\"workspacePath\":");
            let qw = json_quote_bytes(w);
            push_bytes(&mut out, qw.as_slice());
        },
        None => {},
    }
    out.push(125u8);
    proof {
        assert(out@ =~= spec_config_get_params(
            provider@,
            scope@,
            match workspace {
                Some(w) => Some(w@),
                None => None::<Seq<char>>,
            },
        ));
    }
    out
}

/// A configuration provider that reaches a remote host over RPC.
pub struct RpcConfigProvider {
    name: String,
    client: RpcClient,
}

impl RpcConfigProvider {
    /// The provider's name: `rpc:` followed by the endpoint name.
    pub closed spec fn spec_name(&self) -> Seq<char> {
        self.name@
    }

    /// The client this provider calls through.
    pub closed spec fn spec_client(&self) -> RpcClient {
        self.client
    }

    /// Make a provider for a registered endpoint.
    pub fn new(endpoint: &crate::endpoint::RpcEndpoint) -> (r: Self)
        ensures
            r.spec_name() == "rpc:"@ + endpoint.name@,
            r.spec_client().socket_path@ == endpoint.socket_path@,
            r.spec_client().auth_token@ == endpoint.auth_token@,
    {
        let mut name = String::from_str("rpc:");
        name.append(endpoint.name.as_str());
        RpcConfigProvider {
            name,
            client: RpcClient::new(endpoint.socket_path.as_str(), endpoint.auth_token.as_str()),
        }
    }

    /// Make a provider from a socket path and auth token directly.
    pub fn from_parts(name: &str, socket_path: &str, auth_token: &str) -> (r: Self)
        ensures
            r.spec_name() == "rpc:"@ + name@,
            r.spec_client().socket_path@ == socket_path@,
            r.spec_client().auth_token@ == auth_token@,
    {
        let mut full = String::from_str("rpc:");
        full.append(name);
        RpcConfigProvider { name: full, client: RpcClient::new(socket_path, auth_token) }
    }

    /// The provider's name.
    pub fn name(&self) -> (r: &str)
        ensures
            r@ == self.spec_name(),
    {
        self.name.as_str()
    }

    /// The socket path of the endpoint this provider calls.
    pub fn socket_path(&self) -> (r: &str)
        ensures
            r@ == self.spec_client().socket_path@,
    {
        self.client.socket_path.as_str()
    }

    /// Prepare a ping; the caller writes the bytes and hands the reply to
    /// `interpret_reachable`.
    pub fn prepare_ping(&self) -> (r: Vec<u8>)
        ensures
            r@ == crate::client::spec_ping_bytes(),
    {
        self.client.prepare_ping()
    }

    /// Whether a ping reply reports the host ready; any failure counts as
    /// unreachable.
    pub fn interpret_reachable(&self, buf: &[u8]) -> (r: bool)
        ensures
            match spec_scan(buf@) {
                SpecScan::Complete(body) => match wire_decoded(body) {
                    Ok(Ok(text)) => r == (crate::jsonio::ping_result_of(text) == Some(true)),
                    _ => !r,
                },
                _ => !r,
            },
    {
        match self.client.interpret_ping(buf) {
            Ok(ok) => ok,
            Err(_) => false,
        }
    }

    /// Prepare a `config/get` for every provider at a scope.
    pub fn prepare_get_providers(&mut self, scope: &str, workspace: Option<&str>) -> (r: Vec<u8>)
        ensures
            r@ == spec_call_bytes(
                old(self).spec_client().request_id as nat,
                "config/get"@,
                spec_config_get_params(
                    "*"@,
                    scope@,
                    match workspace {
                        Some(w) => Some(w@),
                        None => None,
                    },
                ),
                old(self).spec_client().auth_token@,
            ),
            final(self).spec_name() == old(self).spec_name(),
            final(self).spec_client().auth_token == old(self).spec_client().auth_token,
            final(self).spec_client().socket_path == old(self).spec_client().socket_path,
    {
        let params = config_get_params("*", scope, workspace);
        let (_, bytes) = self.client.prepare_call("config/get", params.as_slice());
        bytes
    }

    /// Prepare a `config/get` for one provider at a scope.
    pub fn prepare_get_provider(&mut self, provider: &str, scope: &str, workspace: Option<&str>) -> (r:
        Vec<u8>)
        ensures
            r@ == spec_call_bytes(
                old(self).spec_client().request_id as nat,
                "config/get"@,
                spec_config_get_params(
                    provider@,
                    scope@,
                    match workspace {
                        Some(w) => Some(w@),
                        None => None,
                    },
                ),
                old(self).spec_client().auth_token@,
            ),
            final(self).spec_name() == old(self).spec_name(),
            final(self).spec_client().auth_token == old(self).spec_client().auth_token,
            final(self).spec_client().socket_path == old(self).spec_client().socket_path,
    {
        let params = config_get_params(provider, scope, workspace);
        let (_, bytes) = self.client.prepare_call("config/get", params.as_slice());
        bytes
    }

    /// The providers a `config/get` reply carries. Each array member is
    /// decoded on its own; one unusable member fails the whole reply, as a
    /// mis-shaped document would. An absent `enabled` defaults to true and
    /// absent `models` to none.
    #[verifier::loop_isolation(false)]
    pub fn interpret_providers(&self, buf: &[u8]) -> (r: Result<Vec<ProviderConfig>, RpcConfigError>)
        ensures
            match spec_scan(buf@) {
                SpecScan::Complete(body) => match wire_decoded(body) {
                    Ok(Ok(text)) => match provider_array_of(text) {
                        Some(items) => match r {
                            Ok(v) => v@.len() == items.len() && forall|i: int|
                                0 <= i < v@.len() ==> (provider_item_of(items[i]) matches Some(m)
                                    && (#[trigger] v@[i]).name@ == m.0 && v@[i].enabled == (match m.1 {
                                    Some(b) => b,
                                    None => true,
                                }) && v@[i].models.deep_view() == (match m.2 {
                                    Some(x) => x,
                                    None => Seq::empty(),
                                }) && v@[i].api_base.deep_view() == m.3),
                            Err(_) => exists|i: int|
                                0 <= i < items.len() && provider_item_of(#[trigger] items[i])
                                    is None,
                        },
                        None => r is Err,
                    },
                    _ => r is Err,
                },
                _ => r is Err,
            },
    {
        let text = match self.client.interpret_response(buf) {
            Ok(text) => text,
            Err(e) => {
                return Err(RpcConfigError::Rpc(e.message()));
            },
        };
        let items = match decode_provider_array(text.as_str()) {
            Some(items) => items,
            None => {
                return Err(RpcConfigError::Rpc(String::from_str("invalid provider list")));
            },
        };
        let ghost items_m = items.deep_view();
        let mut out: Vec<ProviderConfig> = Vec::new();
        let mut i: usize = 0;
        while i < items.len()
            invariant
                i <= items@.len(),
                items_m == items.deep_view(),
                out@.len() == i,
                forall|k: int|
                    0 <= k < i ==> (provider_item_of(items_m[k]) matches Some(m)
                        && (#[trigger] out@[k]).name@ == m.0 && out@[k].enabled == (match m.1 {
                        Some(b) => b,
                        None => true,
                    }) && out@[k].models.deep_view() == (match m.2 {
                        Some(x) => x,
                        None => Seq::empty(),
                    }) && out@[k].api_base.deep_view() == m.3),
            decreases items@.len() - i,
        {
            match decode_provider_item(items[i].as_str()) {
                Some((name, enabled, models, api_base)) => {
                    // an absent enabled flag defaults to true, absent models
                    // to none
                    let enabled = match enabled {
                        Some(b) => b,
                        None => true,
                    };
                    let models = match models {
                        Some(m) => m,
                        None => Vec::new(),
                    };
                    proof {
                        assert(models.deep_view() =~~= (match provider_item_of(items_m[i as int])->Some_0.2 {
                            Some(x) => x,
                            None => Seq::<Seq<char>>::empty(),
                        }));
                    }
                    out.push(ProviderConfig {
                        name,
                        enabled,
                        api_base,
                        models,
                        source: ConfigSource::Unknown,
                    });
                },
                None => {
                    proof {
                        assert(items_m[i as int] == items@[i as int]@);
                        assert(provider_item_of(items_m[i as int]) is None);
                    }
                    return Err(RpcConfigError::Rpc(String::from_str("invalid provider entry")));
                },
            }
            i = i + 1;
        }
        Ok(out)
    }

    /// Prepare a `config/set` for one provider at a scope. The parameters
    /// carry the provider name, scope, optional workspace path and the
    /// serialized configuration body built by the caller from the fields to
    /// change.
    pub fn prepare_set_provider(
        &mut self,
        provider: &str,
        scope: &str,
        workspace: Option<&str>,
        config_json: &[u8],
    ) -> (r: Vec<u8>)
        ensures
            r@ == spec_call_bytes(
                old(self).spec_client().request_id as nat,
                "config/set"@,
                spec_config_set_params(
                    provider@,
                    scope@,
                    match workspace {
                        Some(w) => Some(w@),
                        None => None,
                    },
                    config_json@,
                ),
                old(self).spec_client().auth_token@,
            ),
            final(self).spec_name() == old(self).spec_name(),
            final(self).spec_client().auth_token == old(self).spec_client().auth_token,
            final(self).spec_client().socket_path == old(self).spec_client().socket_path,
    {
        let mut params: Vec<u8> = Vec::new();
        push_ascii_lit(&mut params, "{\"provider\":");
        let qp = json_quote_bytes(provider);
        push_bytes(&mut params, qp.as_slice());
        push_ascii_lit(&mut params, ",\"scope\":");
        let qs = json_quote_bytes(scope);
        push_bytes(&mut params, qs.as_slice());
        match workspace {
            Some(w) => {
                push_ascii_lit(&mut params, ",\"workspacePath\":");
                let qw = json_quote_bytes(w);
                push_bytes(&mut params, qw.as_slice());
            },
            None => {},
        }
        push_ascii_lit(&mut params, ",\"config\":");
        push_bytes(&mut params, config_json);
        params.push(125u8);
        proof {
            assert(params@ =~= spec_config_set_params(
                provider@,
                scope@,
                match workspace {
                    Some(w) => Some(w@),
                    None => None::<Seq<char>>,
                },
                config_json@,
            ));
        }
        let (_, bytes) = self.client.prepare_call("config/set", params.as_slice());
        bytes
    }

    /// Whether a `config/set` reply reports success.
    pub fn interpret_set(&self, buf: &[u8]) -> (r: Result<(), RpcConfigError>)
        ensures
            match spec_scan(buf@) {
                SpecScan::Complete(body) => match wire_decoded(body) {
                    Ok(Ok(text)) => (r is Ok <==> success_of(text) == Some(true)) && (success_of(
                        text,
                    ) == Some(false) ==> r matches Err(RpcConfigError::Failed)),
                    _ => r matches Err(RpcConfigError::Rpc(_)),
                },
                _ => r matches Err(RpcConfigError::Rpc(_)),
            },
    {
        let text = match self.client.interpret_response(buf) {
            Ok(text) => text,
            Err(e) => {
                return Err(RpcConfigError::Rpc(e.message()));
            },
        };
        match decode_success(text.as_str()) {
            Some(true) => Ok(()),
            Some(false) => Err(RpcConfigError::Failed),
            None => Err(RpcConfigError::Rpc(String::from_str("invalid set result"))),
        }
    }

    /// Prepare a `config/getSettings` at a scope.
    pub fn prepare_get_settings(&mut self, scope: &str) -> (r: Vec<u8>)
        ensures
            r@ == spec_call_bytes(
                old(self).spec_client().request_id as nat,
                "config/getSettings"@,
                spec_scope_params(scope@),
                old(self).spec_client().auth_token@,
            ),
            final(self).spec_name() == old(self).spec_name(),
            final(self).spec_client().auth_token == old(self).spec_client().auth_token,
            final(self).spec_client().socket_path == old(self).spec_client().socket_path,
    {
        let mut params: Vec<u8> = Vec::new();
        params.push(123u8);
        params.push(34u8);
        params.push(115u8);
        params.push(99u8);
        params.push(111u8);
        params.push(112u8);
        params.push(101u8);
        params.push(34u8);
        params.push(58u8);
        let qs = json_quote_bytes(scope);
        push_bytes(&mut params, qs.as_slice());
        params.push(125u8);
        proof {
            assert(params@ =~= spec_scope_params(scope@));
        }
        let (_, bytes) = self.client.prepare_call("config/getSettings", params.as_slice());
        bytes
    }

    /// The settings a `config/getSettings` reply carries.
    pub fn interpret_settings(&self, buf: &[u8]) -> (r: Result<Settings, RpcConfigError>)
        ensures
            match spec_scan(buf@) {
                SpecScan::Complete(body) => match wire_decoded(body) {
                    Ok(Ok(text)) => match settings_of(text) {
                        Some(m) => (r matches Ok(s) && s.config_source.deep_view() == m.0
                            && s.secrets_source.deep_view() == m.1),
                        None => r is Err,
                    },
                    _ => r is Err,
                },
                _ => r is Err,
            },
    {
        let text = match self.client.interpret_response(buf) {
            Ok(text) => text,
            Err(e) => {
                return Err(RpcConfigError::Rpc(e.message()));
            },
        };
        match decode_settings(text.as_str()) {
            Some((config_source, secrets_source)) => Ok(Settings { config_source, secrets_source }),
            None => Err(RpcConfigError::Rpc(String::from_str("invalid settings result"))),
        }
    }
}

impl RpcConfigProvider {
    /// Prepare a `workspace/getRoot` call.
    pub fn prepare_get_workspace_root(&mut self) -> (r: Vec<u8>)
        ensures
            r@ == spec_call_bytes(
                old(self).spec_client().request_id as nat,
                "workspace/getRoot"@,
                seq![123u8, 125u8],
                old(self).spec_client().auth_token@,
            ),
            final(self).spec_name() == old(self).spec_name(),
            final(self).spec_client().auth_token == old(self).spec_client().auth_token,
            final(self).spec_client().socket_path == old(self).spec_client().socket_path,
    {
        let mut params: Vec<u8> = Vec::new();
        params.push(123u8);
        params.push(125u8);
        proof {
            assert(params@ =~= seq![123u8, 125u8]);
        }
        let (_, bytes) = self.client.prepare_call("workspace/getRoot", params.as_slice());
        bytes
    }

    /// The root path a `workspace/getRoot` reply carries; `None` inside for a
    /// host without an open workspace.
    pub fn interpret_workspace_root(&self, buf: &[u8]) -> (r: Result<Option<String>, RpcConfigError>)
        ensures
            match spec_scan(buf@) {
                SpecScan::Complete(body) => match wire_decoded(body) {
                    Ok(Ok(text)) => match workspace_root_of(text) {
                        Some(Some(v)) => (r matches Ok(Some(p)) && p@ == v),
                        Some(None) => r == Ok::<Option<String>, RpcConfigError>(None),
                        None => r is Err,
                    },
                    _ => r is Err,
                },
                _ => r is Err,
            },
    {
        let text = match self.client.interpret_response(buf) {
            Ok(text) => text,
            Err(e) => {
                return Err(RpcConfigError::Rpc(e.message()));
            },
        };
        match decode_workspace_root(text.as_str()) {
            Some(path) => Ok(path),
            None => Err(RpcConfigError::Rpc(String::from_str("invalid workspace root"))),
        }
    }

    /// Prepare a `workspace/getPaths` call, for multi-root workspaces.
    pub fn prepare_get_workspace_paths(&mut self) -> (r: Vec<u8>)
        ensures
            r@ == spec_call_bytes(
                old(self).spec_client().request_id as nat,
                "workspace/getPaths"@,
                seq![123u8, 125u8],
                old(self).spec_client().auth_token@,
            ),
            final(self).spec_name() == old(self).spec_name(),
            final(self).spec_client().auth_token == old(self).spec_client().auth_token,
            final(self).spec_client().socket_path == old(self).spec_client().socket_path,
    {
        let mut params: Vec<u8> = Vec::new();
        params.push(123u8);
        params.push(125u8);
        proof {
            assert(params@ =~= seq![123u8, 125u8]);
        }
        let (_, bytes) = self.client.prepare_call("workspace/getPaths", params.as_slice());
        bytes
    }

    /// The paths a `workspace/getPaths` reply carries.
    pub fn interpret_workspace_paths(&self, buf: &[u8]) -> (r: Result<Vec<String>, RpcConfigError>)
        ensures
            match spec_scan(buf@) {
                SpecScan::Complete(body) => match wire_decoded(body) {
                    Ok(Ok(text)) => match workspace_paths_of(text) {
                        Some(paths) => (r matches Ok(v) && v.deep_view() == paths),
                        None => r is Err,
                    },
                    _ => r is Err,
                },
                _ => r is Err,
            },
    {
        let text = match self.client.interpret_response(buf) {
            Ok(text) => text,
            Err(e) => {
                return Err(RpcConfigError::Rpc(e.message()));
            },
        };
        match decode_workspace_paths(text.as_str()) {
            Some(paths) => Ok(paths),
            None => Err(RpcConfigError::Rpc(String::from_str("invalid workspace paths"))),
        }
    }
}

/// The serialized parameters of a `config/set` call.
pub open spec fn spec_config_set_params(
    provider: Seq<char>,
    scope: Seq<char>,
    workspace: Option<Seq<char>>,
    config_json: Seq<u8>,
) -> Seq<u8> {
    let head = "{\"provider\":"@.map(|i: int, c: char| c as u8) + json_quoted_bytes(provider)
        + ",\"scope\":"@.map(|i: int, c: char| c as u8) + json_quoted_bytes(scope);
    let with_ws = match workspace {
        Some(w) => head + ",\"workspacePath\":"@.map(|i: int, c: char| c as u8)
            + json_quoted_bytes(w),
        None => head,
    };
    with_ws + ",\"config\":"@.map(|i: int, c: char| c as u8) + config_json + seq![125u8]
}

/// The serialized parameters of a `config/getSettings` call: `{"scope":<s>}`.
pub open spec fn spec_scope_params(scope: Seq<char>) -> Seq<u8> {
    seq![123u8, 34u8, 115u8, 99u8, 111u8, 112u8, 101u8, 34u8, 58u8] + json_quoted_bytes(scope)
        + seq![125u8]
}

} // verus!

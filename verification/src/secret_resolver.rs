//! Priority-ordered secret resolution across several sources.
//!
//! A lookup probes, in order: the environment snapshot (when enabled), the
//! `.env` content (when enabled), then the single preferred primary store —
//! the host's secret storage over RPC, or the system keychain — and finally
//! any other registered fallback backends. Only the preferred primary store
//! is probed, never both, to avoid needless remote round-trips.
//!
//! The RPC probes themselves are the embedding program's part: when the
//! preference asks for them, `resolve_local` says so, the program performs
//! the calls in endpoint order, and `resolve_with_rpc` finishes the
//! resolution with the first hit (or none).

use vstd::prelude::*;

verus! {

use crate::casing::{api_key_var, lower, lower_of, spec_api_key_var, upper, upper_of};
use crate::chain_store::SecretBackend;
use crate::dotenv::{dotenv_lookup, spec_dotenv_lookup};
use crate::endpoint::{lemma_first_registered_registered, spec_first_registered, RpcEndpointRegistry};
use crate::env_store::{spec_env_get, EnvSecretStore};
use crate::keychain_store::KeychainSecretStore;
use vstd::string::StringExecFns;

/// A resolved secret: the value and where it came from. Ephemeral, never
/// persisted.
pub struct ResolvedSecret {
    /// The secret value.
    pub value: String,
    /// Which source provided it.
    pub source: String,
    /// Human-readable source description.
    pub source_detail: String,
}

/// Where secrets are read from and written to, besides the environment.
#[derive(Clone, Copy, PartialEq, Eq, Structural, Debug)]
pub enum SecretsStore {
    /// The host editor's secret storage, over RPC.
    VsCode,
    /// The system keychain.
    Keychain,
}

impl Default for SecretsStore {
    /// Outside a host editor the keychain is the default.
    fn default() -> (r: Self)
        ensures
            r == SecretsStore::Keychain,
    {
        SecretsStore::Keychain
    }
}

impl SecretsStore {
    /// The preference a configuration string names; anything unknown means
    /// the keychain.
    pub fn from_str(s: &str) -> (r: Self)
        ensures
            (r == SecretsStore::VsCode) == (lower_of(s@) == "vscode"@ || lower_of(s@) == "vs_code"@
                || lower_of(s@) == "vs-code"@ || lower_of(s@) == "secretstorage"@),
    {
        let low = lower(s);
        if low == String::from_str("vscode") || low == String::from_str("vs_code") || low
            == String::from_str("vs-code") || low == String::from_str("secretstorage") {
            SecretsStore::VsCode
        } else {
            SecretsStore::Keychain
        }
    }
}

/// Where a secret write will land.
pub enum SecretWriteDestination {
    /// Through the named RPC endpoint.
    Rpc(String),
    /// Into the system keychain.
    Keychain,
    /// No store can take the write.
    NoStore,
}

/// What a routed write or delete needs next: either it finished locally, or
/// the embedding program must perform one RPC call against the named
/// endpoint and report the outcome itself.
pub enum RoutedAction {
    /// The operation finished; the result carries the destination
    /// description, or the error.
    Done(Result<String, String>),
    /// Perform the operation through this registered endpoint.
    Rpc(String),
}

/// The resolver's verdict before any RPC is consulted.
pub enum LocalResolution {
    /// A source answered.
    Found(ResolvedSecret),
    /// The preferred store is the host's secret storage: probe the
    /// endpoints, then finish with `resolve_with_rpc`.
    TryRpc,
    /// Nothing local holds the key.
    NotFound,
}

/// The endpoint an explicit write destination names: `vscode` is sugar for
/// `rpc:vscode`, and `rpc:<name>` names the endpoint directly.
pub open spec fn spec_rpc_dest(s: Seq<char>) -> Option<Seq<char>> {
    if s == "vscode"@ {
        Some("vscode"@)
    } else if s.len() >= 4 && s.subrange(0, 4) == "rpc:"@ {
        Some(s.skip(4))
    } else {
        None
    }
}

/// Whether a destination string names no known routing word.
pub open spec fn spec_unknown_dest(s: Seq<char>) -> bool {
    s != "auto"@ && s != "keychain"@ && spec_rpc_dest(s) is None
}

/// What probing the fallback backends yields: the value of the first
/// in-memory member that holds the key. Environment and keychain members are
/// skipped, since the primary order already covers their kinds.
pub open spec fn spec_fallback(sources: Seq<SecretBackend>, key: Seq<char>) -> Option<Seq<char>>
    decreases sources.len(),
{
    if sources.len() == 0 {
        None
    } else {
        match sources[0] {
            SecretBackend::Memory(m) => match m.spec_get(key) {
                Some(v) => Some(v),
                None => spec_fallback(sources.drop_first(), key),
            },
            _ => spec_fallback(sources.drop_first(), key),
        }
    }
}

/// Resolves secrets across the configured sources.
pub struct UnifiedSecretResolver {
    /// Fallback backends probed after the primary store.
    sources: Vec<SecretBackend>,
    /// RPC endpoint names to try, in order.
    rpc_endpoints: Vec<String>,
    /// The preferred primary store.
    secrets_store: SecretsStore,
    /// Whether the environment snapshot is probed.
    check_environment: bool,
    /// Whether the `.env` content is probed.
    check_dotenv: bool,
    /// The environment snapshot.
    env: EnvSecretStore,
    /// The `.env` file's content, when one was read.
    dotenv_content: Option<String>,
}

impl UnifiedSecretResolver {
    pub closed spec fn spec_check_environment(&self) -> bool {
        self.check_environment
    }

    pub closed spec fn spec_check_dotenv(&self) -> bool {
        self.check_dotenv
    }

    pub closed spec fn spec_secrets_store(&self) -> SecretsStore {
        self.secrets_store
    }

    pub closed spec fn spec_env_vars(&self) -> Seq<(Seq<char>, Seq<char>)> {
        self.env.spec_vars()
    }

    pub closed spec fn spec_dotenv(&self) -> Option<Seq<char>> {
        self.dotenv_content.deep_view()
    }

    pub closed spec fn spec_rpc_endpoints(&self) -> Seq<Seq<char>> {
        self.rpc_endpoints.deep_view()
    }

    /// The fallback backends, probed after the primary store.
    pub closed spec fn spec_fallback_sources(&self) -> Seq<SecretBackend> {
        self.sources@
    }

    /// What the fallback probe yields for a key.
    pub open spec fn spec_fallback_hit(&self, key: Seq<char>) -> Option<Seq<char>> {
        spec_fallback(self.spec_fallback_sources(), key)
    }

    /// What the environment probe yields, when it is enabled.
    pub open spec fn spec_env_hit(&self, key: Seq<char>) -> Option<Seq<char>> {
        if self.spec_check_environment() {
            spec_env_get(self.spec_env_vars(), key)
        } else {
            None
        }
    }

    /// What the `.env` probe yields, when it is enabled.
    pub open spec fn spec_dotenv_hit(&self, key: Seq<char>) -> Option<Seq<char>> {
        if self.spec_check_dotenv() {
            match self.spec_dotenv() {
                Some(content) => spec_dotenv_lookup(content, spec_api_key_var(key)),
                None => None,
            }
        } else {
            None
        }
    }

    /// A resolver with the default sources: environment on, `.env` off, the
    /// keychain as the primary store, and `vscode` as the candidate endpoint.
    pub fn new() -> (r: Self)
        ensures
            r.spec_check_environment(),
            !r.spec_check_dotenv(),
            r.spec_secrets_store() == SecretsStore::Keychain,
            r.spec_rpc_endpoints() =~~= seq!["vscode"@],
            r.spec_env_vars() == Seq::<(Seq<char>, Seq<char>)>::empty(),
    {
        let mut rpc_endpoints: Vec<String> = Vec::new();
        rpc_endpoints.push(String::from_str("vscode"));
        let mut sources: Vec<SecretBackend> = Vec::new();
        sources.push(SecretBackend::Env(EnvSecretStore::new()));
        sources.push(SecretBackend::Keychain(KeychainSecretStore::new()));
        let r = UnifiedSecretResolver {
            sources,
            rpc_endpoints,
            secrets_store: SecretsStore::Keychain,
            check_environment: true,
            check_dotenv: false,
            env: EnvSecretStore::new(),
            dotenv_content: None,
        };
        proof {
            assert(r.spec_rpc_endpoints() =~~= seq!["vscode"@]);
        }
        r
    }

    /// A resolver with chosen sources.
    pub fn with_config(include_env: bool, include_keychain: bool, rpc_endpoints: Vec<String>) -> (r:
        Self)
        ensures
            r.spec_check_environment() == include_env,
            !r.spec_check_dotenv(),
            r.spec_secrets_store() == SecretsStore::Keychain,
            r.spec_rpc_endpoints() == rpc_endpoints.deep_view(),
    {
        let mut sources: Vec<SecretBackend> = Vec::new();
        if include_env {
            sources.push(SecretBackend::Env(EnvSecretStore::new()));
        }
        if include_keychain {
            sources.push(SecretBackend::Keychain(KeychainSecretStore::new()));
        }
        UnifiedSecretResolver {
            sources,
            rpc_endpoints,
            secrets_store: SecretsStore::Keychain,
            check_environment: include_env,
            check_dotenv: false,
            env: EnvSecretStore::new(),
            dotenv_content: None,
        }
    }

    /// Set the preferred primary store.
    pub fn set_secrets_store(&mut self, store: SecretsStore)
        ensures
            final(self).spec_secrets_store() == store,
            final(self).spec_check_environment() == old(self).spec_check_environment(),
            final(self).spec_check_dotenv() == old(self).spec_check_dotenv(),
            final(self).spec_env_vars() == old(self).spec_env_vars(),
            final(self).spec_dotenv() == old(self).spec_dotenv(),
            final(self).spec_rpc_endpoints() == old(self).spec_rpc_endpoints(),
    {
        self.secrets_store = store;
    }

    /// Set the preferred primary store from a configuration string.
    pub fn set_secrets_store_str(&mut self, store: &str)
        ensures
            (final(self).spec_secrets_store() == SecretsStore::VsCode) == (lower_of(store@)
                == "vscode"@ || lower_of(store@) == "vs_code"@ || lower_of(store@) == "vs-code"@
                || lower_of(store@) == "secretstorage"@),
            final(self).spec_check_environment() == old(self).spec_check_environment(),
            final(self).spec_check_dotenv() == old(self).spec_check_dotenv(),
    {
        let s = SecretsStore::from_str(store);
        self.secrets_store = s;
    }

    /// The preferred primary store.
    pub fn get_secrets_store(&self) -> (r: &SecretsStore)
        ensures
            *r == self.spec_secrets_store(),
    {
        &self.secrets_store
    }

    /// Enable or disable the environment probe.
    pub fn set_check_environment(&mut self, check: bool)
        ensures
            final(self).spec_check_environment() == check,
            final(self).spec_secrets_store() == old(self).spec_secrets_store(),
            final(self).spec_check_dotenv() == old(self).spec_check_dotenv(),
            final(self).spec_env_vars() == old(self).spec_env_vars(),
            final(self).spec_dotenv() == old(self).spec_dotenv(),
            final(self).spec_rpc_endpoints() == old(self).spec_rpc_endpoints(),
    {
        self.check_environment = check;
    }

    /// Whether the environment probe is enabled.
    pub fn get_check_environment(&self) -> (r: bool)
        ensures
            r == self.spec_check_environment(),
    {
        self.check_environment
    }

    /// Enable or disable the `.env` probe.
    pub fn set_check_dotenv(&mut self, check: bool)
        ensures
            final(self).spec_check_dotenv() == check,
            final(self).spec_secrets_store() == old(self).spec_secrets_store(),
            final(self).spec_check_environment() == old(self).spec_check_environment(),
            final(self).spec_env_vars() == old(self).spec_env_vars(),
            final(self).spec_dotenv() == old(self).spec_dotenv(),
            final(self).spec_rpc_endpoints() == old(self).spec_rpc_endpoints(),
    {
        self.check_dotenv = check;
    }

    /// Whether the `.env` probe is enabled.
    pub fn get_check_dotenv(&self) -> (r: bool)
        ensures
            r == self.spec_check_dotenv(),
    {
        self.check_dotenv
    }

    /// The candidate RPC endpoint names, in probe order.
    pub fn rpc_endpoint_names(&self) -> (r: &Vec<String>)
        ensures
            r.deep_view() == self.spec_rpc_endpoints(),
    {
        &self.rpc_endpoints
    }

    /// Add a candidate RPC endpoint name.
    pub fn add_rpc_endpoint(&mut self, name: &str)
        ensures
            final(self).spec_rpc_endpoints() == old(self).spec_rpc_endpoints().push(name@),
            final(self).spec_secrets_store() == old(self).spec_secrets_store(),
    {
        self.rpc_endpoints.push(String::from_str(name));
        proof {
            assert(self.spec_rpc_endpoints() =~~= old(self).spec_rpc_endpoints().push(name@));
        }
    }

    /// Hand the resolver its environment snapshot.
    pub fn set_environment(&mut self, vars: Vec<(String, String)>)
        ensures
            final(self).spec_env_vars() == crate::env_store::vars_model(vars@),
            final(self).spec_secrets_store() == old(self).spec_secrets_store(),
            final(self).spec_check_environment() == old(self).spec_check_environment(),
            final(self).spec_check_dotenv() == old(self).spec_check_dotenv(),
            final(self).spec_dotenv() == old(self).spec_dotenv(),
            final(self).spec_rpc_endpoints() == old(self).spec_rpc_endpoints(),
    {
        self.env = EnvSecretStore::from_vars(vars);
    }

    /// Hand the resolver the content of the working directory's `.env` file,
    /// or `None` when there is none.
    pub fn set_dotenv_content(&mut self, content: Option<String>)
        ensures
            final(self).spec_dotenv() == content.deep_view(),
            final(self).spec_secrets_store() == old(self).spec_secrets_store(),
            final(self).spec_check_environment() == old(self).spec_check_environment(),
            final(self).spec_check_dotenv() == old(self).spec_check_dotenv(),
            final(self).spec_env_vars() == old(self).spec_env_vars(),
            final(self).spec_rpc_endpoints() == old(self).spec_rpc_endpoints(),
    {
        self.dotenv_content = content;
    }

    /// Probe the `.env` content for a key's variable.
    pub fn try_dotenv_file(&self, key: &str) -> (r: Option<String>)
        ensures
            match r {
                Some(v) => (match self.spec_dotenv() {
                    Some(content) => spec_dotenv_lookup(content, spec_api_key_var(key@)) == Some(v@),
                    None => false,
                }),
                None => (match self.spec_dotenv() {
                    Some(content) => spec_dotenv_lookup(content, spec_api_key_var(key@)) == None::<
                        Seq<char>,
                    >,
                    None => true,
                }),
            },
    {
        let content = match &self.dotenv_content {
            Some(c) => c,
            None => {
                return None;
            },
        };
        let var = api_key_var(key);
        dotenv_lookup(content.as_str(), var.as_str())
    }

    /// Probe the fallback backends, skipping the kinds the primary order
    /// already covers.
    fn resolve_fallback(&self, key: &str) -> (r: Option<ResolvedSecret>)
        ensures
            match r {
                Some(s) => self.spec_fallback_hit(key@) == Some(s.value@) && s.source@ == "memory"@
                    && s.source_detail@ == "memory"@,
                None => self.spec_fallback_hit(key@) == None::<Seq<char>>,
            },
    {
        let ghost srcs = self.spec_fallback_sources();
        proof {
            assert(srcs.skip(0) =~= srcs);
        }
        let mut i: usize = 0;
        while i < self.sources.len()
            invariant
                i <= self.sources@.len(),
                srcs == self.spec_fallback_sources(),
                spec_fallback(srcs, key@) == spec_fallback(srcs.skip(i as int), key@),
            decreases self.sources@.len() - i,
        {
            proof {
                assert(srcs.skip(i as int)[0] == srcs[i as int]);
                assert(srcs.skip(i as int).drop_first() =~= srcs.skip(i + 1));
            }
            match &self.sources[i] {
                SecretBackend::Memory(m) => {
                    if let Some(value) = m.get(key) {
                        return Some(ResolvedSecret {
                            value,
                            source: String::from_str("memory"),
                            source_detail: String::from_str("memory"),
                        });
                    }
                },
                SecretBackend::Env(_) => {},
                SecretBackend::Keychain(_) => {},
            }
            i = i + 1;
        }
        proof {
            assert(srcs.skip(srcs.len() as int) =~= Seq::<SecretBackend>::empty());
        }
        None
    }

    /// Resolve a key against the local sources, in priority order. When the
    /// preference names the host's secret storage, the verdict is `TryRpc`
    /// and the embedding program finishes with `resolve_with_rpc`.
    pub fn resolve_local(&self, key: &str) -> (r: LocalResolution)
        ensures
            self.spec_env_hit(key@) matches Some(v) ==> (r matches LocalResolution::Found(s)
                && s.value@ == v && s.source@ == "environment"@ && s.source_detail@
                == "Environment variable $"@ + upper_of(key@) + "_API_KEY"@),
            (self.spec_env_hit(key@) is None && self.spec_dotenv_hit(key@) is Some) ==> (r
                matches LocalResolution::Found(s) && s.value@ == self.spec_dotenv_hit(key@)->Some_0
                && s.source@ == "dotenv"@ && s.source_detail@ == ".env file ("@ + upper_of(key@)
                + "_API_KEY"@ + ")"@),
            (self.spec_env_hit(key@) is None && self.spec_dotenv_hit(key@) is None
                && self.spec_secrets_store() == SecretsStore::VsCode) ==> r is TryRpc,
            (self.spec_env_hit(key@) is None && self.spec_dotenv_hit(key@) is None
                && self.spec_secrets_store() == SecretsStore::Keychain) ==> {
                &&& !(r is TryRpc)
                &&& (r matches LocalResolution::Found(s) ==> (s.source@ == "keychain"@ || (s.source@
                    == "memory"@ && self.spec_fallback_hit(key@) == Some(s.value@))))
                &&& (r is NotFound ==> self.spec_fallback_hit(key@) is None)
            },
    {
        if self.check_environment {
            if let Some(value) = self.env.get(key) {
                let mut detail = String::from_str("Environment variable $");
                let up = upper(key);
                detail.append(up.as_str());
                detail.append("_API_KEY");
                return LocalResolution::Found(ResolvedSecret {
                    value,
                    source: String::from_str("environment"),
                    source_detail: detail,
                });
            }
        }
        if self.check_dotenv {
            if let Some(value) = self.try_dotenv_file(key) {
                let mut detail = String::from_str(".env file (");
                let up = upper(key);
                detail.append(up.as_str());
                detail.append("_API_KEY");
                detail.append(")");
                return LocalResolution::Found(ResolvedSecret {
                    value,
                    source: String::from_str("dotenv"),
                    source_detail: detail,
                });
            }
        }
        match self.secrets_store {
            SecretsStore::VsCode => LocalResolution::TryRpc,
            SecretsStore::Keychain => {
                let keychain = KeychainSecretStore::new();
                if keychain.is_available() {
                    if let Some(value) = keychain.get(key) {
                        return LocalResolution::Found(ResolvedSecret {
                            value,
                            source: String::from_str("keychain"),
                            source_detail: String::from_str("System Keychain"),
                        });
                    }
                }
                match self.resolve_fallback(key) {
                    Some(s) => LocalResolution::Found(s),
                    None => LocalResolution::NotFound,
                }
            },
        }
    }

    /// Finish a `TryRpc` resolution. `rpc_hit` is the first hit the program
    /// found while probing the endpoints in order: the endpoint's name and
    /// the value it returned. An unreachable endpoint is no error: with no
    /// hit, resolution falls through to the fallback backends and then to
    /// nothing.
    pub fn resolve_with_rpc(&self, key: &str, rpc_hit: Option<(String, String)>) -> (r: Option<
        ResolvedSecret,
    >)
        ensures
            rpc_hit matches Some(h) ==> (r matches Some(s) && s.value == h.1 && s.source@ == "rpc:"@
                + h.0@ && s.source_detail@ == h.0@ + " SecretStorage"@),
            rpc_hit is None ==> (match self.spec_fallback_hit(key@) {
                Some(v) => (r matches Some(s) && s.value@ == v && s.source@ == "memory"@
                    && s.source_detail@ == "memory"@),
                None => r is None,
            }),
    {
        match rpc_hit {
            Some((endpoint_name, value)) => {
                let mut source = String::from_str("rpc:");
                source.append(endpoint_name.as_str());
                let mut detail = endpoint_name;
                detail.append(" SecretStorage");
                Some(ResolvedSecret { value, source, source_detail: detail })
            },
            None => self.resolve_fallback(key),
        }
    }

    /// Where a key would resolve from, without revealing the value: the
    /// source and its description. `rpc_hit` is the probe outcome, as for
    /// `resolve_with_rpc`, and is only consulted when the preference asks
    /// for the host's secret storage.
    pub fn get_source_info(&self, key: &str, rpc_hit: Option<(String, String)>) -> (r: Option<
        (String, String),
    >)
        ensures
            self.spec_env_hit(key@) is Some ==> (r matches Some(p) && p.0@ == "environment"@),
    {
        let resolved = match self.resolve_local(key) {
            LocalResolution::Found(s) => Some(s),
            LocalResolution::NotFound => None,
            LocalResolution::TryRpc => self.resolve_with_rpc(key, rpc_hit),
        };
        match resolved {
            Some(s) => Some((s.source, s.source_detail)),
            None => None,
        }
    }

    /// The first candidate endpoint name that is registered.
    fn first_registered_endpoint(&self, registry: &RpcEndpointRegistry) -> (r: Option<String>)
        requires
            registry.inv(),
        ensures
            match r {
                Some(n) => spec_first_registered(self.spec_rpc_endpoints(), registry) == Some(n@),
                None => spec_first_registered(self.spec_rpc_endpoints(), registry) == None::<
                    Seq<char>,
                >,
            },
    {
        let ghost eps = self.spec_rpc_endpoints();
        proof {
            assert(eps.skip(0) =~~= eps);
        }
        let mut i: usize = 0;
        while i < self.rpc_endpoints.len()
            invariant
                registry.inv(),
                i <= self.rpc_endpoints@.len(),
                eps == self.spec_rpc_endpoints(),
                spec_first_registered(eps, registry) == spec_first_registered(
                    eps.skip(i as int),
                    registry,
                ),
            decreases self.rpc_endpoints@.len() - i,
        {
            proof {
                assert(eps.skip(i as int)[0] == eps[i as int]);
                assert(eps[i as int] == self.rpc_endpoints@[i as int]@);
                assert(eps.skip(i as int).drop_first() =~~= eps.skip(i + 1));
            }
            if registry.get(self.rpc_endpoints[i].as_str()).is_some() {
                return Some(self.rpc_endpoints[i].clone());
            }
            i = i + 1;
        }
        proof {
            assert(eps.skip(eps.len() as int) =~~= Seq::<Seq<char>>::empty());
        }
        None
    }

    /// Where a write will land, given the preference: the first registered
    /// endpoint for the host's secret storage, or the keychain when it is
    /// usable.
    pub fn get_write_destination(&self, registry: &RpcEndpointRegistry) -> (r: SecretWriteDestination)
        requires
            registry.inv(),
        ensures
            self.spec_secrets_store() == SecretsStore::VsCode ==> match spec_first_registered(
                self.spec_rpc_endpoints(),
                registry,
            ) {
                Some(n) => (r matches SecretWriteDestination::Rpc(m) && m@ == n
                    && registry.spec_get(n) is Some),
                None => r is NoStore,
            },
            self.spec_secrets_store() == SecretsStore::Keychain ==> (r is Keychain || r is NoStore),
    {
        proof {
            lemma_first_registered_registered(self.spec_rpc_endpoints(), registry);
        }
        match self.secrets_store {
            SecretsStore::VsCode => match self.first_registered_endpoint(registry) {
                Some(name) => SecretWriteDestination::Rpc(name),
                None => SecretWriteDestination::NoStore,
            },
            SecretsStore::Keychain => {
                let keychain = KeychainSecretStore::new();
                if keychain.is_available() {
                    SecretWriteDestination::Keychain
                } else {
                    SecretWriteDestination::NoStore
                }
            },
        }
    }

    fn store_to_keychain(&self, key: &str, value: &str) -> (r: Result<String, String>)
        ensures
            r matches Ok(s) ==> s@ == "System Keychain"@,
    {
        let keychain = KeychainSecretStore::new();
        if keychain.is_available() {
            match keychain.store(key, value) {
                Ok(()) => Ok(String::from_str("System Keychain")),
                Err(e) => Err(e.message()),
            }
        } else {
            Err(String::from_str("System keychain not available"))
        }
    }

    /// Route a write. `preferred_store` is `auto`, `vscode`, `keychain` or
    /// `rpc:<name>`; anything else fails. A keychain write finishes here; an
    /// RPC write comes back as an action for the embedding program.
    pub fn store(&self, registry: &RpcEndpointRegistry, key: &str, value: &str, preferred_store: &str) -> (r:
        RoutedAction)
        requires
            registry.inv(),
        ensures
            r matches RoutedAction::Rpc(n) ==> registry.spec_get(n@) is Some,
            spec_rpc_dest(preferred_store@) matches Some(n) ==> {
                &&& ((r matches RoutedAction::Rpc(m) && m@ == n) <==> registry.spec_get(n) is Some)
                &&& (registry.spec_get(n) is None ==> (r matches RoutedAction::Done(res) && res
                    is Err))
            },
            (preferred_store@ == "auto"@ && self.spec_secrets_store() == SecretsStore::VsCode)
                ==> (match spec_first_registered(self.spec_rpc_endpoints(), registry) {
                Some(n) => (r matches RoutedAction::Rpc(m) && m@ == n),
                None => (r matches RoutedAction::Done(res) && res is Err),
            }),
            ((preferred_store@ == "auto"@ && self.spec_secrets_store() == SecretsStore::Keychain)
                || preferred_store@ == "keychain"@) ==> (r matches RoutedAction::Done(res) && (res
                matches Ok(d) ==> d@ == "System Keychain"@)),
            spec_unknown_dest(preferred_store@) ==> (r matches RoutedAction::Done(res) && res
                matches Err(m) && m@ == "Unknown store: "@ + preferred_store@),
    {
        proof {
            reveal_strlit("auto");
            reveal_strlit("vscode");
            reveal_strlit("keychain");
            reveal_strlit("rpc:");
            assert("auto"@.len() == 4 && "vscode"@.len() == 6 && "keychain"@.len() == 8
                && "rpc:"@.len() == 4);
            assert(spec_rpc_dest("auto"@) is None) by {
                assert("auto"@.subrange(0, 4) =~= "auto"@);
                assert("auto"@[0] == 'a' && "rpc:"@[0] == 'r');
            }
            assert(spec_rpc_dest("keychain"@) is None) by {
                assert("keychain"@.subrange(0, 4)[0] == "keychain"@[0]);
                assert("keychain"@[0] == 'k' && "rpc:"@[0] == 'r');
            }
        }
        if str_eq_lit(preferred_store, "auto") {
            match self.get_write_destination(registry) {
                SecretWriteDestination::Rpc(name) => self.route_rpc_write(registry, name.as_str()),
                SecretWriteDestination::Keychain => RoutedAction::Done(
                    self.store_to_keychain(key, value),
                ),
                SecretWriteDestination::NoStore => RoutedAction::Done(
                    Err(
                        String::from_str(
                            "No secret store available (no RPC endpoint and keychain unavailable)",
                        ),
                    ),
                ),
            }
        } else if str_eq_lit(preferred_store, "vscode") {
            self.route_rpc_write(registry, "vscode")
        } else if str_eq_lit(preferred_store, "keychain") {
            RoutedAction::Done(self.store_to_keychain(key, value))
        } else if let Some(endpoint_name) = strip_rpc_prefix(preferred_store) {
            self.route_rpc_write(registry, endpoint_name.as_str())
        } else {
            let mut msg = String::from_str("Unknown store: ");
            msg.append(preferred_store);
            RoutedAction::Done(Err(msg))
        }
    }

    fn route_rpc_write(&self, registry: &RpcEndpointRegistry, endpoint_name: &str) -> (r:
        RoutedAction)
        requires
            registry.inv(),
        ensures
            r matches RoutedAction::Rpc(n) ==> registry.spec_get(n@) is Some,
            (registry.spec_get(endpoint_name@) is Some) == (r matches RoutedAction::Rpc(n) && n@
                == endpoint_name@),
            registry.spec_get(endpoint_name@) is None ==> (r matches RoutedAction::Done(res) && res
                matches Err(_)),
    {
        if registry.get(endpoint_name).is_some() {
            RoutedAction::Rpc(String::from_str(endpoint_name))
        } else {
            let mut msg = String::from_str("RPC endpoint '");
            msg.append(endpoint_name);
            msg.append("' not registered");
            RoutedAction::Done(Err(msg))
        }
    }

    fn delete_from_keychain(&self, key: &str) -> (r: Result<String, String>)
        ensures
            r matches Ok(s) ==> s@ == "System Keychain"@,
    {
        let keychain = KeychainSecretStore::new();
        match keychain.delete(key) {
            Ok(()) => Ok(String::from_str("System Keychain")),
            Err(e) => Err(e.message()),
        }
    }

    /// Route a delete, with the same destinations as `store`.
    pub fn delete(&self, registry: &RpcEndpointRegistry, key: &str, preferred_store: &str) -> (r:
        RoutedAction)
        requires
            registry.inv(),
        ensures
            r matches RoutedAction::Rpc(n) ==> registry.spec_get(n@) is Some,
            spec_rpc_dest(preferred_store@) matches Some(n) ==> {
                &&& ((r matches RoutedAction::Rpc(m) && m@ == n) <==> registry.spec_get(n) is Some)
                &&& (registry.spec_get(n) is None ==> (r matches RoutedAction::Done(res) && res
                    is Err))
            },
            (preferred_store@ == "auto"@ && self.spec_secrets_store() == SecretsStore::VsCode)
                ==> (match spec_first_registered(self.spec_rpc_endpoints(), registry) {
                Some(n) => (r matches RoutedAction::Rpc(m) && m@ == n),
                None => (r matches RoutedAction::Done(res) && res is Err),
            }),
            ((preferred_store@ == "auto"@ && self.spec_secrets_store() == SecretsStore::Keychain)
                || preferred_store@ == "keychain"@) ==> (r matches RoutedAction::Done(res) && (res
                matches Ok(d) ==> d@ == "System Keychain"@)),
            spec_unknown_dest(preferred_store@) ==> (r matches RoutedAction::Done(res) && res
                matches Err(m) && m@ == "Unknown store: "@ + preferred_store@),
    {
        proof {
            reveal_strlit("auto");
            reveal_strlit("vscode");
            reveal_strlit("keychain");
            reveal_strlit("rpc:");
            assert("auto"@.len() == 4 && "vscode"@.len() == 6 && "keychain"@.len() == 8
                && "rpc:"@.len() == 4);
            assert(spec_rpc_dest("auto"@) is None) by {
                assert("auto"@.subrange(0, 4) =~= "auto"@);
                assert("auto"@[0] == 'a' && "rpc:"@[0] == 'r');
            }
            assert(spec_rpc_dest("keychain"@) is None) by {
                assert("keychain"@.subrange(0, 4)[0] == "keychain"@[0]);
                assert("keychain"@[0] == 'k' && "rpc:"@[0] == 'r');
            }
        }
        if str_eq_lit(preferred_store, "auto") {
            match self.get_write_destination(registry) {
                SecretWriteDestination::Rpc(name) => self.route_rpc_write(registry, name.as_str()),
                SecretWriteDestination::Keychain => RoutedAction::Done(self.delete_from_keychain(key)),
                SecretWriteDestination::NoStore => RoutedAction::Done(
                    Err(String::from_str("No secret store available")),
                ),
            }
        } else if str_eq_lit(preferred_store, "vscode") {
            self.route_rpc_write(registry, "vscode")
        } else if str_eq_lit(preferred_store, "keychain") {
            RoutedAction::Done(self.delete_from_keychain(key))
        } else if let Some(endpoint_name) = strip_rpc_prefix(preferred_store) {
            self.route_rpc_write(registry, endpoint_name.as_str())
        } else {
            let mut msg = String::from_str("Unknown store: ");
            msg.append(preferred_store);
            RoutedAction::Done(Err(msg))
        }
    }

    /// The destination description of a completed RPC write.
    pub fn rpc_store_detail(endpoint_name: &str) -> (r: String)
        ensures
            r@ == endpoint_name@ + " SecretStorage"@,
    {
        let mut s = String::from_str(endpoint_name);
        s.append(" SecretStorage");
        s
    }

    /// Where a write would land, as an identifier and a human-readable
    /// description, without performing it.
    pub fn get_write_destination_info(&self, registry: &RpcEndpointRegistry) -> (r: (String, String))
        requires
            registry.inv(),
        ensures
            self.spec_secrets_store() == SecretsStore::VsCode ==> match spec_first_registered(
                self.spec_rpc_endpoints(),
                registry,
            ) {
                Some(n) => r.0@ == "rpc:"@ + n && r.1@ == n + " SecretStorage"@,
                None => r.0@ == "none"@ && r.1@ == "No store available"@,
            },
            self.spec_secrets_store() == SecretsStore::Keychain ==> (r.0@ == "keychain"@ && r.1@
                == "System Keychain"@) || (r.0@ == "none"@ && r.1@ == "No store available"@),
    {
        match self.get_write_destination(registry) {
            SecretWriteDestination::Rpc(name) => {
                let mut id = String::from_str("rpc:");
                id.append(name.as_str());
                let mut detail = name;
                detail.append(" SecretStorage");
                (id, detail)
            },
            SecretWriteDestination::Keychain => (
                String::from_str("keychain"),
                String::from_str("System Keychain"),
            ),
            SecretWriteDestination::NoStore => (
                String::from_str("none"),
                String::from_str("No store available"),
            ),
        }
    }

    /// The sources a resolution would consult and whether each can be read.
    /// RPC reachability is handed in by the embedding program, as pairs of
    /// endpoint name and ping outcome.
    pub fn list_sources(&self, rpc_reachable: &Vec<(String, bool)>) -> (r: Vec<(String, bool)>)
        ensures
            self.spec_check_environment() ==> (r@.len() >= 1 && r@[0].0@ == "environment"@
                && r@[0].1),
            self.spec_secrets_store() == SecretsStore::Keychain ==> r@.len() >= 1
                && r@[r@.len() - 1].0@ == "keychain"@,
    {
        let mut out: Vec<(String, bool)> = Vec::new();
        if self.check_environment {
            out.push((String::from_str("environment"), true));
            proof {
                assert(out@.len() >= 1 && out@[0].0@ == "environment"@ && out@[0].1);
            }
        }
        if self.check_dotenv {
            out.push((String::from_str("dotenv"), true));
            proof {
                assert(self.spec_check_environment() ==> (out@.len() >= 1 && out@[0].0@
                    == "environment"@ && out@[0].1));
            }
        }
        match self.secrets_store {
            SecretsStore::VsCode => {
                let ghost head = out@;
                let mut i: usize = 0;
                while i < self.rpc_endpoints.len()
                    invariant
                        i <= self.rpc_endpoints@.len(),
                        out@.len() >= head.len(),
                        forall|k: int| 0 <= k < head.len() ==> out@[k] == head[k],
                    decreases self.rpc_endpoints@.len() - i,
                {
                    let name = &self.rpc_endpoints[i];
                    let mut id = String::from_str("rpc:");
                    id.append(name.as_str());
                    let mut reachable = false;
                    let mut k: usize = 0;
                    while k < rpc_reachable.len()
                        invariant
                            k <= rpc_reachable@.len(),
                        decreases rpc_reachable@.len() - k,
                    {
                        if rpc_reachable[k].0 == *name {
                            reachable = rpc_reachable[k].1;
                        }
                        k = k + 1;
                    }
                    out.push((id, reachable));
                    i = i + 1;
                }
            },
            SecretsStore::Keychain => {
                let keychain = KeychainSecretStore::new();
                out.push((String::from_str("keychain"), keychain.is_available()));
                proof {
                    assert(out@[out@.len() - 1].0@ == "keychain"@);
                }
            },
        }
        out
    }

    /// The per-key verdict of one batched probe: the environment first, then
    /// the `.env` content, then the preferred store alone — for the host's
    /// secret storage, a handed-in has-the-key flag; for the keychain, the
    /// platform store.
    pub open spec fn spec_batched_entry(
        &self,
        key: Seq<char>,
        rpc_name: Option<Seq<char>>,
        rpc_has: bool,
    ) -> Option<(Seq<char>, Seq<char>, Seq<char>)> {
        let var = spec_api_key_var(key);
        if self.spec_env_hit(key) is Some {
            Some(("environment"@, "Environment variable: "@ + var, var))
        } else if self.spec_dotenv_hit(key) is Some {
            Some(("dotenv"@, ".env file ("@ + var + ")"@, var))
        } else if self.spec_secrets_store() == SecretsStore::VsCode {
            match rpc_name {
                Some(n) => if rpc_has {
                    Some(("secretStorage"@, n + " SecretStorage"@, Seq::empty()))
                } else {
                    None
                },
                None => None,
            }
        } else {
            None
        }
    }

    /// Batched source probing for many keys, reusing one availability check
    /// across all of them. `rpc` carries, when the host's secret storage is
    /// preferred and an endpoint was reachable, the endpoint's name and one
    /// has-the-key flag per key, in the keys' order. With the keychain
    /// preferred, each key is probed against the platform store, whose
    /// outcome cannot be pinned down; everything else is exact.
    pub fn get_all_source_info(&self, keys: &Vec<String>, rpc: Option<(String, Vec<bool>)>) -> (r:
        Vec<(String, Option<(String, String, String)>)>)
        requires
            rpc matches Some(p) ==> p.1@.len() == keys@.len(),
        ensures
            r@.len() == keys@.len(),
            forall|i: int|
                0 <= i < keys@.len() ==> (#[trigger] r@[i]).0@ == keys@[i]@,
            self.spec_secrets_store() == SecretsStore::VsCode || rpc is None ==> forall|i: int|
                0 <= i < keys@.len() ==> (match self.spec_batched_entry(
                    keys@[i]@,
                    (match rpc {
                        Some(p) => Some(p.0@),
                        None => None,
                    }),
                    (match rpc {
                        Some(p) => p.1@[i],
                        None => false,
                    }),
                ) {
                    Some(m) => ((#[trigger] r@[i]).1 matches Some(info) && info.0@ == m.0 && info.1@
                        == m.1 && info.2@ == m.2),
                    None => (self.spec_secrets_store() == SecretsStore::VsCode
                        ==> (#[trigger] r@[i]).1 is None) && (r@[i].1 matches Some(info) ==> (
                    info.0@ == "keychain"@ && info.1@ == "System Keychain"@ && info.2@.len() == 0)),
                }),
    {
        let keychain = KeychainSecretStore::new();
        let keychain_available = match self.secrets_store {
            SecretsStore::Keychain => keychain.is_available(),
            SecretsStore::VsCode => false,
        };
        let mut out: Vec<(String, Option<(String, String, String)>)> = Vec::new();
        let ghost rpc_name: Option<Seq<char>> = match &rpc {
            Some(p) => Some(p.0@),
            None => None,
        };
        let mut i: usize = 0;
        while i < keys.len()
            invariant
                i <= keys@.len(),
                out@.len() == i,
                rpc matches Some(p) ==> p.1@.len() == keys@.len(),
                rpc_name == (match rpc {
                    Some(p) => Some(p.0@),
                    None => None::<Seq<char>>,
                }),
                forall|k: int| 0 <= k < i ==> (#[trigger] out@[k]).0@ == keys@[k]@,
                self.spec_secrets_store() == SecretsStore::VsCode || rpc is None ==> forall|k: int|
                    0 <= k < i ==> (match self.spec_batched_entry(
                        keys@[k]@,
                        rpc_name,
                        (match rpc {
                            Some(p) => p.1@[k],
                            None => false,
                        }),
                    ) {
                        Some(m) => ((#[trigger] out@[k]).1 matches Some(info) && info.0@ == m.0
                            && info.1@ == m.1 && info.2@ == m.2),
                        None => (self.spec_secrets_store() == SecretsStore::VsCode ==> (
                        #[trigger] out@[k]).1 is None) && (out@[k].1 matches Some(info) ==> (info.0@
                            == "keychain"@ && info.1@ == "System Keychain"@ && info.2@.len() == 0)),
                    }),
            decreases keys@.len() - i,
        {
            let key = &keys[i];
            let env_key = api_key_var(key.as_str());
            let entry: Option<(String, String, String)> = if self.check_environment
                && self.env.get(key.as_str()).is_some() {
                let mut detail = String::from_str("Environment variable: ");
                detail.append(env_key.as_str());
                Some((String::from_str("environment"), detail, env_key))
            } else if self.check_dotenv && self.try_dotenv_file(key.as_str()).is_some() {
                let mut detail = String::from_str(".env file (");
                detail.append(env_key.as_str());
                detail.append(")");
                Some((String::from_str("dotenv"), detail, env_key))
            } else {
                match self.secrets_store {
                    SecretsStore::VsCode => match &rpc {
                        Some((endpoint_name, has)) => {
                            if has[i] {
                                let mut detail = String::from_str(endpoint_name.as_str());
                                detail.append(" SecretStorage");
                                Some((String::from_str("secretStorage"), detail, String::new()))
                            } else {
                                None
                            }
                        },
                        None => None,
                    },
                    SecretsStore::Keychain => {
                        if keychain_available && keychain.get(key.as_str()).is_some() {
                            Some((
                                String::from_str("keychain"),
                                String::from_str("System Keychain"),
                                String::new(),
                            ))
                        } else {
                            None
                        }
                    },
                }
            };
            out.push((key.clone(), entry));
            i = i + 1;
        }
        out
    }
}

/// Whether `s` equals a known routing word.
fn str_eq_lit(s: &str, lit: &str) -> (r: bool)
    ensures
        r == (s@ == lit@),
{
    let a = String::from_str(s);
    let b = String::from_str(lit);
    a == b
}

/// The endpoint name of an `rpc:<name>` destination, or `None`.
fn strip_rpc_prefix(s: &str) -> (r: Option<String>)
    ensures
        match r {
            Some(n) => s@.len() >= 4 && s@.subrange(0, 4) == "rpc:"@ && n@ == s@.skip(4),
            None => !(s@.len() >= 4 && s@.subrange(0, 4) == "rpc:"@),
        },
{
    proof {
        reveal_strlit("rpc:");
    }
    let n = s.unicode_len();
    if n < 4 {
        return None;
    }
    let m = s.get_char(0) == 'r' && s.get_char(1) == 'p' && s.get_char(2) == 'c' && s.get_char(3)
        == ':';
    proof {
        let lit = "rpc:"@;
        assert(lit[0] == 'r' && lit[1] == 'p' && lit[2] == 'c' && lit[3] == ':');
        if m {
            assert(s@.subrange(0, 4) =~= lit);
        } else {
            if s@.subrange(0, 4) == lit {
                assert(s@[0] == s@.subrange(0, 4)[0]);
                assert(s@[1] == s@.subrange(0, 4)[1]);
                assert(s@[2] == s@.subrange(0, 4)[2]);
                assert(s@[3] == s@.subrange(0, 4)[3]);
                assert(false);
            }
        }
    }
    if !m {
        return None;
    }
    let rest = s.substring_char(4, n);
    proof {
        assert(rest@ =~= s@.skip(4));
    }
    Some(String::from_str(rest))
}

} // verus!

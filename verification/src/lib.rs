//! Multi-source resolution of secrets and provider configuration for an
//! LLM-tooling host: an LSP-style JSON-RPC wire protocol, an endpoint
//! registry, pluggable secret stores with a priority-ordered resolver, and a
//! scope-aware configuration resolver over a shared in-memory cache.

pub mod casing;
pub mod chain_store;
pub mod client;
pub mod config_doc;
pub mod config_resolver;
pub mod config_types;
pub mod dotenv;
pub mod endpoint;
pub mod env_store;
pub mod envelope;
pub mod jsonio;
pub mod keychain_store;
pub mod logging;
pub mod memory_store;
pub mod providers;
pub mod rpc_config_provider;
pub mod rpc_secret_store;
pub mod secret_resolver;
pub mod secret_types;
pub mod store_registry;
pub mod tools;
pub mod wire;

use vstd::prelude::*;

verus! {

/// Decimal digit sequence of `n`, most significant first.
pub open spec fn spec_udec(n: nat) -> Seq<u8>
    decreases n,
{
    if n < 10 {
        seq![(48 + n) as u8]
    } else {
        spec_udec(n / 10) + seq![(48 + n % 10) as u8]
    }
}

} // verus!

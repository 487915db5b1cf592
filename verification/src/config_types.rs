//! Provider configuration and model description types.

use vstd::prelude::*;

verus! {

use vstd::string::StringExecFns;

/// Where a provider configuration came from.
#[derive(Clone, Copy, PartialEq, Eq, Structural, Debug)]
pub enum ConfigSource {
    /// The host editor's user settings.
    VSCodeUser,
    /// The host editor's workspace settings.
    VSCodeWorkspace,
    /// The user-level native configuration file.
    NativeUser,
    /// The workspace-level native configuration file.
    NativeWorkspace,
    /// Set at run time.
    Runtime,
    /// Unknown source.
    Unknown,
}

impl ConfigSource {
    /// A human-readable description, in place of a `Display` impl.
    pub fn display_string(&self) -> (r: String)
        ensures
            match self {
                ConfigSource::VSCodeUser => r@ == "VS Code User Settings"@,
                ConfigSource::VSCodeWorkspace => r@ == "VS Code Workspace Settings"@,
                ConfigSource::NativeUser => r@ == "~/.config/openllm/config.yaml"@,
                ConfigSource::NativeWorkspace => r@ == ".openllm/config.yaml"@,
                ConfigSource::Runtime => r@ == "Runtime"@,
                ConfigSource::Unknown => r@ == "Unknown"@,
            },
    {
        match self {
            ConfigSource::VSCodeUser => String::from_str("VS Code User Settings"),
            ConfigSource::VSCodeWorkspace => String::from_str("VS Code Workspace Settings"),
            ConfigSource::NativeUser => String::from_str("~/.config/openllm/config.yaml"),
            ConfigSource::NativeWorkspace => String::from_str(".openllm/config.yaml"),
            ConfigSource::Runtime => String::from_str("Runtime"),
            ConfigSource::Unknown => String::from_str("Unknown"),
        }
    }
}

/// The default value of a provider's `enabled` flag.
pub fn default_enabled() -> (r: bool)
    ensures
        r,
{
    true
}

/// One provider's persisted configuration.
pub struct ProviderConfig {
    /// Provider name; unique within a scope, case-insensitively.
    pub name: String,
    /// Whether the provider is enabled.
    pub enabled: bool,
    /// Custom API base URL; the provider default applies when absent.
    pub api_base: Option<String>,
    /// The model names to expose.
    pub models: Vec<String>,
    /// Where this configuration came from; not persisted.
    pub source: ConfigSource,
}

/// A provider configuration as plain values.
pub struct ProviderConfigModel {
    pub name: Seq<char>,
    pub enabled: bool,
    pub api_base: Option<Seq<char>>,
    pub models: Seq<Seq<char>>,
    pub source: ConfigSource,
}

pub open spec fn provider_config_model(p: ProviderConfig) -> ProviderConfigModel {
    ProviderConfigModel {
        name: p.name@,
        enabled: p.enabled,
        api_base: p.api_base.deep_view(),
        models: p.models.deep_view(),
        source: p.source,
    }
}

impl ProviderConfig {
    /// A new provider: enabled, with no models and no custom base.
    pub fn new(name: &str) -> (r: Self)
        ensures
            r.name@ == name@,
            r.enabled,
            r.api_base is None,
            r.models@.len() == 0,
            r.source == ConfigSource::Unknown,
    {
        ProviderConfig {
            name: String::from_str(name),
            enabled: true,
            api_base: None,
            models: Vec::new(),
            source: ConfigSource::Unknown,
        }
    }

    /// The same configuration with these models.
    pub fn with_models(self, models: Vec<String>) -> (r: Self)
        ensures
            r.name == self.name,
            r.enabled == self.enabled,
            r.api_base == self.api_base,
            r.models == models,
            r.source == self.source,
    {
        ProviderConfig { models, ..self }
    }

    /// The same configuration with this API base URL.
    pub fn with_api_base(self, base: &str) -> (r: Self)
        ensures
            r.name == self.name,
            r.enabled == self.enabled,
            r.api_base matches Some(b) && b@ == base@,
            r.models == self.models,
            r.source == self.source,
    {
        ProviderConfig { api_base: Some(String::from_str(base)), ..self }
    }

    /// The same configuration, disabled.
    pub fn disabled(self) -> (r: Self)
        ensures
            r.name == self.name,
            !r.enabled,
            r.api_base == self.api_base,
            r.models == self.models,
            r.source == self.source,
    {
        ProviderConfig { enabled: false, ..self }
    }

    /// The same configuration with this source.
    pub fn with_source(self, source: ConfigSource) -> (r: Self)
        ensures
            r.name == self.name,
            r.enabled == self.enabled,
            r.api_base == self.api_base,
            r.models == self.models,
            r.source == source,
    {
        ProviderConfig { source, ..self }
    }
}

pub fn clone_string_vec(v: &Vec<String>) -> (r: Vec<String>)
    ensures
        r.deep_view() == v.deep_view(),
        r@.len() == v@.len(),
{
    let mut out: Vec<String> = Vec::new();
    let mut i: usize = 0;
    while i < v.len()
        invariant
            i <= v@.len(),
            out@.len() == i,
            forall|k: int| 0 <= k < i ==> out@[k]@ == (#[trigger] v@[k])@,
        decreases v@.len() - i,
    {
        out.push(v[i].clone());
        i = i + 1;
    }
    proof {
        assert(out.deep_view() =~~= v.deep_view());
    }
    out
}

impl Clone for ProviderConfig {
    fn clone(&self) -> (r: Self)
        ensures
            provider_config_model(r) == provider_config_model(*self),
    {
        let api_base = match &self.api_base {
            Some(b) => Some(b.clone()),
            None => None,
        };
        let r = ProviderConfig {
            name: self.name.clone(),
            enabled: self.enabled,
            api_base,
            models: clone_string_vec(&self.models),
            source: self.source,
        };
        proof {
            assert(provider_config_model(r) == provider_config_model(*self));
        }
        r
    }
}

/// Default provider and model for the configuration document.
pub struct DefaultSettings {
    pub provider: Option<String>,
    pub model: Option<String>,
}

/// What one model can do.
#[derive(Clone, Copy, PartialEq, Eq, Structural)]
pub struct ModelCapabilities {
    pub image_input: bool,
    pub tool_calling: bool,
    pub streaming: bool,
}

impl ModelCapabilities {
    /// Capabilities with every feature on.
    pub fn full() -> (r: Self)
        ensures
            r.image_input && r.tool_calling && r.streaming,
    {
        ModelCapabilities { image_input: true, tool_calling: true, streaming: true }
    }

    /// Capabilities with only streaming on.
    pub fn streaming_only() -> (r: Self)
        ensures
            !r.image_input && !r.tool_calling && r.streaming,
    {
        ModelCapabilities { image_input: false, tool_calling: false, streaming: true }
    }
}

impl Default for ModelCapabilities {
    fn default() -> (r: Self)
        ensures
            !r.image_input && !r.tool_calling && !r.streaming,
    {
        ModelCapabilities { image_input: false, tool_calling: false, streaming: false }
    }
}

/// Configuration of one concrete model.
pub struct ModelConfig {
    /// Unique identifier of this configuration.
    pub id: String,
    /// Display name.
    pub name: String,
    /// Provider name.
    pub provider: String,
    /// Model identifier as the provider's API knows it.
    pub model: String,
    /// API key; resolved from a secret store when absent.
    pub api_key: Option<String>,
    /// Custom API base URL.
    pub api_base: Option<String>,
    /// Roles this model can fill.
    pub roles: Vec<String>,
    /// Maximum context length in tokens.
    pub context_length: Option<u32>,
    /// What the model can do.
    pub capabilities: Option<ModelCapabilities>,
}

impl ModelConfig {
    /// A new model configuration; the display name starts as the model name.
    pub fn new(id: &str, provider: &str, model: &str) -> (r: Self)
        ensures
            r.id@ == id@,
            r.name@ == model@,
            r.provider@ == provider@,
            r.model@ == model@,
            r.api_key is None,
            r.api_base is None,
            r.roles@.len() == 0,
            r.context_length is None,
            r.capabilities is None,
    {
        ModelConfig {
            id: String::from_str(id),
            name: String::from_str(model),
            provider: String::from_str(provider),
            model: String::from_str(model),
            api_key: None,
            api_base: None,
            roles: Vec::new(),
            context_length: None,
            capabilities: None,
        }
    }

    /// The same configuration with this API key.
    pub fn with_api_key(self, key: &str) -> (r: Self)
        ensures
            r.api_key matches Some(k) && k@ == key@,
            r.id == self.id,
            r.model == self.model,
            r.provider == self.provider,
            r.api_base == self.api_base,
            r.context_length == self.context_length,
            r.capabilities == self.capabilities,
    {
        ModelConfig { api_key: Some(String::from_str(key)), ..self }
    }

    /// The same configuration with this API base URL.
    pub fn with_api_base(self, base: &str) -> (r: Self)
        ensures
            r.api_base matches Some(b) && b@ == base@,
            r.id == self.id,
            r.model == self.model,
            r.provider == self.provider,
            r.api_key == self.api_key,
            r.context_length == self.context_length,
            r.capabilities == self.capabilities,
    {
        ModelConfig { api_base: Some(String::from_str(base)), ..self }
    }

    /// The same configuration with this context length.
    pub fn with_context_length(self, length: u32) -> (r: Self)
        ensures
            r.context_length == Some(length),
            r.id == self.id,
            r.model == self.model,
            r.provider == self.provider,
            r.api_key == self.api_key,
            r.api_base == self.api_base,
            r.capabilities == self.capabilities,
    {
        ModelConfig { context_length: Some(length), ..self }
    }

    /// The same configuration with these capabilities.
    pub fn with_capabilities(self, capabilities: ModelCapabilities) -> (r: Self)
        ensures
            r.capabilities == Some(capabilities),
            r.id == self.id,
            r.model == self.model,
            r.provider == self.provider,
            r.api_key == self.api_key,
            r.api_base == self.api_base,
            r.context_length == self.context_length,
    {
        ModelConfig { capabilities: Some(capabilities), ..self }
    }
}

/// Static information about a provider.
pub struct ProviderMetadata {
    pub id: String,
    pub display_name: String,
    pub default_api_base: String,
    pub requires_api_key: bool,
    pub default_models: Vec<DefaultModel>,
}

/// One of a provider's stock models.
pub struct DefaultModel {
    pub id: String,
    pub name: String,
    pub context_length: u32,
    pub capabilities: ModelCapabilities,
}

/// Errors of configuration operations.
#[derive(Debug)]
pub enum ConfigError {
    /// No provider exists under the name.
    ProviderNotFound(String),
    /// A provider already exists under the name, case-insensitively.
    ProviderExists(String),
    /// Reading or writing the underlying medium failed.
    Io(String),
    /// The document could not be encoded or decoded.
    Serialization(String),
    /// Any other failure, described in the message.
    Other(String),
}

pub type ConfigResult<T> = Result<T, ConfigError>;

impl ConfigError {
    /// A human-readable description, in place of a `Display` impl.
    pub fn message(&self) -> (r: String)
        ensures
            match self {
                ConfigError::ProviderNotFound(m) => r@ == "Provider not found: "@ + m@,
                ConfigError::ProviderExists(m) => r@ == "Provider already exists: "@ + m@,
                ConfigError::Io(m) => r@ == "IO error: "@ + m@,
                ConfigError::Serialization(m) => r@ == "Serialization error: "@ + m@,
                ConfigError::Other(m) => r@ == "Configuration error: "@ + m@,
            },
    {
        match self {
            ConfigError::ProviderNotFound(m) => {
                let mut s = String::from_str("Provider not found: ");
                s.append(m.as_str());
                s
            },
            ConfigError::ProviderExists(m) => {
                let mut s = String::from_str("Provider already exists: ");
                s.append(m.as_str());
                s
            },
            ConfigError::Io(m) => {
                let mut s = String::from_str("IO error: ");
                s.append(m.as_str());
                s
            },
            ConfigError::Serialization(m) => {
                let mut s = String::from_str("Serialization error: ");
                s.append(m.as_str());
                s
            },
            ConfigError::Other(m) => {
                let mut s = String::from_str("Configuration error: ");
                s.append(m.as_str());
                s
            },
        }
    }
}

} // verus!

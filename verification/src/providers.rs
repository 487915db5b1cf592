//! Provider identification and per-provider constants.
//!
//! The streaming work itself is an external collaborator's; what lives here
//! is the logic around it: which providers are supported, how a provider id
//! maps to its secret key and default API base, and how a `provider/model`
//! string splits.

use vstd::prelude::*;

verus! {

use crate::casing::{lower, lower_of};
use crate::config_types::{DefaultModel, ModelCapabilities, ProviderMetadata};
use crate::dotenv::spec_find_ch;
use vstd::string::{StrSliceExecFns, StringExecFns};

/// The secret store key a provider's API key lives under.
pub open spec fn spec_provider_secret_key(provider_lower: Seq<char>) -> Seq<char> {
    if provider_lower == "openai"@ {
        "openai_api_key"@
    } else if provider_lower == "anthropic"@ {
        "anthropic_api_key"@
    } else if provider_lower == "gemini"@ || provider_lower == "google"@ {
        "google_api_key"@
    } else if provider_lower == "ollama"@ {
        "ollama_api_key"@
    } else if provider_lower == "groq"@ {
        "groq_api_key"@
    } else if provider_lower == "xai"@ {
        "xai_api_key"@
    } else if provider_lower == "deepseek"@ {
        "deepseek_api_key"@
    } else if provider_lower == "cohere"@ {
        "cohere_api_key"@
    } else if provider_lower == "fireworks"@ {
        "fireworks_api_key"@
    } else if provider_lower == "together"@ {
        "together_api_key"@
    } else if provider_lower == "azure"@ {
        "azure_openai_api_key"@
    } else if provider_lower == "openrouter"@ {
        "openrouter_api_key"@
    } else if provider_lower == "mistral"@ {
        "mistral_api_key"@
    } else if provider_lower == "redhat"@ || provider_lower == "rhel"@ || provider_lower
        == "rhai"@ {
        "redhat_api_key"@
    } else {
        provider_lower + "_api_key"@
    }
}

/// Map a provider id to its secret store key.
pub fn provider_to_secret_key(provider: &str) -> (r: String)
    ensures
        r@ == spec_provider_secret_key(lower_of(provider@)),
{
    let low = lower(provider);
    if low == String::from_str("openai") {
        String::from_str("openai_api_key")
    } else if low == String::from_str("anthropic") {
        String::from_str("anthropic_api_key")
    } else if low == String::from_str("gemini") || low == String::from_str("google") {
        String::from_str("google_api_key")
    } else if low == String::from_str("ollama") {
        String::from_str("ollama_api_key")
    } else if low == String::from_str("groq") {
        String::from_str("groq_api_key")
    } else if low == String::from_str("xai") {
        String::from_str("xai_api_key")
    } else if low == String::from_str("deepseek") {
        String::from_str("deepseek_api_key")
    } else if low == String::from_str("cohere") {
        String::from_str("cohere_api_key")
    } else if low == String::from_str("fireworks") {
        String::from_str("fireworks_api_key")
    } else if low == String::from_str("together") {
        String::from_str("together_api_key")
    } else if low == String::from_str("azure") {
        String::from_str("azure_openai_api_key")
    } else if low == String::from_str("openrouter") {
        String::from_str("openrouter_api_key")
    } else if low == String::from_str("mistral") {
        String::from_str("mistral_api_key")
    } else if low == String::from_str("redhat") || low == String::from_str("rhel") || low
        == String::from_str("rhai") {
        String::from_str("redhat_api_key")
    } else {
        let mut s = low;
        s.append("_api_key");
        s
    }
}

/// The provider ids the streaming library handles natively.
pub open spec fn spec_is_genai_native(provider_lower: Seq<char>) -> bool {
    provider_lower == "openai"@ || provider_lower == "anthropic"@ || provider_lower == "gemini"@
        || provider_lower == "ollama"@ || provider_lower == "groq"@ || provider_lower == "xai"@
        || provider_lower == "deepseek"@ || provider_lower == "cohere"@ || provider_lower
        == "fireworks"@ || provider_lower == "together"@ || provider_lower == "nebius"@
        || provider_lower == "mimo"@ || provider_lower == "zai"@ || provider_lower == "bigmodel"@
}

/// Whether the streaming library handles a provider natively.
pub fn is_genai_native(provider: &str) -> (r: bool)
    ensures
        r == spec_is_genai_native(lower_of(provider@)),
{
    let low = lower(provider);
    low == String::from_str("openai") || low == String::from_str("anthropic") || low
        == String::from_str("gemini") || low == String::from_str("ollama") || low
        == String::from_str("groq") || low == String::from_str("xai") || low == String::from_str(
        "deepseek",
    ) || low == String::from_str("cohere") || low == String::from_str("fireworks") || low
        == String::from_str("together") || low == String::from_str("nebius") || low
        == String::from_str("mimo") || low == String::from_str("zai") || low == String::from_str(
        "bigmodel",
    )
}

/// The additional ids handled through an OpenAI-compatible endpoint.
pub open spec fn spec_is_genai_compat(provider_lower: Seq<char>) -> bool {
    provider_lower == "azure"@ || provider_lower == "openrouter"@ || provider_lower == "mistral"@
        || provider_lower == "redhat"@ || provider_lower == "rhel"@ || provider_lower == "rhai"@
}

/// Whether a provider can be handled at all, natively or through an
/// OpenAI-compatible endpoint.
pub fn is_genai_supported(provider: &str) -> (r: bool)
    ensures
        r == (spec_is_genai_native(lower_of(provider@)) || spec_is_genai_compat(lower_of(provider@))),
{
    if is_genai_native(provider) {
        return true;
    }
    let low = lower(provider);
    low == String::from_str("azure") || low == String::from_str("openrouter") || low
        == String::from_str("mistral") || low == String::from_str("redhat") || low
        == String::from_str("rhel") || low == String::from_str("rhai")
}

/// Every supported provider id, native ones first, then the
/// OpenAI-compatible ones, then the testing provider.
pub fn supported_providers() -> (r: Vec<&'static str>)
    ensures
        r@.len() == 19,
        r@[0]@ == "openai"@,
        r@[1]@ == "anthropic"@,
        r@[2]@ == "gemini"@,
        r@[3]@ == "ollama"@,
        r@[4]@ == "groq"@,
        r@[5]@ == "xai"@,
        r@[6]@ == "deepseek"@,
        r@[7]@ == "cohere"@,
        r@[8]@ == "fireworks"@,
        r@[9]@ == "together"@,
        r@[10]@ == "nebius"@,
        r@[11]@ == "mimo"@,
        r@[12]@ == "zai"@,
        r@[13]@ == "bigmodel"@,
        r@[14]@ == "azure"@,
        r@[15]@ == "openrouter"@,
        r@[16]@ == "mistral"@,
        r@[17]@ == "redhat"@,
        r@[18]@ == "mock"@,
{
    let mut v: Vec<&'static str> = Vec::new();
    v.push("openai");
    v.push("anthropic");
    v.push("gemini");
    v.push("ollama");
    v.push("groq");
    v.push("xai");
    v.push("deepseek");
    v.push("cohere");
    v.push("fireworks");
    v.push("together");
    v.push("nebius");
    v.push("mimo");
    v.push("zai");
    v.push("bigmodel");
    v.push("azure");
    v.push("openrouter");
    v.push("mistral");
    v.push("redhat");
    v.push("mock");
    v
}

/// Model configuration handed to a provider for one request.
pub struct ProviderModelConfig {
    /// Model identifier as the provider's API knows it.
    pub model: String,
    /// API key for authentication.
    pub api_key: Option<String>,
    /// Custom API base URL.
    pub api_base: Option<String>,
}

impl ProviderModelConfig {
    /// A configuration for a model, with no key and no custom base.
    pub fn new(model: &str) -> (r: Self)
        ensures
            r.model@ == model@,
            r.api_key is None,
            r.api_base is None,
    {
        ProviderModelConfig { model: String::from_str(model), api_key: None, api_base: None }
    }

    /// The same configuration with this API key.
    pub fn with_api_key(self, key: &str) -> (r: Self)
        ensures
            r.model == self.model,
            r.api_key matches Some(k) && k@ == key@,
            r.api_base == self.api_base,
    {
        ProviderModelConfig { api_key: Some(String::from_str(key)), ..self }
    }

    /// The same configuration with this API base URL.
    pub fn with_api_base(self, base: &str) -> (r: Self)
        ensures
            r.model == self.model,
            r.api_key == self.api_key,
            r.api_base matches Some(b) && b@ == base@,
    {
        ProviderModelConfig { api_base: Some(String::from_str(base)), ..self }
    }
}

/// A provider's default API base URL; an unknown provider gets the
/// OpenAI-compatible default.
pub open spec fn spec_default_api_base(id: Seq<char>) -> Seq<char> {
    if id == "openai"@ {
        "https://api.openai.com/v1/"@
    } else if id == "anthropic"@ {
        "https://api.anthropic.com/"@
    } else if id == "gemini"@ {
        "https://generativelanguage.googleapis.com/"@
    } else if id == "ollama"@ {
        "http://localhost:11434/"@
    } else if id == "groq"@ {
        "https://api.groq.com/openai/v1/"@
    } else if id == "xai"@ {
        "https://api.x.ai/v1/"@
    } else if id == "deepseek"@ {
        "https://api.deepseek.com/"@
    } else if id == "cohere"@ {
        "https://api.cohere.ai/"@
    } else if id == "fireworks"@ {
        "https://api.fireworks.ai/inference/v1/"@
    } else if id == "together"@ {
        "https://api.together.xyz/v1/"@
    } else if id == "openrouter"@ {
        "https://openrouter.ai/api/v1/"@
    } else if id == "mistral"@ {
        "https://api.mistral.ai/v1/"@
    } else if id == "azure"@ {
        "https://your-resource.openai.azure.com/"@
    } else {
        "https://api.openai.com/v1/"@
    }
}

/// The provider that routes requests through the streaming library. What it
/// decides — supported ids, model string splitting, per-provider constants —
/// lives here; the streaming itself is the collaborator's.
pub struct GenaiProvider {
    /// The provider id requests go to.
    pub provider_id: String,
}

impl GenaiProvider {
    /// A provider bound to an id.
    pub fn new(provider_id: &str) -> (r: Self)
        ensures
            r.provider_id@ == provider_id@,
    {
        GenaiProvider { provider_id: String::from_str(provider_id) }
    }

    /// A provider bound to an id; a twin of `new` kept for callers that held
    /// their parts boxed.
    pub fn from_boxed(provider_id: &str) -> (r: Self)
        ensures
            r.provider_id@ == provider_id@,
    {
        Self::new(provider_id)
    }

    /// Whether this provider family can handle the given id.
    pub fn supports(provider_id: &str) -> (r: bool)
        ensures
            r == (spec_is_genai_native(lower_of(provider_id@)) || spec_is_genai_compat(
                lower_of(provider_id@),
            )),
    {
        is_genai_supported(provider_id)
    }

    /// The provider id of a model string: everything before the first `/`,
    /// or the whole string without one.
    pub fn extract_provider(model: &str) -> (r: Option<String>)
        ensures
            r matches Some(p) && p@ == (match spec_find_ch(model@, 0, '/') {
                Some(j) => model@.subrange(0, j as int),
                None => model@,
            }),
    {
        proof {
            crate::dotenv::lemma_find_ch_props(model@, 0, '/');
        }
        let n = model.unicode_len();
        match crate::dotenv::find_ch(model, 0, '/') {
            Some(j) => {
                let part = model.substring_char(0, j);
                Some(String::from_str(part))
            },
            None => Some(String::from_str(model)),
        }
    }

    /// The model name of a model string: the segment after the first `/`, up
    /// to the next one; a string without `/` is already the model name.
    pub fn extract_model_name(model: &str) -> (r: String)
        ensures
            r@ == (match spec_find_ch(model@, 0, '/') {
                Some(j) => (match spec_find_ch(model@, j + 1, '/') {
                    Some(k) => model@.subrange(j as int + 1, k as int),
                    None => model@.subrange(j as int + 1, model@.len() as int),
                }),
                None => model@,
            }),
    {
        proof {
            crate::dotenv::lemma_find_ch_props(model@, 0, '/');
        }
        let n = model.unicode_len();
        match crate::dotenv::find_ch(model, 0, '/') {
            Some(j) => {
                proof {
                    crate::dotenv::lemma_find_ch_props(model@, j as nat + 1, '/');
                }
                match crate::dotenv::find_ch(model, j + 1, '/') {
                    Some(k) => {
                        let part = model.substring_char(j + 1, k);
                        String::from_str(part)
                    },
                    None => {
                        let part = model.substring_char(j + 1, n);
                        String::from_str(part)
                    },
                }
            },
            None => String::from_str(model),
        }
    }

    /// The provider's name.
    pub fn name(&self) -> (r: &str)
        ensures
            r@ == self.provider_id@,
    {
        self.provider_id.as_str()
    }

    /// The provider's default API base URL.
    pub fn default_api_base(&self) -> (r: &'static str)
        ensures
            r@ == spec_default_api_base(self.provider_id@),
    {
        let id = &self.provider_id;
        if *id == String::from_str("openai") {
            "https://api.openai.com/v1/"
        } else if *id == String::from_str("anthropic") {
            "https://api.anthropic.com/"
        } else if *id == String::from_str("gemini") {
            "https://generativelanguage.googleapis.com/"
        } else if *id == String::from_str("ollama") {
            "http://localhost:11434/"
        } else if *id == String::from_str("groq") {
            "https://api.groq.com/openai/v1/"
        } else if *id == String::from_str("xai") {
            "https://api.x.ai/v1/"
        } else if *id == String::from_str("deepseek") {
            "https://api.deepseek.com/"
        } else if *id == String::from_str("cohere") {
            "https://api.cohere.ai/"
        } else if *id == String::from_str("fireworks") {
            "https://api.fireworks.ai/inference/v1/"
        } else if *id == String::from_str("together") {
            "https://api.together.xyz/v1/"
        } else if *id == String::from_str("openrouter") {
            "https://openrouter.ai/api/v1/"
        } else if *id == String::from_str("mistral") {
            "https://api.mistral.ai/v1/"
        } else if *id == String::from_str("azure") {
            "https://your-resource.openai.azure.com/"
        } else {
            "https://api.openai.com/v1/"
        }
    }

    /// Static metadata: every provider but the local one needs an API key.
    pub fn metadata(&self) -> (r: ProviderMetadata)
        ensures
            r.id@ == self.provider_id@,
            r.display_name@ == self.provider_id@,
            r.requires_api_key == (self.provider_id@ != "ollama"@),
            r.default_models@.len() == 1,
    {
        let requires_api_key = !(self.provider_id == String::from_str("ollama"));
        ProviderMetadata {
            id: self.provider_id.clone(),
            display_name: self.provider_id.clone(),
            default_api_base: String::from_str(self.default_api_base()),
            requires_api_key,
            default_models: {
                let mut v: Vec<DefaultModel> = Vec::new();
                v.push(DefaultModel {
                    id: String::from_str("default"),
                    name: String::from_str("Default Model"),
                    context_length: 128000,
                    capabilities: ModelCapabilities {
                        streaming: true,
                        tool_calling: true,
                        image_input: false,
                    },
                });
                v
            },
        }
    }
}

/// How the testing provider answers.
pub enum MockMode {
    /// Echo the last user message back.
    Echo,
    /// Return a fixed response.
    Fixed(String),
    /// Return these chunks, in order.
    Chunks(Vec<String>),
    /// Fail with a message after some chunks.
    Error { message: String, delay_chunks: usize },
    /// Return nothing.
    Empty,
}

impl Default for MockMode {
    fn default() -> (r: Self)
        ensures
            r is Echo,
    {
        MockMode::Echo
    }
}

/// Configuration of the testing provider.
pub struct MockConfig {
    /// How to answer.
    pub mode: MockMode,
    /// Delay between chunks, in milliseconds.
    pub chunk_delay_ms: u64,
    /// Size of each chunk when a response is split.
    pub chunk_size: usize,
}

impl Default for MockConfig {
    fn default() -> (r: Self)
        ensures
            r.mode is Echo,
            r.chunk_delay_ms == 0,
            r.chunk_size == 10,
    {
        MockConfig { mode: MockMode::Echo, chunk_delay_ms: 0, chunk_size: 10 }
    }
}

} // verus!

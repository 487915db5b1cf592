//! Configuration documents, provider identification, logging and tools.

use openllm_core::config_doc::{ConfigDocument, MemoryConfigProvider};
use openllm_core::config_types::{ConfigError, ModelCapabilities, ModelConfig, ProviderConfig};
use openllm_core::logging::{ConsoleLogger, LogLevel, Logger, NoOpLogger};
use openllm_core::providers::{
    is_genai_native, is_genai_supported, provider_to_secret_key, supported_providers, GenaiProvider,
    ProviderModelConfig,
};
use openllm_core::tools::{NeverCancelledToken, ToolFilter, ToolInfo};

#[test]
fn test_memory_config_provider() {
    let mut config = MemoryConfigProvider::new();

    assert!(config.get_providers().is_empty());

    let openai = ProviderConfig::new("openai").with_models(vec!["gpt-4".to_string()]);
    config.add_provider(openai).unwrap();

    assert_eq!(config.get_providers().len(), 1);

    // the same name in another casing collides
    let duplicate = ProviderConfig::new("OpenAI");
    assert!(matches!(
        config.add_provider(duplicate),
        Err(ConfigError::ProviderExists(_))
    ));

    let updated = ProviderConfig::new("openai")
        .with_models(vec!["gpt-4".to_string(), "gpt-4-turbo".to_string()]);
    config.update_provider("openai", updated).unwrap();

    let providers = config.get_providers();
    assert_eq!(providers[0].models.len(), 2);

    config.remove_provider("openai").unwrap();
    assert!(config.get_providers().is_empty());

    assert!(matches!(
        config.remove_provider("openai"),
        Err(ConfigError::ProviderNotFound(_))
    ));
}

#[test]
fn config_document_rules() {
    let mut doc = ConfigDocument::new();
    doc.add_provider(ProviderConfig::new("openai")).unwrap();
    // adding "OpenAI" after "openai" exists fails with ProviderExists
    match doc.add_provider(ProviderConfig::new("OpenAI")) {
        Err(ConfigError::ProviderExists(name)) => assert_eq!(name, "OpenAI"),
        _ => panic!("a case-insensitive collision must fail"),
    }
    doc.update_provider("OPENAI", ProviderConfig::new("openai").disabled()).unwrap();
    assert!(!doc.providers[0].enabled);
    doc.remove_provider("Openai").unwrap();
    assert!(doc.providers.is_empty());
    assert!(matches!(
        doc.remove_provider("openai"),
        Err(ConfigError::ProviderNotFound(_))
    ));
}

#[test]
fn test_model_config_builder() {
    let config = ModelConfig::new("gpt4", "openai", "gpt-4")
        .with_api_key("sk-test")
        .with_context_length(8192)
        .with_capabilities(ModelCapabilities::full());

    assert_eq!(config.id, "gpt4");
    assert_eq!(config.provider, "openai");
    assert_eq!(config.model, "gpt-4");
    assert_eq!(config.api_key, Some("sk-test".to_string()));
    assert_eq!(config.context_length, Some(8192));
    assert!(config.capabilities.unwrap().tool_calling);
}

#[test]
fn provider_model_config_builder() {
    let config = ProviderModelConfig::new("openai/gpt-4")
        .with_api_key("sk")
        .with_api_base("https://example.invalid/v1/");
    assert_eq!(config.model, "openai/gpt-4");
    assert_eq!(config.api_key.as_deref(), Some("sk"));
    assert_eq!(config.api_base.as_deref(), Some("https://example.invalid/v1/"));
}

#[test]
fn test_provider_detection() {
    assert!(is_genai_native("openai"));
    assert!(is_genai_native("anthropic"));
    assert!(is_genai_native("gemini"));
    assert!(!is_genai_native("azure"));
    assert!(!is_genai_native("openrouter"));

    assert!(is_genai_supported("openai"));
    assert!(is_genai_supported("azure"));
    assert!(is_genai_supported("openrouter"));
    assert!(is_genai_supported("mistral"));
    assert!(is_genai_supported("redhat"));
}

#[test]
fn test_extract_provider() {
    assert_eq!(GenaiProvider::extract_provider("openai/gpt-4").as_deref(), Some("openai"));
    assert_eq!(
        GenaiProvider::extract_provider("anthropic/big-model-3").as_deref(),
        Some("anthropic")
    );
    assert_eq!(GenaiProvider::extract_provider("gpt-4").as_deref(), Some("gpt-4"));
}

#[test]
fn test_extract_model_name() {
    assert_eq!(GenaiProvider::extract_model_name("openai/gpt-4"), "gpt-4");
    assert_eq!(
        GenaiProvider::extract_model_name("anthropic/big-model-3"),
        "big-model-3"
    );
    assert_eq!(GenaiProvider::extract_model_name("gpt-4"), "gpt-4");
}

#[test]
fn test_supports() {
    assert!(GenaiProvider::supports("openai"));
    assert!(GenaiProvider::supports("anthropic"));
    assert!(GenaiProvider::supports("azure"));
    assert!(GenaiProvider::supports("openrouter"));
    assert!(!GenaiProvider::supports("unknown_provider"));
}

#[test]
fn test_metadata() {
    let provider = GenaiProvider::new("openai");
    let meta = provider.metadata();
    assert_eq!(meta.id, "openai");
    assert!(!meta.default_models.is_empty());
    assert!(meta.requires_api_key);
    let local = GenaiProvider::new("ollama");
    assert!(!local.metadata().requires_api_key);
}

#[test]
fn secret_key_mapping() {
    assert_eq!(provider_to_secret_key("openai"), "openai_api_key");
    assert_eq!(provider_to_secret_key("Gemini"), "google_api_key");
    assert_eq!(provider_to_secret_key("azure"), "azure_openai_api_key");
    assert_eq!(provider_to_secret_key("rhel"), "redhat_api_key");
    assert_eq!(provider_to_secret_key("Custom-One"), "custom-one_api_key");
}

#[test]
fn supported_provider_list() {
    let providers = supported_providers();
    assert_eq!(providers.len(), 19);
    assert!(providers.contains(&"openai"));
    assert!(providers.contains(&"mock"));
}

#[test]
fn test_console_logger_creation() {
    let logger = ConsoleLogger::new();
    assert_eq!(logger.prefix, "[OpenLLM]");

    let custom = ConsoleLogger::with_prefix("[MyApp]");
    assert_eq!(custom.prefix, "[MyApp]");
}

#[test]
fn test_console_logger_logs() {
    let logger = ConsoleLogger::new();
    logger.debug("debug message");
    logger.info("info message");
    logger.warn("warn message");
    logger.error("error message");
}

#[test]
fn test_log_levels() {
    assert!(LogLevel::Debug > LogLevel::Trace);
    assert!(LogLevel::Info > LogLevel::Debug);
    assert!(LogLevel::Warn > LogLevel::Info);
    assert!(LogLevel::Error > LogLevel::Warn);
}

#[test]
fn test_logging() {
    let console = ConsoleLogger::with_prefix("[test]");
    console.debug("test message");
    console.info("test message");
    console.warn("test message");
    console.error("test message");
    assert_eq!(console.format_line("INFO", "test message"), "[test] INFO: test message");
    assert!(openllm_core::logging::should_log(true, LogLevel::Debug, LogLevel::Error));
    assert!(!openllm_core::logging::should_log(true, LogLevel::Error, LogLevel::Debug));
    assert!(!openllm_core::logging::should_log(false, LogLevel::Trace, LogLevel::Error));
}

#[test]
fn test_noop_logger() {
    let logger = NoOpLogger::new();

    logger.debug("debug message");
    logger.info("info message");
    logger.warn("warn message");
    logger.error("error message");
}

#[test]
fn test_never_cancelled() {
    let token = NeverCancelledToken;
    assert!(!token.is_cancelled());
}

fn tool(name: &str, enabled: bool, internal: bool) -> ToolInfo {
    ToolInfo {
        name: name.to_string(),
        description: String::new(),
        input_schema: "{}".to_string(),
        enabled,
        source: "vscode".to_string(),
        internal,
    }
}

#[test]
fn test_tool_filter_default() {
    let filter = ToolFilter::new();
    assert!(filter.matches(&tool("read_file", true, false)));
    assert!(!filter.matches(&tool("openllm_secrets_get", true, true)));
    assert!(!filter.matches(&tool("disabled_tool", false, false)));
}

#[test]
fn test_tool_filter_with_internal() {
    let filter = ToolFilter::new().with_internal();
    assert!(filter.matches(&tool("openllm_secrets_get", true, true)));
    assert!(filter.matches(&tool("read_file", true, false)));
}

#[test]
fn test_tool_filter_exclude() {
    let filter = ToolFilter::new().with_exclude(vec!["blocked".to_string()]);
    assert!(!filter.matches(&tool("blocked", true, false)));
    assert!(filter.matches(&tool("other", true, false)));
}

#[test]
fn tool_filter_allow_list() {
    let filter = ToolFilter::all().with_allowed(vec!["only_this".to_string()]);
    assert!(filter.matches(&tool("only_this", false, true)));
    assert!(!filter.matches(&tool("another", true, false)));
}

#[test]
fn user_tools_drop_internal_names() {
    let tools = vec![
        tool("openllm_config_set", true, false),
        tool("read_file", true, false),
    ];
    let user = openllm_core::tools::filter_user_tools(tools);
    assert_eq!(user.len(), 1);
    assert_eq!(user[0].name, "read_file");
}

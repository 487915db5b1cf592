//! The endpoint registry and the two resolvers.

use openllm_core::config_resolver::{
    load_native, merge_provider_into_file, ConfigSourcePreference, ConfigWritePlan, ProviderCache,
    ResolvedProvider, UnifiedConfigResolver,
};
use openllm_core::config_types::ProviderConfig;
use openllm_core::endpoint::{
    get_rpc_endpoint, get_rpc_endpoints_by_capability, list_rpc_endpoints, register_rpc_endpoint,
    unregister_rpc_endpoint, RpcEndpoint, RpcEndpointRegistry,
};
use openllm_core::secret_resolver::{
    LocalResolution, RoutedAction, SecretsStore, UnifiedSecretResolver,
};

#[test]
fn test_endpoint_capabilities() {
    let endpoint = RpcEndpoint::new(
        "test",
        "/tmp/test.sock",
        "token123",
        vec!["secrets".to_string(), "config".to_string()],
    );

    assert!(endpoint.supports_secrets());
    assert!(endpoint.supports_config());
    assert!(endpoint.has_capability("secrets"));
    assert!(!endpoint.has_capability("unknown"));
}

#[test]
fn test_registry() {
    let mut registry = RpcEndpointRegistry::new();

    let endpoint = RpcEndpoint::new("vscode", "/tmp/vscode.sock", "token", vec![
        "secrets".to_string(),
    ]);

    registry.register(endpoint);

    assert!(!registry.is_empty());
    assert!(registry.get("vscode").is_some());
    assert!(registry.get("unknown").is_none());

    let secrets_endpoints = registry.get_by_capability("secrets");
    assert_eq!(secrets_endpoints.len(), 1);
    assert_eq!(secrets_endpoints[0].name, "vscode");

    registry.unregister("vscode");
    assert!(registry.is_empty());
}

#[test]
fn endpoint_registration_scenario() {
    // register, look up by name, then unregister
    let mut registry = RpcEndpointRegistry::new();
    register_rpc_endpoint(
        &mut registry,
        RpcEndpoint::new("vscode", "/tmp/x.sock", "t", vec![
            "secrets".to_string(),
            "config".to_string(),
        ]),
    );
    let found = get_rpc_endpoint(&registry, "vscode").unwrap();
    assert!(found.capabilities.iter().any(|c| c == "config"));
    assert_eq!(found.socket_path, "/tmp/x.sock");
    assert_eq!(list_rpc_endpoints(&registry), vec!["vscode".to_string()]);
    assert_eq!(get_rpc_endpoints_by_capability(&registry, "config").len(), 1);
    let removed = unregister_rpc_endpoint(&mut registry, "vscode");
    assert!(removed.is_some());
    assert!(get_rpc_endpoint(&registry, "vscode").is_none());
}

#[test]
fn endpoint_reregistration_overwrites() {
    let mut registry = RpcEndpointRegistry::new();
    register_rpc_endpoint(
        &mut registry,
        RpcEndpoint::new("vscode", "/tmp/old.sock", "t1", vec![]),
    );
    register_rpc_endpoint(
        &mut registry,
        RpcEndpoint::new("vscode", "/tmp/new.sock", "t2", vec![]),
    );
    let found = get_rpc_endpoint(&registry, "vscode").unwrap();
    assert_eq!(found.socket_path, "/tmp/new.sock");
    assert_eq!(found.auth_token, "t2");
    assert_eq!(list_rpc_endpoints(&registry).len(), 1);
}

#[test]
fn secret_resolver_test_resolver_creation() {
    let resolver = UnifiedSecretResolver::new();
    let sources = resolver.list_sources(&vec![]);
    assert!(!sources.is_empty());
    assert!(sources.iter().any(|(name, _)| name == "environment"));
}

#[test]
fn environment_resolution() {
    // one variable makes the key resolve under three spellings
    let mut resolver = UnifiedSecretResolver::new();
    resolver.set_environment(vec![("OPENAI_API_KEY".to_string(), "sk-x".to_string())]);
    for key in ["openai", "OpenAI", "OPENAI_API_KEY"] {
        match resolver.resolve_local(key) {
            LocalResolution::Found(s) => {
                assert_eq!(s.value, "sk-x");
                assert_eq!(s.source, "environment");
            }
            _ => panic!("the environment must resolve {key}"),
        }
    }
}

#[test]
fn dotenv_resolution() {
    let mut resolver = UnifiedSecretResolver::new();
    resolver.set_check_environment(false);
    resolver.set_check_dotenv(true);
    resolver.set_dotenv_content(Some(
        "# comment\n\nMY_KIT_API_KEY = \"sk-dotenv\" \nOTHER=1\n".to_string(),
    ));
    match resolver.resolve_local("my-kit") {
        LocalResolution::Found(s) => {
            assert_eq!(s.value, "sk-dotenv");
            assert_eq!(s.source, "dotenv");
        }
        _ => panic!("the dotenv content must resolve the key"),
    }
}

#[test]
fn unreachable_rpc_falls_through() {
    // with the host's storage preferred and no endpoint answering, the
    // resolution falls through instead of failing
    let mut resolver = UnifiedSecretResolver::new();
    resolver.set_check_environment(false);
    resolver.set_secrets_store(SecretsStore::VsCode);
    match resolver.resolve_local("openai") {
        LocalResolution::TryRpc => {}
        _ => panic!("the host preference must ask for the RPC probe"),
    }
    assert!(resolver.resolve_with_rpc("openai", None).is_none());
    let hit = resolver
        .resolve_with_rpc("openai", Some(("vscode".to_string(), "sk-rpc".to_string())))
        .unwrap();
    assert_eq!(hit.value, "sk-rpc");
    assert_eq!(hit.source, "rpc:vscode");
    assert_eq!(hit.source_detail, "vscode SecretStorage");
}

#[test]
fn secret_store_routing() {
    let mut registry = RpcEndpointRegistry::new();
    register_rpc_endpoint(
        &mut registry,
        RpcEndpoint::new("vscode", "/tmp/x.sock", "t", vec!["secrets".to_string()]),
    );
    let mut resolver = UnifiedSecretResolver::new();
    resolver.set_secrets_store(SecretsStore::VsCode);
    match resolver.store(&registry, "k", "v", "auto") {
        RoutedAction::Rpc(name) => assert_eq!(name, "vscode"),
        _ => panic!("auto with the host preference routes to the endpoint"),
    }
    match resolver.store(&registry, "k", "v", "rpc:vscode") {
        RoutedAction::Rpc(name) => assert_eq!(name, "vscode"),
        _ => panic!("an explicit rpc destination routes to the endpoint"),
    }
    match resolver.store(&registry, "k", "v", "rpc:ghost") {
        RoutedAction::Done(Err(msg)) => assert!(msg.contains("not registered")),
        _ => panic!("an unregistered endpoint fails at once"),
    }
    match resolver.store(&registry, "k", "v", "somewhere") {
        RoutedAction::Done(Err(msg)) => assert_eq!(msg, "Unknown store: somewhere"),
        _ => panic!("an unknown destination fails at once"),
    }
}

#[test]
fn secrets_store_preference_parsing() {
    assert_eq!(SecretsStore::from_str("vscode"), SecretsStore::VsCode);
    assert_eq!(SecretsStore::from_str("VS-Code"), SecretsStore::VsCode);
    assert_eq!(SecretsStore::from_str("SecretStorage"), SecretsStore::VsCode);
    assert_eq!(SecretsStore::from_str("anything"), SecretsStore::Keychain);
    assert_eq!(SecretsStore::default(), SecretsStore::Keychain);
}

#[test]
fn config_resolver_test_resolver_creation() {
    let resolver = UnifiedConfigResolver::new();
    assert!(resolver.workspace_path.is_none());
    assert_eq!(*resolver.get_config_source(), ConfigSourcePreference::Native);
    let with_ws = UnifiedConfigResolver::with_workspace("/tmp/test-workspace");
    assert_eq!(with_ws.workspace_path.as_deref(), Some("/tmp/test-workspace"));
}

#[test]
fn cache_write_ordering() {
    // a saved provider is visible to every resolver instance before any
    // persistence step has run
    let mut cache = ProviderCache::new();
    let registry = RpcEndpointRegistry::new();
    let writer = UnifiedConfigResolver::new();
    let reader = UnifiedConfigResolver::new();
    let record = ResolvedProvider {
        name: "OpenAI".to_string(),
        enabled: true,
        api_base: None,
        models: vec!["gpt-4o".to_string()],
        source: String::new(),
        source_detail: String::new(),
    };
    let plan = writer.save_provider(&mut cache, &registry, &record, "user").unwrap();
    assert!(matches!(plan, ConfigWritePlan::NativeUser));
    // the plan is still unperformed, yet the read already sees the record
    let all = reader.get_all_providers(&cache);
    assert!(all.providers.iter().any(|p| p.name == "OpenAI" && p.enabled));
    let found = reader.get_provider(&cache, "openai").unwrap();
    assert_eq!(found.name, "OpenAI");
    assert_eq!(found.source, "native:user");
    assert_eq!(found.source_detail, "~/.config/openllm/config.yaml");
}

#[test]
fn load_merges_scopes() {
    // the workspace scope overwrites the user scope on a name collision
    let mut cache = ProviderCache::new();
    let user = vec![
        ProviderConfig::new("openai").with_models(vec!["gpt-4o".to_string()]),
        ProviderConfig::new("anthropic"),
    ];
    let workspace = vec![ProviderConfig::new("OpenAI").disabled()];
    load_native(&mut cache, Some(user), Some(workspace));
    let resolver = UnifiedConfigResolver::new();
    let openai = resolver.get_provider(&cache, "openai").unwrap();
    assert!(!openai.enabled);
    assert_eq!(openai.source, "native:workspace");
    let anthropic = resolver.get_provider(&cache, "ANTHROPIC").unwrap();
    assert_eq!(anthropic.source, "native:user");
    assert_eq!(resolver.get_all_providers(&cache).providers.len(), 2);
}

#[test]
fn merge_preserves_untouched_providers() {
    // a native write merges with the file's own providers
    let mut file_providers = vec![
        ProviderConfig::new("anthropic").with_models(vec!["large-model-1".to_string()]),
    ];
    let record = ResolvedProvider {
        name: "openai".to_string(),
        enabled: true,
        api_base: None,
        models: vec!["gpt-4o".to_string()],
        source: String::new(),
        source_detail: String::new(),
    };
    merge_provider_into_file(&mut file_providers, &record, "user");
    assert_eq!(file_providers.len(), 2);
    assert!(file_providers.iter().any(|p| p.name == "anthropic"));
    assert!(file_providers.iter().any(|p| p.name == "openai"));
    // saving again under another casing replaces, not duplicates
    let record2 = ResolvedProvider {
        name: "OpenAI".to_string(),
        enabled: false,
        api_base: None,
        models: vec![],
        source: String::new(),
        source_detail: String::new(),
    };
    merge_provider_into_file(&mut file_providers, &record2, "user");
    assert_eq!(file_providers.len(), 2);
}

#[test]
fn toggle_and_update_models() {
    let mut cache = ProviderCache::new();
    let registry = RpcEndpointRegistry::new();
    let resolver = UnifiedConfigResolver::new();
    resolver
        .toggle_provider(&mut cache, &registry, "openai", false, "user")
        .unwrap();
    assert!(!resolver.get_provider(&cache, "openai").unwrap().enabled);
    resolver
        .update_provider_models(
            &mut cache,
            &registry,
            "openai",
            vec!["gpt-4o".to_string(), "gpt-4o-mini".to_string()],
            "user",
        )
        .unwrap();
    let p = resolver.get_provider(&cache, "openai").unwrap();
    assert_eq!(p.models.len(), 2);
    assert!(!p.enabled);
}

#[test]
fn source_info_names_the_source() {
    let mut resolver = UnifiedSecretResolver::new();
    resolver.set_environment(vec![("OPENAI_API_KEY".to_string(), "sk-x".to_string())]);
    let (source, detail) = resolver.get_source_info("openai", None).unwrap();
    assert_eq!(source, "environment");
    assert_eq!(detail, "Environment variable $OPENAI_API_KEY");
    assert!(resolver.get_source_info("missing-provider", None).is_none());
}

#[test]
fn batched_source_info() {
    let mut resolver = UnifiedSecretResolver::new();
    resolver.set_environment(vec![("OPENAI_API_KEY".to_string(), "sk-x".to_string())]);
    let keys = vec!["openai".to_string(), "missing-one".to_string()];
    let infos = resolver.get_all_source_info(&keys, None);
    assert_eq!(infos.len(), 2);
    assert_eq!(infos[0].0, "openai");
    let (source, detail, var) = infos[0].1.clone().unwrap();
    assert_eq!(source, "environment");
    assert_eq!(detail, "Environment variable: OPENAI_API_KEY");
    assert_eq!(var, "OPENAI_API_KEY");
    assert!(infos[1].1.is_none());
}

#[test]
fn remove_provider_drops_cache_entry() {
    // a removal mutates the shared cache before the persistence step runs
    let mut cache = ProviderCache::new();
    let registry = RpcEndpointRegistry::new();
    let resolver = UnifiedConfigResolver::new();
    let record = ResolvedProvider {
        name: "OpenAI".to_string(),
        enabled: true,
        api_base: None,
        models: vec![],
        source: String::new(),
        source_detail: String::new(),
    };
    resolver.save_provider(&mut cache, &registry, &record, "user").unwrap();
    assert!(resolver.get_provider(&cache, "openai").is_some());
    let plan = resolver
        .remove_provider(&mut cache, &registry, "openai", "user")
        .unwrap();
    assert!(matches!(plan, ConfigWritePlan::NativeUser));
    assert!(resolver.get_provider(&cache, "OPENAI").is_none());
    // a workspace-scope native removal without a root is an error
    assert!(resolver.remove_provider(&mut cache, &registry, "x", "workspace").is_err());
}

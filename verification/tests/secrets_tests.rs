//! Secret store backends: memory, environment snapshot, keychain, chain,
//! and the store registry.

use openllm_core::chain_store::{ChainSecretStore, ChainStoreError, SecretBackend};
use openllm_core::env_store::EnvSecretStore;
use openllm_core::keychain_store::KeychainSecretStore;
use openllm_core::memory_store::MemorySecretStore;
use openllm_core::secret_types::{SecretInfo, SecretStoreError};
use openllm_core::store_registry::{
    create_secret_store, get_store_definition, has_secret_store, list_secret_stores,
    register_secret_store, unregister_secret_store, SecretStoreRegistry, StoreKind,
};

#[test]
fn test_secret_info() {
    let info = SecretInfo::new(true, "test");
    assert!(info.available);
    assert_eq!(info.source, "test");

    let not_found = SecretInfo::not_found();
    assert!(!not_found.available);
    assert_eq!(not_found.source, "none");
}

#[test]
fn test_memory_store_name() {
    let store = MemorySecretStore::new();
    assert_eq!(store.name(), "memory");
}

#[test]
fn test_memory_store_crud() {
    let mut store = MemorySecretStore::new();

    assert!(store.is_empty());
    assert_eq!(store.get("test"), None);

    store.store("test", "value").unwrap();
    assert_eq!(store.len(), 1);
    assert_eq!(store.get("test"), Some("value".to_string()));
    assert!(store.has("test"));

    store.store("test", "new_value").unwrap();
    assert_eq!(store.get("test"), Some("new_value".to_string()));

    store.delete("test").unwrap();
    assert_eq!(store.get("test"), None);
    assert!(!store.has("test"));
    assert!(store.is_empty());
}

#[test]
fn test_memory_store_with_initial() {
    let initial = vec![
        ("key1".to_string(), "value1".to_string()),
        ("key2".to_string(), "value2".to_string()),
    ];
    let store = MemorySecretStore::with_secrets(initial);

    assert_eq!(store.len(), 2);
    assert_eq!(store.get("key1"), Some("value1".to_string()));
    assert_eq!(store.get("key2"), Some("value2".to_string()));
}

#[test]
fn test_memory_store_clear() {
    let mut store = MemorySecretStore::new();
    store.store("key1", "value1").unwrap();
    store.store("key2", "value2").unwrap();

    assert_eq!(store.len(), 2);

    store.clear();

    assert!(store.is_empty());
    assert_eq!(store.get("key1"), None);
}

#[test]
fn test_memory_store_get_info() {
    let mut store = MemorySecretStore::new();
    store.store("exists", "value").unwrap();

    let info = store.get_info("exists");
    assert!(info.available);
    assert_eq!(info.source, "memory");

    let not_found = store.get_info("nonexistent");
    assert!(!not_found.available);
}

#[test]
fn test_memory_store_sync_methods() {
    let mut store = MemorySecretStore::new();

    store.store_sync("key", "value");
    assert_eq!(store.get_sync("key"), Some("value".to_string()));
}

#[test]
fn test_memory_store_clone() {
    let mut store = MemorySecretStore::new();
    store.store("key", "value").unwrap();

    let mut cloned = store.clone();
    assert_eq!(cloned.get("key"), Some("value".to_string()));

    cloned.store("key", "modified").unwrap();
    assert_eq!(store.get("key"), Some("value".to_string()));
    assert_eq!(cloned.get("key"), Some("modified".to_string()));
}

#[test]
fn memory_store_scenario() {
    // an initial map of one pair, then a clear
    let store = MemorySecretStore::with_secrets(vec![("a".to_string(), "1".to_string())]);
    assert_eq!(store.len(), 1);
    let mut store = store;
    store.clear();
    assert!(store.is_empty());
}

#[test]
fn test_env_store_name() {
    let store = EnvSecretStore::new();
    assert_eq!(store.name(), "env");
}

#[test]
fn test_env_store_read_only() {
    let mut store = EnvSecretStore::new();
    assert!(matches!(store.store("test", "value"), Err(SecretStoreError::ReadOnly)));
    assert!(matches!(store.delete("test"), Err(SecretStoreError::ReadOnly)));
}

#[test]
fn test_env_store_get_not_found() {
    let store = EnvSecretStore::new();
    assert_eq!(store.get("nonexistent_provider_xyz"), None);
}

#[test]
fn env_store_snapshot_lookup() {
    let store = EnvSecretStore::from_vars(vec![
        ("TEST_SECRET_12345".to_string(), "test_value".to_string()),
        ("OPENAI_API_KEY".to_string(), "sk-test-12345".to_string()),
    ]);
    // direct name
    assert_eq!(store.get("TEST_SECRET_12345"), Some("test_value".to_string()));
    // provider mapping, case-insensitively
    assert_eq!(store.get("openai"), Some("sk-test-12345".to_string()));
    assert_eq!(store.get("OpenAI"), Some("sk-test-12345".to_string()));
    // direct variable name
    assert_eq!(store.get("OPENAI_API_KEY"), Some("sk-test-12345".to_string()));
    assert!(store.has("TEST_SECRET_12345"));
    assert!(!store.has("NONEXISTENT_SECRET_XYZ"));
    let info = store.get_info("TEST_SECRET_12345");
    assert!(info.available);
    assert_eq!(info.source, "env");
}

#[test]
fn env_store_synthesized_name() {
    let store = EnvSecretStore::from_vars(vec![(
        "MY_PROVIDER_API_KEY".to_string(),
        "v".to_string(),
    )]);
    assert_eq!(store.get("my_provider"), Some("v".to_string()));
    // empty values never match
    let empty = EnvSecretStore::from_vars(vec![("X_API_KEY".to_string(), String::new())]);
    assert_eq!(empty.get("x"), None);
}

#[test]
fn test_name() {
    let store = KeychainSecretStore::new();
    assert_eq!(store.name(), "keychain");
}

#[test]
fn keychain_round_trip_when_available() {
    // the platform store may be absent here; the error paths are the test then
    let store = KeychainSecretStore::with_service("openllm-test");
    if store.is_available() {
        let _ = store.delete("test_key");
        match store.store("test_key", "test_value") {
            Ok(()) => {
                assert_eq!(store.get("test_key"), Some("test_value".to_string()));
                store.delete("test_key").unwrap();
                assert_eq!(store.get("test_key"), None);
            }
            Err(_) => {
                // a store that cannot verify its write reports the failure
                assert_eq!(store.get("test_key"), None);
            }
        }
    } else {
        assert_eq!(store.get("test_key"), None);
    }
}

#[test]
fn test_chain_store_name() {
    let store =
        ChainSecretStore::new(vec![SecretBackend::Memory(MemorySecretStore::new())]).unwrap();
    assert_eq!(store.name(), "chain");
}

#[test]
fn test_chain_store_fallback() {
    let store1 = MemorySecretStore::new();
    let mut store2 = MemorySecretStore::new();

    store2.store("key", "from_store2").unwrap();

    let chain = ChainSecretStore::new(vec![
        SecretBackend::Memory(store1),
        SecretBackend::Memory(store2),
    ])
    .unwrap();

    assert_eq!(chain.get("key"), Some("from_store2".to_string()));
}

#[test]
fn test_chain_store_priority() {
    let mut store1 = MemorySecretStore::new();
    let mut store2 = MemorySecretStore::new();

    store1.store("key", "from_store1").unwrap();
    store2.store("key", "from_store2").unwrap();

    let chain = ChainSecretStore::new(vec![
        SecretBackend::Memory(store1),
        SecretBackend::Memory(store2),
    ])
    .unwrap();

    assert_eq!(chain.get("key"), Some("from_store1".to_string()));
}

#[test]
fn test_chain_store_write() {
    let store1 = MemorySecretStore::new();
    let store2 = MemorySecretStore::new();

    let mut chain = ChainSecretStore::new(vec![
        SecretBackend::Memory(store1),
        SecretBackend::Memory(store2),
    ])
    .unwrap();

    chain.store("key", "value").unwrap();

    assert_eq!(chain.stores()[0].get("key"), Some("value".to_string()));
    assert_eq!(chain.stores()[1].get("key"), None);
}

#[test]
fn test_chain_store_custom_write_store() {
    let store1 = MemorySecretStore::new();
    let store2 = MemorySecretStore::new();

    let mut chain = ChainSecretStore::with_write_store(
        vec![SecretBackend::Memory(store1), SecretBackend::Memory(store2)],
        1,
    )
    .unwrap();

    chain.store("key", "value").unwrap();

    assert_eq!(chain.stores()[0].get("key"), None);
    assert_eq!(chain.stores()[1].get("key"), Some("value".to_string()));
}

#[test]
fn test_chain_store_get_info() {
    let store1 = MemorySecretStore::new();
    let mut store2 = MemorySecretStore::new();

    store2.store("key", "value").unwrap();

    let chain = ChainSecretStore::new(vec![
        SecretBackend::Memory(store1),
        SecretBackend::Memory(store2),
    ])
    .unwrap();

    let info = chain.get_info("key");
    assert!(info.available);
    assert_eq!(info.source, "memory");

    let not_found = chain.get_info("nonexistent");
    assert!(!not_found.available);
}

#[test]
fn test_chain_store_delete() {
    let mut store1 = MemorySecretStore::new();
    let mut store2 = MemorySecretStore::new();

    store1.store("key", "value1").unwrap();
    store2.store("key", "value2").unwrap();

    let mut chain = ChainSecretStore::new(vec![
        SecretBackend::Memory(store1),
        SecretBackend::Memory(store2),
    ])
    .unwrap();

    chain.delete("key").unwrap();

    assert_eq!(chain.stores()[0].get("key"), None);
    assert_eq!(chain.stores()[1].get("key"), None);
}

#[test]
fn test_chain_store_find_store() {
    let store1 = MemorySecretStore::new();
    let mut store2 = MemorySecretStore::new();

    store2.store("key", "value").unwrap();

    let chain = ChainSecretStore::new(vec![
        SecretBackend::Memory(store1),
        SecretBackend::Memory(store2),
    ])
    .unwrap();

    let found = chain.find_store("key");
    assert!(found.is_some());
    assert_eq!(found.unwrap().name(), "memory");
}

#[test]
fn chain_store_empty_is_an_error() {
    match ChainSecretStore::new(vec![]) {
        Err(ChainStoreError::Empty) => {}
        _ => panic!("an empty chain is a construction error"),
    }
}

#[test]
fn chain_store_bad_write_index_is_an_error() {
    let store = MemorySecretStore::new();
    match ChainSecretStore::with_write_store(vec![SecretBackend::Memory(store)], 5) {
        Err(ChainStoreError::WriteIndexOutOfBounds) => {}
        _ => panic!("an out-of-bounds write index is a construction error"),
    }
}

#[test]
fn test_builtin_stores_registered() {
    let registry = SecretStoreRegistry::with_builtins();
    assert!(has_secret_store(&registry, "env"));
    assert!(has_secret_store(&registry, "memory"));
}

#[test]
fn test_create_env_store() {
    let registry = SecretStoreRegistry::with_builtins();
    let store = create_secret_store(&registry, "env").unwrap();
    assert_eq!(store.name(), "env");
}

#[test]
fn test_create_memory_store() {
    let registry = SecretStoreRegistry::with_builtins();
    let store = create_secret_store(&registry, "memory").unwrap();
    assert_eq!(store.name(), "memory");
}

#[test]
fn test_create_unknown_store() {
    let registry = SecretStoreRegistry::with_builtins();
    assert!(create_secret_store(&registry, "nonexistent_xyz").is_none());
}

#[test]
fn test_list_stores() {
    let registry = SecretStoreRegistry::with_builtins();
    let stores = list_secret_stores(&registry);

    let names: Vec<_> = stores.iter().map(|(n, _, _)| n.as_str()).collect();
    assert!(names.contains(&"env"));
    assert!(names.contains(&"memory"));
}

#[test]
fn test_register_custom_store() {
    let mut registry = SecretStoreRegistry::with_builtins();
    register_secret_store(
        &mut registry,
        "test_custom_store",
        "A test store",
        StoreKind::Memory,
        false,
        None,
    );

    assert!(has_secret_store(&registry, "test_custom_store"));

    let store = create_secret_store(&registry, "test_custom_store").unwrap();
    assert_eq!(store.name(), "memory");

    assert!(unregister_secret_store(&mut registry, "test_custom_store"));
    assert!(!has_secret_store(&registry, "test_custom_store"));
}

#[test]
fn test_get_store_definition() {
    let registry = SecretStoreRegistry::with_builtins();
    let def = get_store_definition(&registry, "env").unwrap();
    assert_eq!(def.0, "env");
    assert!(!def.2);
    assert!(def.3.is_none());
}

//! The RPC-backed secret store and configuration provider: request shapes
//! and reply interpretation, against a mock peer's bytes.

use openllm_core::config_resolver::set_config_json;
use openllm_core::endpoint::RpcEndpoint;
use openllm_core::rpc_config_provider::RpcConfigProvider;
use openllm_core::rpc_secret_store::RpcSecretStore;
use openllm_core::wire::frame_message;

fn endpoint() -> RpcEndpoint {
    RpcEndpoint::new("vscode", "/tmp/test.sock", "token", vec!["secrets".to_string()])
}

fn unframe(bytes: &[u8]) -> serde_json::Value {
    let text = std::str::from_utf8(bytes).unwrap();
    let (_, json) = text.split_once("\r\n\r\n").unwrap();
    serde_json::from_str(json).unwrap()
}

#[test]
fn test_rpc_secret_store_name() {
    let store = RpcSecretStore::new(&endpoint());
    assert_eq!(store.name(), "rpc:vscode");
}

#[test]
fn test_rpc_config_provider_name() {
    let provider = RpcConfigProvider::new(&endpoint());
    assert_eq!(provider.name(), "rpc:vscode");
}

#[test]
fn rpc_secret_request_shapes() {
    let mut store = RpcSecretStore::new(&endpoint());
    let get = unframe(&store.prepare_get("open \"ai\""));
    assert_eq!(get["method"], "secrets/get");
    assert_eq!(get["params"]["key"], "open \"ai\"");
    assert_eq!(get["params"]["auth"], "token");
    let put = unframe(&store.prepare_store("k", "v"));
    assert_eq!(put["method"], "secrets/store");
    assert_eq!(put["params"]["key"], "k");
    assert_eq!(put["params"]["value"], "v");
    let del = unframe(&store.prepare_delete("k"));
    assert_eq!(del["method"], "secrets/delete");
    let list = unframe(&store.prepare_list());
    assert_eq!(list["method"], "secrets/list");
}

#[test]
fn rpc_secret_reply_interpretation() {
    let store = RpcSecretStore::new(&endpoint());
    let hit = frame_message(br#"{"jsonrpc":"2.0","id":1,"result":{"value":"sk-1"}}"#);
    assert_eq!(store.interpret_get(&hit), Some("sk-1".to_string()));
    let miss = frame_message(br#"{"jsonrpc":"2.0","id":1,"result":{"value":null}}"#);
    assert_eq!(store.interpret_get(&miss), None);
    let ok = frame_message(br#"{"jsonrpc":"2.0","id":1,"result":{"success":true}}"#);
    assert!(store.interpret_outcome(&ok).is_ok());
    let failed = frame_message(br#"{"jsonrpc":"2.0","id":1,"result":{"success":false}}"#);
    assert!(store.interpret_outcome(&failed).is_err());
    let keys = frame_message(br#"{"jsonrpc":"2.0","id":1,"result":{"keys":["a","b"]}}"#);
    assert_eq!(store.interpret_list(&keys).unwrap(), vec!["a".to_string(), "b".to_string()]);
    let ready = frame_message(br#"{"jsonrpc":"2.0","id":0,"result":{"ok":true}}"#);
    assert!(store.interpret_reachable(&ready));
    let broken = frame_message(br#"{"jsonrpc":"2.0","id":0,"result":{}}"#);
    assert!(!store.interpret_reachable(&broken));
}

#[test]
fn rpc_config_request_shapes() {
    let mut provider = RpcConfigProvider::new(&endpoint());
    let get = unframe(&provider.prepare_get_providers("user", None));
    assert_eq!(get["method"], "config/get");
    assert_eq!(get["params"]["provider"], "*");
    assert_eq!(get["params"]["scope"], "user");
    assert!(get["params"].get("workspacePath").is_none());
    let get_ws = unframe(&provider.prepare_get_providers("workspace", Some("/ws")));
    assert_eq!(get_ws["params"]["workspacePath"], "/ws");
    let body = set_config_json(true, &vec!["m1".to_string(), "m2".to_string()], Some("https://b/"));
    let set = unframe(&provider.prepare_set_provider("openai", "user", None, &body));
    assert_eq!(set["method"], "config/set");
    assert_eq!(set["params"]["provider"], "openai");
    assert_eq!(set["params"]["config"]["enabled"], true);
    assert_eq!(set["params"]["config"]["models"][1], "m2");
    assert_eq!(set["params"]["config"]["apiBase"], "https://b/");
    let settings = unframe(&provider.prepare_get_settings("user"));
    assert_eq!(settings["method"], "config/getSettings");
    assert_eq!(settings["params"]["scope"], "user");
}

#[test]
fn rpc_config_reply_interpretation() {
    let provider = RpcConfigProvider::new(&endpoint());
    let reply = frame_message(
        br#"{"jsonrpc":"2.0","id":1,"result":{"providers":[
            {"name":"openai","enabled":true,"models":["gpt-4o"],"apiBase":null,"source":"u","sourceDetail":"d"},
            {"name":"local","enabled":false,"models":[]},
            {"name":"bare"}
        ]}}"#,
    );
    let providers = provider.interpret_providers(&reply).unwrap();
    assert_eq!(providers.len(), 3);
    assert_eq!(providers[0].name, "openai");
    assert!(providers[0].enabled);
    assert_eq!(providers[0].models, vec!["gpt-4o".to_string()]);
    assert!(!providers[1].enabled);
    // an entry without enabled or models gets the defaults
    assert!(providers[2].enabled);
    assert!(providers[2].models.is_empty());
    let ok = frame_message(br#"{"jsonrpc":"2.0","id":1,"result":{"success":true}}"#);
    assert!(provider.interpret_set(&ok).is_ok());
    let refused = frame_message(br#"{"jsonrpc":"2.0","id":1,"result":{"success":false}}"#);
    assert!(provider.interpret_set(&refused).is_err());
    let settings = frame_message(
        br#"{"jsonrpc":"2.0","id":1,"result":{"settings":{"configSource":"vscode","secretsSource":null}}}"#,
    );
    let s = provider.interpret_settings(&settings).unwrap();
    assert_eq!(s.config_source.as_deref(), Some("vscode"));
    assert!(s.secrets_source.is_none());
}

#[test]
fn rpc_workspace_queries() {
    let mut provider = RpcConfigProvider::new(&endpoint());
    let root_req = unframe(&provider.prepare_get_workspace_root());
    assert_eq!(root_req["method"], "workspace/getRoot");
    let paths_req = unframe(&provider.prepare_get_workspace_paths());
    assert_eq!(paths_req["method"], "workspace/getPaths");
    let root = frame_message(br#"{"jsonrpc":"2.0","id":1,"result":{"path":"/ws"}}"#);
    assert_eq!(provider.interpret_workspace_root(&root).unwrap().as_deref(), Some("/ws"));
    let no_root = frame_message(br#"{"jsonrpc":"2.0","id":1,"result":{"path":null}}"#);
    assert_eq!(provider.interpret_workspace_root(&no_root).unwrap(), None);
    let paths = frame_message(br#"{"jsonrpc":"2.0","id":1,"result":{"paths":["/a","/b"]}}"#);
    assert_eq!(
        provider.interpret_workspace_paths(&paths).unwrap(),
        vec!["/a".to_string(), "/b".to_string()]
    );
}

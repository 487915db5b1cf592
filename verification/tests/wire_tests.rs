//! Wire framing, envelopes and the RPC client.

use openllm_core::client::{McpToolContent, McpToolResult, RpcClient};
use openllm_core::envelope::merge_auth;
use openllm_core::wire::{frame_message, scan_frame, FrameScan};

#[test]
fn test_client_creation() {
    let client = RpcClient::new("/tmp/test.sock", "token123");
    assert_eq!(client.socket_path, "/tmp/test.sock");
    assert_eq!(client.auth_token, "token123");
}

#[test]
fn test_is_internal_tool() {
    assert!(openllm_core::client::is_internal_tool("openllm_secrets_get"));
    assert!(openllm_core::client::is_internal_tool("openllm_config_set"));
    assert!(!openllm_core::client::is_internal_tool("cursor_read_file"));
    assert!(!openllm_core::client::is_internal_tool("some_other_tool"));
}

#[test]
fn client_test_is_internal_tool() {
    assert!(RpcClient::is_internal_tool("openllm_secrets_get"));
    assert!(RpcClient::is_internal_tool("openllm_config_set"));
    assert!(!RpcClient::is_internal_tool("cursor_read_file"));
    assert!(!RpcClient::is_internal_tool("some_other_tool"));
}

#[test]
fn test_mcp_tool_result_text() {
    let result = McpToolResult {
        content: vec![
            McpToolContent::Text { text: "Hello ".to_string() },
            McpToolContent::Text { text: "World".to_string() },
        ],
        is_error: false,
    };
    assert_eq!(result.text(), "Hello \nWorld");
}

#[test]
fn test_frame_roundtrip() {
    // a mock server reads Content-Length, then exactly that many bytes
    let body = br#"{"jsonrpc":"2.0","id":7,"method":"lifecycle/ping","params":{}}"#.to_vec();
    let framed = frame_message(&body);
    let mut expected = format!("Content-Length: {}\r\n\r\n", body.len()).into_bytes();
    expected.extend_from_slice(&body);
    assert_eq!(framed, expected);
    match scan_frame(&framed) {
        FrameScan::Complete { body: parsed } => assert_eq!(parsed, body),
        _ => panic!("a framed message must scan back whole"),
    }
}

#[test]
fn test_scan_incomplete_and_invalid() {
    // a cut-off frame asks for more bytes
    let body = b"hello".to_vec();
    let framed = frame_message(&body);
    match scan_frame(&framed[..framed.len() - 1]) {
        FrameScan::Incomplete => {}
        _ => panic!("a truncated frame is incomplete"),
    }
    // headers without Content-Length are unusable
    match scan_frame(b"X-Other: 1\r\n\r\nhello") {
        FrameScan::Invalid => {}
        _ => panic!("a frame without Content-Length is invalid"),
    }
}

#[test]
fn test_prepare_call_shape() {
    let mut client = RpcClient::new("/tmp/test.sock", "tok");
    let (id, bytes) = client.prepare_call("secrets/get", br#"{"key":"openai"}"#);
    assert_eq!(id, 0);
    let text = String::from_utf8(bytes).unwrap();
    let (head, json) = text.split_once("\r\n\r\n").unwrap();
    assert_eq!(head, format!("Content-Length: {}", json.len()));
    let v: serde_json::Value = serde_json::from_str(json).unwrap();
    assert_eq!(v["jsonrpc"], "2.0");
    assert_eq!(v["id"], 0);
    assert_eq!(v["method"], "secrets/get");
    assert_eq!(v["params"]["auth"], "tok");
    assert_eq!(v["params"]["key"], "openai");
    // ids increase with every call
    let (id2, _) = client.prepare_call("secrets/get", br#"{"key":"openai"}"#);
    assert_eq!(id2, 1);
}

#[test]
fn test_merge_auth_shapes() {
    // an object gains the auth member
    let merged = merge_auth(br#"{"key":"k"}"#, br#""tok""#);
    assert_eq!(merged, br#"{"auth":"tok","key":"k"}"#.to_vec());
    // null becomes a bare auth object
    let merged = merge_auth(b"null", br#""tok""#);
    assert_eq!(merged, br#"{"auth":"tok"}"#.to_vec());
    // any other value is wrapped under data
    let merged = merge_auth(b"[1,2]", br#""tok""#);
    assert_eq!(merged, br#"{"auth":"tok","data":[1,2]}"#.to_vec());
}

#[test]
fn test_interpret_response_outcomes() {
    let client = RpcClient::new("/tmp/test.sock", "tok");
    let ok = frame_message(br#"{"jsonrpc":"2.0","id":1,"result":{"ok":true}}"#);
    assert!(client.interpret_ping(&ok).unwrap());
    let err = frame_message(br#"{"jsonrpc":"2.0","id":1,"error":{"code":-32600,"message":"bad"}}"#);
    match client.interpret_response(&err) {
        Err(openllm_core::client::RpcError::RpcError { code, message }) => {
            assert_eq!(code, -32600);
            assert_eq!(message, "bad");
        }
        _ => panic!("an error member must surface as an RPC error"),
    }
    let missing = frame_message(br#"{"jsonrpc":"2.0","id":1}"#);
    match client.interpret_response(&missing) {
        Err(openllm_core::client::RpcError::InvalidResponse(_)) => {}
        _ => panic!("a missing result is an invalid response"),
    }
    let malformed = frame_message(b"not json at all");
    match client.interpret_response(&malformed) {
        Err(openllm_core::client::RpcError::Json(_)) => {}
        _ => panic!("an unusable body is a JSON error"),
    }
    // an error member without code or message gets the protocol defaults
    let bare = frame_message(br#"{"jsonrpc":"2.0","id":1,"error":{}}"#);
    match client.interpret_response(&bare) {
        Err(openllm_core::client::RpcError::RpcError { code, message }) => {
            assert_eq!(code, -1);
            assert_eq!(message, "Unknown error");
        }
        _ => panic!("a bare error member still fails the call"),
    }
}

#[test]
fn ping_preflight_decides_fast_fail() {
    let client = RpcClient::new("/tmp/test.sock", "tok");
    assert!(client.ping_preflight(true).is_ok());
    match client.ping_preflight(false) {
        Err(openllm_core::client::RpcError::ConnectionFailed(m)) => {
            assert_eq!(m, "Socket does not exist");
        }
        _ => panic!("a missing socket is a connection failure"),
    }
}

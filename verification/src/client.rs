//! The JSON-RPC client: request preparation and response interpretation.
//!
//! A client is bound to one socket path and auth token. Each call gets a
//! fresh, strictly increasing request id, wrapping at the type bound. The
//! socket itself is driven by the caller:
//! `prepare_call` yields the exact framed bytes to write, and
//! `interpret_response` reads the reply buffer back into a result.

use vstd::prelude::*;

verus! {

use crate::envelope::{build_request, merge_auth, spec_merge_auth, spec_request};
use crate::jsonio::{
    decode_ping_result, decode_wire_response, json_quote_bytes, json_quoted_bytes, ping_result_of,
    wire_decoded, WireOutcome,
};
use crate::wire::{frame_message, scan_frame, spec_frame, spec_scan, FrameScan, SpecScan};
use vstd::string::StringExecFns;

/// Errors of RPC operations. Connection failures mean "host unreachable" and
/// let a resolver move to its next source; the others are per-call failures.
#[derive(Debug)]
pub enum RpcError {
    /// The socket is absent or refused the connection.
    ConnectionFailed(String),
    /// Reading or writing the stream failed.
    Io(String),
    /// A body was not usable JSON.
    Json(String),
    /// The remote host rejected the request.
    RpcError { code: i64, message: String },
    /// The framing or the response shape is broken.
    InvalidResponse(String),
    /// The remote host did not answer in time.
    Timeout,
    /// No connection is open.
    NotConnected,
}

pub type RpcResult<T> = Result<T, RpcError>;

impl RpcError {
    /// A human-readable description, in place of a `Display` impl.
    pub fn message(&self) -> (r: String)
        ensures
            match self {
                RpcError::ConnectionFailed(m) => r@ == "Connection failed: "@ + m@,
                RpcError::Io(m) => r@ == "IO error: "@ + m@,
                RpcError::Json(m) => r@ == "JSON error: "@ + m@,
                RpcError::InvalidResponse(m) => r@ == "Invalid response: "@ + m@,
                RpcError::Timeout => r@ == "Timeout"@,
                RpcError::NotConnected => r@ == "Not connected"@,
                RpcError::RpcError { .. } => true,
            },
    {
        match self {
            RpcError::ConnectionFailed(m) => {
                let mut s = String::from_str("Connection failed: ");
                s.append(m.as_str());
                s
            },
            RpcError::Io(m) => {
                let mut s = String::from_str("IO error: ");
                s.append(m.as_str());
                s
            },
            RpcError::Json(m) => {
                let mut s = String::from_str("JSON error: ");
                s.append(m.as_str());
                s
            },
            RpcError::InvalidResponse(m) => {
                let mut s = String::from_str("Invalid response: ");
                s.append(m.as_str());
                s
            },
            RpcError::Timeout => String::from_str("Timeout"),
            RpcError::NotConnected => String::from_str("Not connected"),
            RpcError::RpcError { code: _, message } => {
                let mut s = String::from_str("RPC error: ");
                s.append(message.as_str());
                s
            },
        }
    }
}

/// JSON-RPC client for one endpoint.
pub struct RpcClient {
    pub socket_path: String,
    pub auth_token: String,
    pub request_id: u64,
}

/// The exact framed bytes of one call: the request envelope, with the auth
/// token merged into the parameters, framed for the wire.
pub open spec fn spec_call_bytes(id: nat, method: Seq<char>, params: Seq<u8>, token: Seq<char>) -> Seq<u8> {
    spec_frame(spec_request(id, json_quoted_bytes(method), spec_merge_auth(params, json_quoted_bytes(token))))
}

/// The exact framed bytes of a ping: id 0, `lifecycle/ping`, empty params,
/// no auth token.
pub open spec fn spec_ping_bytes() -> Seq<u8> {
    spec_frame(spec_request(0, json_quoted_bytes("lifecycle/ping"@), seq![123u8, 125u8]))
}

impl RpcClient {
    /// Make a client for a socket path and auth token.
    pub fn new(socket_path: &str, auth_token: &str) -> (r: Self)
        ensures
            r.socket_path@ == socket_path@,
            r.auth_token@ == auth_token@,
            r.request_id == 0,
    {
        RpcClient {
            socket_path: String::from_str(socket_path),
            auth_token: String::from_str(auth_token),
            request_id: 0,
        }
    }

    /// Take the next request id: ids increase strictly with every call and
    /// wrap at the type bound.
    fn next_id(&mut self) -> (id: u64)
        ensures
            id == old(self).request_id,
            final(self).request_id == (if old(self).request_id == u64::MAX {
                0u64
            } else {
                (old(self).request_id + 1) as u64
            }),
            final(self).socket_path == old(self).socket_path,
            final(self).auth_token == old(self).auth_token,
    {
        let id = self.request_id;
        if self.request_id == u64::MAX {
            self.request_id = 0;
        } else {
            self.request_id = self.request_id + 1;
        }
        id
    }

    /// Prepare one call: returns the request id and the exact bytes to write
    /// on a fresh connection. `params` is a serialized JSON value; the auth
    /// token is merged into it as the wire protocol requires.
    pub fn prepare_call(&mut self, method: &str, params: &[u8]) -> (r: (u64, Vec<u8>))
        ensures
            r.0 == old(self).request_id,
            r.1@ == spec_call_bytes(r.0 as nat, method@, params@, old(self).auth_token@),
            final(self).socket_path == old(self).socket_path,
            final(self).auth_token == old(self).auth_token,
    {
        let id = self.next_id();
        let method_json = json_quote_bytes(method);
        let token_json = json_quote_bytes(self.auth_token.as_str());
        let params_with_auth = merge_auth(params, token_json.as_slice());
        let body = build_request(id, method_json.as_slice(), params_with_auth.as_slice());
        let framed = frame_message(body.as_slice());
        (id, framed)
    }

    /// Prepare a ping: `lifecycle/ping` with id 0 and empty parameters.
    /// A ping needs no auth, so none is merged in.
    pub fn prepare_ping(&self) -> (r: Vec<u8>)
        ensures
            r@ == spec_ping_bytes(),
    {
        let method_json = json_quote_bytes("lifecycle/ping");
        let mut params: Vec<u8> = Vec::new();
        params.push(123u8);
        params.push(125u8);
        proof {
            assert(params@ =~= seq![123u8, 125u8]);
        }
        let body = build_request(0, method_json.as_slice(), params.as_slice());
        frame_message(body.as_slice())
    }

    /// Interpret a reply buffer: deframe it, then split the JSON-RPC envelope
    /// into the `result` text or the error it carries.
    pub fn interpret_response(&self, buf: &[u8]) -> (r: RpcResult<String>)
        ensures
            match spec_scan(buf@) {
                SpecScan::Complete(body) => match wire_decoded(body) {
                    Ok(Ok(text)) => (r matches Ok(s) && s@ == text),
                    Ok(Err(e)) => (r matches Err(RpcError::RpcError { code, message }) && code
                        as int == (match e.0 {
                        Some(c) => c,
                        None => -1,
                    }) && message@ == (match e.1 {
                        Some(m) => m,
                        None => "Unknown error"@,
                    })),
                    Err(true) => (r matches Err(RpcError::Json(_))),
                    Err(false) => (r matches Err(RpcError::InvalidResponse(_))),
                },
                SpecScan::Incomplete => (r matches Err(RpcError::InvalidResponse(_))),
                SpecScan::Invalid => (r matches Err(RpcError::InvalidResponse(_))),
            },
    {
        match scan_frame(buf) {
            FrameScan::Incomplete => Err(RpcError::InvalidResponse(String::from_str("Connection closed"))),
            FrameScan::Invalid => Err(RpcError::InvalidResponse(String::from_str("Missing Content-Length header"))),
            FrameScan::Complete { body } => match decode_wire_response(body.as_slice()) {
                WireOutcome::Malformed => Err(RpcError::Json(String::from_str("response body is not valid JSON"))),
                WireOutcome::MissingResult => Err(RpcError::InvalidResponse(String::from_str("Missing result field"))),
                WireOutcome::RpcFailure { code, message } => {
                    // an absent code or message gets the protocol default
                    let code = match code {
                        Some(c) => c,
                        None => -1,
                    };
                    let message = match message {
                        Some(m) => m,
                        None => String::from_str("Unknown error"),
                    };
                    Err(RpcError::RpcError { code, message })
                },
                WireOutcome::Success { result } => Ok(result),
            },
        }
    }

    /// Interpret the reply to a ping: whether the host reports ready.
    pub fn interpret_ping(&self, buf: &[u8]) -> (r: RpcResult<bool>)
        ensures
            match spec_scan(buf@) {
                SpecScan::Complete(body) => match wire_decoded(body) {
                    Ok(Ok(text)) => match ping_result_of(text) {
                        Some(ok) => r == RpcResult::<bool>::Ok(ok),
                        None => (r matches Err(RpcError::Json(_))),
                    },
                    Ok(Err(e)) => (r matches Err(RpcError::RpcError { code, message }) && code
                        as int == (match e.0 {
                        Some(c) => c,
                        None => -1,
                    }) && message@ == (match e.1 {
                        Some(m) => m,
                        None => "Unknown error"@,
                    })),
                    Err(true) => (r matches Err(RpcError::Json(_))),
                    Err(false) => (r matches Err(RpcError::InvalidResponse(_))),
                },
                SpecScan::Incomplete => (r matches Err(RpcError::InvalidResponse(_))),
                SpecScan::Invalid => (r matches Err(RpcError::InvalidResponse(_))),
            },
    {
        let text = match self.interpret_response(buf) {
            Ok(text) => text,
            Err(e) => {
                return Err(e);
            },
        };
        match decode_ping_result(text.as_str()) {
            Some(ok) => Ok(ok),
            None => Err(RpcError::Json(String::from_str("invalid ping result"))),
        }
    }

    /// The fast-fail rule before a ping: a socket path that does not exist
    /// on disk is a connection failure at once, never a connect attempt.
    pub fn ping_preflight(&self, socket_exists: bool) -> (r: RpcResult<()>)
        ensures
            r is Ok <==> socket_exists,
            !socket_exists ==> (r matches Err(RpcError::ConnectionFailed(m)) && m@
                == "Socket does not exist"@),
    {
        if socket_exists {
            Ok(())
        } else {
            Err(RpcError::ConnectionFailed(String::from_str("Socket does not exist")))
        }
    }

    /// Whether a tool is internal to this crate's host integration and so is
    /// hidden from the LLM.
    pub fn is_internal_tool(name: &str) -> (r: bool)
        ensures
            r == spec_is_internal_tool(name@),
    {
        is_internal_tool(name)
    }
}

/// A tool name is internal when it starts with `openllm_`.
pub open spec fn spec_is_internal_tool(name: Seq<char>) -> bool {
    name.len() >= 8 && name.subrange(0, 8) == "openllm_"@
}

/// Whether a tool name starts with the `openllm_` prefix of internal tools.
pub fn is_internal_tool(name: &str) -> (r: bool)
    ensures
        r == spec_is_internal_tool(name@),
{
    proof {
        reveal_strlit("openllm_");
    }
    if name.unicode_len() < 8 {
        return false;
    }
    let r = name.get_char(0) == 'o' && name.get_char(1) == 'p' && name.get_char(2) == 'e'
        && name.get_char(3) == 'n' && name.get_char(4) == 'l' && name.get_char(5) == 'l'
        && name.get_char(6) == 'm' && name.get_char(7) == '_';
    proof {
        let lit = "openllm_"@;
        assert(lit[0] == 'o' && lit[1] == 'p' && lit[2] == 'e' && lit[3] == 'n' && lit[4] == 'l'
            && lit[5] == 'l' && lit[6] == 'm' && lit[7] == '_');
        if r {
            assert(name@.subrange(0, 8) =~= lit);
        } else {
            if name@.subrange(0, 8) == lit {
                assert(name@[0] == name@.subrange(0, 8)[0]);
                assert(name@[1] == name@.subrange(0, 8)[1]);
                assert(name@[2] == name@.subrange(0, 8)[2]);
                assert(name@[3] == name@.subrange(0, 8)[3]);
                assert(name@[4] == name@.subrange(0, 8)[4]);
                assert(name@[5] == name@.subrange(0, 8)[5]);
                assert(name@[6] == name@.subrange(0, 8)[6]);
                assert(name@[7] == name@.subrange(0, 8)[7]);
                assert(false);
            }
        }
    }
    r
}

/// One part of a tool call's result.
pub enum McpToolContent {
    Text { text: String },
    Error { text: String },
}

/// The text a content part carries, whichever kind it is.
pub open spec fn mcp_text_of(c: McpToolContent) -> Seq<char> {
    match c {
        McpToolContent::Text { text } => text@,
        McpToolContent::Error { text } => text@,
    }
}

/// Texts joined with a newline between each pair.
pub open spec fn spec_join_nl(parts: Seq<Seq<char>>) -> Seq<char>
    decreases parts.len(),
{
    if parts.len() == 0 {
        Seq::empty()
    } else if parts.len() == 1 {
        parts[0]
    } else {
        spec_join_nl(parts.drop_last()) + "\n"@ + parts.last()
    }
}

/// The result of one tool call.
pub struct McpToolResult {
    pub content: Vec<McpToolContent>,
    pub is_error: bool,
}

impl McpToolResult {
    /// All text content, joined with newlines.
    pub fn text(&self) -> (r: String)
        ensures
            r@ == spec_join_nl(self.content@.map(|i: int, c: McpToolContent| mcp_text_of(c))),
    {
        let ghost texts = self.content@.map(|i: int, c: McpToolContent| mcp_text_of(c));
        let mut out = String::new();
        let mut i: usize = 0;
        while i < self.content.len()
            invariant
                i <= self.content@.len(),
                texts == self.content@.map(|k: int, c: McpToolContent| mcp_text_of(c)),
                out@ == spec_join_nl(texts.subrange(0, i as int)),
            decreases self.content@.len() - i,
        {
            if i > 0 {
                out.append("\n");
            }
            match &self.content[i] {
                McpToolContent::Text { text } => out.append(text.as_str()),
                McpToolContent::Error { text } => out.append(text.as_str()),
            }
            i = i + 1;
            proof {
                assert(texts.subrange(0, i as int).drop_last() =~= texts.subrange(0, i - 1));
                assert(texts.subrange(0, i as int).last() == texts[i - 1]);
            }
        }
        proof {
            assert(texts.subrange(0, texts.len() as int) =~= texts);
        }
        out
    }
}

} // verus!

//! Tool discovery filtering and tool-calling types.
//!
//! The discovery and execution of tools happen through an external
//! collaborator; what lives here is the filtering rule applied to what it
//! returns, and the error taxonomy of a tool-calling client.

use vstd::prelude::*;

verus! {

use crate::client::{is_internal_tool, spec_is_internal_tool};
use vstd::string::StringExecFns;

/// A discovered tool with its source.
pub struct ToolInfo {
    /// Tool name.
    pub name: String,
    /// Tool description.
    pub description: String,
    /// JSON schema of the tool's parameters, as JSON text.
    pub input_schema: String,
    /// Whether the tool is enabled.
    pub enabled: bool,
    /// Where the tool came from.
    pub source: String,
    /// Whether the tool is internal and so hidden from the LLM.
    pub internal: bool,
}

/// A filter over discovered tools.
pub struct ToolFilter {
    /// When set, only these names pass.
    pub allowed: Option<Vec<String>>,
    /// These names never pass.
    pub exclude: Vec<String>,
    /// Whether internal tools pass.
    pub allow_internal: bool,
    /// Whether only enabled tools pass.
    pub only_enabled: bool,
}

/// Whether a tool passes a filter: internal tools only when asked for,
/// disabled tools only when allowed, excluded names never, and, with an
/// include list, listed names alone.
pub open spec fn spec_filter_matches(f: ToolFilter, t: ToolInfo) -> bool {
    &&& (t.internal ==> f.allow_internal)
    &&& (!t.enabled ==> !f.only_enabled)
    &&& !f.exclude.deep_view().contains(t.name@)
    &&& (f.allowed matches Some(inc) ==> inc.deep_view().contains(t.name@))
}

impl ToolFilter {
    /// The default filter: enabled, non-internal tools.
    pub fn new() -> (r: Self)
        ensures
            r.allowed is None,
            r.exclude@.len() == 0,
            !r.allow_internal,
            r.only_enabled,
    {
        ToolFilter { allowed: None, exclude: Vec::new(), allow_internal: false, only_enabled: true }
    }

    /// A filter that passes every tool.
    pub fn all() -> (r: Self)
        ensures
            r.allowed is None,
            r.exclude@.len() == 0,
            r.allow_internal,
            !r.only_enabled,
    {
        ToolFilter { allowed: None, exclude: Vec::new(), allow_internal: true, only_enabled: false }
    }

    /// The same filter, passing only these names.
    pub fn with_allowed(self, names: Vec<String>) -> (r: Self)
        ensures
            r.allowed matches Some(inc) && inc == names,
            r.exclude == self.exclude,
            r.allow_internal == self.allow_internal,
            r.only_enabled == self.only_enabled,
    {
        ToolFilter { allowed: Some(names), ..self }
    }

    /// The same filter, never passing these names.
    pub fn with_exclude(self, names: Vec<String>) -> (r: Self)
        ensures
            r.exclude == names,
            r.allowed == self.allowed,
            r.allow_internal == self.allow_internal,
            r.only_enabled == self.only_enabled,
    {
        ToolFilter { exclude: names, ..self }
    }

    /// The same filter, passing internal tools too.
    pub fn with_internal(self) -> (r: Self)
        ensures
            r.allow_internal,
            r.allowed == self.allowed,
            r.exclude == self.exclude,
            r.only_enabled == self.only_enabled,
    {
        ToolFilter { allow_internal: true, ..self }
    }

    /// Whether a tool passes this filter.
    pub fn matches(&self, tool: &ToolInfo) -> (r: bool)
        ensures
            r == spec_filter_matches(*self, *tool),
    {
        if tool.internal && !self.allow_internal {
            return false;
        }
        if self.only_enabled && !tool.enabled {
            return false;
        }
        if contains_string(&self.exclude, &tool.name) {
            return false;
        }
        match &self.allowed {
            Some(allowed) => contains_string(allowed, &tool.name),
            None => true,
        }
    }
}

/// Whether a list holds the string.
fn contains_string(v: &Vec<String>, want: &String) -> (r: bool)
    ensures
        r == v.deep_view().contains(want@),
{
    let mut i: usize = 0;
    while i < v.len()
        invariant
            i <= v@.len(),
            forall|k: int| 0 <= k < i ==> v.deep_view()[k] != want@,
        decreases v@.len() - i,
    {
        if v[i] == *want {
            proof {
                assert(v.deep_view()[i as int] == want@);
            }
            return true;
        }
        i = i + 1;
    }
    proof {
        if v.deep_view().contains(want@) {
            let k = choose|k: int| 0 <= k < v.deep_view().len() && v.deep_view()[k] == want@;
            assert(false);
        }
    }
    false
}

/// Errors of a tool-calling client.
#[derive(Debug)]
pub enum McpError {
    /// The transport could not be opened.
    ConnectionFailed(String),
    /// The session handshake failed.
    InitializationFailed(String),
    /// A tool call failed.
    ToolCallFailed(String),
    /// Reading or writing the transport failed.
    Io(String),
    /// The peer broke the protocol.
    Protocol(String),
}

pub type McpResult<T> = Result<T, McpError>;

impl McpError {
    /// A human-readable description, in place of a `Display` impl.
    pub fn message(&self) -> (r: String)
        ensures
            match self {
                McpError::ConnectionFailed(m) => r@ == "Connection failed: "@ + m@,
                McpError::InitializationFailed(m) => r@ == "Initialization failed: "@ + m@,
                McpError::ToolCallFailed(m) => r@ == "Tool call failed: "@ + m@,
                McpError::Io(m) => r@ == "IO error: "@ + m@,
                McpError::Protocol(m) => r@ == "Protocol error: "@ + m@,
            },
    {
        match self {
            McpError::ConnectionFailed(m) => {
                let mut s = String::from_str("Connection failed: ");
                s.append(m.as_str());
                s
            },
            McpError::InitializationFailed(m) => {
                let mut s = String::from_str("Initialization failed: ");
                s.append(m.as_str());
                s
            },
            McpError::ToolCallFailed(m) => {
                let mut s = String::from_str("Tool call failed: ");
                s.append(m.as_str());
                s
            },
            McpError::Io(m) => {
                let mut s = String::from_str("IO error: ");
                s.append(m.as_str());
                s
            },
            McpError::Protocol(m) => {
                let mut s = String::from_str("Protocol error: ");
                s.append(m.as_str());
                s
            },
        }
    }
}

/// The user-visible tools among the discovered ones: exactly the tools whose
/// names are not internal, in their original order.
pub fn filter_user_tools(tools: Vec<ToolInfo>) -> (r: Vec<ToolInfo>)
    ensures
        r@ == tools@.filter(|t: ToolInfo| !spec_is_internal_tool(t.name@)),
{
    let ghost orig = tools@;
    let ghost pred = |t: ToolInfo| !spec_is_internal_tool(t.name@);
    let mut out: Vec<ToolInfo> = Vec::new();
    let mut rest = tools;
    proof {
        reveal_with_fuel(Seq::<ToolInfo>::filter, 1);
        assert(orig.subrange(0, 0) =~= Seq::<ToolInfo>::empty());
        assert(out@ =~= orig.subrange(0, 0).filter(pred));
    }
    let ghost mut done: int = 0;
    while rest.len() > 0
        invariant
            0 <= done <= orig.len(),
            pred == (|t: ToolInfo| !spec_is_internal_tool(t.name@)),
            rest@ == orig.subrange(done, orig.len() as int),
            out@ == orig.subrange(0, done).filter(pred),
        decreases rest@.len(),
    {
        let t = rest.remove(0);
        proof {
            assert(t == orig[done]);
            assert(rest@ =~= orig.subrange(done + 1, orig.len() as int));
        }
        let keep = !is_internal_tool(t.name.as_str());
        if keep {
            out.push(t);
        }
        proof {
            let prev = orig.subrange(0, done);
            let cur = orig.subrange(0, done + 1);
            assert(cur.drop_last() =~= prev);
            assert(cur.last() == orig[done]);
            reveal_with_fuel(Seq::<ToolInfo>::filter, 2);
            assert(out@ =~= cur.filter(pred));
            done = done + 1;
        }
    }
    proof {
        assert(orig.subrange(0, orig.len() as int) =~= orig);
    }
    out
}

/// A token that never reports cancellation; for work that runs to the end.
pub struct NeverCancelledToken;

impl NeverCancelledToken {
    /// Whether cancellation was requested: never.
    pub fn is_cancelled(&self) -> (r: bool)
        ensures
            !r,
    {
        false
    }
}

} // verus!

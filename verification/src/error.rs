//! Error taxonomy of the orchestrator.

use vstd::prelude::*;
use crate::json::Json;

verus! {

/// Every failure the library reports, one variant per kind.
#[derive(Debug)]
pub enum ClaudeError {
    /// The agent binary could not be found.
    CliNotFound(String),
    /// Connecting to or spawning the child failed.
    Connection(String),
    /// The child exited with a failure status.
    Process { message: String, exit_code: i32, stderr: Option<String> },
    /// A frame was not a well-formed JSON value.
    JsonDecode(String),
    /// A frame parsed as JSON but not as a known message shape.
    MessageParse { message: String, data: Option<Json> },
    /// The transport refused or lost a read or write.
    Transport(String),
    /// The control protocol was used out of order or spoke an unknown shape.
    ControlProtocol(String),
    /// A hook callback failed.
    Hook(String),
    /// An MCP configuration or exchange failed.
    Mcp(String),
    /// An I/O operation failed.
    Io(String),
    /// An operation took longer than its deadline.
    Timeout(String),
    /// A configuration value was rejected.
    InvalidConfig(String),
    /// No session with the given id exists.
    SessionNotFound(String),
    /// The session has completed and takes no further prompts.
    SessionComplete(String),
    /// The active-session limit was reached.
    MaxSessionsReached(usize),
    /// An agent definition was rejected.
    InvalidAgentConfiguration(String),
    /// A prompt template could not be rendered.
    PromptTemplateError { template: String, message: String },
}

impl ClaudeError {
    /// Create a CLI-not-found error with the standard installation hint.
    pub fn cli_not_found() -> (r: Self)
        ensures
            r is CliNotFound,
    {
        ClaudeError::CliNotFound("agent binary not found on this machine".to_owned())
    }

    /// Create a connection error.
    pub fn connection(msg: &str) -> (r: Self)
        ensures
            r matches ClaudeError::Connection(m) && m@ == msg@,
    {
        ClaudeError::Connection(msg.to_owned())
    }

    /// Create a process error.
    pub fn process(msg: &str, exit_code: i32, stderr: Option<String>) -> (r: Self)
        ensures
            r matches ClaudeError::Process { message, exit_code: c, stderr: s }
                && message@ == msg@ && c == exit_code && s == stderr,
    {
        ClaudeError::Process { message: msg.to_owned(), exit_code, stderr }
    }

    /// Create a message parse error carrying the raw value.
    pub fn message_parse(msg: &str, data: Option<Json>) -> (r: Self)
        ensures
            r matches ClaudeError::MessageParse { message, data: d }
                && message@ == msg@ && d == data,
    {
        ClaudeError::MessageParse { message: msg.to_owned(), data }
    }

    /// Create a transport error.
    pub fn transport(msg: &str) -> (r: Self)
        ensures
            r matches ClaudeError::Transport(m) && m@ == msg@,
    {
        ClaudeError::Transport(msg.to_owned())
    }

    /// Create a control protocol error.
    pub fn control_protocol(msg: &str) -> (r: Self)
        ensures
            r matches ClaudeError::ControlProtocol(m) && m@ == msg@,
    {
        ClaudeError::ControlProtocol(msg.to_owned())
    }

    /// Alias for `control_protocol`, kept for the protocol handler.
    pub fn protocol_error(msg: &str) -> (r: Self)
        ensures
            r matches ClaudeError::ControlProtocol(m) && m@ == msg@,
    {
        ClaudeError::ControlProtocol(msg.to_owned())
    }

    /// Create a JSON encode error.
    pub fn json_encode(msg: &str) -> (r: Self)
        ensures
            r matches ClaudeError::JsonDecode(m) && m@ == msg@,
    {
        ClaudeError::JsonDecode(msg.to_owned())
    }

    /// Create a JSON decode error.
    pub fn json_decode(msg: &str) -> (r: Self)
        ensures
            r matches ClaudeError::JsonDecode(m) && m@ == msg@,
    {
        ClaudeError::JsonDecode(msg.to_owned())
    }

    /// Create a hook error.
    pub fn hook(msg: &str) -> (r: Self)
        ensures
            r matches ClaudeError::Hook(m) && m@ == msg@,
    {
        ClaudeError::Hook(msg.to_owned())
    }

    /// Create an MCP error.
    pub fn mcp(msg: &str) -> (r: Self)
        ensures
            r matches ClaudeError::Mcp(m) && m@ == msg@,
    {
        ClaudeError::Mcp(msg.to_owned())
    }

    /// Create a timeout error.
    pub fn timeout(msg: &str) -> (r: Self)
        ensures
            r matches ClaudeError::Timeout(m) && m@ == msg@,
    {
        ClaudeError::Timeout(msg.to_owned())
    }

    /// Create an invalid-configuration error.
    pub fn invalid_config(msg: &str) -> (r: Self)
        ensures
            r matches ClaudeError::InvalidConfig(m) && m@ == msg@,
    {
        ClaudeError::InvalidConfig(msg.to_owned())
    }

    /// Create a session-not-found error for the given session id.
    pub fn session_not_found(session_id: &str) -> (r: Self)
        ensures
            r matches ClaudeError::SessionNotFound(m) && m@ == session_id@,
    {
        ClaudeError::SessionNotFound(session_id.to_owned())
    }

    /// Create a session-complete error for the given session id.
    pub fn session_complete(session_id: &str) -> (r: Self)
        ensures
            r matches ClaudeError::SessionComplete(m) && m@ == session_id@,
    {
        ClaudeError::SessionComplete(session_id.to_owned())
    }

    /// Create a max-sessions error.
    pub fn max_sessions_reached(max: usize) -> (r: Self)
        ensures
            r matches ClaudeError::MaxSessionsReached(m) && m == max,
    {
        ClaudeError::MaxSessionsReached(max)
    }

    /// Create an invalid-agent-configuration error.
    pub fn invalid_agent_config(msg: &str) -> (r: Self)
        ensures
            r matches ClaudeError::InvalidAgentConfiguration(m) && m@ == msg@,
    {
        ClaudeError::InvalidAgentConfiguration(msg.to_owned())
    }
}

} // verus!

//! A multi-session orchestrator core for conversational subprocess agents.
//!
//! The library holds the verified logic of the orchestrator: the wire codec
//! for line-delimited JSON frames, the control protocol handler, the
//! per-session supervisor rules, the session manager with its bounded message
//! ring and retention-based garbage collection, the per-connection registry,
//! and the action-dispatched tool facade. Process I/O, timers and task
//! plumbing live outside the library and drive it by handing in plain values
//! (events, clock readings, parsed frames).

pub mod capabilities;
pub mod codec;
pub mod command;
pub mod encode;
pub mod error;
pub mod facade;
pub mod hooks;
pub mod identifiers;
pub mod json;
pub mod manager;
pub mod message;
pub mod permissions;
pub mod protocol;
pub mod registry;
pub mod session;
pub mod strutil;
pub mod transport;

pub use error::ClaudeError;
pub use facade::ClaudeAgentTool;
pub use hooks::HookManager;
pub use identifiers::{RequestId, SessionId, ToolName};
pub use json::Json;
pub use manager::AgentManager;
pub use message::parse_message;
pub use registry::AgentRegistry;

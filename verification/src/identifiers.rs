//! Newtype wrappers that keep session ids, tool names and request ids from
//! being mixed up.

use vstd::prelude::*;

verus! {

/// Session id newtype.
#[derive(Debug, PartialEq, Eq)]
pub struct SessionId(String);

impl View for SessionId {
    type V = Seq<char>;

    closed spec fn view(&self) -> Seq<char> {
        self.0@
    }
}

impl SessionId {
    /// Create a new session id.
    pub fn new(id: &str) -> (r: Self)
        ensures
            r@ == id@,
    {
        SessionId(id.to_owned())
    }

    /// The session id as a string slice.
    pub fn as_str(&self) -> (r: &str)
        ensures
            r@ == self@,
    {
        self.0.as_str()
    }
}

impl Clone for SessionId {
    /// A copy carrying the same id.
    fn clone(&self) -> (r: Self)
        ensures
            r@ == self@,
    {
        SessionId(self.0.clone())
    }
}

/// Tool name newtype.
#[derive(Debug, PartialEq, Eq)]
pub struct ToolName(String);

impl View for ToolName {
    type V = Seq<char>;

    closed spec fn view(&self) -> Seq<char> {
        self.0@
    }
}

impl ToolName {
    /// Create a new tool name.
    pub fn new(name: &str) -> (r: Self)
        ensures
            r@ == name@,
    {
        ToolName(name.to_owned())
    }

    /// The tool name as a string slice.
    pub fn as_str(&self) -> (r: &str)
        ensures
            r@ == self@,
    {
        self.0.as_str()
    }
}

impl Clone for ToolName {
    /// A copy carrying the same name.
    fn clone(&self) -> (r: Self)
        ensures
            r@ == self@,
    {
        ToolName(self.0.clone())
    }
}

/// Request id newtype for the control protocol.
#[derive(Debug, PartialEq, Eq)]
pub struct RequestId(String);

impl View for RequestId {
    type V = Seq<char>;

    closed spec fn view(&self) -> Seq<char> {
        self.0@
    }
}

impl RequestId {
    /// Create a new request id.
    pub fn new(id: &str) -> (r: Self)
        ensures
            r@ == id@,
    {
        RequestId(id.to_owned())
    }

    /// The request id as a string slice.
    pub fn as_str(&self) -> (r: &str)
        ensures
            r@ == self@,
    {
        self.0.as_str()
    }
}

impl Clone for RequestId {
    /// A copy carrying the same id.
    fn clone(&self) -> (r: Self)
        ensures
            r@ == self@,
    {
        RequestId(self.0.clone())
    }
}

} // verus!

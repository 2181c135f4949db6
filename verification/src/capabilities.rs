//! Client and server capability sets exchanged during protocol
//! initialization, and their JSON form.

use vstd::prelude::*;
use crate::json::{Json, JsonV, spec_lookup};

verus! {

/// Capabilities the client advertises.
#[derive(Debug, Clone, Copy, PartialEq, Eq, Structural)]
pub struct ClientCapabilities {
    pub bidirectional: bool,
    pub hooks: bool,
    pub permissions: bool,
    pub interrupts: bool,
}

impl ClientCapabilities {
    /// All features enabled.
    pub fn all_features() -> (r: Self)
        ensures
            r.bidirectional && r.hooks && r.permissions && r.interrupts,
    {
        ClientCapabilities { bidirectional: true, hooks: true, permissions: true, interrupts: true }
    }

    /// No features enabled.
    pub fn empty() -> (r: Self)
        ensures
            !r.bidirectional && !r.hooks && !r.permissions && !r.interrupts,
    {
        ClientCapabilities {
            bidirectional: false,
            hooks: false,
            permissions: false,
            interrupts: false,
        }
    }

    /// Only the bidirectional flag.
    pub fn bidirectional_only() -> (r: Self)
        ensures
            r.bidirectional && !r.hooks && !r.permissions && !r.interrupts,
    {
        ClientCapabilities {
            bidirectional: true,
            hooks: false,
            permissions: false,
            interrupts: false,
        }
    }

    /// Whether every flag set in `other` is set in `self`.
    pub fn contains(&self, other: Self) -> (r: bool)
        ensures
            r == ((other.bidirectional ==> self.bidirectional) && (other.hooks ==> self.hooks) && (
            other.permissions ==> self.permissions) && (other.interrupts ==> self.interrupts)),
    {
        (!other.bidirectional || self.bidirectional) && (!other.hooks || self.hooks)
            && (!other.permissions || self.permissions) && (!other.interrupts || self.interrupts)
    }

    /// The JSON object this set is sent as.
    pub open spec fn spec_to_json(self) -> JsonV {
        JsonV::Obj(
            seq![
                ("bidirectional"@, JsonV::Bool(self.bidirectional)),
                ("hooks"@, JsonV::Bool(self.hooks)),
                ("permissions"@, JsonV::Bool(self.permissions)),
                ("interrupts"@, JsonV::Bool(self.interrupts)),
            ],
        )
    }

    /// Encode as a JSON object of four booleans.
    pub fn to_json(&self) -> (r: Json)
        ensures
            r@ == self.spec_to_json(),
    {
        let mut members: Vec<(String, Json)> = Vec::new();
        members.push(("bidirectional".to_owned(), Json::Bool(self.bidirectional)));
        members.push(("hooks".to_owned(), Json::Bool(self.hooks)));
        members.push(("permissions".to_owned(), Json::Bool(self.permissions)));
        members.push(("interrupts".to_owned(), Json::Bool(self.interrupts)));
        let r = Json::Obj(members);
        proof {
            crate::json::lemma_jview_members_len(r->Obj_0@, 4);
            assert(r@ matches JsonV::Obj(m) && m =~= self.spec_to_json()->Obj_0) by {
                crate::json::lemma_jview_members_index(r->Obj_0@, 4, 0);
                crate::json::lemma_jview_members_index(r->Obj_0@, 4, 1);
                crate::json::lemma_jview_members_index(r->Obj_0@, 4, 2);
                crate::json::lemma_jview_members_index(r->Obj_0@, 4, 3);
            }
        }
        r
    }

    /// What decoding a JSON value into a client capability set yields.
    pub open spec fn spec_from_json(j: JsonV) -> Option<ClientCapabilities> {
        match j {
            JsonV::Obj(m) => match (
                spec_lookup(m, "bidirectional"@),
                spec_lookup(m, "hooks"@),
                spec_lookup(m, "permissions"@),
                spec_lookup(m, "interrupts"@),
            ) {
                (
                    Some(JsonV::Bool(b)),
                    Some(JsonV::Bool(h)),
                    Some(JsonV::Bool(p)),
                    Some(JsonV::Bool(i)),
                ) => Some(
                    ClientCapabilities { bidirectional: b, hooks: h, permissions: p, interrupts: i },
                ),
                _ => None,
            },
            _ => None,
        }
    }

    /// Decode from a JSON object of four booleans.
    pub fn from_json(j: &Json) -> (r: Option<ClientCapabilities>)
        ensures
            r == Self::spec_from_json(j@),
    {
        let b = match j.get("bidirectional") {
            Some(Json::Bool(b)) => *b,
            _ => { return None; },
        };
        let h = match j.get("hooks") {
            Some(Json::Bool(b)) => *b,
            _ => { return None; },
        };
        let p = match j.get("permissions") {
            Some(Json::Bool(b)) => *b,
            _ => { return None; },
        };
        let i = match j.get("interrupts") {
            Some(Json::Bool(b)) => *b,
            _ => { return None; },
        };
        Some(ClientCapabilities { bidirectional: b, hooks: h, permissions: p, interrupts: i })
    }
}

/// Capabilities the server advertises.
#[derive(Debug, Clone, Copy, PartialEq, Eq, Structural)]
pub struct ServerCapabilities {
    pub streaming: bool,
    pub tools: bool,
    pub mcp: bool,
}

impl ServerCapabilities {
    /// All features enabled.
    pub fn all_features() -> (r: Self)
        ensures
            r.streaming && r.tools && r.mcp,
    {
        ServerCapabilities { streaming: true, tools: true, mcp: true }
    }

    /// No features enabled.
    pub fn empty() -> (r: Self)
        ensures
            !r.streaming && !r.tools && !r.mcp,
    {
        ServerCapabilities { streaming: false, tools: false, mcp: false }
    }

    /// Whether every flag set in `other` is set in `self`.
    pub fn contains(&self, other: Self) -> (r: bool)
        ensures
            r == ((other.streaming ==> self.streaming) && (other.tools ==> self.tools) && (
            other.mcp ==> self.mcp)),
    {
        (!other.streaming || self.streaming) && (!other.tools || self.tools) && (!other.mcp
            || self.mcp)
    }

    /// The JSON object this set is sent as.
    pub open spec fn spec_to_json(self) -> JsonV {
        JsonV::Obj(
            seq![
                ("streaming"@, JsonV::Bool(self.streaming)),
                ("tools"@, JsonV::Bool(self.tools)),
                ("mcp"@, JsonV::Bool(self.mcp)),
            ],
        )
    }

    /// Encode as a JSON object of three booleans.
    pub fn to_json(&self) -> (r: Json)
        ensures
            r@ == self.spec_to_json(),
    {
        let mut members: Vec<(String, Json)> = Vec::new();
        members.push(("streaming".to_owned(), Json::Bool(self.streaming)));
        members.push(("tools".to_owned(), Json::Bool(self.tools)));
        members.push(("mcp".to_owned(), Json::Bool(self.mcp)));
        let r = Json::Obj(members);
        proof {
            crate::json::lemma_jview_members_len(r->Obj_0@, 3);
            assert(r@ matches JsonV::Obj(m) && m =~= self.spec_to_json()->Obj_0) by {
                crate::json::lemma_jview_members_index(r->Obj_0@, 3, 0);
                crate::json::lemma_jview_members_index(r->Obj_0@, 3, 1);
                crate::json::lemma_jview_members_index(r->Obj_0@, 3, 2);
            }
        }
        r
    }

    /// What decoding a JSON value into a server capability set yields.
    pub open spec fn spec_from_json(j: JsonV) -> Option<ServerCapabilities> {
        match j {
            JsonV::Obj(m) => match (
                spec_lookup(m, "streaming"@),
                spec_lookup(m, "tools"@),
                spec_lookup(m, "mcp"@),
            ) {
                (Some(JsonV::Bool(s)), Some(JsonV::Bool(t)), Some(JsonV::Bool(c))) => Some(
                    ServerCapabilities { streaming: s, tools: t, mcp: c },
                ),
                _ => None,
            },
            _ => None,
        }
    }

    /// Decode from a JSON object of three booleans.
    pub fn from_json(j: &Json) -> (r: Option<ServerCapabilities>)
        ensures
            r == Self::spec_from_json(j@),
    {
        let s = match j.get("streaming") {
            Some(Json::Bool(b)) => *b,
            _ => { return None; },
        };
        let t = match j.get("tools") {
            Some(Json::Bool(b)) => *b,
            _ => { return None; },
        };
        let c = match j.get("mcp") {
            Some(Json::Bool(b)) => *b,
            _ => { return None; },
        };
        Some(ServerCapabilities { streaming: s, tools: t, mcp: c })
    }
}

} // verus!

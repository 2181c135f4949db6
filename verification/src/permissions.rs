//! Permission data model: modes, rules, requests from the child, and the
//! results the orchestrator answers with, with their JSON form.

use vstd::prelude::*;
use crate::identifiers::ToolName;
use crate::json::{Json, JsonV, jview, jview_list, lemma_list_view, lemma_members_view,
    spec_lookup};

verus! {

/// Permission modes for tool execution.
#[derive(Debug, Clone, Copy, PartialEq, Eq, Structural)]
pub enum PermissionMode {
    /// The child prompts for dangerous tools.
    Default,
    /// File edits are accepted automatically.
    AcceptEdits,
    /// Plan mode.
    Plan,
    /// Every tool is allowed.
    BypassPermissions,
}

impl PermissionMode {
    /// The flag value handed to the child on its command line.
    pub fn as_flag(&self) -> (r: &'static str)
        ensures
            r@ == spec_mode_flag(*self),
    {
        match self {
            PermissionMode::Default => "default",
            PermissionMode::AcceptEdits => "acceptEdits",
            PermissionMode::Plan => "plan",
            PermissionMode::BypassPermissions => "bypassPermissions",
        }
    }
}

/// The command-line spelling of each permission mode.
pub open spec fn spec_mode_flag(m: PermissionMode) -> Seq<char> {
    match m {
        PermissionMode::Default => "default"@,
        PermissionMode::AcceptEdits => "acceptEdits"@,
        PermissionMode::Plan => "plan"@,
        PermissionMode::BypassPermissions => "bypassPermissions"@,
    }
}

/// Where settings may come from.
#[derive(Debug, Clone, Copy, PartialEq, Eq, Structural)]
pub enum SettingSource {
    User,
    Project,
    Local,
}

impl SettingSource {
    /// The flag value handed to the child on its command line.
    pub fn as_flag(&self) -> (r: &'static str)
        ensures
            r@ == spec_source_flag(*self),
    {
        match self {
            SettingSource::User => "user",
            SettingSource::Project => "project",
            SettingSource::Local => "local",
        }
    }
}

/// The command-line spelling of each setting source.
pub open spec fn spec_source_flag(s: SettingSource) -> Seq<char> {
    match s {
        SettingSource::User => "user"@,
        SettingSource::Project => "project"@,
        SettingSource::Local => "local"@,
    }
}

/// Where a permission update is stored.
#[derive(Debug, Clone, Copy, PartialEq, Eq, Structural)]
pub enum PermissionUpdateDestination {
    UserSettings,
    ProjectSettings,
    LocalSettings,
    Session,
}

/// What a permission rule decides.
#[derive(Debug, Clone, Copy, PartialEq, Eq, Structural)]
pub enum PermissionBehavior {
    Allow,
    Deny,
    Ask,
}

/// One permission rule.
#[derive(Debug, Clone)]
pub struct PermissionRuleValue {
    pub tool_name: String,
    pub rule_content: Option<String>,
}

/// A change to the permission configuration.
#[derive(Debug, Clone)]
pub enum PermissionUpdate {
    AddRules {
        rules: Option<Vec<PermissionRuleValue>>,
        destination: Option<PermissionUpdateDestination>,
    },
    ReplaceRules {
        rules: Option<Vec<PermissionRuleValue>>,
        destination: Option<PermissionUpdateDestination>,
    },
    RemoveRules {
        rules: Option<Vec<PermissionRuleValue>>,
        destination: Option<PermissionUpdateDestination>,
    },
    SetMode { mode: PermissionMode, destination: Option<PermissionUpdateDestination> },
    AddDirectories {
        directories: Option<Vec<String>>,
        destination: Option<PermissionUpdateDestination>,
    },
    RemoveDirectories {
        directories: Option<Vec<String>>,
        destination: Option<PermissionUpdateDestination>,
    },
}

/// Context handed with a permission request; the orchestrator carries the
/// suggestions through without interpreting them.
#[derive(Debug)]
pub struct ToolPermissionContext {
    pub suggestions: Vec<Json>,
}

/// The shape of a permission context: the suggestion payloads.
#[verifier::ext_equal]
pub ghost struct ToolPermissionContextV {
    pub suggestions: Seq<JsonV>,
}

impl View for ToolPermissionContext {
    type V = ToolPermissionContextV;

    open spec fn view(&self) -> ToolPermissionContextV {
        ToolPermissionContextV {
            suggestions: jview_list(self.suggestions@, self.suggestions@.len() as int),
        }
    }
}

/// A permission request from the child.
#[derive(Debug)]
pub struct PermissionRequest {
    pub tool_name: ToolName,
    pub tool_input: Json,
    pub context: ToolPermissionContext,
}

/// The shape of a permission request.
#[verifier::ext_equal]
pub ghost struct PermissionRequestV {
    pub tool_name: Seq<char>,
    pub tool_input: JsonV,
    pub context: ToolPermissionContextV,
}

impl View for PermissionRequest {
    type V = PermissionRequestV;

    open spec fn view(&self) -> PermissionRequestV {
        PermissionRequestV {
            tool_name: self.tool_name@,
            tool_input: self.tool_input@,
            context: self.context@,
        }
    }
}

/// The allowing permission result.
#[derive(Debug)]
pub struct PermissionResultAllow {
    pub updated_input: Option<Json>,
}

/// The denying permission result.
#[derive(Debug)]
pub struct PermissionResultDeny {
    pub message: String,
    pub interrupt: bool,
}

/// The answer to a permission request.
#[derive(Debug)]
pub enum PermissionResult {
    Allow(PermissionResultAllow),
    Deny(PermissionResultDeny),
}

/// The shape of a permission result.
#[verifier::ext_equal]
pub ghost enum PermissionResultV {
    Allow { updated_input: Option<JsonV> },
    Deny { message: Seq<char>, interrupt: bool },
}

impl View for PermissionResult {
    type V = PermissionResultV;

    open spec fn view(&self) -> PermissionResultV {
        match self {
            PermissionResult::Allow(a) => PermissionResultV::Allow {
                updated_input: match a.updated_input {
                    Option::Some(v) => Option::Some(v@),
                    Option::None => Option::None,
                },
            },
            PermissionResult::Deny(d) => PermissionResultV::Deny {
                message: d.message@,
                interrupt: d.interrupt,
            },
        }
    }
}

impl Clone for ToolPermissionContext {
    /// A copy whose view equals the original's.
    fn clone(&self) -> (r: Self)
        ensures
            r@ == self@,
    {
        let mut suggestions: Vec<Json> = Vec::new();
        let mut i: usize = 0;
        while i < self.suggestions.len()
            invariant
                i <= self.suggestions@.len(),
                suggestions@.len() == i,
                forall|k: int|
                    0 <= k < i ==> jview(#[trigger] suggestions@[k]) == jview(
                        self.suggestions@[k],
                    ),
            decreases self.suggestions@.len() - i,
        {
            suggestions.push(self.suggestions[i].clone());
            i = i + 1;
        }
        proof {
            lemma_list_view(suggestions@);
            lemma_list_view(self.suggestions@);
            assert(jview_list(suggestions@, suggestions@.len() as int) =~= jview_list(
                self.suggestions@,
                self.suggestions@.len() as int,
            ));
        }
        ToolPermissionContext { suggestions }
    }
}

impl Clone for PermissionRequest {
    /// A copy whose view equals the original's.
    fn clone(&self) -> (r: Self)
        ensures
            r@ == self@,
    {
        let r = PermissionRequest {
            tool_name: self.tool_name.clone(),
            tool_input: self.tool_input.clone(),
            context: self.context.clone(),
        };
        proof {
            assert(r@ =~= self@);
        }
        r
    }
}

impl Clone for PermissionResult {
    /// A copy whose view equals the original's.
    fn clone(&self) -> (r: Self)
        ensures
            r@ == self@,
    {
        match self {
            PermissionResult::Allow(a) => PermissionResult::Allow(
                PermissionResultAllow {
                    updated_input: match &a.updated_input {
                        Option::Some(v) => Option::Some(v.clone()),
                        Option::None => Option::None,
                    },
                },
            ),
            PermissionResult::Deny(d) => PermissionResult::Deny(
                PermissionResultDeny { message: d.message.clone(), interrupt: d.interrupt },
            ),
        }
    }
}

/// The JSON a permission result is sent as.
pub open spec fn spec_enc_permission_result(r: PermissionResultV) -> JsonV {
    match r {
        PermissionResultV::Allow { updated_input } => match updated_input {
            Option::Some(v) => JsonV::Obj(
                seq![("type"@, JsonV::Str("allow"@)), ("updated_input"@, v)],
            ),
            Option::None => JsonV::Obj(seq![("type"@, JsonV::Str("allow"@))]),
        },
        PermissionResultV::Deny { message, interrupt } => JsonV::Obj(
            seq![
                ("type"@, JsonV::Str("deny"@)),
                ("message"@, JsonV::Str(message)),
                ("interrupt"@, JsonV::Bool(interrupt)),
            ],
        ),
    }
}

/// Encode a permission result for the wire.
pub fn encode_permission_result(r: &PermissionResult) -> (out: Json)
    ensures
        out@ == spec_enc_permission_result(r@),
{
    match r {
        PermissionResult::Allow(a) => {
            let mut members: Vec<(String, Json)> = Vec::new();
            members.push(("type".to_owned(), Json::Str("allow".to_owned())));
            match &a.updated_input {
                Option::Some(v) => {
                    members.push(("updated_input".to_owned(), v.clone()));
                },
                Option::None => {},
            }
            let out = Json::Obj(members);
            proof {
                lemma_members_view(out->Obj_0@);
                assert(out@->Obj_0 =~= spec_enc_permission_result(r@)->Obj_0);
            }
            out
        },
        PermissionResult::Deny(d) => {
            let mut members: Vec<(String, Json)> = Vec::new();
            members.push(("type".to_owned(), Json::Str("deny".to_owned())));
            members.push(("message".to_owned(), Json::Str(d.message.clone())));
            members.push(("interrupt".to_owned(), Json::Bool(d.interrupt)));
            let out = Json::Obj(members);
            proof {
                lemma_members_view(out->Obj_0@);
                assert(out@->Obj_0 =~= spec_enc_permission_result(r@)->Obj_0);
            }
            out
        },
    }
}

/// What decoding a JSON value into a permission result yields.
pub open spec fn spec_decode_permission_result(j: JsonV) -> Option<PermissionResultV> {
    match j {
        JsonV::Obj(m) => match spec_lookup(m, "type"@) {
            Option::Some(JsonV::Str(t)) => if t == "allow"@ {
                Option::Some(
                    PermissionResultV::Allow { updated_input: spec_lookup(m, "updated_input"@) },
                )
            } else if t == "deny"@ {
                match (spec_lookup(m, "message"@), spec_lookup(m, "interrupt"@)) {
                    (Option::Some(JsonV::Str(msg)), Option::Some(JsonV::Bool(i))) => Option::Some(
                        PermissionResultV::Deny { message: msg, interrupt: i },
                    ),
                    (Option::Some(JsonV::Str(msg)), Option::None) => Option::Some(
                        PermissionResultV::Deny { message: msg, interrupt: false },
                    ),
                    _ => Option::None,
                }
            } else {
                Option::None
            },
            _ => Option::None,
        },
        _ => Option::None,
    }
}

/// Decode a permission result from the wire.
pub fn decode_permission_result(j: &Json) -> (r: Option<PermissionResult>)
    ensures
        match r {
            Option::Some(res) => spec_decode_permission_result(j@) == Option::Some(res@),
            Option::None => spec_decode_permission_result(j@) is None,
        },
{
    let t = match j.get("type") {
        Option::Some(Json::Str(t)) => t,
        _ => { return Option::None; },
    };
    if crate::strutil::str_eq(t.as_str(), "allow") {
        let updated_input = match j.get("updated_input") {
            Option::Some(v) => Option::Some(v.clone()),
            Option::None => Option::None,
        };
        let res = PermissionResult::Allow(PermissionResultAllow { updated_input });
        proof {
            assert(spec_decode_permission_result(j@) =~= Option::Some(res@));
        }
        Option::Some(res)
    } else if crate::strutil::str_eq(t.as_str(), "deny") {
        let msg = match j.get("message") {
            Option::Some(Json::Str(s)) => s.clone(),
            _ => { return Option::None; },
        };
        let interrupt = match j.get("interrupt") {
            Option::Some(Json::Bool(b)) => *b,
            Option::Some(_) => { return Option::None; },
            Option::None => false,
        };
        Option::Some(PermissionResult::Deny(PermissionResultDeny { message: msg, interrupt }))
    } else {
        Option::None
    }
}

/// The JSON a permission request is carried as.
pub open spec fn spec_enc_permission_request(r: PermissionRequestV) -> JsonV {
    JsonV::Obj(
        seq![
            ("tool_name"@, JsonV::Str(r.tool_name)),
            ("tool_input"@, r.tool_input),
            (
                "context"@,
                JsonV::Obj(seq![("suggestions"@, JsonV::Arr(r.context.suggestions))]),
            ),
        ],
    )
}

/// Encode a permission request for the wire.
pub fn encode_permission_request(r: &PermissionRequest) -> (out: Json)
    ensures
        out@ == spec_enc_permission_request(r@),
{
    let mut suggestions: Vec<Json> = Vec::new();
    let items = &r.context.suggestions;
    let mut i: usize = 0;
    while i < items.len()
        invariant
            i <= items@.len(),
            suggestions@.len() == i,
            forall|k: int| 0 <= k < i ==> jview(#[trigger] suggestions@[k]) == jview(items@[k]),
        decreases items@.len() - i,
    {
        suggestions.push(items[i].clone());
        i = i + 1;
    }
    proof {
        lemma_list_view(suggestions@);
        lemma_list_view(items@);
        assert(jview_list(suggestions@, suggestions@.len() as int) =~= jview_list(
            items@,
            items@.len() as int,
        ));
    }
    let mut ctx_members: Vec<(String, Json)> = Vec::new();
    ctx_members.push(("suggestions".to_owned(), Json::Arr(suggestions)));
    let ctx = Json::Obj(ctx_members);
    let mut members: Vec<(String, Json)> = Vec::new();
    members.push(("tool_name".to_owned(), Json::Str(r.tool_name.as_str().to_owned())));
    members.push(("tool_input".to_owned(), r.tool_input.clone()));
    members.push(("context".to_owned(), ctx));
    let out = Json::Obj(members);
    proof {
        lemma_members_view(ctx->Obj_0@);
        assert(ctx@->Obj_0 =~= spec_enc_permission_request(r@)->Obj_0[2].1->Obj_0);
        lemma_members_view(out->Obj_0@);
        assert(out@->Obj_0 =~= spec_enc_permission_request(r@)->Obj_0);
    }
    out
}

/// What decoding a JSON value into a permission request yields. The request
/// object carries the tool name, the raw tool input, and a context whose
/// suggestions are kept as raw values.
pub open spec fn spec_decode_permission_request(j: JsonV) -> Option<PermissionRequestV> {
    match j {
        JsonV::Obj(m) => match (spec_lookup(m, "tool_name"@), spec_lookup(m, "tool_input"@)) {
            (Option::Some(JsonV::Str(name)), Option::Some(input)) => Option::Some(
                PermissionRequestV {
                    tool_name: name,
                    tool_input: input,
                    context: ToolPermissionContextV {
                        suggestions: match spec_lookup(m, "context"@) {
                            Option::Some(JsonV::Obj(cm)) => match spec_lookup(
                                cm,
                                "suggestions"@,
                            ) {
                                Option::Some(JsonV::Arr(s)) => s,
                                _ => Seq::empty(),
                            },
                            _ => Seq::empty(),
                        },
                    },
                },
            ),
            _ => Option::None,
        },
        _ => Option::None,
    }
}

/// Encoding a permission result and decoding it again yields the original
/// result.
pub proof fn lemma_permission_result_round_trip(r: PermissionResultV)
    ensures
        spec_decode_permission_result(spec_enc_permission_result(r)) == Option::Some(r),
{
    reveal_strlit("type");
    reveal_strlit("allow");
    reveal_strlit("deny");
    reveal_strlit("updated_input");
    reveal_strlit("message");
    reveal_strlit("interrupt");
    match r {
        PermissionResultV::Allow { updated_input } => {
            match updated_input {
                Option::Some(v) => {
                    reveal_strlit("type");
                    reveal_strlit("updated_input");
                    assert("type"@.len() == 4);
                    assert("updated_input"@.len() == 13);
                    let m = spec_enc_permission_result(r)->Obj_0;
                    assert(spec_lookup(m, "type"@) == Option::Some(JsonV::Str("allow"@)));
                    assert(m.drop_first()[0] == ("updated_input"@, v));
                    assert(spec_lookup(m.drop_first(), "updated_input"@) == Option::Some(v));
                    assert(m[0].0 == "type"@);
                    assert("type"@ != "updated_input"@);
                    assert(m[0].0 != "updated_input"@);
                    assert(spec_lookup(m, "updated_input"@) == Option::Some(v));
                },
                Option::None => {
                    reveal_strlit("type");
                    reveal_strlit("updated_input");
                    assert("type"@.len() == 4);
                    assert("updated_input"@.len() == 13);
                    let m = spec_enc_permission_result(r)->Obj_0;
                    assert(spec_lookup(m, "type"@) == Option::Some(JsonV::Str("allow"@)));
                    assert(m.drop_first() =~= Seq::<(Seq<char>, JsonV)>::empty());
                    assert(spec_lookup(m.drop_first(), "updated_input"@) is None);
                    assert(spec_lookup(m, "updated_input"@) is None);
                },
            }
            assert(spec_decode_permission_result(spec_enc_permission_result(r)) =~= Option::Some(
                r,
            ));
        },
        PermissionResultV::Deny { message, interrupt } => {
            assert("type"@.len() == 4);
            assert("message"@.len() == 7);
            assert("interrupt"@.len() == 9);
            assert("allow"@.len() == 5);
            assert("deny"@.len() == 4);
            let m = spec_enc_permission_result(r)->Obj_0;
            assert(spec_lookup(m, "type"@) == Option::Some(JsonV::Str("deny"@)));
            assert(m.drop_first()[0] == ("message"@, JsonV::Str(message)));
            assert(m.drop_first().drop_first()[0] == ("interrupt"@, JsonV::Bool(interrupt)));
            assert(spec_lookup(m.drop_first(), "message"@) == Option::Some(JsonV::Str(message)));
            assert(spec_lookup(m, "message"@) == Option::Some(JsonV::Str(message)));
            assert(spec_lookup(m.drop_first().drop_first(), "interrupt"@) == Option::Some(
                JsonV::Bool(interrupt),
            ));
            assert(spec_lookup(m.drop_first(), "interrupt"@) == Option::Some(
                JsonV::Bool(interrupt),
            ));
            assert(spec_lookup(m, "interrupt"@) == Option::Some(JsonV::Bool(interrupt)));
            assert("allow"@ != "deny"@);
            assert(spec_decode_permission_result(spec_enc_permission_result(r)) =~= Option::Some(
                r,
            ));
        },
    }
}

/// Decode a permission request from the wire.
pub fn decode_permission_request(j: &Json) -> (r: Option<PermissionRequest>)
    ensures
        match r {
            Option::Some(req) => spec_decode_permission_request(j@) == Option::Some(req@),
            Option::None => spec_decode_permission_request(j@) is None,
        },
{
    let name = match j.get("tool_name") {
        Option::Some(Json::Str(s)) => s.clone(),
        _ => { return Option::None; },
    };
    let input = match j.get("tool_input") {
        Option::Some(v) => v.clone(),
        Option::None => { return Option::None; },
    };
    let mut suggestions: Vec<Json> = Vec::new();
    match j.get("context") {
        Option::Some(ctx) => {
            match ctx.get("suggestions") {
                Option::Some(Json::Arr(items)) => {
                    let mut i: usize = 0;
                    while i < items.len()
                        invariant
                            i <= items@.len(),
                            suggestions@.len() == i,
                            forall|k: int|
                                0 <= k < i ==> jview(#[trigger] suggestions@[k]) == jview(
                                    items@[k],
                                ),
                        decreases items@.len() - i,
                    {
                        suggestions.push(items[i].clone());
                        i = i + 1;
                    }
                    proof {
                        lemma_list_view(suggestions@);
                        lemma_list_view(items@);
                        assert(jview_list(suggestions@, suggestions@.len() as int) =~= jview_list(
                            items@,
                            items@.len() as int,
                        ));
                    }
                },
                _ => {},
            }
        },
        Option::None => {},
    }
    let req = PermissionRequest {
        tool_name: ToolName::new(name.as_str()),
        tool_input: input,
        context: ToolPermissionContext { suggestions },
    };
    proof {
        assert(spec_decode_permission_request(j@) =~= Option::Some(req@));
    }
    Option::Some(req)
}

} // verus!

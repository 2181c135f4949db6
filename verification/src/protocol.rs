//! The control protocol: message shapes, their wire encoding and decoding,
//! the encode/decode round trip, and the protocol handler that allocates
//! request ids and routes inbound control frames.

use vstd::prelude::*;
use crate::capabilities::{ClientCapabilities, ServerCapabilities};
use crate::codec::spec_frame;
use crate::error::ClaudeError;
use crate::hooks::{HookEvent, parse_event, spec_event_name, spec_parse_event};
use crate::identifiers::RequestId;
use crate::json::{Json, JsonV, lemma_members_view, spec_lookup};
use crate::permissions::{PermissionRequest, PermissionRequestV, PermissionResult,
    PermissionResultV, decode_permission_request, decode_permission_result,
    encode_permission_request, encode_permission_result, spec_decode_permission_request,
    spec_decode_permission_result, spec_enc_permission_request, spec_enc_permission_result};
use crate::strutil::{spec_dec, str_eq};

verus! {

/// The version string this library advertises as its SDK version.
pub const SDK_VERSION: &'static str = "0.1.0";

/// A request from the orchestrator to the child.
#[derive(Debug, Clone)]
pub enum ControlRequest {
    /// Interrupt the current operation.
    Interrupt { id: RequestId },
    /// Send a message to the conversation.
    SendMessage { id: RequestId, content: String },
    /// Answer a hook invocation.
    HookResponse { id: RequestId, hook_id: String, response: Json },
    /// Answer a permission request.
    PermissionResponse { id: RequestId, request_id: RequestId, result: PermissionResult },
}

/// The shape of a control request.
#[verifier::ext_equal]
pub ghost enum ControlRequestV {
    Interrupt { id: Seq<char> },
    SendMessage { id: Seq<char>, content: Seq<char> },
    HookResponse { id: Seq<char>, hook_id: Seq<char>, response: JsonV },
    PermissionResponse { id: Seq<char>, request_id: Seq<char>, result: PermissionResultV },
}

impl View for ControlRequest {
    type V = ControlRequestV;

    open spec fn view(&self) -> ControlRequestV {
        match self {
            ControlRequest::Interrupt { id } => ControlRequestV::Interrupt { id: id@ },
            ControlRequest::SendMessage { id, content } => ControlRequestV::SendMessage {
                id: id@,
                content: content@,
            },
            ControlRequest::HookResponse { id, hook_id, response } => ControlRequestV::HookResponse {
                id: id@,
                hook_id: hook_id@,
                response: response@,
            },
            ControlRequest::PermissionResponse {
                id,
                request_id,
                result,
            } => ControlRequestV::PermissionResponse {
                id: id@,
                request_id: request_id@,
                result: result@,
            },
        }
    }
}

/// A response or event from the child.
#[derive(Debug, Clone)]
pub enum ControlResponse {
    /// A request succeeded.
    Success { id: RequestId, data: Option<Json> },
    /// A request failed.
    Error { id: RequestId, message: String, code: Option<String> },
    /// A hook invocation from the child.
    Hook { id: String, event: HookEvent, event_data: Option<Json> },
    /// A permission request from the child.
    Permission { id: RequestId, request: PermissionRequest },
}

/// The shape of a control response.
#[verifier::ext_equal]
pub ghost enum ControlResponseV {
    Success { id: Seq<char>, data: Option<JsonV> },
    Error { id: Seq<char>, message: Seq<char>, code: Option<Seq<char>> },
    Hook { id: Seq<char>, event: HookEvent, event_data: Option<JsonV> },
    Permission { id: Seq<char>, request: PermissionRequestV },
}

impl View for ControlResponse {
    type V = ControlResponseV;

    open spec fn view(&self) -> ControlResponseV {
        match self {
            ControlResponse::Success { id, data } => ControlResponseV::Success {
                id: id@,
                data: match data {
                    Option::Some(v) => Option::Some(v@),
                    Option::None => Option::None,
                },
            },
            ControlResponse::Error { id, message, code } => ControlResponseV::Error {
                id: id@,
                message: message@,
                code: match code {
                    Option::Some(c) => Option::Some(c@),
                    Option::None => Option::None,
                },
            },
            ControlResponse::Hook { id, event, event_data } => ControlResponseV::Hook {
                id: id@,
                event: *event,
                event_data: match event_data {
                    Option::Some(v) => Option::Some(v@),
                    Option::None => Option::None,
                },
            },
            ControlResponse::Permission { id, request } => ControlResponseV::Permission {
                id: id@,
                request: request@,
            },
        }
    }
}

/// The initialization request.
#[derive(Debug, Clone)]
pub struct InitRequest {
    pub protocol_version: String,
    pub sdk_version: String,
    pub capabilities: ClientCapabilities,
}

/// The shape of an initialization request.
#[verifier::ext_equal]
pub ghost struct InitRequestV {
    pub protocol_version: Seq<char>,
    pub sdk_version: Seq<char>,
    pub capabilities: ClientCapabilities,
}

impl View for InitRequest {
    type V = InitRequestV;

    open spec fn view(&self) -> InitRequestV {
        InitRequestV {
            protocol_version: self.protocol_version@,
            sdk_version: self.sdk_version@,
            capabilities: self.capabilities,
        }
    }
}

/// The initialization response.
#[derive(Debug, Clone)]
pub struct InitResponse {
    pub protocol_version: String,
    pub cli_version: String,
    pub capabilities: ServerCapabilities,
    pub session_id: String,
}

/// The shape of an initialization response.
#[verifier::ext_equal]
pub ghost struct InitResponseV {
    pub protocol_version: Seq<char>,
    pub cli_version: Seq<char>,
    pub capabilities: ServerCapabilities,
    pub session_id: Seq<char>,
}

impl View for InitResponse {
    type V = InitResponseV;

    open spec fn view(&self) -> InitResponseV {
        InitResponseV {
            protocol_version: self.protocol_version@,
            cli_version: self.cli_version@,
            capabilities: self.capabilities,
            session_id: self.session_id@,
        }
    }
}

/// A whole control frame.
#[derive(Debug, Clone)]
pub enum ControlMessage {
    Request(ControlRequest),
    Response(ControlResponse),
    Init(InitRequest),
    InitResponse(InitResponse),
}

/// The shape of a control frame.
#[verifier::ext_equal]
pub ghost enum ControlMessageV {
    Request(ControlRequestV),
    Response(ControlResponseV),
    Init(InitRequestV),
    InitResponse(InitResponseV),
}

impl View for ControlMessage {
    type V = ControlMessageV;

    open spec fn view(&self) -> ControlMessageV {
        match self {
            ControlMessage::Request(r) => ControlMessageV::Request(r@),
            ControlMessage::Response(r) => ControlMessageV::Response(r@),
            ControlMessage::Init(i) => ControlMessageV::Init(i@),
            ControlMessage::InitResponse(i) => ControlMessageV::InitResponse(i@),
        }
    }
}

/// The wire name of a request's method.
pub open spec fn spec_method_name(r: ControlRequestV) -> Seq<char> {
    match r {
        ControlRequestV::Interrupt { .. } => "interrupt"@,
        ControlRequestV::SendMessage { .. } => "send_message"@,
        ControlRequestV::HookResponse { .. } => "hook_response"@,
        ControlRequestV::PermissionResponse { .. } => "permission_response"@,
    }
}

/// The `params` object of a request.
pub open spec fn spec_request_params(r: ControlRequestV) -> Seq<(Seq<char>, JsonV)> {
    match r {
        ControlRequestV::Interrupt { id } => seq![("id"@, JsonV::Str(id))],
        ControlRequestV::SendMessage { id, content } => seq![
            ("id"@, JsonV::Str(id)),
            ("content"@, JsonV::Str(content)),
        ],
        ControlRequestV::HookResponse { id, hook_id, response } => seq![
            ("id"@, JsonV::Str(id)),
            ("hook_id"@, JsonV::Str(hook_id)),
            ("response"@, response),
        ],
        ControlRequestV::PermissionResponse { id, request_id, result } => seq![
            ("id"@, JsonV::Str(id)),
            ("request_id"@, JsonV::Str(request_id)),
            ("result"@, spec_enc_permission_result(result)),
        ],
    }
}

/// The JSON a whole control frame is sent as.
pub open spec fn spec_enc_control(m: ControlMessageV) -> JsonV {
    match m {
        ControlMessageV::Request(r) => JsonV::Obj(
            seq![
                ("type"@, JsonV::Str("request"@)),
                ("method"@, JsonV::Str(spec_method_name(r))),
                ("params"@, JsonV::Obj(spec_request_params(r))),
            ],
        ),
        ControlMessageV::Response(r) => match r {
            ControlResponseV::Success { id, data } => JsonV::Obj(
                seq![
                    ("type"@, JsonV::Str("response"@)),
                    ("status"@, JsonV::Str("success"@)),
                    ("id"@, JsonV::Str(id)),
                    (
                        "data"@,
                        match data {
                            Option::Some(v) => v,
                            Option::None => JsonV::Null,
                        },
                    ),
                ],
            ),
            ControlResponseV::Error { id, message, code } => JsonV::Obj(
                seq![
                    ("type"@, JsonV::Str("response"@)),
                    ("status"@, JsonV::Str("error"@)),
                    ("id"@, JsonV::Str(id)),
                    ("message"@, JsonV::Str(message)),
                    (
                        "code"@,
                        match code {
                            Option::Some(c) => JsonV::Str(c),
                            Option::None => JsonV::Null,
                        },
                    ),
                ],
            ),
            ControlResponseV::Hook { id, event, event_data } => match event_data {
                Option::Some(v) => JsonV::Obj(
                    seq![
                        ("type"@, JsonV::Str("response"@)),
                        ("status"@, JsonV::Str("hook"@)),
                        ("id"@, JsonV::Str(id)),
                        ("event"@, JsonV::Str(spec_event_name(event))),
                        ("event_data"@, v),
                    ],
                ),
                Option::None => JsonV::Obj(
                    seq![
                        ("type"@, JsonV::Str("response"@)),
                        ("status"@, JsonV::Str("hook"@)),
                        ("id"@, JsonV::Str(id)),
                        ("event"@, JsonV::Str(spec_event_name(event))),
                    ],
                ),
            },
            ControlResponseV::Permission { id, request } => JsonV::Obj(
                seq![
                    ("type"@, JsonV::Str("response"@)),
                    ("status"@, JsonV::Str("permission"@)),
                    ("id"@, JsonV::Str(id)),
                    ("request"@, spec_enc_permission_request(request)),
                ],
            ),
        },
        ControlMessageV::Init(i) => JsonV::Obj(
            seq![
                ("type"@, JsonV::Str("init"@)),
                ("protocol_version"@, JsonV::Str(i.protocol_version)),
                ("sdk_version"@, JsonV::Str(i.sdk_version)),
                ("capabilities"@, i.capabilities.spec_to_json()),
            ],
        ),
        ControlMessageV::InitResponse(i) => JsonV::Obj(
            seq![
                ("type"@, JsonV::Str("init_response"@)),
                ("protocol_version"@, JsonV::Str(i.protocol_version)),
                ("cli_version"@, JsonV::Str(i.cli_version)),
                ("capabilities"@, i.capabilities.spec_to_json()),
                ("session_id"@, JsonV::Str(i.session_id)),
            ],
        ),
    }
}

/// Encode a control frame as a JSON value.
pub fn encode_control_request(r: &ControlRequest) -> (out: Json)
    ensures
        out@ == spec_enc_control(ControlMessageV::Request(r@)),
{
    let ghost mv = ControlMessageV::Request(r@);
    {
        {
            let mut params: Vec<(String, Json)> = Vec::new();
            let method: &'static str;
            match r {
                ControlRequest::Interrupt { id } => {
                    method = "interrupt";
                    params.push(("id".to_owned(), Json::Str(id.as_str().to_owned())));
                },
                ControlRequest::SendMessage { id, content } => {
                    method = "send_message";
                    params.push(("id".to_owned(), Json::Str(id.as_str().to_owned())));
                    params.push(("content".to_owned(), Json::Str(content.clone())));
                },
                ControlRequest::HookResponse { id, hook_id, response } => {
                    method = "hook_response";
                    params.push(("id".to_owned(), Json::Str(id.as_str().to_owned())));
                    params.push(("hook_id".to_owned(), Json::Str(hook_id.clone())));
                    params.push(("response".to_owned(), response.clone()));
                },
                ControlRequest::PermissionResponse { id, request_id, result } => {
                    method = "permission_response";
                    params.push(("id".to_owned(), Json::Str(id.as_str().to_owned())));
                    params.push(("request_id".to_owned(), Json::Str(request_id.as_str().to_owned())));
                    params.push(("result".to_owned(), encode_permission_result(result)));
                },
            }
            let params_obj = Json::Obj(params);
            proof {
                lemma_members_view(params_obj->Obj_0@);
                assert(params_obj@->Obj_0 =~= spec_request_params(r@));
            }
            let mut members: Vec<(String, Json)> = Vec::new();
            members.push(("type".to_owned(), Json::Str("request".to_owned())));
            members.push(("method".to_owned(), Json::Str(method.to_owned())));
            members.push(("params".to_owned(), params_obj));
            let out = Json::Obj(members);
            proof {
                lemma_members_view(out->Obj_0@);
                assert(out@->Obj_0 =~= spec_enc_control(mv)->Obj_0);
            }
            out
        }
    }
}

/// Encode a control frame as a JSON value.
pub fn encode_control_message(m: &ControlMessage) -> (out: Json)
    ensures
        out@ == spec_enc_control(m@),
{
    match m {
        ControlMessage::Request(r) => encode_control_request(r),
        ControlMessage::Response(r) => {
            let mut members: Vec<(String, Json)> = Vec::new();
            members.push(("type".to_owned(), Json::Str("response".to_owned())));
            match r {
                ControlResponse::Success { id, data } => {
                    members.push(("status".to_owned(), Json::Str("success".to_owned())));
                    members.push(("id".to_owned(), Json::Str(id.as_str().to_owned())));
                    match data {
                        Option::Some(v) => {
                            members.push(("data".to_owned(), v.clone()));
                        },
                        Option::None => {
                            members.push(("data".to_owned(), Json::Null));
                        },
                    }
                },
                ControlResponse::Error { id, message, code } => {
                    members.push(("status".to_owned(), Json::Str("error".to_owned())));
                    members.push(("id".to_owned(), Json::Str(id.as_str().to_owned())));
                    members.push(("message".to_owned(), Json::Str(message.clone())));
                    match code {
                        Option::Some(c) => {
                            members.push(("code".to_owned(), Json::Str(c.clone())));
                        },
                        Option::None => {
                            members.push(("code".to_owned(), Json::Null));
                        },
                    }
                },
                ControlResponse::Hook { id, event, event_data } => {
                    members.push(("status".to_owned(), Json::Str("hook".to_owned())));
                    members.push(("id".to_owned(), Json::Str(id.clone())));
                    members.push(("event".to_owned(), Json::Str(event.name().to_owned())));
                    match event_data {
                        Option::Some(v) => {
                            members.push(("event_data".to_owned(), v.clone()));
                        },
                        Option::None => {},
                    }
                },
                ControlResponse::Permission { id, request } => {
                    members.push(("status".to_owned(), Json::Str("permission".to_owned())));
                    members.push(("id".to_owned(), Json::Str(id.as_str().to_owned())));
                    members.push(("request".to_owned(), encode_permission_request(request)));
                },
            }
            let out = Json::Obj(members);
            proof {
                lemma_members_view(out->Obj_0@);
                assert(out@->Obj_0 =~= spec_enc_control(m@)->Obj_0);
            }
            out
        },
        ControlMessage::Init(i) => {
            let mut members: Vec<(String, Json)> = Vec::new();
            members.push(("type".to_owned(), Json::Str("init".to_owned())));
            members.push(("protocol_version".to_owned(), Json::Str(i.protocol_version.clone())));
            members.push(("sdk_version".to_owned(), Json::Str(i.sdk_version.clone())));
            members.push(("capabilities".to_owned(), i.capabilities.to_json()));
            let out = Json::Obj(members);
            proof {
                lemma_members_view(out->Obj_0@);
                assert(out@->Obj_0 =~= spec_enc_control(m@)->Obj_0);
            }
            out
        },
        ControlMessage::InitResponse(i) => {
            let mut members: Vec<(String, Json)> = Vec::new();
            members.push(("type".to_owned(), Json::Str("init_response".to_owned())));
            members.push(("protocol_version".to_owned(), Json::Str(i.protocol_version.clone())));
            members.push(("cli_version".to_owned(), Json::Str(i.cli_version.clone())));
            members.push(("capabilities".to_owned(), i.capabilities.to_json()));
            members.push(("session_id".to_owned(), Json::Str(i.session_id.clone())));
            let out = Json::Obj(members);
            proof {
                lemma_members_view(out->Obj_0@);
                assert(out@->Obj_0 =~= spec_enc_control(m@)->Obj_0);
            }
            out
        },
    }
}

/// What decoding the `params` object of a request yields.
pub open spec fn spec_decode_request(
    method: Seq<char>,
    p: Seq<(Seq<char>, JsonV)>,
) -> Option<ControlRequestV> {
    match spec_lookup(p, "id"@) {
        Option::Some(JsonV::Str(id)) => if method == "interrupt"@ {
            Option::Some(ControlRequestV::Interrupt { id })
        } else if method == "send_message"@ {
            match spec_lookup(p, "content"@) {
                Option::Some(JsonV::Str(content)) => Option::Some(
                    ControlRequestV::SendMessage { id, content },
                ),
                _ => Option::None,
            }
        } else if method == "hook_response"@ {
            match (spec_lookup(p, "hook_id"@), spec_lookup(p, "response"@)) {
                (Option::Some(JsonV::Str(hook_id)), Option::Some(response)) => Option::Some(
                    ControlRequestV::HookResponse { id, hook_id, response },
                ),
                _ => Option::None,
            }
        } else if method == "permission_response"@ {
            match spec_lookup(p, "request_id"@) {
                Option::Some(JsonV::Str(request_id)) => match spec_lookup(p, "result"@) {
                    Option::Some(res) => match spec_decode_permission_result(res) {
                        Option::Some(result) => Option::Some(
                            ControlRequestV::PermissionResponse { id, request_id, result },
                        ),
                        Option::None => Option::None,
                    },
                    Option::None => Option::None,
                },
                _ => Option::None,
            }
        } else {
            Option::None
        },
        _ => Option::None,
    }
}

/// What decoding a response object (already known to have type `response`)
/// yields.
pub open spec fn spec_decode_response(m: Seq<(Seq<char>, JsonV)>) -> Option<ControlResponseV> {
    match (spec_lookup(m, "status"@), spec_lookup(m, "id"@)) {
        (Option::Some(JsonV::Str(status)), Option::Some(JsonV::Str(id))) => if status
            == "success"@ {
            Option::Some(
                ControlResponseV::Success {
                    id,
                    data: match spec_lookup(m, "data"@) {
                        Option::Some(JsonV::Null) => Option::None,
                        Option::Some(v) => Option::Some(v),
                        Option::None => Option::None,
                    },
                },
            )
        } else if status == "error"@ {
            match spec_lookup(m, "message"@) {
                Option::Some(JsonV::Str(message)) => Option::Some(
                    ControlResponseV::Error {
                        id,
                        message,
                        code: match spec_lookup(m, "code"@) {
                            Option::Some(JsonV::Str(c)) => Option::Some(c),
                            _ => Option::None,
                        },
                    },
                ),
                _ => Option::None,
            }
        } else if status == "hook"@ {
            match spec_lookup(m, "event"@) {
                Option::Some(JsonV::Str(name)) => match spec_parse_event(name) {
                    Option::Some(event) => Option::Some(
                        ControlResponseV::Hook {
                            id,
                            event,
                            event_data: spec_lookup(m, "event_data"@),
                        },
                    ),
                    Option::None => Option::None,
                },
                _ => Option::None,
            }
        } else if status == "permission"@ {
            match spec_lookup(m, "request"@) {
                Option::Some(req) => match spec_decode_permission_request(req) {
                    Option::Some(request) => Option::Some(
                        ControlResponseV::Permission { id, request },
                    ),
                    Option::None => Option::None,
                },
                Option::None => Option::None,
            }
        } else {
            Option::None
        },
        _ => Option::None,
    }
}

/// What decoding an init request yields.
pub open spec fn spec_decode_init(m: Seq<(Seq<char>, JsonV)>) -> Option<InitRequestV> {
    match (
        spec_lookup(m, "protocol_version"@),
        spec_lookup(m, "sdk_version"@),
        spec_lookup(m, "capabilities"@),
    ) {
        (
            Option::Some(JsonV::Str(protocol_version)),
            Option::Some(JsonV::Str(sdk_version)),
            Option::Some(caps),
        ) => match ClientCapabilities::spec_from_json(caps) {
            Option::Some(capabilities) => Option::Some(
                InitRequestV { protocol_version, sdk_version, capabilities },
            ),
            Option::None => Option::None,
        },
        _ => Option::None,
    }
}

/// What decoding an init response yields.
pub open spec fn spec_decode_init_response(m: Seq<(Seq<char>, JsonV)>) -> Option<InitResponseV> {
    match (
        spec_lookup(m, "protocol_version"@),
        spec_lookup(m, "cli_version"@),
        spec_lookup(m, "capabilities"@),
        spec_lookup(m, "session_id"@),
    ) {
        (
            Option::Some(JsonV::Str(protocol_version)),
            Option::Some(JsonV::Str(cli_version)),
            Option::Some(caps),
            Option::Some(JsonV::Str(session_id)),
        ) => match ServerCapabilities::spec_from_json(caps) {
            Option::Some(capabilities) => Option::Some(
                InitResponseV { protocol_version, cli_version, capabilities, session_id },
            ),
            Option::None => Option::None,
        },
        _ => Option::None,
    }
}

/// What decoding a JSON value into a control frame yields: `None` when the
/// value is no control frame at all (and is then offered to message parsing).
pub open spec fn spec_decode_control(j: JsonV) -> Option<ControlMessageV> {
    match j {
        JsonV::Obj(m) => match spec_lookup(m, "type"@) {
            Option::Some(JsonV::Str(t)) => if t == "request"@ {
                match (spec_lookup(m, "method"@), spec_lookup(m, "params"@)) {
                    (Option::Some(JsonV::Str(method)), Option::Some(JsonV::Obj(p))) => match
                        spec_decode_request(method, p) {
                        Option::Some(r) => Option::Some(ControlMessageV::Request(r)),
                        Option::None => Option::None,
                    },
                    _ => Option::None,
                }
            } else if t == "response"@ {
                match spec_decode_response(m) {
                    Option::Some(r) => Option::Some(ControlMessageV::Response(r)),
                    Option::None => Option::None,
                }
            } else if t == "init"@ {
                match spec_decode_init(m) {
                    Option::Some(i) => Option::Some(ControlMessageV::Init(i)),
                    Option::None => Option::None,
                }
            } else if t == "init_response"@ {
                match spec_decode_init_response(m) {
                    Option::Some(i) => Option::Some(ControlMessageV::InitResponse(i)),
                    Option::None => Option::None,
                }
            } else {
                Option::None
            },
            _ => Option::None,
        },
        _ => Option::None,
    }
}

/// Decode a JSON value into a control frame; errs on anything else.
pub fn decode_control_message(j: &Json) -> (r: Result<ControlMessage, ClaudeError>)
    ensures
        match r {
            Result::Ok(m) => spec_decode_control(j@) == Option::Some(m@),
            Result::Err(e) => spec_decode_control(j@) is None && e is JsonDecode,
        },
{
    let t = match j.get("type") {
        Option::Some(Json::Str(t)) => t,
        _ => { return Result::Err(ClaudeError::json_decode("not a control frame")); },
    };
    if str_eq(t.as_str(), "request") {
        let method = match j.get("method") {
            Option::Some(Json::Str(s)) => s,
            _ => { return Result::Err(ClaudeError::json_decode("request without method")); },
        };
        let params = match j.get("params") {
            Option::Some(p) => p,
            _ => { return Result::Err(ClaudeError::json_decode("request without params")); },
        };
        if !(params.is_obj()) {
            return Result::Err(ClaudeError::json_decode("request params not an object"));
        }
        let id = match params.get("id") {
            Option::Some(Json::Str(s)) => RequestId::new(s.as_str()),
            _ => { return Result::Err(ClaudeError::json_decode("request without id")); },
        };
        if str_eq(method.as_str(), "interrupt") {
            let m = ControlMessage::Request(ControlRequest::Interrupt { id });
            proof {
                assert(spec_decode_control(j@) =~= Option::Some(m@));
            }
            return Result::Ok(m);
        }
        if str_eq(method.as_str(), "send_message") {
            let content = match params.get("content") {
                Option::Some(Json::Str(s)) => s.clone(),
                _ => { return Result::Err(ClaudeError::json_decode("send without content")); },
            };
            let m = ControlMessage::Request(ControlRequest::SendMessage { id, content });
            proof {
                assert(spec_decode_control(j@) =~= Option::Some(m@));
            }
            return Result::Ok(m);
        }
        if str_eq(method.as_str(), "hook_response") {
            let hook_id = match params.get("hook_id") {
                Option::Some(Json::Str(s)) => s.clone(),
                _ => { return Result::Err(ClaudeError::json_decode("hook without hook_id")); },
            };
            let response = match params.get("response") {
                Option::Some(v) => v.clone(),
                Option::None => {
                    return Result::Err(ClaudeError::json_decode("hook without response"));
                },
            };
            let m = ControlMessage::Request(
                ControlRequest::HookResponse { id, hook_id, response },
            );
            proof {
                assert(spec_decode_control(j@) =~= Option::Some(m@));
            }
            return Result::Ok(m);
        }
        if str_eq(method.as_str(), "permission_response") {
            let request_id = match params.get("request_id") {
                Option::Some(Json::Str(s)) => RequestId::new(s.as_str()),
                _ => { return Result::Err(ClaudeError::json_decode("permission without id")); },
            };
            let result = match params.get("result") {
                Option::Some(res) => match decode_permission_result(res) {
                    Option::Some(result) => result,
                    Option::None => {
                        return Result::Err(ClaudeError::json_decode("bad permission result"));
                    },
                },
                Option::None => {
                    return Result::Err(ClaudeError::json_decode("permission without result"));
                },
            };
            let m = ControlMessage::Request(
                ControlRequest::PermissionResponse { id, request_id, result },
            );
            proof {
                assert(spec_decode_control(j@) =~= Option::Some(m@));
            }
            return Result::Ok(m);
        }
        return Result::Err(ClaudeError::json_decode("unknown request method"));
    }
    if str_eq(t.as_str(), "response") {
        let status = match j.get("status") {
            Option::Some(Json::Str(s)) => s,
            _ => { return Result::Err(ClaudeError::json_decode("response without status")); },
        };
        let id = match j.get("id") {
            Option::Some(Json::Str(s)) => s.clone(),
            _ => { return Result::Err(ClaudeError::json_decode("response without id")); },
        };
        if str_eq(status.as_str(), "success") {
            let data = match j.get("data") {
                Option::Some(Json::Null) => Option::None,
                Option::Some(v) => Option::Some(v.clone()),
                Option::None => Option::None,
            };
            let m = ControlMessage::Response(
                ControlResponse::Success { id: RequestId::new(id.as_str()), data },
            );
            proof {
                assert(spec_decode_control(j@) =~= Option::Some(m@));
            }
            return Result::Ok(m);
        }
        if str_eq(status.as_str(), "error") {
            let message = match j.get("message") {
                Option::Some(Json::Str(s)) => s.clone(),
                _ => { return Result::Err(ClaudeError::json_decode("error without message")); },
            };
            let code = match j.get("code") {
                Option::Some(Json::Str(s)) => Option::Some(s.clone()),
                _ => Option::None,
            };
            let m = ControlMessage::Response(
                ControlResponse::Error { id: RequestId::new(id.as_str()), message, code },
            );
            proof {
                assert(spec_decode_control(j@) =~= Option::Some(m@));
            }
            return Result::Ok(m);
        }
        if str_eq(status.as_str(), "hook") {
            let event = match j.get("event") {
                Option::Some(Json::Str(s)) => match parse_event(s.as_str()) {
                    Option::Some(e) => e,
                    Option::None => {
                        return Result::Err(ClaudeError::json_decode("unknown hook event"));
                    },
                },
                _ => { return Result::Err(ClaudeError::json_decode("hook without event")); },
            };
            let event_data = match j.get("event_data") {
                Option::Some(v) => Option::Some(v.clone()),
                Option::None => Option::None,
            };
            let m = ControlMessage::Response(
                ControlResponse::Hook { id, event, event_data },
            );
            proof {
                assert(spec_decode_control(j@) =~= Option::Some(m@));
            }
            return Result::Ok(m);
        }
        if str_eq(status.as_str(), "permission") {
            let request = match j.get("request") {
                Option::Some(req) => match decode_permission_request(req) {
                    Option::Some(r) => r,
                    Option::None => {
                        return Result::Err(ClaudeError::json_decode("bad permission request"));
                    },
                },
                Option::None => {
                    return Result::Err(ClaudeError::json_decode("permission without request"));
                },
            };
            let m = ControlMessage::Response(
                ControlResponse::Permission { id: RequestId::new(id.as_str()), request },
            );
            proof {
                assert(spec_decode_control(j@) =~= Option::Some(m@));
            }
            return Result::Ok(m);
        }
        return Result::Err(ClaudeError::json_decode("unknown response status"));
    }
    if str_eq(t.as_str(), "init") {
        let protocol_version = match j.get("protocol_version") {
            Option::Some(Json::Str(s)) => s.clone(),
            _ => { return Result::Err(ClaudeError::json_decode("init without version")); },
        };
        let sdk_version = match j.get("sdk_version") {
            Option::Some(Json::Str(s)) => s.clone(),
            _ => { return Result::Err(ClaudeError::json_decode("init without sdk version")); },
        };
        let capabilities = match j.get("capabilities") {
            Option::Some(c) => match ClientCapabilities::from_json(c) {
                Option::Some(caps) => caps,
                Option::None => {
                    return Result::Err(ClaudeError::json_decode("bad capabilities"));
                },
            },
            Option::None => {
                return Result::Err(ClaudeError::json_decode("init without capabilities"));
            },
        };
        let m = ControlMessage::Init(InitRequest { protocol_version, sdk_version, capabilities });
        proof {
            assert(spec_decode_control(j@) =~= Option::Some(m@));
        }
        return Result::Ok(m);
    }
    if str_eq(t.as_str(), "init_response") {
        let protocol_version = match j.get("protocol_version") {
            Option::Some(Json::Str(s)) => s.clone(),
            _ => { return Result::Err(ClaudeError::json_decode("init response without version")); },
        };
        let cli_version = match j.get("cli_version") {
            Option::Some(Json::Str(s)) => s.clone(),
            _ => { return Result::Err(ClaudeError::json_decode("without cli version")); },
        };
        let capabilities = match j.get("capabilities") {
            Option::Some(c) => match ServerCapabilities::from_json(c) {
                Option::Some(caps) => caps,
                Option::None => {
                    return Result::Err(ClaudeError::json_decode("bad capabilities"));
                },
            },
            Option::None => {
                return Result::Err(ClaudeError::json_decode("without capabilities"));
            },
        };
        let session_id = match j.get("session_id") {
            Option::Some(Json::Str(s)) => s.clone(),
            _ => { return Result::Err(ClaudeError::json_decode("without session id")); },
        };
        let m = ControlMessage::InitResponse(
            InitResponse { protocol_version, cli_version, capabilities, session_id },
        );
        proof {
            assert(spec_decode_control(j@) =~= Option::Some(m@));
        }
        return Result::Ok(m);
    }
    Result::Err(ClaudeError::json_decode("unknown control frame type"))
}

/// Well-formedness of the payloads a request carries: what it embeds can be
/// emitted raw.
pub open spec fn request_wf(r: ControlRequestV) -> bool {
    match r {
        ControlRequestV::HookResponse { response, .. } => crate::json::json_wf(response),
        ControlRequestV::PermissionResponse { result, .. } => match result {
            PermissionResultV::Allow { updated_input: Option::Some(v) } => crate::json::json_wf(v),
            _ => true,
        },
        _ => true,
    }
}

/// Encoding a control request as a frame and decoding that frame yields the
/// original request: the wire codec loses nothing of a request.
pub proof fn lemma_request_round_trip(r: ControlRequestV)
    ensures
        spec_decode_control(spec_enc_control(ControlMessageV::Request(r))) == Option::Some(
            ControlMessageV::Request(r),
        ),
{
    reveal_strlit("type");
    reveal_strlit("method");
    reveal_strlit("params");
    reveal_strlit("request");
    reveal_strlit("id");
    reveal_strlit("content");
    reveal_strlit("hook_id");
    reveal_strlit("response");
    reveal_strlit("request_id");
    reveal_strlit("result");
    reveal_strlit("interrupt");
    reveal_strlit("send_message");
    reveal_strlit("hook_response");
    reveal_strlit("permission_response");
    assert("type"@.len() == 4);
    assert("method"@.len() == 6);
    assert("params"@.len() == 6);
    assert("request"@.len() == 7);
    assert("id"@.len() == 2);
    assert("content"@.len() == 7);
    assert("hook_id"@.len() == 7);
    assert("response"@.len() == 8);
    assert("request_id"@.len() == 10);
    assert("result"@.len() == 6);
    assert("interrupt"@.len() == 9);
    assert("send_message"@.len() == 12);
    assert("hook_response"@.len() == 13);
    assert("permission_response"@.len() == 19);
    assert("method"@[0] == 'm' && "params"@[0] == 'p');
    let top = spec_enc_control(ControlMessageV::Request(r))->Obj_0;
    assert(spec_lookup(top, "type"@) == Option::Some(JsonV::Str("request"@)));
    assert(spec_lookup(top.drop_first(), "method"@) == Option::Some(
        JsonV::Str(spec_method_name(r)),
    ));
    assert(spec_lookup(top, "method"@) == Option::Some(JsonV::Str(spec_method_name(r))));
    let p = spec_request_params(r);
    assert(spec_lookup(top.drop_first().drop_first(), "params"@) == Option::Some(JsonV::Obj(p)));
    assert(spec_lookup(top.drop_first(), "params"@) == Option::Some(JsonV::Obj(p)));
    assert(spec_lookup(top, "params"@) == Option::Some(JsonV::Obj(p)));
    match r {
        ControlRequestV::Interrupt { id } => {
            assert(spec_lookup(p, "id"@) == Option::Some(JsonV::Str(id)));
            assert(spec_decode_request(spec_method_name(r), p) == Option::Some(r));
        },
        ControlRequestV::SendMessage { id, content } => {
            assert(spec_lookup(p, "id"@) == Option::Some(JsonV::Str(id)));
            assert(spec_lookup(p.drop_first(), "content"@) == Option::Some(JsonV::Str(content)));
            assert(spec_lookup(p, "content"@) == Option::Some(JsonV::Str(content)));
            assert(spec_method_name(r) != "interrupt"@);
            assert(spec_decode_request(spec_method_name(r), p) == Option::Some(r));
        },
        ControlRequestV::HookResponse { id, hook_id, response } => {
            assert(spec_lookup(p, "id"@) == Option::Some(JsonV::Str(id)));
            assert(spec_lookup(p.drop_first(), "hook_id"@) == Option::Some(JsonV::Str(hook_id)));
            assert(spec_lookup(p, "hook_id"@) == Option::Some(JsonV::Str(hook_id)));
            assert(spec_lookup(p.drop_first().drop_first(), "response"@) == Option::Some(response));
            assert(spec_lookup(p.drop_first(), "response"@) == Option::Some(response));
            assert(spec_lookup(p, "response"@) == Option::Some(response));
            assert(spec_decode_request(spec_method_name(r), p) == Option::Some(r));
        },
        ControlRequestV::PermissionResponse { id, request_id, result } => {
            assert(spec_lookup(p, "id"@) == Option::Some(JsonV::Str(id)));
            assert(spec_lookup(p.drop_first(), "request_id"@) == Option::Some(
                JsonV::Str(request_id),
            ));
            assert(spec_lookup(p, "request_id"@) == Option::Some(JsonV::Str(request_id)));
            assert(spec_lookup(p.drop_first().drop_first(), "result"@) == Option::Some(
                spec_enc_permission_result(result),
            ));
            assert(spec_lookup(p.drop_first(), "result"@) == Option::Some(
                spec_enc_permission_result(result),
            ));
            assert(spec_lookup(p, "result"@) == Option::Some(spec_enc_permission_result(result)));
            crate::permissions::lemma_permission_result_round_trip(result);
            assert(spec_decode_request(spec_method_name(r), p) == Option::Some(r));
        },
    }
}

/// The user frame carrying a prompt or follow-up to the child.
pub open spec fn spec_user_frame(content: Seq<char>) -> JsonV {
    JsonV::Obj(
        seq![
            ("type"@, JsonV::Str("user"@)),
            (
                "message"@,
                JsonV::Obj(
                    seq![("role"@, JsonV::Str("user"@)), ("content"@, JsonV::Str(content))],
                ),
            ),
        ],
    )
}

/// Build the user frame value for a prompt.
pub fn user_frame_json(content: &str) -> (r: Json)
    ensures
        r@ == spec_user_frame(content@),
{
    let mut inner: Vec<(String, Json)> = Vec::new();
    inner.push(("role".to_owned(), Json::Str("user".to_owned())));
    inner.push(("content".to_owned(), Json::Str(content.to_owned())));
    let message = Json::Obj(inner);
    proof {
        lemma_members_view(message->Obj_0@);
        assert(message@->Obj_0 =~= spec_user_frame(content@)->Obj_0[1].1->Obj_0);
    }
    let mut members: Vec<(String, Json)> = Vec::new();
    members.push(("type".to_owned(), Json::Str("user".to_owned())));
    members.push(("message".to_owned(), message));
    let r = Json::Obj(members);
    proof {
        lemma_members_view(r->Obj_0@);
        assert(r@->Obj_0 =~= spec_user_frame(content@)->Obj_0);
    }
    r
}

/// The simple control frame carrying an interrupt.
pub open spec fn spec_interrupt_wire() -> JsonV {
    JsonV::Obj(seq![("type"@, JsonV::Str("control"@)), ("method"@, JsonV::Str("interrupt"@))])
}

/// The frame value written to the child for one control request: interrupts
/// go as a simple control frame, prompts as a user frame, and hook or
/// permission answers as a full control envelope.
pub open spec fn spec_wire_for_request(r: ControlRequestV) -> JsonV {
    match r {
        ControlRequestV::Interrupt { .. } => spec_interrupt_wire(),
        ControlRequestV::SendMessage { content, .. } => spec_user_frame(content),
        _ => spec_enc_control(ControlMessageV::Request(r)),
    }
}

/// Build the one newline-terminated line written to the child for a control
/// request.
pub fn wire_frame_for_request(req: &ControlRequest) -> (r: String)
    ensures
        r@ == spec_frame(spec_wire_for_request(req@)),
        r@.len() > 0,
        r@.last() == '\n',
{
    match req {
        ControlRequest::Interrupt { .. } => {
            let mut members: Vec<(String, Json)> = Vec::new();
            members.push(("type".to_owned(), Json::Str("control".to_owned())));
            members.push(("method".to_owned(), Json::Str("interrupt".to_owned())));
            let j = Json::Obj(members);
            proof {
                lemma_members_view(j->Obj_0@);
                assert(j@->Obj_0 =~= spec_interrupt_wire()->Obj_0);
            }
            crate::codec::build_frame(&j)
        },
        ControlRequest::SendMessage { content, .. } => {
            let j = user_frame_json(content.as_str());
            crate::codec::build_frame(&j)
        },
        _ => {
            let j = encode_control_request(req);
            crate::codec::build_frame(&j)
        },
    }
}

/// The request id the handler mints for counter value `n`.
pub open spec fn spec_req_id(n: u64) -> Seq<char> {
    "req-"@ + spec_dec(n as nat)
}

proof fn lemma_dec_len(n: nat)
    ensures
        spec_dec(n).len() >= 1,
        n < 10 <==> spec_dec(n).len() == 1,
    decreases n,
{
    if n >= 10 {
        lemma_dec_len(n / 10);
    }
}

proof fn lemma_digit_injective(a: int, b: int)
    requires
        0 <= a < 10,
        0 <= b < 10,
        crate::strutil::spec_digit(a) == crate::strutil::spec_digit(b),
    ensures
        a == b,
{
}

/// Decimal renderings are injective: equal digit strings mean equal numbers.
pub proof fn lemma_dec_injective(a: nat, b: nat)
    requires
        spec_dec(a) == spec_dec(b),
    ensures
        a == b,
    decreases a,
{
    lemma_dec_len(a);
    lemma_dec_len(b);
    if a < 10 && b < 10 {
        assert(spec_dec(a) == seq![crate::strutil::spec_digit(a as int)]);
        assert(spec_dec(b) == seq![crate::strutil::spec_digit(b as int)]);
        assert(spec_dec(a)[0] == crate::strutil::spec_digit(a as int));
        assert(spec_dec(b)[0] == crate::strutil::spec_digit(b as int));
        lemma_digit_injective(a as int, b as int);
    } else if a < 10 || b < 10 {
        assert(spec_dec(a).len() == spec_dec(b).len());
        assert(false);
    } else {
        let sa = spec_dec(a / 10);
        let sb = spec_dec(b / 10);
        assert(spec_dec(a) == sa + seq![crate::strutil::spec_digit((a % 10) as int)]);
        assert(spec_dec(b) == sb + seq![crate::strutil::spec_digit((b % 10) as int)]);
        assert(spec_dec(a).last() == crate::strutil::spec_digit((a % 10) as int));
        assert(spec_dec(b).last() == crate::strutil::spec_digit((b % 10) as int));
        lemma_digit_injective((a % 10) as int, (b % 10) as int);
        assert(sa.len() == sb.len());
        assert(sa =~= sb) by {
            assert(forall|i: int|
                0 <= i < sa.len() ==> sa[i] == spec_dec(a)[i] && sb[i] == spec_dec(b)[i]);
        }
        lemma_dec_injective(a / 10, b / 10);
    }
}

/// Minted request ids are unique: different counter values give different
/// ids, so every id handed out in a process is distinct from every other.
pub proof fn lemma_req_ids_unique(m: u64, n: u64)
    requires
        m != n,
    ensures
        spec_req_id(m) != spec_req_id(n),
{
    reveal_strlit("req-");
    assert("req-"@.len() == 4);
    if spec_req_id(m) == spec_req_id(n) {
        let dm = spec_dec(m as nat);
        let dn = spec_dec(n as nat);
        assert(spec_req_id(m).len() == 4 + dm.len());
        assert(spec_req_id(n).len() == 4 + dn.len());
        assert(dm.len() == dn.len());
        assert forall|i: int| 0 <= i < dm.len() implies dm[i] == dn[i] by {
            assert(dm[i] == spec_req_id(m)[i + 4]);
            assert(dn[i] == spec_req_id(n)[i + 4]);
        }
        assert(dm =~= dn);
        lemma_dec_injective(m as nat, n as nat);
        assert(false);
    }
}

/// What the handler decided to do with one inbound control response.
pub enum RouteAction {
    /// A success or error answer for a request that is still awaited: hand
    /// it to that waiter.
    Deliver(ControlResponse),
    /// A success or error answer with no waiter: a late response, dropped.
    DropLate(ControlResponse),
    /// A hook invocation to hand to the hook worker.
    ForwardHook { id: String, event: HookEvent, event_data: Json },
    /// A hook invocation with no hook worker registered: dropped.
    DropHook,
    /// A permission request to hand to the permission worker.
    ForwardPermission { id: RequestId, request: PermissionRequest },
    /// A permission request with no permission worker registered: dropped.
    DropPermission,
}

/// The first position of `id` among the pending ids, if any.
pub open spec fn spec_find_id(s: Seq<Seq<char>>, id: Seq<char>) -> Option<int>
    decreases s.len(),
{
    if s.len() == 0 {
        Option::None
    } else if s[0] == id {
        Option::Some(0)
    } else {
        match spec_find_id(s.drop_first(), id) {
            Option::Some(k) => Option::Some(k + 1),
            Option::None => Option::None,
        }
    }
}

/// The control protocol handler: mints request ids, tracks which requests
/// await an answer, gates sending on initialization, and routes inbound
/// responses.
pub struct ProtocolHandler {
    next_request_id: u64,
    pending: Vec<RequestId>,
    initialized: bool,
    hook_channel: bool,
    permission_channel: bool,
}

impl ProtocolHandler {
    /// The counter the next minted id will use.
    pub closed spec fn counter(&self) -> u64 {
        self.next_request_id
    }

    /// The ids of requests still awaiting an answer, in registration order.
    pub closed spec fn pending_ids(&self) -> Seq<Seq<char>> {
        self.pending@.map_values(|r: RequestId| r@)
    }

    /// Whether the protocol is initialized.
    pub closed spec fn initialized(&self) -> bool {
        self.initialized
    }

    /// Whether a hook worker is registered.
    pub closed spec fn hook_channel(&self) -> bool {
        self.hook_channel
    }

    /// Whether a permission worker is registered.
    pub closed spec fn permission_channel(&self) -> bool {
        self.permission_channel
    }

    /// A fresh handler: not initialized, nothing pending, counter at one.
    pub fn new() -> (r: Self)
        ensures
            r.counter() == 1,
            r.pending_ids() == Seq::<Seq<char>>::empty(),
            !r.initialized(),
            !r.hook_channel(),
            !r.permission_channel(),
    {
        let r = ProtocolHandler {
            next_request_id: 1,
            pending: Vec::new(),
            initialized: false,
            hook_channel: false,
            permission_channel: false,
        };
        proof {
            assert(r.pending_ids() =~= Seq::<Seq<char>>::empty());
        }
        r
    }

    /// Register the hook worker: hook frames will be forwarded.
    pub fn set_hook_channel(&mut self)
        ensures
            final(self).hook_channel(),
            final(self).permission_channel() == old(self).permission_channel(),
            final(self).initialized() == old(self).initialized(),
            final(self).counter() == old(self).counter(),
            final(self).pending_ids() == old(self).pending_ids(),
    {
        self.hook_channel = true;
    }

    /// Register the permission worker: permission frames will be forwarded.
    pub fn set_permission_channel(&mut self)
        ensures
            final(self).permission_channel(),
            final(self).hook_channel() == old(self).hook_channel(),
            final(self).initialized() == old(self).initialized(),
            final(self).counter() == old(self).counter(),
            final(self).pending_ids() == old(self).pending_ids(),
    {
        self.permission_channel = true;
    }

    /// Whether the protocol is initialized.
    pub fn is_initialized(&self) -> (r: bool)
        ensures
            r == self.initialized(),
    {
        self.initialized
    }

    /// Mark the protocol initialized (or not). The child this library speaks
    /// to skips the handshake, so the session client sets this at once.
    pub fn set_initialized(&mut self, value: bool)
        ensures
            final(self).initialized() == value,
            final(self).counter() == old(self).counter(),
            final(self).pending_ids() == old(self).pending_ids(),
            final(self).hook_channel() == old(self).hook_channel(),
            final(self).permission_channel() == old(self).permission_channel(),
    {
        self.initialized = value;
    }

    /// Mint the next request id: `req-` followed by the counter, which then
    /// moves on. Every id minted this way differs from every other.
    pub fn next_id(&mut self) -> (r: RequestId)
        requires
            old(self).counter() < u64::MAX,
        ensures
            r@ == spec_req_id(old(self).counter()),
            final(self).counter() == old(self).counter() + 1,
            final(self).pending_ids() == old(self).pending_ids(),
            final(self).initialized() == old(self).initialized(),
            final(self).hook_channel() == old(self).hook_channel(),
            final(self).permission_channel() == old(self).permission_channel(),
    {
        let n = self.next_request_id;
        self.next_request_id = n + 1;
        let mut s = "req-".to_owned();
        crate::strutil::append_u64(&mut s, n);
        RequestId::new(s.as_str())
    }

    /// The initialization request this client sends: protocol version `1.0`
    /// and every capability.
    pub fn create_init_request(&self) -> (r: InitRequest)
        ensures
            r@.protocol_version == "1.0"@,
            r@.sdk_version == SDK_VERSION@,
            r@.capabilities == (ClientCapabilities {
                bidirectional: true,
                hooks: true,
                permissions: true,
                interrupts: true,
            }),
    {
        InitRequest {
            protocol_version: "1.0".to_owned(),
            sdk_version: SDK_VERSION.to_owned(),
            capabilities: ClientCapabilities::all_features(),
        }
    }

    /// Accept an initialization response exactly when it speaks protocol
    /// version `1.0`; the handler is then initialized.
    pub fn handle_init_response(&mut self, response: &InitResponse) -> (r: Result<
        (),
        ClaudeError,
    >)
        ensures
            final(self).counter() == old(self).counter(),
            final(self).pending_ids() == old(self).pending_ids(),
            final(self).hook_channel() == old(self).hook_channel(),
            final(self).permission_channel() == old(self).permission_channel(),
            if response@.protocol_version == "1.0"@ {
                r is Ok && final(self).initialized()
            } else {
                (r matches Result::Err(e) && e is ControlProtocol) && final(self).initialized()
                    == old(self).initialized()
            },
    {
        if str_eq(response.protocol_version.as_str(), "1.0") {
            self.initialized = true;
            Result::Ok(())
        } else {
            Result::Err(ClaudeError::protocol_error("unsupported protocol version"))
        }
    }

    /// Register a request as awaiting an answer. Refused until the protocol
    /// is initialized.
    pub fn send_request(&mut self, request: &ControlRequest) -> (r: Result<(), ClaudeError>)
        ensures
            final(self).counter() == old(self).counter(),
            final(self).initialized() == old(self).initialized(),
            final(self).hook_channel() == old(self).hook_channel(),
            final(self).permission_channel() == old(self).permission_channel(),
            if old(self).initialized() {
                r is Ok && final(self).pending_ids() == old(self).pending_ids().push(
                    spec_request_id(request@),
                )
            } else {
                (r matches Result::Err(e) && e is ControlProtocol) && final(self).pending_ids()
                    == old(self).pending_ids()
            },
    {
        if !self.initialized {
            return Result::Err(
                ClaudeError::protocol_error("protocol not initialized - call init first"),
            );
        }
        let id = Self::get_request_id(request);
        self.pending.push(id);
        proof {
            assert(self.pending_ids() =~= old(self).pending_ids().push(spec_request_id(request@)));
        }
        Result::Ok(())
    }

    /// The id a request carries.
    pub fn get_request_id(request: &ControlRequest) -> (r: RequestId)
        ensures
            r@ == spec_request_id(request@),
    {
        match request {
            ControlRequest::Interrupt { id } => id.clone(),
            ControlRequest::SendMessage { id, .. } => id.clone(),
            ControlRequest::HookResponse { id, .. } => id.clone(),
            ControlRequest::PermissionResponse { id, .. } => id.clone(),
        }
    }

    /// Route one inbound control response: answers go to their waiter if one
    /// is registered and are dropped as late otherwise; hook and permission
    /// frames are forwarded to their workers if registered and dropped
    /// otherwise. A forwarded hook payload defaults to an empty object.
    pub fn handle_response(&mut self, response: ControlResponse) -> (r: RouteAction)
        ensures
            final(self).counter() == old(self).counter(),
            final(self).initialized() == old(self).initialized(),
            final(self).hook_channel() == old(self).hook_channel(),
            final(self).permission_channel() == old(self).permission_channel(),
            (response@ is Success || response@ is Error) ==> match spec_find_id(
                old(self).pending_ids(),
                spec_answer_id(response@),
            ) {
                Option::Some(k) => final(self).pending_ids() == old(self).pending_ids().remove(k)
                    && r == RouteAction::Deliver(response),
                Option::None => final(self).pending_ids() == old(self).pending_ids() && r
                    == RouteAction::DropLate(response),
            },
            response@ matches ControlResponseV::Hook { id, event, event_data } ==> final(self).pending_ids() == old(self).pending_ids() && if old(self).hook_channel() {
                r matches RouteAction::ForwardHook { id: fid, event: fevent, event_data: fdata }
                    && fid@ == id && fevent == event && fdata@ == match event_data {
                    Option::Some(v) => v,
                    Option::None => JsonV::Obj(Seq::empty()),
                }
            } else {
                r is DropHook
            },
            response@ matches ControlResponseV::Permission { id, request } ==> final(self).pending_ids() == old(self).pending_ids() && if old(self).permission_channel() {
                r matches RouteAction::ForwardPermission { id: fid, request: freq } && fid@ == id
                    && freq@ == request
            } else {
                r is DropPermission
            },
    {
        match &response {
            ControlResponse::Success { id, .. } => {
                let ghost ids = self.pending_ids();
                proof {
                    assert(ids == old(self).pending_ids());
                }
                let mut i: usize = 0;
                while i < self.pending.len()
                    invariant
                        i <= self.pending@.len(),
                        ids == self.pending@.map_values(|r: RequestId| r@),
                        self.pending == old(self).pending,
                        self.next_request_id == old(self).next_request_id,
                        self.initialized == old(self).initialized,
                        self.hook_channel == old(self).hook_channel,
                        self.permission_channel == old(self).permission_channel,
                        response@ is Success,
                        spec_answer_id(response@) == id@,
                        forall|k: int| 0 <= k < i ==> ids[k] != id@,
                    decreases self.pending@.len() - i,
                {
                    if str_eq(self.pending[i].as_str(), id.as_str()) {
                        proof {
                            lemma_find_id_hit(ids, id@, i as int);
                        }
                        let _removed = self.pending.remove(i);
                        proof {
                            assert(self.pending_ids() =~= ids.remove(i as int)) by {
                                assert(self.pending@ == old(self).pending@.remove(i as int));
                            }
                        }
                        return RouteAction::Deliver(response);
                    }
                    i = i + 1;
                }
                proof {
                    lemma_find_id_miss(ids, id@);
                    assert(self.pending_ids() == old(self).pending_ids());
                    assert(spec_find_id(old(self).pending_ids(), id@) is None);
                }
                RouteAction::DropLate(response)
            },
            ControlResponse::Error { id, .. } => {
                let ghost ids = self.pending_ids();
                proof {
                    assert(ids == old(self).pending_ids());
                }
                let mut i: usize = 0;
                while i < self.pending.len()
                    invariant
                        i <= self.pending@.len(),
                        ids == self.pending@.map_values(|r: RequestId| r@),
                        self.pending == old(self).pending,
                        self.next_request_id == old(self).next_request_id,
                        self.initialized == old(self).initialized,
                        self.hook_channel == old(self).hook_channel,
                        self.permission_channel == old(self).permission_channel,
                        response@ is Error,
                        spec_answer_id(response@) == id@,
                        forall|k: int| 0 <= k < i ==> ids[k] != id@,
                    decreases self.pending@.len() - i,
                {
                    if str_eq(self.pending[i].as_str(), id.as_str()) {
                        proof {
                            lemma_find_id_hit(ids, id@, i as int);
                        }
                        let _removed = self.pending.remove(i);
                        proof {
                            assert(self.pending_ids() =~= ids.remove(i as int)) by {
                                assert(self.pending@ == old(self).pending@.remove(i as int));
                            }
                        }
                        return RouteAction::Deliver(response);
                    }
                    i = i + 1;
                }
                proof {
                    lemma_find_id_miss(ids, id@);
                    assert(self.pending_ids() == old(self).pending_ids());
                    assert(spec_find_id(old(self).pending_ids(), id@) is None);
                }
                RouteAction::DropLate(response)
            },
            ControlResponse::Hook { id, event, event_data } => {
                if self.hook_channel {
                    let data = match event_data {
                        Option::Some(v) => v.clone(),
                        Option::None => Json::Obj(Vec::new()),
                    };
                    proof {
                        if event_data is None {
                            assert(data@ =~= JsonV::Obj(Seq::empty()));
                        }
                    }
                    RouteAction::ForwardHook { id: id.clone(), event: *event, event_data: data }
                } else {
                    RouteAction::DropHook
                }
            },
            ControlResponse::Permission { id, request } => {
                if self.permission_channel {
                    RouteAction::ForwardPermission { id: id.clone(), request: request.clone() }
                } else {
                    RouteAction::DropPermission
                }
            },
        }
    }

    /// Create an interrupt request with a fresh id.
    pub fn create_interrupt_request(&mut self) -> (r: ControlRequest)
        requires
            old(self).counter() < u64::MAX,
        ensures
            r@ == (ControlRequestV::Interrupt { id: spec_req_id(old(self).counter()) }),
            final(self).counter() == old(self).counter() + 1,
            final(self).pending_ids() == old(self).pending_ids(),
            final(self).initialized() == old(self).initialized(),
            final(self).hook_channel() == old(self).hook_channel(),
            final(self).permission_channel() == old(self).permission_channel(),
    {
        ControlRequest::Interrupt { id: self.next_id() }
    }

    /// Create a send-message request with a fresh id.
    pub fn create_send_message_request(&mut self, content: String) -> (r: ControlRequest)
        requires
            old(self).counter() < u64::MAX,
        ensures
            r@ == (ControlRequestV::SendMessage {
                id: spec_req_id(old(self).counter()),
                content: content@,
            }),
            final(self).counter() == old(self).counter() + 1,
            final(self).pending_ids() == old(self).pending_ids(),
            final(self).initialized() == old(self).initialized(),
            final(self).hook_channel() == old(self).hook_channel(),
            final(self).permission_channel() == old(self).permission_channel(),
    {
        ControlRequest::SendMessage { id: self.next_id(), content }
    }

    /// Create a hook response with a fresh id.
    pub fn create_hook_response(&mut self, hook_id: String, response: Json) -> (r: ControlRequest)
        requires
            old(self).counter() < u64::MAX,
        ensures
            r@ == (ControlRequestV::HookResponse {
                id: spec_req_id(old(self).counter()),
                hook_id: hook_id@,
                response: response@,
            }),
            final(self).counter() == old(self).counter() + 1,
            final(self).pending_ids() == old(self).pending_ids(),
            final(self).initialized() == old(self).initialized(),
            final(self).hook_channel() == old(self).hook_channel(),
            final(self).permission_channel() == old(self).permission_channel(),
    {
        ControlRequest::HookResponse { id: self.next_id(), hook_id, response }
    }

    /// Create a permission response with a fresh id.
    pub fn create_permission_response(
        &mut self,
        request_id: RequestId,
        result: PermissionResult,
    ) -> (r: ControlRequest)
        requires
            old(self).counter() < u64::MAX,
        ensures
            r@ == (ControlRequestV::PermissionResponse {
                id: spec_req_id(old(self).counter()),
                request_id: request_id@,
                result: result@,
            }),
            final(self).counter() == old(self).counter() + 1,
            final(self).pending_ids() == old(self).pending_ids(),
            final(self).initialized() == old(self).initialized(),
            final(self).hook_channel() == old(self).hook_channel(),
            final(self).permission_channel() == old(self).permission_channel(),
    {
        ControlRequest::PermissionResponse { id: self.next_id(), request_id, result }
    }

    /// Serialize a control frame: the canonical text of its JSON value,
    /// newline terminated.
    pub fn serialize_message(&self, message: &ControlMessage) -> (r: Result<String, ClaudeError>)
        ensures
            r matches Result::Ok(s) && s@ == spec_frame(spec_enc_control(message@)),
    {
        let j = encode_control_message(message);
        Result::Ok(crate::codec::build_frame(&j))
    }

    /// Deserialize a control frame from a parsed JSON value.
    pub fn deserialize_message(&self, json: &Json) -> (r: Result<ControlMessage, ClaudeError>)
        ensures
            match r {
                Result::Ok(m) => spec_decode_control(json@) == Option::Some(m@),
                Result::Err(e) => spec_decode_control(json@) is None && e is JsonDecode,
            },
    {
        decode_control_message(json)
    }
}

/// The id a success or error answer names, at the specification level.
pub open spec fn spec_answer_id(r: ControlResponseV) -> Seq<char> {
    match r {
        ControlResponseV::Success { id, .. } => id,
        ControlResponseV::Error { id, .. } => id,
        ControlResponseV::Hook { id, .. } => id,
        ControlResponseV::Permission { id, .. } => id,
    }
}

/// The id a request carries, at the specification level.
pub open spec fn spec_request_id(r: ControlRequestV) -> Seq<char> {
    match r {
        ControlRequestV::Interrupt { id } => id,
        ControlRequestV::SendMessage { id, .. } => id,
        ControlRequestV::HookResponse { id, .. } => id,
        ControlRequestV::PermissionResponse { id, .. } => id,
    }
}

proof fn lemma_find_id_hit(s: Seq<Seq<char>>, id: Seq<char>, i: int)
    requires
        0 <= i < s.len(),
        s[i] == id,
        forall|k: int| 0 <= k < i ==> s[k] != id,
    ensures
        spec_find_id(s, id) == Option::Some(i),
    decreases i,
{
    if i > 0 {
        lemma_find_id_hit(s.drop_first(), id, i - 1);
    }
}

proof fn lemma_find_id_miss(s: Seq<Seq<char>>, id: Seq<char>)
    requires
        forall|k: int| 0 <= k < s.len() ==> s[k] != id,
    ensures
        spec_find_id(s, id) is None,
    decreases s.len(),
{
    if s.len() > 0 {
        lemma_find_id_miss(s.drop_first(), id);
    }
}

} // verus!

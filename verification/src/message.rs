//! Typed conversational messages and the parser that reads them out of
//! inbound frames.

use vstd::prelude::*;
use crate::error::ClaudeError;
use crate::identifiers::SessionId;
use crate::json::{Json, JsonV, jview, jview_list, lemma_list_view, spec_lookup};

verus! {

/// The content carried by a tool result: plain text or raw blocks.
#[derive(Debug)]
pub enum ContentValue {
    Text(String),
    Blocks(Vec<Json>),
}

/// The shape of a tool-result content value.
#[verifier::ext_equal]
pub ghost enum ContentValueV {
    Text(Seq<char>),
    Blocks(Seq<JsonV>),
}

impl View for ContentValue {
    type V = ContentValueV;

    open spec fn view(&self) -> ContentValueV {
        match self {
            ContentValue::Text(s) => ContentValueV::Text(s@),
            ContentValue::Blocks(v) => ContentValueV::Blocks(jview_list(v@, v@.len() as int)),
        }
    }
}

/// One block of assistant content.
#[derive(Debug)]
pub enum ContentBlock {
    /// Plain text.
    Text { text: String },
    /// Extended thinking with its signature.
    Thinking { thinking: String, signature: String },
    /// A tool invocation the assistant asks for.
    ToolUse { id: String, name: String, input: Json },
    /// The result of a tool invocation.
    ToolResult { tool_use_id: String, content: Option<ContentValue>, is_error: Option<bool> },
}

/// The shape of a content block.
#[verifier::ext_equal]
pub ghost enum ContentBlockV {
    Text { text: Seq<char> },
    Thinking { thinking: Seq<char>, signature: Seq<char> },
    ToolUse { id: Seq<char>, name: Seq<char>, input: JsonV },
    ToolResult {
        tool_use_id: Seq<char>,
        content: Option<ContentValueV>,
        is_error: Option<bool>,
    },
}

impl View for ContentBlock {
    type V = ContentBlockV;

    open spec fn view(&self) -> ContentBlockV {
        match self {
            ContentBlock::Text { text } => ContentBlockV::Text { text: text@ },
            ContentBlock::Thinking { thinking, signature } => ContentBlockV::Thinking {
                thinking: thinking@,
                signature: signature@,
            },
            ContentBlock::ToolUse { id, name, input } => ContentBlockV::ToolUse {
                id: id@,
                name: name@,
                input: input@,
            },
            ContentBlock::ToolResult { tool_use_id, content, is_error } => ContentBlockV::ToolResult {
                tool_use_id: tool_use_id@,
                content: match content {
                    Option::Some(c) => Option::Some(c@),
                    Option::None => Option::None,
                },
                is_error: *is_error,
            },
        }
    }
}

/// Assistant message content: the model that spoke and its blocks.
#[derive(Debug)]
pub struct AssistantMessageContent {
    pub model: String,
    pub content: Vec<ContentBlock>,
}

/// The shape of assistant message content.
#[verifier::ext_equal]
pub ghost struct AssistantMessageContentV {
    pub model: Seq<char>,
    pub content: Seq<ContentBlockV>,
}

impl View for AssistantMessageContent {
    type V = AssistantMessageContentV;

    open spec fn view(&self) -> AssistantMessageContentV {
        AssistantMessageContentV {
            model: self.model@,
            content: self.content@.map_values(|b: ContentBlock| b@),
        }
    }
}

/// User message content: the role and the raw content payload.
#[derive(Debug)]
pub struct UserMessageContent {
    pub role: String,
    pub content: Option<Json>,
}

/// The shape of user message content.
#[verifier::ext_equal]
pub ghost struct UserMessageContentV {
    pub role: Seq<char>,
    pub content: Option<JsonV>,
}

impl View for UserMessageContent {
    type V = UserMessageContentV;

    open spec fn view(&self) -> UserMessageContentV {
        UserMessageContentV {
            role: self.role@,
            content: match self.content {
                Option::Some(ref j) => Option::Some(j@),
                Option::None => Option::None,
            },
        }
    }
}

/// One conversational message from the child.
#[derive(Debug)]
pub enum Message {
    /// A user message echoed back.
    User { message: UserMessageContent, session_id: Option<SessionId> },
    /// An assistant message.
    Assistant { message: AssistantMessageContent, session_id: Option<SessionId> },
    /// A session event, kept whole.
    System { subtype: String, data: Json },
    /// The terminal per-turn summary.
    Result {
        subtype: String,
        duration_ms: u64,
        duration_api_ms: u64,
        is_error: bool,
        num_turns: u32,
        session_id: SessionId,
        result: Option<String>,
    },
    /// A partial-message stream event.
    StreamEvent { uuid: String, session_id: SessionId, event: Json },
}

/// The shape of a conversational message.
#[verifier::ext_equal]
pub ghost enum MessageV {
    User { message: UserMessageContentV, session_id: Option<Seq<char>> },
    Assistant { message: AssistantMessageContentV, session_id: Option<Seq<char>> },
    System { subtype: Seq<char>, data: JsonV },
    Result {
        subtype: Seq<char>,
        duration_ms: u64,
        duration_api_ms: u64,
        is_error: bool,
        num_turns: u32,
        session_id: Seq<char>,
        result: Option<Seq<char>>,
    },
    StreamEvent { uuid: Seq<char>, session_id: Seq<char>, event: JsonV },
}

impl View for Message {
    type V = MessageV;

    open spec fn view(&self) -> MessageV {
        match self {
            Message::User { message, session_id } => MessageV::User {
                message: message@,
                session_id: match session_id {
                    Option::Some(s) => Option::Some(s@),
                    Option::None => Option::None,
                },
            },
            Message::Assistant { message, session_id } => MessageV::Assistant {
                message: message@,
                session_id: match session_id {
                    Option::Some(s) => Option::Some(s@),
                    Option::None => Option::None,
                },
            },
            Message::System { subtype, data } => MessageV::System {
                subtype: subtype@,
                data: data@,
            },
            Message::Result {
                subtype,
                duration_ms,
                duration_api_ms,
                is_error,
                num_turns,
                session_id,
                result,
            } => MessageV::Result {
                subtype: subtype@,
                duration_ms: *duration_ms,
                duration_api_ms: *duration_api_ms,
                is_error: *is_error,
                num_turns: *num_turns,
                session_id: session_id@,
                result: match result {
                    Option::Some(s) => Option::Some(s@),
                    Option::None => Option::None,
                },
            },
            Message::StreamEvent { uuid, session_id, event } => MessageV::StreamEvent {
                uuid: uuid@,
                session_id: session_id@,
                event: event@,
            },
        }
    }
}

/// What parsing one content block yields.
pub open spec fn spec_parse_block(j: JsonV) -> Option<ContentBlockV> {
    match j {
        JsonV::Obj(m) => match spec_lookup(m, "type"@) {
            Option::Some(JsonV::Str(t)) => if t == "text"@ {
                match spec_lookup(m, "text"@) {
                    Option::Some(JsonV::Str(text)) => Option::Some(ContentBlockV::Text { text }),
                    _ => Option::None,
                }
            } else if t == "thinking"@ {
                match (spec_lookup(m, "thinking"@), spec_lookup(m, "signature"@)) {
                    (
                        Option::Some(JsonV::Str(thinking)),
                        Option::Some(JsonV::Str(signature)),
                    ) => Option::Some(ContentBlockV::Thinking { thinking, signature }),
                    _ => Option::None,
                }
            } else if t == "tool_use"@ {
                match (spec_lookup(m, "id"@), spec_lookup(m, "name"@), spec_lookup(m, "input"@)) {
                    (
                        Option::Some(JsonV::Str(id)),
                        Option::Some(JsonV::Str(name)),
                        Option::Some(input),
                    ) => Option::Some(ContentBlockV::ToolUse { id, name, input }),
                    _ => Option::None,
                }
            } else if t == "tool_result"@ {
                match spec_lookup(m, "tool_use_id"@) {
                    Option::Some(JsonV::Str(tool_use_id)) => {
                        let content = match spec_lookup(m, "content"@) {
                            Option::None => Option::Some(Option::None),
                            Option::Some(JsonV::Str(s)) => Option::Some(
                                Option::Some(ContentValueV::Text(s)),
                            ),
                            Option::Some(JsonV::Arr(a)) => Option::Some(
                                Option::Some(ContentValueV::Blocks(a)),
                            ),
                            Option::Some(_) => Option::None,
                        };
                        let is_error = match spec_lookup(m, "is_error"@) {
                            Option::None => Option::Some(Option::None),
                            Option::Some(JsonV::Bool(b)) => Option::Some(Option::Some(b)),
                            Option::Some(_) => Option::None,
                        };
                        match (content, is_error) {
                            (Option::Some(c), Option::Some(e)) => Option::Some(
                                ContentBlockV::ToolResult { tool_use_id, content: c, is_error: e },
                            ),
                            _ => Option::None,
                        }
                    },
                    _ => Option::None,
                }
            } else {
                Option::None
            },
            _ => Option::None,
        },
        _ => Option::None,
    }
}

/// What parsing the first `i` blocks yields: all must parse.
pub open spec fn spec_parse_blocks(s: Seq<JsonV>, i: int) -> Option<Seq<ContentBlockV>>
    decreases i,
{
    if i <= 0 {
        Option::Some(Seq::empty())
    } else {
        match (spec_parse_blocks(s, i - 1), spec_parse_block(s[i - 1])) {
            (Option::Some(bs), Option::Some(b)) => Option::Some(bs.push(b)),
            _ => Option::None,
        }
    }
}

proof fn lemma_blocks_fail(s: Seq<JsonV>, k: int, i: int)
    requires
        0 <= k < i,
        spec_parse_block(s[k]) is None,
    ensures
        spec_parse_blocks(s, i) is None,
    decreases i,
{
    if k < i - 1 {
        lemma_blocks_fail(s, k, i - 1);
    }
}

/// An optional string field: present as a string, or absent or null.
pub open spec fn spec_opt_str(m: Seq<(Seq<char>, JsonV)>, key: Seq<char>) -> Option<
    Option<Seq<char>>,
> {
    match spec_lookup(m, key) {
        Option::None => Option::Some(Option::None),
        Option::Some(JsonV::Null) => Option::Some(Option::None),
        Option::Some(JsonV::Str(s)) => Option::Some(Option::Some(s)),
        Option::Some(_) => Option::None,
    }
}

/// What parsing a whole inbound frame into a message yields.
pub open spec fn spec_parse_message(j: JsonV) -> Option<MessageV> {
    match j {
        JsonV::Obj(m) => match spec_lookup(m, "type"@) {
            Option::Some(JsonV::Str(t)) => if t == "user"@ {
                match spec_lookup(m, "message"@) {
                    Option::Some(JsonV::Obj(mm)) => match spec_lookup(mm, "role"@) {
                        Option::Some(JsonV::Str(role)) => match spec_opt_str(m, "session_id"@) {
                            Option::Some(session_id) => Option::Some(
                                MessageV::User {
                                    message: UserMessageContentV {
                                        role,
                                        content: spec_lookup(mm, "content"@),
                                    },
                                    session_id,
                                },
                            ),
                            Option::None => Option::None,
                        },
                        _ => Option::None,
                    },
                    _ => Option::None,
                }
            } else if t == "assistant"@ {
                match spec_lookup(m, "message"@) {
                    Option::Some(JsonV::Obj(mm)) => match (
                        spec_lookup(mm, "model"@),
                        spec_lookup(mm, "content"@),
                    ) {
                        (Option::Some(JsonV::Str(model)), Option::Some(JsonV::Arr(blocks))) => match (
                            spec_parse_blocks(blocks, blocks.len() as int),
                            spec_opt_str(m, "session_id"@),
                        ) {
                            (Option::Some(content), Option::Some(session_id)) => Option::Some(
                                MessageV::Assistant {
                                    message: AssistantMessageContentV { model, content },
                                    session_id,
                                },
                            ),
                            _ => Option::None,
                        },
                        _ => Option::None,
                    },
                    _ => Option::None,
                }
            } else if t == "system"@ {
                match spec_lookup(m, "subtype"@) {
                    Option::Some(JsonV::Str(subtype)) => Option::Some(
                        MessageV::System { subtype, data: j },
                    ),
                    _ => Option::None,
                }
            } else if t == "result"@ {
                match (
                    spec_lookup(m, "subtype"@),
                    spec_lookup(m, "duration_ms"@),
                    spec_lookup(m, "duration_api_ms"@),
                    spec_lookup(m, "is_error"@),
                    spec_lookup(m, "num_turns"@),
                    spec_lookup(m, "session_id"@),
                ) {
                    (
                        Option::Some(JsonV::Str(subtype)),
                        Option::Some(JsonV::Int(duration_ms)),
                        Option::Some(JsonV::Int(duration_api_ms)),
                        Option::Some(JsonV::Bool(is_error)),
                        Option::Some(JsonV::Int(num_turns)),
                        Option::Some(JsonV::Str(session_id)),
                    ) => if 0 <= duration_ms && 0 <= duration_api_ms && 0 <= num_turns
                        && num_turns <= u32::MAX {
                        match spec_opt_str(m, "result"@) {
                            Option::Some(result) => Option::Some(
                                MessageV::Result {
                                    subtype,
                                    duration_ms: duration_ms as u64,
                                    duration_api_ms: duration_api_ms as u64,
                                    is_error,
                                    num_turns: num_turns as u32,
                                    session_id,
                                    result,
                                },
                            ),
                            Option::None => Option::None,
                        }
                    } else {
                        Option::None
                    },
                    _ => Option::None,
                }
            } else if t == "stream_event"@ {
                match (
                    spec_lookup(m, "uuid"@),
                    spec_lookup(m, "session_id"@),
                    spec_lookup(m, "event"@),
                ) {
                    (
                        Option::Some(JsonV::Str(uuid)),
                        Option::Some(JsonV::Str(session_id)),
                        Option::Some(event),
                    ) => Option::Some(MessageV::StreamEvent { uuid, session_id, event }),
                    _ => Option::None,
                }
            } else {
                Option::None
            },
            _ => Option::None,
        },
        _ => Option::None,
    }
}

/// Parse one content block.
fn parse_block(j: &Json) -> (r: Option<ContentBlock>)
    ensures
        match r {
            Option::Some(b) => spec_parse_block(j@) == Option::Some(b@),
            Option::None => spec_parse_block(j@) is None,
        },
{
    if !j.is_obj() {
        return Option::None;
    }
    let t = match j.get("type") {
        Option::Some(Json::Str(t)) => t,
        _ => { return Option::None; },
    };
    if crate::strutil::str_eq(t.as_str(), "text") {
        match j.get("text") {
            Option::Some(Json::Str(text)) => Option::Some(
                ContentBlock::Text { text: text.clone() },
            ),
            _ => Option::None,
        }
    } else if crate::strutil::str_eq(t.as_str(), "thinking") {
        let thinking = match j.get("thinking") {
            Option::Some(Json::Str(s)) => s.clone(),
            _ => { return Option::None; },
        };
        match j.get("signature") {
            Option::Some(Json::Str(signature)) => Option::Some(
                ContentBlock::Thinking { thinking, signature: signature.clone() },
            ),
            _ => Option::None,
        }
    } else if crate::strutil::str_eq(t.as_str(), "tool_use") {
        let id = match j.get("id") {
            Option::Some(Json::Str(s)) => s.clone(),
            _ => { return Option::None; },
        };
        let name = match j.get("name") {
            Option::Some(Json::Str(s)) => s.clone(),
            _ => { return Option::None; },
        };
        match j.get("input") {
            Option::Some(input) => Option::Some(
                ContentBlock::ToolUse { id, name, input: input.clone() },
            ),
            Option::None => Option::None,
        }
    } else if crate::strutil::str_eq(t.as_str(), "tool_result") {
        let tool_use_id = match j.get("tool_use_id") {
            Option::Some(Json::Str(s)) => s.clone(),
            _ => { return Option::None; },
        };
        let content = match j.get("content") {
            Option::None => Option::None,
            Option::Some(Json::Str(s)) => Option::Some(ContentValue::Text(s.clone())),
            Option::Some(Json::Arr(a)) => {
                let mut blocks: Vec<Json> = Vec::new();
                let mut i: usize = 0;
                while i < a.len()
                    invariant
                        i <= a@.len(),
                        blocks@.len() == i,
                        forall|k: int| 0 <= k < i ==> jview(#[trigger] blocks@[k]) == jview(a@[k]),
                    decreases a@.len() - i,
                {
                    blocks.push(a[i].clone());
                    i = i + 1;
                }
                proof {
                    lemma_list_view(blocks@);
                    lemma_list_view(a@);
                    assert(jview_list(blocks@, blocks@.len() as int) =~= jview_list(
                        a@,
                        a@.len() as int,
                    ));
                }
                Option::Some(ContentValue::Blocks(blocks))
            },
            Option::Some(_) => { return Option::None; },
        };
        let is_error = match j.get("is_error") {
            Option::None => Option::None,
            Option::Some(Json::Bool(b)) => Option::Some(*b),
            Option::Some(_) => { return Option::None; },
        };
        Option::Some(ContentBlock::ToolResult { tool_use_id, content, is_error })
    } else {
        Option::None
    }
}

/// An optional string field of an object: a string, or absent or null.
fn get_opt_str(j: &Json, key: &str) -> (r: Option<Option<String>>)
    requires
        j@ is Obj,
    ensures
        match r {
            Option::Some(Option::Some(s)) => spec_opt_str(j@->Obj_0, key@) == Option::Some(
                Option::Some(s@),
            ),
            Option::Some(Option::None) => spec_opt_str(j@->Obj_0, key@) == Option::Some(
                Option::None::<Seq<char>>,
            ),
            Option::None => spec_opt_str(j@->Obj_0, key@) is None,
        },
{
    match j.get(key) {
        Option::None => Option::Some(Option::None),
        Option::Some(Json::Null) => Option::Some(Option::None),
        Option::Some(Json::Str(s)) => Option::Some(Option::Some(s.clone())),
        Option::Some(_) => Option::None,
    }
}

/// Parse a frame into a typed message; on failure the raw value rides along
/// in the error.
pub fn parse_message(data: Json) -> (r: Result<Message, ClaudeError>)
    ensures
        match r {
            Result::Ok(msg) => spec_parse_message(data@) == Option::Some(msg@),
            Result::Err(e) => spec_parse_message(data@) is None && (
            e matches ClaudeError::MessageParse { data: d, .. } && d matches Option::Some(dj)
                && dj@ == data@),
        },
{
    let t = match data.get("type") {
        Option::Some(Json::Str(t)) => t.clone(),
        _ => {
            let e = ClaudeError::message_parse("frame has no type", Option::Some(data));
            return Result::Err(e);
        },
    };
    if crate::strutil::str_eq(t.as_str(), "user") {
        let mm = match data.get("message") {
            Option::Some(inner) => inner,
            Option::None => {
                return Result::Err(
                    ClaudeError::message_parse("user frame has no message", Option::Some(data)),
                );
            },
        };
        if !mm.is_obj() {
            return Result::Err(
                ClaudeError::message_parse("user message not an object", Option::Some(data)),
            );
        }
        let role = match mm.get("role") {
            Option::Some(Json::Str(s)) => s.clone(),
            _ => {
                return Result::Err(
                    ClaudeError::message_parse("user message has no role", Option::Some(data)),
                );
            },
        };
        let content = match mm.get("content") {
            Option::Some(c) => Option::Some(c.clone()),
            Option::None => Option::None,
        };
        let session_id = match get_opt_str(&data, "session_id") {
            Option::Some(Option::Some(s)) => Option::Some(SessionId::new(s.as_str())),
            Option::Some(Option::None) => Option::None,
            Option::None => {
                return Result::Err(
                    ClaudeError::message_parse("bad session id", Option::Some(data)),
                );
            },
        };
        let msg = Message::User {
            message: UserMessageContent { role, content },
            session_id,
        };
        proof {
            assert(spec_parse_message(data@) =~= Option::Some(msg@));
        }
        Result::Ok(msg)
    } else if crate::strutil::str_eq(t.as_str(), "assistant") {
        let mm = match data.get("message") {
            Option::Some(inner) => inner,
            Option::None => {
                return Result::Err(
                    ClaudeError::message_parse(
                        "assistant frame has no message",
                        Option::Some(data),
                    ),
                );
            },
        };
        if !mm.is_obj() {
            return Result::Err(
                ClaudeError::message_parse("assistant message not an object", Option::Some(data)),
            );
        }
        let model = match mm.get("model") {
            Option::Some(Json::Str(s)) => s.clone(),
            _ => {
                return Result::Err(
                    ClaudeError::message_parse("assistant message has no model", Option::Some(data)),
                );
            },
        };
        let items = match mm.get("content") {
            Option::Some(Json::Arr(items)) => items,
            _ => {
                return Result::Err(
                    ClaudeError::message_parse(
                        "assistant message has no content",
                        Option::Some(data),
                    ),
                );
            },
        };
        let ghost itemsv = jview_list(items@, items@.len() as int);
        proof {
            lemma_list_view(items@);
        }
        let mut content: Vec<ContentBlock> = Vec::new();
        let mut i: usize = 0;
        let n = items.len();
        while i < n
            invariant
                i <= n,
                n == items@.len(),
                data@ is Obj,
                spec_lookup(data@->Obj_0, "type"@) == Option::Some(JsonV::Str("assistant"@)),
                spec_lookup(data@->Obj_0, "message"@) == Option::Some(mm@),
                mm@ is Obj,
                spec_lookup(mm@->Obj_0, "model"@) == Option::Some(JsonV::Str(model@)),
                spec_lookup(mm@->Obj_0, "content"@) == Option::Some(JsonV::Arr(itemsv)),
                itemsv == jview_list(items@, items@.len() as int),
                itemsv.len() == n,
                forall|k: int| 0 <= k < n ==> itemsv[k] == jview(#[trigger] items@[k]),
                spec_parse_blocks(itemsv, i as int) == Option::Some(
                    content@.map_values(|b: ContentBlock| b@),
                ),
            decreases n - i,
        {
            match parse_block(&items[i]) {
                Option::Some(b) => {
                    let ghost prev = content@;
                    let ghost bv = b@;
                    content.push(b);
                    proof {
                        assert(content@.map_values(|b: ContentBlock| b@) =~= prev.map_values(
                            |b: ContentBlock| b@,
                        ).push(bv));
                        assert(spec_parse_blocks(itemsv, i + 1) == Option::Some(
                            content@.map_values(|b: ContentBlock| b@),
                        ));
                    }
                },
                Option::None => {
                    proof {
                        lemma_blocks_fail(itemsv, i as int, n as int);
                        reveal_strlit("user");
                        reveal_strlit("assistant");
                        assert("user"@.len() == 4);
                        assert("assistant"@.len() == 9);
                        assert(spec_parse_message(data@) is None);
                    }
                    return Result::Err(
                        ClaudeError::message_parse("bad content block", Option::Some(data)),
                    );
                },
            }
            i = i + 1;
        }
        let session_id = match get_opt_str(&data, "session_id") {
            Option::Some(Option::Some(s)) => Option::Some(SessionId::new(s.as_str())),
            Option::Some(Option::None) => Option::None,
            Option::None => {
                return Result::Err(
                    ClaudeError::message_parse("bad session id", Option::Some(data)),
                );
            },
        };
        let msg = Message::Assistant {
            message: AssistantMessageContent { model, content },
            session_id,
        };
        proof {
            assert(spec_parse_message(data@) =~= Option::Some(msg@));
        }
        Result::Ok(msg)
    } else if crate::strutil::str_eq(t.as_str(), "system") {
        let subtype = match data.get("subtype") {
            Option::Some(Json::Str(s)) => s.clone(),
            _ => {
                return Result::Err(
                    ClaudeError::message_parse("system frame has no subtype", Option::Some(data)),
                );
            },
        };
        let whole = data.clone();
        let msg = Message::System { subtype, data: whole };
        proof {
            assert(spec_parse_message(data@) =~= Option::Some(msg@));
        }
        Result::Ok(msg)
    } else if crate::strutil::str_eq(t.as_str(), "result") {
        let subtype = match data.get("subtype") {
            Option::Some(Json::Str(s)) => s.clone(),
            _ => {
                return Result::Err(
                    ClaudeError::message_parse("result has no subtype", Option::Some(data)),
                );
            },
        };
        let duration_ms_raw = match data.get("duration_ms") {
            Option::Some(Json::Int(n)) => *n,
            _ => {
                return Result::Err(
                    ClaudeError::message_parse("result has no duration", Option::Some(data)),
                );
            },
        };
        if duration_ms_raw < 0 {
            return Result::Err(
                ClaudeError::message_parse("negative duration", Option::Some(data)),
            );
        }
        let duration_ms = duration_ms_raw as u64;
        let duration_api_ms_raw = match data.get("duration_api_ms") {
            Option::Some(Json::Int(n)) => *n,
            _ => {
                return Result::Err(
                    ClaudeError::message_parse("result has no api duration", Option::Some(data)),
                );
            },
        };
        if duration_api_ms_raw < 0 {
            return Result::Err(
                ClaudeError::message_parse("negative api duration", Option::Some(data)),
            );
        }
        let duration_api_ms = duration_api_ms_raw as u64;
        let is_error = match data.get("is_error") {
            Option::Some(Json::Bool(b)) => *b,
            _ => {
                return Result::Err(
                    ClaudeError::message_parse("result has no error flag", Option::Some(data)),
                );
            },
        };
        let num_turns_raw = match data.get("num_turns") {
            Option::Some(Json::Int(n)) => *n,
            _ => {
                return Result::Err(
                    ClaudeError::message_parse("result has no turn count", Option::Some(data)),
                );
            },
        };
        if num_turns_raw < 0 || num_turns_raw > u32::MAX as i64 {
            return Result::Err(
                ClaudeError::message_parse("turn count out of range", Option::Some(data)),
            );
        }
        let num_turns = num_turns_raw as u32;
        let session_id = match data.get("session_id") {
            Option::Some(Json::Str(s)) => SessionId::new(s.as_str()),
            _ => {
                return Result::Err(
                    ClaudeError::message_parse("result has no session id", Option::Some(data)),
                );
            },
        };
        let result = match get_opt_str(&data, "result") {
            Option::Some(Option::Some(s)) => Option::Some(s),
            Option::Some(Option::None) => Option::None,
            Option::None => {
                return Result::Err(
                    ClaudeError::message_parse("bad result text", Option::Some(data)),
                );
            },
        };
        let msg = Message::Result {
            subtype,
            duration_ms,
            duration_api_ms,
            is_error,
            num_turns,
            session_id,
            result,
        };
        proof {
            assert(spec_parse_message(data@) =~= Option::Some(msg@));
        }
        Result::Ok(msg)
    } else if crate::strutil::str_eq(t.as_str(), "stream_event") {
        let uuid = match data.get("uuid") {
            Option::Some(Json::Str(s)) => s.clone(),
            _ => {
                return Result::Err(
                    ClaudeError::message_parse("stream event has no uuid", Option::Some(data)),
                );
            },
        };
        let session_id = match data.get("session_id") {
            Option::Some(Json::Str(s)) => SessionId::new(s.as_str()),
            _ => {
                return Result::Err(
                    ClaudeError::message_parse(
                        "stream event has no session id",
                        Option::Some(data),
                    ),
                );
            },
        };
        let event = match data.get("event") {
            Option::Some(e) => e.clone(),
            Option::None => {
                return Result::Err(
                    ClaudeError::message_parse("stream event has no payload", Option::Some(data)),
                );
            },
        };
        let msg = Message::StreamEvent { uuid, session_id, event };
        proof {
            assert(spec_parse_message(data@) =~= Option::Some(msg@));
        }
        Result::Ok(msg)
    } else {
        Result::Err(ClaudeError::message_parse("unknown frame type", Option::Some(data)))
    }
}

} // verus!

//! Deterministic construction of the child's invocation: its command-line
//! arguments from the configuration, and the sanitized environment handed to
//! it.

use vstd::prelude::*;
use crate::identifiers::{SessionId, ToolName};
use crate::json::{Json, JsonV, lemma_members_view, spec_enc};
use crate::permissions::{PermissionMode, SettingSource, spec_mode_flag, spec_source_flag};
use crate::strutil::{spec_dec, str_eq, u64_to_string};

verus! {

/// A system prompt preset reference.
#[derive(Debug, Clone)]
pub struct SystemPromptPreset {
    pub prompt_type: String,
    pub preset: String,
    pub append: Option<String>,
}

/// The system prompt configuration.
#[derive(Debug, Clone)]
pub enum SystemPrompt {
    Text(String),
    Preset(SystemPromptPreset),
}

/// An agent definition handed to the child.
#[derive(Debug, Clone)]
pub struct AgentDefinition {
    pub description: String,
    pub prompt: String,
    pub tools: Option<Vec<String>>,
    pub model: Option<String>,
}

/// An MCP server reached over the child's stdio.
#[derive(Debug, Clone)]
pub struct McpStdioServerConfig {
    pub server_type: Option<String>,
    pub command: String,
    pub args: Option<Vec<String>>,
    pub env: Option<Vec<(String, String)>>,
}

/// An MCP server reached over streamable HTTP.
#[derive(Debug, Clone)]
pub struct McpStreamableHttpConfig {
    pub server_type: String,
    pub url: String,
    pub headers: Option<Vec<(String, String)>>,
}

/// An MCP server reached over HTTP.
#[derive(Debug, Clone)]
pub struct McpHttpServerConfig {
    pub server_type: String,
    pub url: String,
    pub headers: Option<Vec<(String, String)>>,
}

/// A marker for an in-process MCP server.
#[derive(Debug, Clone)]
pub struct SdkMcpServerMarker {
    pub name: String,
}

/// One MCP server configuration.
#[derive(Debug, Clone)]
pub enum McpServerConfig {
    Stdio(McpStdioServerConfig),
    StreamableHttp(McpStreamableHttpConfig),
    Http(McpHttpServerConfig),
    Sdk(SdkMcpServerMarker),
}

/// The MCP servers the child is told about.
#[derive(Debug, Clone)]
pub enum McpServers {
    NoServers,
    Dict(Vec<(String, McpServerConfig)>),
    Path(String),
}

/// The prompt handed to a freshly spawned child: one string, or a stream of
/// frames on its stdin.
#[derive(Debug)]
pub enum PromptInput {
    Text(String),
    Stream,
}

impl PromptInput {
    /// A plain text prompt.
    pub fn from_text(s: &str) -> (r: Self)
        ensures
            r matches PromptInput::Text(t) && t@ == s@,
    {
        PromptInput::Text(s.to_owned())
    }
}

/// The full configuration of one child invocation.
#[derive(Debug, Clone)]
pub struct ClaudeAgentOptions {
    pub allowed_tools: Vec<ToolName>,
    pub system_prompt: Option<SystemPrompt>,
    pub mcp_servers: McpServers,
    pub permission_mode: Option<PermissionMode>,
    pub continue_conversation: bool,
    pub resume: Option<SessionId>,
    pub max_turns: Option<u32>,
    pub disallowed_tools: Vec<ToolName>,
    pub model: Option<String>,
    pub permission_prompt_tool_name: Option<String>,
    pub cwd: Option<String>,
    pub settings: Option<String>,
    pub add_dirs: Vec<String>,
    pub env: Vec<(String, String)>,
    pub extra_args: Vec<(String, Option<String>)>,
    pub max_buffer_size: Option<usize>,
    pub user: Option<String>,
    pub include_partial_messages: bool,
    pub fork_session: bool,
    pub agents: Option<Vec<(String, AgentDefinition)>>,
    pub setting_sources: Option<Vec<SettingSource>>,
}

impl ClaudeAgentOptions {
    /// An empty configuration: no tools named, no prompt, no servers.
    pub fn new() -> (r: Self)
        ensures
            r.allowed_tools@.len() == 0,
            r.disallowed_tools@.len() == 0,
            r.system_prompt is None,
            r.mcp_servers is NoServers,
            r.permission_mode is None,
            !r.continue_conversation,
            r.resume is None,
            r.max_turns is None,
            r.model is None,
            r.permission_prompt_tool_name is None,
            r.cwd is None,
            r.settings is None,
            r.add_dirs@.len() == 0,
            r.env@.len() == 0,
            r.extra_args@.len() == 0,
            r.max_buffer_size is None,
            r.user is None,
            !r.include_partial_messages,
            !r.fork_session,
            r.agents is None,
            r.setting_sources is None,
    {
        ClaudeAgentOptions {
            allowed_tools: Vec::new(),
            system_prompt: None,
            mcp_servers: McpServers::NoServers,
            permission_mode: None,
            continue_conversation: false,
            resume: None,
            max_turns: None,
            disallowed_tools: Vec::new(),
            model: None,
            permission_prompt_tool_name: None,
            cwd: None,
            settings: None,
            add_dirs: Vec::new(),
            env: Vec::new(),
            extra_args: Vec::new(),
            max_buffer_size: None,
            user: None,
            include_partial_messages: false,
            fork_session: false,
            agents: None,
            setting_sources: None,
        }
    }

    /// Start building a configuration.
    pub fn builder() -> (r: ClaudeAgentOptionsBuilder)
        ensures
            r.options.max_turns is None,
    {
        ClaudeAgentOptionsBuilder { options: ClaudeAgentOptions::new() }
    }
}

/// Step-by-step construction of a configuration.
#[derive(Debug)]
pub struct ClaudeAgentOptionsBuilder {
    pub options: ClaudeAgentOptions,
}

impl ClaudeAgentOptionsBuilder {
    /// Set the allowed tools.
    pub fn allowed_tools(self, tools: Vec<ToolName>) -> (r: Self)
        ensures
            r.options == (ClaudeAgentOptions { allowed_tools: tools, ..self.options }),
    {
        let mut b = self;
        b.options.allowed_tools = tools;
        b
    }

    /// Add one allowed tool.
    pub fn add_allowed_tool(self, tool: ToolName) -> (r: Self)
        ensures
            r.options.allowed_tools@ == self.options.allowed_tools@.push(tool),
            r.options.max_turns == self.options.max_turns,
    {
        let mut b = self;
        b.options.allowed_tools.push(tool);
        b
    }

    /// Set a plain text system prompt.
    pub fn system_prompt(self, prompt: &str) -> (r: Self)
        ensures
            r.options.system_prompt matches Some(SystemPrompt::Text(t)) && t@ == prompt@,
            r.options.max_turns == self.options.max_turns,
    {
        let mut b = self;
        b.options.system_prompt = Some(SystemPrompt::Text(prompt.to_owned()));
        b
    }

    /// Set the MCP servers.
    pub fn mcp_servers(self, servers: Vec<(String, McpServerConfig)>) -> (r: Self)
        ensures
            r.options.mcp_servers matches McpServers::Dict(d) && d == servers,
            r.options.max_turns == self.options.max_turns,
    {
        let mut b = self;
        b.options.mcp_servers = McpServers::Dict(servers);
        b
    }

    /// Set the permission mode.
    pub fn permission_mode(self, mode: PermissionMode) -> (r: Self)
        ensures
            r.options.permission_mode == Some(mode),
            r.options.max_turns == self.options.max_turns,
    {
        let mut b = self;
        b.options.permission_mode = Some(mode);
        b
    }

    /// Set the turn limit. Limits above one thousand are rejected by this
    /// builder and must not be asked for.
    pub fn max_turns(self, turns: u32) -> (r: Self)
        requires
            turns <= 1000,
        ensures
            r.options.max_turns == Some(turns),
    {
        let mut b = self;
        b.options.max_turns = Some(turns);
        b
    }

    /// Set the working directory.
    pub fn cwd(self, path: &str) -> (r: Self)
        ensures
            r.options.cwd matches Some(p) && p@ == path@,
            r.options.max_turns == self.options.max_turns,
    {
        let mut b = self;
        b.options.cwd = Some(path.to_owned());
        b
    }

    /// Finish building.
    pub fn build(self) -> (r: ClaudeAgentOptions)
        ensures
            r == self.options,
    {
        self.options
    }
}

/// Environment variables never passed through to the child, because they
/// change how it loads and runs code.
pub open spec fn is_dangerous_env(k: Seq<char>) -> bool {
    k == "LD_PRELOAD"@ || k == "LD_LIBRARY_PATH"@ || k == "DYLD_INSERT_LIBRARIES"@ || k
        == "DYLD_LIBRARY_PATH"@ || k == "PATH"@ || k == "NODE_OPTIONS"@ || k == "PYTHONPATH"@ || k
        == "PERL5LIB"@ || k == "RUBYLIB"@
}

/// Whether a variable name is on the denylist.
pub fn is_dangerous_env_name(k: &str) -> (r: bool)
    ensures
        r == is_dangerous_env(k@),
{
    str_eq(k, "LD_PRELOAD") || str_eq(k, "LD_LIBRARY_PATH") || str_eq(k, "DYLD_INSERT_LIBRARIES")
        || str_eq(k, "DYLD_LIBRARY_PATH") || str_eq(k, "PATH") || str_eq(k, "NODE_OPTIONS")
        || str_eq(k, "PYTHONPATH") || str_eq(k, "PERL5LIB") || str_eq(k, "RUBYLIB")
}

/// The user-supplied overrides that survive sanitization, in order.
pub open spec fn spec_sanitized_env(s: Seq<(String, String)>) -> Seq<(String, String)>
    decreases s.len(),
{
    if s.len() == 0 {
        s
    } else if is_dangerous_env(s[0].0@) {
        spec_sanitized_env(s.drop_first())
    } else {
        seq![s[0]] + spec_sanitized_env(s.drop_first())
    }
}

proof fn lemma_sanitized_env_safe(s: Seq<(String, String)>)
    ensures
        forall|i: int|
            0 <= i < spec_sanitized_env(s).len() ==> !is_dangerous_env(
                (#[trigger] spec_sanitized_env(s)[i]).0@,
            ),
    decreases s.len(),
{
    if s.len() > 0 {
        lemma_sanitized_env_safe(s.drop_first());
        let rest = spec_sanitized_env(s.drop_first());
        assert forall|i: int|
            0 <= i < spec_sanitized_env(s).len() implies !is_dangerous_env(
            (#[trigger] spec_sanitized_env(s)[i]).0@,
        ) by {
            if !is_dangerous_env(s[0].0@) {
                if i > 0 {
                    assert(spec_sanitized_env(s)[i] == rest[i - 1]);
                }
            }
        }
    }
}

/// Drop every denylisted variable from the user-supplied overrides; what
/// remains carries no denylisted name. System values are not touched here:
/// the caller lays these over the inherited environment.
pub fn sanitize_user_env(user_env: &Vec<(String, String)>) -> (r: Vec<(String, String)>)
    ensures
        r@ == spec_sanitized_env(user_env@),
        forall|i: int| 0 <= i < r@.len() ==> !is_dangerous_env((#[trigger] r@[i]).0@),
{
    let mut out: Vec<(String, String)> = Vec::new();
    let mut i: usize = 0;
    proof {
        assert(user_env@.take(0) =~= Seq::<(String, String)>::empty());
        assert(out@ =~= spec_sanitized_env(user_env@.take(0)));
    }
    while i < user_env.len()
        invariant
            i <= user_env@.len(),
            out@ =~= spec_sanitized_env(user_env@.take(i as int)),
        decreases user_env@.len() - i,
    {
        proof {
            lemma_sanitized_take_step(user_env@, i as int);
        }
        if !is_dangerous_env_name(user_env[i].0.as_str()) {
            let k = user_env[i].0.clone();
            let v = user_env[i].1.clone();
            proof {
                assert((k, v) == user_env@[i as int]) by {
                    assert(k == user_env@[i as int].0 && v == user_env@[i as int].1);
                }
            }
            out.push((k, v));
        }
        i = i + 1;
    }
    proof {
        assert(user_env@.take(user_env@.len() as int) =~= user_env@);
        lemma_sanitized_env_safe(user_env@);
    }
    out
}

proof fn lemma_sanitized_take_step(s: Seq<(String, String)>, i: int)
    requires
        0 <= i < s.len(),
    ensures
        spec_sanitized_env(s.take(i + 1)) =~= if is_dangerous_env(s[i].0@) {
            spec_sanitized_env(s.take(i))
        } else {
            spec_sanitized_env(s.take(i)) + seq![s[i]]
        },
    decreases i,
{
    let t = s.take(i + 1);
    if i == 0 {
        assert(t.drop_first() =~= s.take(0));
        assert(spec_sanitized_env(s.take(0)) =~= Seq::<(String, String)>::empty());
    } else {
        assert(t[0] == s[0]);
        assert(t.drop_first() =~= s.drop_first().take(i));
        assert(s.take(i)[0] == s[0]);
        assert(s.take(i).drop_first() =~= s.drop_first().take(i - 1));
        lemma_sanitized_take_step(s.drop_first(), i - 1);
        assert(s.drop_first()[i - 1] == s[i]);
    }
}

/// The two identity variables the orchestrator injects into every child.
pub fn identity_env() -> (r: Vec<(String, String)>)
    ensures
        r@.len() == 2,
        r@[0].0@ == "CLAUDE_CODE_ENTRYPOINT"@ && r@[0].1@ == "sdk-rust"@,
        r@[1].0@ == "CLAUDE_AGENT_SDK_VERSION"@ && r@[1].1@
            == crate::protocol::SDK_VERSION@,
{
    let mut out: Vec<(String, String)> = Vec::new();
    out.push(("CLAUDE_CODE_ENTRYPOINT".to_owned(), "sdk-rust".to_owned()));
    out.push(("CLAUDE_AGENT_SDK_VERSION".to_owned(), crate::protocol::SDK_VERSION.to_owned()));
    out
}

/// The overrides laid over the inherited environment before spawn: the
/// sanitized user overrides followed by the identity variables. No
/// denylisted name survives from the user's overrides, and the identity
/// variables are always present at the end.
pub fn build_child_env(user_env: &Vec<(String, String)>) -> (r: Vec<(String, String)>)
    ensures
        r@.len() == spec_sanitized_env(user_env@).len() + 2,
        forall|i: int|
            0 <= i < spec_sanitized_env(user_env@).len() ==> #[trigger] r@[i]
                == spec_sanitized_env(user_env@)[i],
        forall|i: int| 0 <= i < r@.len() - 2 ==> !is_dangerous_env((#[trigger] r@[i]).0@),
        r@[r@.len() - 2].0@ == "CLAUDE_CODE_ENTRYPOINT"@ && r@[r@.len() - 2].1@ == "sdk-rust"@,
        r@[r@.len() - 1].0@ == "CLAUDE_AGENT_SDK_VERSION"@ && r@[r@.len() - 1].1@
            == crate::protocol::SDK_VERSION@,
{
    let mut out = sanitize_user_env(user_env);
    let mut ident = identity_env();
    let ghost sane = out@;
    let ghost identv = ident@;
    out.append(&mut ident);
    proof {
        assert(out@ == sane + identv);
        assert(forall|i: int| 0 <= i < sane.len() ==> #[trigger] out@[i] == sane[i]);
        assert(out@[out@.len() - 2] == identv[0]);
        assert(out@[out@.len() - 1] == identv[1]);
    }
    out
}

/// The views of a run of tool names.
pub open spec fn tool_views(s: Seq<ToolName>) -> Seq<Seq<char>> {
    s.map_values(|t: ToolName| t@)
}

/// Items joined by a separator character.
pub open spec fn spec_join(items: Seq<Seq<char>>, sep: char) -> Seq<char>
    decreases items.len(),
{
    if items.len() == 0 {
        Seq::empty()
    } else if items.len() == 1 {
        items[0]
    } else {
        spec_join(items.drop_last(), sep) + seq![sep] + items.last()
    }
}

/// Join the views of strings with a separator.
fn join_strings(items: &Vec<String>, sep: char) -> (r: String)
    ensures
        r@ == spec_join(items@.map_values(|s: String| s@), sep),
{
    let mut out = String::new();
    let mut i: usize = 0;
    proof {
        assert(items@.take(0).map_values(|s: String| s@) =~= Seq::<Seq<char>>::empty());
        assert(out@ =~= spec_join(items@.take(0).map_values(|s: String| s@), sep));
    }
    while i < items.len()
        invariant
            i <= items@.len(),
            out@ == spec_join(items@.take(i as int).map_values(|s: String| s@), sep),
        decreases items@.len() - i,
    {
        if i > 0 {
            out.push(sep);
        }
        out.append(items[i].as_str());
        proof {
            let f = |s: String| s@;
            assert(items@.take(i + 1).map_values(f).drop_last() =~= items@.take(i as int).map_values(
                f,
            ));
            assert(items@.take(i + 1).map_values(f).last() == items@[i as int]@);
            assert(out@ =~= spec_join(items@.take(i + 1).map_values(f), sep));
        }
        i = i + 1;
    }
    proof {
        assert(items@.take(items@.len() as int) =~= items@);
    }
    out
}

/// Join the views of tool names with a separator.
fn join_tools(items: &Vec<ToolName>, sep: char) -> (r: String)
    ensures
        r@ == spec_join(tool_views(items@), sep),
{
    let mut out = String::new();
    let mut i: usize = 0;
    proof {
        assert(tool_views(items@.take(0)) =~= Seq::<Seq<char>>::empty());
    }
    while i < items.len()
        invariant
            i <= items@.len(),
            out@ == spec_join(tool_views(items@.take(i as int)), sep),
        decreases items@.len() - i,
    {
        if i > 0 {
            out.push(sep);
        }
        out.append(items[i].as_str());
        proof {
            assert(tool_views(items@.take(i + 1)).drop_last() =~= tool_views(
                items@.take(i as int),
            ));
            assert(tool_views(items@.take(i + 1)).last() == items@[i as int]@);
            assert(out@ =~= spec_join(tool_views(items@.take(i + 1)), sep));
        }
        i = i + 1;
    }
    proof {
        assert(items@.take(items@.len() as int) =~= items@);
    }
    out
}

/// The `--add-dir` argument pairs, in order.
pub open spec fn spec_dir_args(dirs: Seq<String>) -> Seq<Seq<char>>
    decreases dirs.len(),
{
    if dirs.len() == 0 {
        Seq::empty()
    } else {
        spec_dir_args(dirs.drop_last()) + seq!["--add-dir"@, dirs.last()@]
    }
}

/// The allowlisted pass-through arguments, in order: a flag on the
/// allowlist becomes `--flag` with its value if it has one, and every other
/// flag is dropped.
pub open spec fn spec_extra_args(s: Seq<(String, Option<String>)>) -> Seq<Seq<char>>
    decreases s.len(),
{
    if s.len() == 0 {
        Seq::empty()
    } else {
        spec_extra_args(s.drop_last()) + (if is_allowed_extra_flag(s.last().0@) {
            match s.last().1 {
                Option::Some(v) => seq!["--"@ + s.last().0@, v@],
                Option::None => seq!["--"@ + s.last().0@],
            }
        } else {
            Seq::empty()
        })
    }
}

/// The JSON one MCP server configuration is described by on the command
/// line.
pub open spec fn spec_mcp_config_json(c: McpServerConfig) -> JsonV {
    match c {
        McpServerConfig::Stdio(s) => JsonV::Obj(
            seq![("command"@, JsonV::Str(s.command@))] + (match s.args {
                Option::Some(a) => seq![
                    ("args"@, JsonV::Arr(a@.map_values(|x: String| JsonV::Str(x@)))),
                ],
                Option::None => Seq::empty(),
            }) + (match s.env {
                Option::Some(e) => seq![
                    (
                        "env"@,
                        JsonV::Obj(
                            e@.map_values(|p: (String, String)| (p.0@, JsonV::Str(p.1@))),
                        ),
                    ),
                ],
                Option::None => Seq::empty(),
            }) + (match s.server_type {
                Option::Some(t) => seq![("type"@, JsonV::Str(t@))],
                Option::None => Seq::empty(),
            }),
        ),
        McpServerConfig::StreamableHttp(h) => JsonV::Obj(
            seq![("type"@, JsonV::Str(h.server_type@)), ("url"@, JsonV::Str(h.url@))] + (
            match h.headers {
                Option::Some(e) => seq![
                    (
                        "headers"@,
                        JsonV::Obj(
                            e@.map_values(|p: (String, String)| (p.0@, JsonV::Str(p.1@))),
                        ),
                    ),
                ],
                Option::None => Seq::empty(),
            }),
        ),
        McpServerConfig::Http(h) => JsonV::Obj(
            seq![("type"@, JsonV::Str(h.server_type@)), ("url"@, JsonV::Str(h.url@))] + (
            match h.headers {
                Option::Some(e) => seq![
                    (
                        "headers"@,
                        JsonV::Obj(
                            e@.map_values(|p: (String, String)| (p.0@, JsonV::Str(p.1@))),
                        ),
                    ),
                ],
                Option::None => Seq::empty(),
            }),
        ),
        McpServerConfig::Sdk(m) => JsonV::Obj(
            seq![("type"@, JsonV::Str("sdk"@)), ("name"@, JsonV::Str(m.name@))],
        ),
    }
}

/// The members of the inline `mcpServers` object, in order.
pub open spec fn spec_mcp_members(s: Seq<(String, McpServerConfig)>) -> Seq<(Seq<char>, JsonV)>
    decreases s.len(),
{
    if s.len() == 0 {
        Seq::empty()
    } else {
        spec_mcp_members(s.drop_last()).push(
            (s.last().0@, spec_mcp_config_json(s.last().1)),
        )
    }
}

/// The whole inline MCP configuration value.
pub open spec fn spec_mcp_inline_json(s: Seq<(String, McpServerConfig)>) -> JsonV {
    JsonV::Obj(seq![("mcpServers"@, JsonV::Obj(spec_mcp_members(s)))])
}

/// Encode a plain string map as a JSON object.
fn string_map_json(pairs: &Vec<(String, String)>) -> (r: Json)
    ensures
        r@ == JsonV::Obj(pairs@.map_values(|p: (String, String)| (p.0@, JsonV::Str(p.1@)))),
{
    let mut members: Vec<(String, Json)> = Vec::new();
    let mut i: usize = 0;
    while i < pairs.len()
        invariant
            i <= pairs@.len(),
            members@.len() == i,
            forall|k: int|
                0 <= k < i ==> ((#[trigger] members@[k]).0@ == pairs@[k].0@ && (
                members@[k].1 matches Json::Str(v) && v@ == pairs@[k].1@)),
        decreases pairs@.len() - i,
    {
        members.push((pairs[i].0.clone(), Json::Str(pairs[i].1.clone())));
        i = i + 1;
    }
    let r = Json::Obj(members);
    proof {
        lemma_members_view(r->Obj_0@);
        assert(r@->Obj_0 =~= pairs@.map_values(|p: (String, String)| (p.0@, JsonV::Str(p.1@))));
    }
    r
}

/// Encode a list of strings as a JSON array.
fn string_list_json(items: &Vec<String>) -> (r: Json)
    ensures
        r@ == JsonV::Arr(items@.map_values(|x: String| JsonV::Str(x@))),
{
    let mut elems: Vec<Json> = Vec::new();
    let mut i: usize = 0;
    while i < items.len()
        invariant
            i <= items@.len(),
            elems@.len() == i,
            forall|k: int|
                0 <= k < i ==> ((#[trigger] elems@[k]) matches Json::Str(v) && v@ == items@[k]@),
        decreases items@.len() - i,
    {
        elems.push(Json::Str(items[i].clone()));
        i = i + 1;
    }
    let r = Json::Arr(elems);
    proof {
        crate::json::lemma_list_view(r->Arr_0@);
        assert(r@->Arr_0 =~= items@.map_values(|x: String| JsonV::Str(x@)));
    }
    r
}

/// Encode one MCP server configuration.
fn mcp_config_json(c: &McpServerConfig) -> (r: Json)
    ensures
        r@ == spec_mcp_config_json(*c),
{
    match c {
        McpServerConfig::Stdio(s) => {
            let mut members: Vec<(String, Json)> = Vec::new();
            members.push(("command".to_owned(), Json::Str(s.command.clone())));
            match &s.args {
                Option::Some(a) => {
                    members.push(("args".to_owned(), string_list_json(a)));
                },
                Option::None => {},
            }
            match &s.env {
                Option::Some(e) => {
                    members.push(("env".to_owned(), string_map_json(e)));
                },
                Option::None => {},
            }
            match &s.server_type {
                Option::Some(t) => {
                    members.push(("type".to_owned(), Json::Str(t.clone())));
                },
                Option::None => {},
            }
            let r = Json::Obj(members);
            proof {
                lemma_members_view(r->Obj_0@);
                assert(r@->Obj_0 =~= spec_mcp_config_json(*c)->Obj_0);
            }
            r
        },
        McpServerConfig::StreamableHttp(h) => {
            let mut members: Vec<(String, Json)> = Vec::new();
            members.push(("type".to_owned(), Json::Str(h.server_type.clone())));
            members.push(("url".to_owned(), Json::Str(h.url.clone())));
            match &h.headers {
                Option::Some(e) => {
                    members.push(("headers".to_owned(), string_map_json(e)));
                },
                Option::None => {},
            }
            let r = Json::Obj(members);
            proof {
                lemma_members_view(r->Obj_0@);
                assert(r@->Obj_0 =~= spec_mcp_config_json(*c)->Obj_0);
            }
            r
        },
        McpServerConfig::Http(h) => {
            let mut members: Vec<(String, Json)> = Vec::new();
            members.push(("type".to_owned(), Json::Str(h.server_type.clone())));
            members.push(("url".to_owned(), Json::Str(h.url.clone())));
            match &h.headers {
                Option::Some(e) => {
                    members.push(("headers".to_owned(), string_map_json(e)));
                },
                Option::None => {},
            }
            let r = Json::Obj(members);
            proof {
                lemma_members_view(r->Obj_0@);
                assert(r@->Obj_0 =~= spec_mcp_config_json(*c)->Obj_0);
            }
            r
        },
        McpServerConfig::Sdk(m) => {
            let mut members: Vec<(String, Json)> = Vec::new();
            members.push(("type".to_owned(), Json::Str("sdk".to_owned())));
            members.push(("name".to_owned(), Json::Str(m.name.clone())));
            let r = Json::Obj(members);
            proof {
                lemma_members_view(r->Obj_0@);
                assert(r@->Obj_0 =~= spec_mcp_config_json(*c)->Obj_0);
            }
            r
        },
    }
}

/// The flags a caller may pass through `extra_args`.
pub open spec fn is_allowed_extra_flag(f: Seq<char>) -> bool {
    f == "timeout"@ || f == "retries"@ || f == "log-level"@ || f == "cache-dir"@
}

/// Whether a flag is on the pass-through allowlist.
pub fn is_allowed_extra_flag_name(f: &str) -> (r: bool)
    ensures
        r == is_allowed_extra_flag(f@),
{
    str_eq(f, "timeout") || str_eq(f, "retries") || str_eq(f, "log-level") || str_eq(
        f,
        "cache-dir",
    )
}

/// The JSON one agent definition is described by on the command line.
pub open spec fn spec_agent_def_json(d: AgentDefinition) -> JsonV {
    JsonV::Obj(
        seq![("description"@, JsonV::Str(d.description@)), ("prompt"@, JsonV::Str(d.prompt@))]
            + (match d.tools {
            Option::Some(t) => seq![
                ("tools"@, JsonV::Arr(t@.map_values(|x: String| JsonV::Str(x@)))),
            ],
            Option::None => Seq::empty(),
        }) + (match d.model {
            Option::Some(m) => seq![("model"@, JsonV::Str(m@))],
            Option::None => Seq::empty(),
        }),
    )
}

/// The members of the inline agents object, in order.
pub open spec fn spec_agents_members(s: Seq<(String, AgentDefinition)>) -> Seq<(Seq<char>, JsonV)>
    decreases s.len(),
{
    if s.len() == 0 {
        Seq::empty()
    } else {
        spec_agents_members(s.drop_last()).push((s.last().0@, spec_agent_def_json(s.last().1)))
    }
}

/// The agent-definition arguments: the inline JSON when definitions were
/// given, nothing otherwise.
pub open spec fn spec_agents_args(o: ClaudeAgentOptions) -> Seq<Seq<char>> {
    match o.agents {
        Option::Some(a) => seq![
            "--agents"@,
            spec_enc(JsonV::Obj(spec_agents_members(a@))),
        ],
        Option::None => Seq::empty(),
    }
}

/// Encode one agent definition.
fn agent_def_json(d: &AgentDefinition) -> (r: Json)
    ensures
        r@ == spec_agent_def_json(*d),
{
    let mut members: Vec<(String, Json)> = Vec::new();
    members.push(("description".to_owned(), Json::Str(d.description.clone())));
    members.push(("prompt".to_owned(), Json::Str(d.prompt.clone())));
    match &d.tools {
        Option::Some(t) => {
            members.push(("tools".to_owned(), string_list_json(t)));
        },
        Option::None => {},
    }
    match &d.model {
        Option::Some(m) => {
            members.push(("model".to_owned(), Json::Str(m.clone())));
        },
        Option::None => {},
    }
    let r = Json::Obj(members);
    proof {
        lemma_members_view(r->Obj_0@);
        assert(r@->Obj_0 =~= spec_agent_def_json(*d)->Obj_0);
    }
    r
}

fn push_agents_args(args: &mut Vec<String>, o: &ClaudeAgentOptions)
    ensures
        final(args)@.map_values(|s: String| s@) == old(args)@.map_values(|s: String| s@)
            + spec_agents_args(*o),
{
    match &o.agents {
        Option::Some(defs) => {
            let mut members: Vec<(String, Json)> = Vec::new();
            let mut m: usize = 0;
            while m < defs.len()
                invariant
                    m <= defs@.len(),
                    members@.len() == m,
                    forall|k: int|
                        0 <= k < m ==> (#[trigger] members@[k]).0@ == defs@[k].0@
                            && members@[k].1@ == spec_agent_def_json(defs@[k].1),
                decreases defs@.len() - m,
            {
                members.push((defs[m].0.clone(), agent_def_json(&defs[m].1)));
                m = m + 1;
            }
            let inner = Json::Obj(members);
            proof {
                lemma_members_view(inner->Obj_0@);
                lemma_agents_members_index(defs@);
                assert(inner@->Obj_0 =~= spec_agents_members(defs@));
            }
            push_arg(args, "--agents".to_owned());
            push_arg(args, crate::encode::encode_json(&inner));
        },
        Option::None => {},
    }
    proof {
        assert(args@.map_values(|s: String| s@) =~= old(args)@.map_values(|s: String| s@)
            + spec_agents_args(*o));
    }
}

proof fn lemma_agents_members_index(s: Seq<(String, AgentDefinition)>)
    ensures
        spec_agents_members(s).len() == s.len(),
        forall|k: int|
            0 <= k < s.len() ==> #[trigger] spec_agents_members(s)[k] == (
                s[k].0@,
                spec_agent_def_json(s[k].1),
            ),
    decreases s.len(),
{
    if s.len() > 0 {
        lemma_agents_members_index(s.drop_last());
        assert(forall|k: int| 0 <= k < s.len() - 1 ==> #[trigger] s.drop_last()[k] == s[k]);
    }
}

/// The setting-sources argument value: the joined sources, or empty when
/// none were chosen.
pub open spec fn source_views(s: Seq<SettingSource>) -> Seq<Seq<char>> {
    s.map_values(|x: SettingSource| spec_source_flag(x))
}

/// The arguments the system prompt contributes.
pub open spec fn spec_prompt_args(p: Option<SystemPrompt>) -> Seq<Seq<char>> {
    match p {
        Option::None => Seq::empty(),
        Option::Some(SystemPrompt::Text(s)) => seq!["--system-prompt"@, s@],
        Option::Some(SystemPrompt::Preset(pr)) => match pr.append {
            Option::Some(a) => seq!["--append-system-prompt"@, a@],
            Option::None => Seq::empty(),
        },
    }
}

/// The arguments the tool lists contribute.
pub open spec fn spec_tool_args(o: ClaudeAgentOptions) -> Seq<Seq<char>> {
    (if o.allowed_tools@.len() > 0 {
        seq!["--allowedTools"@, spec_join(tool_views(o.allowed_tools@), ',')]
    } else {
        Seq::empty()
    }) + (if o.disallowed_tools@.len() > 0 {
        seq!["--disallowedTools"@, spec_join(tool_views(o.disallowed_tools@), ',')]
    } else {
        Seq::empty()
    })
}

/// The configuration arguments: turn limit, model, permission prompt tool,
/// permission mode.
pub open spec fn spec_config_args(o: ClaudeAgentOptions) -> Seq<Seq<char>> {
    (match o.max_turns {
        Option::Some(n) => seq!["--max-turns"@, spec_dec(n as nat)],
        Option::None => Seq::empty(),
    }) + (match o.model {
        Option::Some(m) => seq!["--model"@, m@],
        Option::None => Seq::empty(),
    }) + (match o.permission_prompt_tool_name {
        Option::Some(t) => seq!["--permission-prompt-tool"@, t@],
        Option::None => Seq::empty(),
    }) + (match o.permission_mode {
        Option::Some(m) => seq!["--permission-mode"@, spec_mode_flag(m)],
        Option::None => Seq::empty(),
    })
}

/// The session arguments: continuation, resume, settings, extra
/// directories, streaming options.
pub open spec fn spec_session_args(o: ClaudeAgentOptions) -> Seq<Seq<char>> {
    (if o.continue_conversation {
        seq!["--continue"@]
    } else {
        Seq::empty()
    }) + (match o.resume {
        Option::Some(sid) => seq!["--resume"@, sid@],
        Option::None => Seq::empty(),
    }) + (match o.settings {
        Option::Some(s) => seq!["--settings"@, s@],
        Option::None => Seq::empty(),
    }) + spec_dir_args(o.add_dirs@) + (if o.include_partial_messages {
        seq!["--include-partial-messages"@]
    } else {
        Seq::empty()
    }) + (if o.fork_session {
        seq!["--fork-session"@]
    } else {
        Seq::empty()
    })
}

/// The MCP configuration arguments: an inline JSON value for a dictionary,
/// a path as given, nothing otherwise.
pub open spec fn spec_mcp_args(o: ClaudeAgentOptions) -> Seq<Seq<char>> {
    match o.mcp_servers {
        McpServers::Dict(d) => if d@.len() > 0 {
            seq!["--mcp-config"@, spec_enc(spec_mcp_inline_json(d@))]
        } else {
            Seq::empty()
        },
        McpServers::Path(p) => seq!["--mcp-config"@, p@],
        McpServers::NoServers => Seq::empty(),
    }
}

/// The trailing arguments: setting sources (an empty value when none were
/// chosen), allowlisted extras, then the prompt mode.
pub open spec fn spec_tail_args(p: PromptInput, o: ClaudeAgentOptions) -> Seq<Seq<char>> {
    (match o.setting_sources {
        Option::Some(s) => seq!["--setting-sources"@, spec_join(source_views(s@), ',')],
        Option::None => seq!["--setting-sources"@, Seq::empty()],
    }) + spec_extra_args(o.extra_args@) + (match p {
        PromptInput::Stream => seq!["--input-format"@, "stream-json"@],
        PromptInput::Text(s) => seq!["--"@, s@],
    })
}

/// Every argument handed to the child, in order: the fixed streaming flags,
/// then prompt, tools, configuration, session, MCP and trailing groups.
pub open spec fn spec_build_args(p: PromptInput, o: ClaudeAgentOptions) -> Seq<Seq<char>> {
    seq!["--print"@, "--output-format"@, "stream-json"@, "--verbose"@] + spec_prompt_args(
        o.system_prompt,
    ) + spec_tool_args(o) + spec_config_args(o) + spec_session_args(o) + spec_agents_args(o)
        + spec_mcp_args(o) + spec_tail_args(p, o)
}

/// Builds the child's argument list from one prompt and one configuration.
pub struct CommandBuilder<'a> {
    pub prompt: &'a PromptInput,
    pub options: &'a ClaudeAgentOptions,
}

impl<'a> CommandBuilder<'a> {
    /// A builder over the given prompt and configuration.
    pub fn new(prompt: &'a PromptInput, options: &'a ClaudeAgentOptions) -> (r: Self)
        ensures
            r.prompt == prompt,
            r.options == options,
    {
        CommandBuilder { prompt, options }
    }

    /// The child's full argument list, deterministically built from the
    /// configuration.
    pub fn build(&self) -> (r: Vec<String>)
        ensures
            r@.map_values(|s: String| s@) == spec_build_args(*self.prompt, *self.options),
    {
        let o = self.options;
        let mut args: Vec<String> = Vec::new();
        push_arg(&mut args, "--print".to_owned());
        push_arg(&mut args, "--output-format".to_owned());
        push_arg(&mut args, "stream-json".to_owned());
        push_arg(&mut args, "--verbose".to_owned());
        proof {
            assert(args@.map_values(|s: String| s@) =~= seq![
                "--print"@,
                "--output-format"@,
                "stream-json"@,
                "--verbose"@,
            ]);
        }
        push_prompt_args(&mut args, &o.system_prompt);
        push_tool_args(&mut args, o);
        push_config_args(&mut args, o);
        push_session_args(&mut args, o);
        push_agents_args(&mut args, o);
        push_mcp_args(&mut args, o);
        push_tail_args(&mut args, self.prompt, o);
        proof {
            assert(args@.map_values(|s: String| s@) =~= spec_build_args(*self.prompt, *self.options));
        }
        args
    }
}


fn push_arg(args: &mut Vec<String>, a: String)
    ensures
        final(args)@.map_values(|s: String| s@) == old(args)@.map_values(|s: String| s@).push(a@),
{
    let ghost prev = args@;
    let ghost av = a@;
    args.push(a);
    proof {
        assert(args@.map_values(|s: String| s@) =~= prev.map_values(|s: String| s@).push(av));
    }
}

fn push_prompt_args(args: &mut Vec<String>, sp: &Option<SystemPrompt>)
    ensures
        final(args)@.map_values(|s: String| s@) == old(args)@.map_values(|s: String| s@)
            + spec_prompt_args(*sp),
{
    match sp {
        Option::Some(SystemPrompt::Text(s)) => {
            push_arg(args, "--system-prompt".to_owned());
            push_arg(args, s.clone());
        },
        Option::Some(SystemPrompt::Preset(pr)) => {
            match &pr.append {
                Option::Some(a) => {
                    push_arg(args, "--append-system-prompt".to_owned());
                    push_arg(args, a.clone());
                },
                Option::None => {},
            }
        },
        Option::None => {},
    }
    proof {
        assert(args@.map_values(|s: String| s@) =~= old(args)@.map_values(|s: String| s@)
            + spec_prompt_args(*sp));
    }
}

fn push_tool_args(args: &mut Vec<String>, o: &ClaudeAgentOptions)
    ensures
        final(args)@.map_values(|s: String| s@) == old(args)@.map_values(|s: String| s@)
            + spec_tool_args(*o),
{
    if o.allowed_tools.len() > 0 {
        push_arg(args, "--allowedTools".to_owned());
        push_arg(args, join_tools(&o.allowed_tools, ','));
    }
    if o.disallowed_tools.len() > 0 {
        push_arg(args, "--disallowedTools".to_owned());
        push_arg(args, join_tools(&o.disallowed_tools, ','));
    }
    proof {
        assert(args@.map_values(|s: String| s@) =~= old(args)@.map_values(|s: String| s@)
            + spec_tool_args(*o));
    }
}

fn push_config_args(args: &mut Vec<String>, o: &ClaudeAgentOptions)
    ensures
        final(args)@.map_values(|s: String| s@) == old(args)@.map_values(|s: String| s@)
            + spec_config_args(*o),
{
    match &o.max_turns {
        Option::Some(n) => {
            push_arg(args, "--max-turns".to_owned());
            push_arg(args, u64_to_string(*n as u64));
        },
        Option::None => {},
    }
    match &o.model {
        Option::Some(m) => {
            push_arg(args, "--model".to_owned());
            push_arg(args, m.clone());
        },
        Option::None => {},
    }
    match &o.permission_prompt_tool_name {
        Option::Some(t) => {
            push_arg(args, "--permission-prompt-tool".to_owned());
            push_arg(args, t.clone());
        },
        Option::None => {},
    }
    match &o.permission_mode {
        Option::Some(m) => {
            push_arg(args, "--permission-mode".to_owned());
            push_arg(args, m.as_flag().to_owned());
        },
        Option::None => {},
    }
    proof {
        assert(args@.map_values(|s: String| s@) =~= old(args)@.map_values(|s: String| s@)
            + spec_config_args(*o));
    }
}

#[verifier::rlimit(100)]
fn push_session_args(args: &mut Vec<String>, o: &ClaudeAgentOptions)
    ensures
        final(args)@.map_values(|s: String| s@) == old(args)@.map_values(|s: String| s@)
            + spec_session_args(*o),
{
    let ghost f = |s: String| s@;
    if o.continue_conversation {
        push_arg(args, "--continue".to_owned());
    }
    match &o.resume {
        Option::Some(sid) => {
            push_arg(args, "--resume".to_owned());
            push_arg(args, sid.as_str().to_owned());
        },
        Option::None => {},
    }
    match &o.settings {
        Option::Some(s) => {
            push_arg(args, "--settings".to_owned());
            push_arg(args, s.clone());
        },
        Option::None => {},
    }
    let ghost g = old(args)@.map_values(|s: String| s@) + (if o.continue_conversation {
        seq!["--continue"@]
    } else {
        Seq::<Seq<char>>::empty()
    }) + (match &o.resume {
        Option::Some(sid) => seq!["--resume"@, sid@],
        Option::None => Seq::<Seq<char>>::empty(),
    }) + (match &o.settings {
        Option::Some(s) => seq!["--settings"@, s@],
        Option::None => Seq::<Seq<char>>::empty(),
    });
    proof {
        assert(args@.map_values(|s: String| s@) =~= g);
    }
    let mut d: usize = 0;
    while d < o.add_dirs.len()
        invariant
            d <= o.add_dirs@.len(),
            args@.map_values(|s: String| s@) =~= g + spec_dir_args(o.add_dirs@.take(d as int)),
        decreases o.add_dirs@.len() - d,
    {
        push_arg(args, "--add-dir".to_owned());
        push_arg(args, o.add_dirs[d].clone());
        proof {
            assert(o.add_dirs@.take(d + 1).drop_last() =~= o.add_dirs@.take(d as int));
            assert(o.add_dirs@.take(d + 1).last() == o.add_dirs@[d as int]);
            assert(args@.map_values(|s: String| s@) =~= g + spec_dir_args(o.add_dirs@.take(d + 1)));
        }
        d = d + 1;
    }
    proof {
        assert(o.add_dirs@.take(o.add_dirs@.len() as int) =~= o.add_dirs@);
    }
    if o.include_partial_messages {
        push_arg(args, "--include-partial-messages".to_owned());
    }
    if o.fork_session {
        push_arg(args, "--fork-session".to_owned());
    }
    proof {
        assert(args@.map_values(|s: String| s@) =~= old(args)@.map_values(|s: String| s@) + spec_session_args(*o));
    }
}

fn push_mcp_args(args: &mut Vec<String>, o: &ClaudeAgentOptions)
    ensures
        final(args)@.map_values(|s: String| s@) == old(args)@.map_values(|s: String| s@)
            + spec_mcp_args(*o),
{
    match &o.mcp_servers {
        McpServers::Dict(dict) => {
            if dict.len() > 0 {
                let mut members: Vec<(String, Json)> = Vec::new();
                let mut m: usize = 0;
                while m < dict.len()
                    invariant
                        m <= dict@.len(),
                        members@.len() == m,
                        forall|k: int|
                            0 <= k < m ==> (#[trigger] members@[k]).0@ == dict@[k].0@
                                && members@[k].1@ == spec_mcp_config_json(dict@[k].1),
                    decreases dict@.len() - m,
                {
                    members.push((dict[m].0.clone(), mcp_config_json(&dict[m].1)));
                    m = m + 1;
                }
                let inner = Json::Obj(members);
                proof {
                    lemma_members_view(inner->Obj_0@);
                    lemma_mcp_members_index(dict@);
                    assert(inner@->Obj_0 =~= spec_mcp_members(dict@));
                }
                let mut outer_members: Vec<(String, Json)> = Vec::new();
                outer_members.push(("mcpServers".to_owned(), inner));
                let outer = Json::Obj(outer_members);
                proof {
                    lemma_members_view(outer->Obj_0@);
                    assert(outer@->Obj_0 =~= spec_mcp_inline_json(dict@)->Obj_0);
                }
                push_arg(args, "--mcp-config".to_owned());
                push_arg(args, crate::encode::encode_json(&outer));
            }
        },
        McpServers::Path(pth) => {
            push_arg(args, "--mcp-config".to_owned());
            push_arg(args, pth.clone());
        },
        McpServers::NoServers => {},
    }
    proof {
        assert(args@.map_values(|s: String| s@) =~= old(args)@.map_values(|s: String| s@)
            + spec_mcp_args(*o));
    }
}

fn push_tail_args(args: &mut Vec<String>, prompt: &PromptInput, o: &ClaudeAgentOptions)
    ensures
        final(args)@.map_values(|s: String| s@) == old(args)@.map_values(|s: String| s@)
            + spec_tail_args(*prompt, *o),
{
    let ghost f = |s: String| s@;
    match &o.setting_sources {
        Option::Some(sources) => {
            let mut views: Vec<String> = Vec::new();
            let mut v: usize = 0;
            while v < sources.len()
                invariant
                    v <= sources@.len(),
                    views@.len() == v,
                    forall|k: int|
                        0 <= k < v ==> (#[trigger] views@[k])@ == spec_source_flag(sources@[k]),
                decreases sources@.len() - v,
            {
                views.push(sources[v].as_flag().to_owned());
                v = v + 1;
            }
            push_arg(args, "--setting-sources".to_owned());
            let joined = join_strings(&views, ',');
            proof {
                assert(views@.map_values(|s: String| s@) =~= source_views(sources@));
            }
            push_arg(args, joined);
        },
        Option::None => {
            push_arg(args, "--setting-sources".to_owned());
            push_arg(args, String::new());
        },
    }
    let ghost g = old(args)@.map_values(|s: String| s@) + (match &o.setting_sources {
        Option::Some(srcs) => seq!["--setting-sources"@, spec_join(source_views(srcs@), ',')],
        Option::None => seq!["--setting-sources"@, Seq::<char>::empty()],
    });
    proof {
        assert(args@.map_values(|s: String| s@) =~= g);
    }
    let mut e: usize = 0;
    while e < o.extra_args.len()
        invariant
            e <= o.extra_args@.len(),
            args@.map_values(|s: String| s@) =~= g + spec_extra_args(o.extra_args@.take(e as int)),
        decreases o.extra_args@.len() - e,
    {
        proof {
            assert(o.extra_args@.take(e + 1).drop_last() =~= o.extra_args@.take(e as int));
            assert(o.extra_args@.take(e + 1).last() == o.extra_args@[e as int]);
        }
        let flag = &o.extra_args[e].0;
        if is_allowed_extra_flag_name(flag.as_str()) {
            let mut arg = "--".to_owned();
            arg.append(flag.as_str());
            push_arg(args, arg);
            match &o.extra_args[e].1 {
                Option::Some(v) => {
                    push_arg(args, v.clone());
                },
                Option::None => {},
            }
        }
        proof {
            assert(args@.map_values(|s: String| s@) =~= g + spec_extra_args(o.extra_args@.take(e + 1)));
        }
        e = e + 1;
    }
    proof {
        assert(o.extra_args@.take(o.extra_args@.len() as int) =~= o.extra_args@);
    }
    match prompt {
        PromptInput::Stream => {
            push_arg(args, "--input-format".to_owned());
            push_arg(args, "stream-json".to_owned());
        },
        PromptInput::Text(s) => {
            push_arg(args, "--".to_owned());
            push_arg(args, s.clone());
        },
    }
    proof {
        assert(args@.map_values(|s: String| s@) =~= old(args)@.map_values(|s: String| s@) + spec_tail_args(*prompt, *o));
    }
}

proof fn lemma_mcp_members_index(s: Seq<(String, McpServerConfig)>)
    ensures
        spec_mcp_members(s).len() == s.len(),
        forall|k: int|
            0 <= k < s.len() ==> #[trigger] spec_mcp_members(s)[k] == (
                s[k].0@,
                spec_mcp_config_json(s[k].1),
            ),
    decreases s.len(),
{
    if s.len() > 0 {
        lemma_mcp_members_index(s.drop_last());
        assert(forall|k: int|
            0 <= k < s.len() - 1 ==> #[trigger] s.drop_last()[k] == s[k]);
    }
}

} // verus!

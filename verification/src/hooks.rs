//! Hook data model and the matcher rules: which registered patterns apply to
//! a tool name, and how several hook outputs merge into one.

use vstd::prelude::*;
use crate::json::{Json, JsonV};

verus! {

/// Events a hook can be registered for.
#[derive(Debug, Clone, Copy, PartialEq, Eq, Structural)]
pub enum HookEvent {
    PreToolUse,
    PostToolUse,
    UserPromptSubmit,
    Stop,
    SubagentStop,
    PreCompact,
}

/// The wire name of each hook event.
pub open spec fn spec_event_name(e: HookEvent) -> Seq<char> {
    match e {
        HookEvent::PreToolUse => "PreToolUse"@,
        HookEvent::PostToolUse => "PostToolUse"@,
        HookEvent::UserPromptSubmit => "UserPromptSubmit"@,
        HookEvent::Stop => "Stop"@,
        HookEvent::SubagentStop => "SubagentStop"@,
        HookEvent::PreCompact => "PreCompact"@,
    }
}

impl HookEvent {
    /// The wire name of this event.
    pub fn name(&self) -> (r: &'static str)
        ensures
            r@ == spec_event_name(*self),
    {
        match self {
            HookEvent::PreToolUse => "PreToolUse",
            HookEvent::PostToolUse => "PostToolUse",
            HookEvent::UserPromptSubmit => "UserPromptSubmit",
            HookEvent::Stop => "Stop",
            HookEvent::SubagentStop => "SubagentStop",
            HookEvent::PreCompact => "PreCompact",
        }
    }
}

/// The event a wire name denotes, if any.
pub open spec fn spec_parse_event(s: Seq<char>) -> Option<HookEvent> {
    if s == "PreToolUse"@ {
        Some(HookEvent::PreToolUse)
    } else if s == "PostToolUse"@ {
        Some(HookEvent::PostToolUse)
    } else if s == "UserPromptSubmit"@ {
        Some(HookEvent::UserPromptSubmit)
    } else if s == "Stop"@ {
        Some(HookEvent::Stop)
    } else if s == "SubagentStop"@ {
        Some(HookEvent::SubagentStop)
    } else if s == "PreCompact"@ {
        Some(HookEvent::PreCompact)
    } else {
        None
    }
}

/// Parse a wire name into a hook event.
pub fn parse_event(s: &str) -> (r: Option<HookEvent>)
    ensures
        r == spec_parse_event(s@),
{
    if crate::strutil::str_eq(s, "PreToolUse") {
        Some(HookEvent::PreToolUse)
    } else if crate::strutil::str_eq(s, "PostToolUse") {
        Some(HookEvent::PostToolUse)
    } else if crate::strutil::str_eq(s, "UserPromptSubmit") {
        Some(HookEvent::UserPromptSubmit)
    } else if crate::strutil::str_eq(s, "Stop") {
        Some(HookEvent::Stop)
    } else if crate::strutil::str_eq(s, "SubagentStop") {
        Some(HookEvent::SubagentStop)
    } else if crate::strutil::str_eq(s, "PreCompact") {
        Some(HookEvent::PreCompact)
    } else {
        None
    }
}

/// A hook's ruling.
#[derive(Debug, Clone, Copy, PartialEq, Eq, Structural)]
pub enum HookDecision {
    /// Block the action.
    Block,
}

/// What one hook callback returned.
#[derive(Debug, Clone)]
pub struct HookOutput {
    /// Decision to block, if any.
    pub decision: Option<HookDecision>,
    /// System message to add.
    pub system_message: Option<String>,
    /// Hook-specific payload.
    pub hook_specific_output: Option<Json>,
}

/// The shape of a hook output.
#[verifier::ext_equal]
pub ghost struct HookOutputV {
    pub decision: Option<HookDecision>,
    pub system_message: Option<Seq<char>>,
    pub hook_specific_output: Option<JsonV>,
}

impl View for HookOutput {
    type V = HookOutputV;

    open spec fn view(&self) -> HookOutputV {
        HookOutputV {
            decision: self.decision,
            system_message: match self.system_message {
                Option::Some(ref s) => Option::Some(s@),
                Option::None => Option::None,
            },
            hook_specific_output: match self.hook_specific_output {
                Option::Some(ref j) => Option::Some(j@),
                Option::None => Option::None,
            },
        }
    }
}

impl HookOutput {
    /// An empty output: no decision, no message, no payload.
    pub fn empty() -> (r: Self)
        ensures
            r@.decision is None,
            r@.system_message is None,
            r@.hook_specific_output is None,
    {
        HookOutput { decision: None, system_message: None, hook_specific_output: None }
    }
}

/// Context handed to hook callbacks.
#[derive(Debug, Clone)]
pub struct HookContext {}

/// A matcher: the pattern deciding which tool names its hooks apply to.
#[derive(Debug, Clone)]
pub struct HookMatcher {
    /// `None` matches every tool; `"*"` likewise; otherwise an exact name or
    /// a `|`-separated list of names.
    pub matcher: Option<String>,
}

/// The position of the first `sep` in `s`, or `s.len()` if there is none.
pub open spec fn first_sep(s: Seq<char>, sep: char) -> int
    decreases s.len(),
{
    if s.len() == 0 {
        0
    } else if s[0] == sep {
        0
    } else {
        1 + first_sep(s.drop_first(), sep)
    }
}

proof fn lemma_first_sep_at(s: Seq<char>, sep: char, k: int)
    requires
        0 <= k <= s.len(),
        forall|j: int| 0 <= j < k ==> s[j] != sep,
        k < s.len() ==> s[k] == sep,
    ensures
        first_sep(s, sep) == k,
    decreases k,
{
    if k > 0 {
        assert(s[0] != sep);
        lemma_first_sep_at(s.drop_first(), sep, k - 1);
    } else {
        if s.len() > 0 {
            assert(s[0] == sep);
        }
    }
}

/// Whether any `|`-separated alternative of `p` equals `t`.
pub open spec fn pipe_alt_matches(p: Seq<char>, t: Seq<char>) -> bool
    decreases p.len(),
    via pipe_alt_matches_dec
{
    let k = first_sep(p, '|');
    if k >= p.len() {
        p == t
    } else {
        p.take(k) == t || pipe_alt_matches(p.skip(k + 1), t)
    }
}

#[via_fn]
proof fn pipe_alt_matches_dec(p: Seq<char>, t: Seq<char>) {
    lemma_first_sep_bounds(p, '|');
}

proof fn lemma_first_sep_bounds(s: Seq<char>, sep: char)
    ensures
        0 <= first_sep(s, sep) <= s.len(),
    decreases s.len(),
{
    if s.len() > 0 && s[0] != sep {
        lemma_first_sep_bounds(s.drop_first(), sep);
    }
}

/// Whether a matcher pattern applies to a tool name: no pattern matches
/// everything, `*` matches everything, otherwise the pattern must equal the
/// name or one of its `|`-separated alternatives must.
pub open spec fn spec_matches(pattern: Option<Seq<char>>, tool: Option<Seq<char>>) -> bool {
    match (pattern, tool) {
        (Option::None, _) => true,
        (Option::Some(p), Option::Some(t)) => p == "*"@ || p == t || pipe_alt_matches(p, t),
        (Option::Some(_), Option::None) => false,
    }
}

/// Registers hook matchers and decides which apply; merging of several hook
/// outputs is `combine_hook_outputs`. The callbacks themselves live with the
/// caller, aligned with the matchers by index.
#[derive(Debug, Clone)]
pub struct HookManager {
    /// The registered matchers, in registration order.
    pub matchers: Vec<HookMatcher>,
}

impl HookManager {
    /// An empty manager.
    pub fn new() -> (r: Self)
        ensures
            r.matchers@.len() == 0,
    {
        HookManager { matchers: Vec::new() }
    }

    /// Register a matcher.
    pub fn register(&mut self, matcher: HookMatcher)
        ensures
            final(self).matchers@ == old(self).matchers@.push(matcher),
    {
        self.matchers.push(matcher);
    }

    /// Whether a matcher pattern applies to a tool name.
    pub fn matches(matcher: Option<&String>, tool_name: Option<&String>) -> (r: bool)
        ensures
            r == spec_matches(
                match matcher {
                    Option::Some(p) => Option::Some(p@),
                    Option::None => Option::None,
                },
                match tool_name {
                    Option::Some(t) => Option::Some(t@),
                    Option::None => Option::None,
                },
            ),
    {
        let p = match matcher {
            Option::Some(p) => p,
            Option::None => { return true; },
        };
        let t = match tool_name {
            Option::Some(t) => t,
            Option::None => { return false; },
        };
        if crate::strutil::str_eq(p.as_str(), "*") {
            return true;
        }
        if crate::strutil::str_eq(p.as_str(), t.as_str()) {
            return true;
        }
        pipe_alts_contain(p.as_str(), t.as_str())
    }
}

/// Whether the characters of `p` in `[from, to)` equal `t`.
fn window_eq(p: &str, from: usize, to: usize, t: &str) -> (r: bool)
    requires
        from <= to <= p@.len(),
    ensures
        r == (p@.subrange(from as int, to as int) == t@),
{
    let tlen = t.unicode_len();
    if to - from != tlen {
        assert(p@.subrange(from as int, to as int).len() != t@.len());
        return false;
    }
    let mut i: usize = 0;
    while i < tlen
        invariant
            i <= tlen,
            from <= to <= p@.len(),
            to - from == tlen,
            tlen == t@.len(),
            forall|k: int| 0 <= k < i ==> p@[from + k] == t@[k],
        decreases tlen - i,
    {
        if p.get_char(from + i) != t.get_char(i) {
            assert(p@.subrange(from as int, to as int)[i as int] != t@[i as int]);
            return false;
        }
        i = i + 1;
    }
    assert(p@.subrange(from as int, to as int) =~= t@);
    true
}

/// Whether any `|`-separated alternative of `p` equals `t`.
fn pipe_alts_contain(p: &str, t: &str) -> (r: bool)
    ensures
        r == pipe_alt_matches(p@, t@),
{
    let n = p.unicode_len();
    let mut start: usize = 0;
    proof {
        assert(p@.skip(0) =~= p@);
    }
    loop
        invariant
            start <= n,
            n == p@.len(),
            pipe_alt_matches(p@, t@) == pipe_alt_matches(p@.skip(start as int), t@),
        decreases n - start,
    {
        // scan for the next separator at or after `start`
        let mut k: usize = start;
        while k < n && p.get_char(k) != '|'
            invariant
                start <= k <= n,
                n == p@.len(),
                forall|j: int| start <= j < k ==> p@[j] != '|',
            decreases n - k,
        {
            k = k + 1;
        }
        proof {
            let rest = p@.skip(start as int);
            assert(forall|j: int|
                0 <= j < k - start ==> #[trigger] rest[j] == p@[j + start] && p@[j + start] != '|');
            if k < n {
                assert(rest[k - start] == p@[k as int]);
            }
            lemma_first_sep_at(rest, '|', k - start);
        }
        if k >= n {
            // last alternative
            let r = window_eq(p, start, n, t);
            proof {
                assert(p@.subrange(start as int, n as int) =~= p@.skip(start as int));
            }
            return r;
        }
        if window_eq(p, start, k, t) {
            proof {
                let rest = p@.skip(start as int);
                assert(rest.take(k - start) =~= p@.subrange(start as int, k as int));
            }
            return true;
        }
        proof {
            let rest = p@.skip(start as int);
            assert(rest.take(k - start) =~= p@.subrange(start as int, k as int));
            assert(rest.skip(k - start + 1) =~= p@.skip(k + 1));
        }
        start = k + 1;
    }
}

/// The merge of one hook output into an accumulated one: each present part
/// of the new output replaces the accumulated part.
pub open spec fn spec_merge(acc: HookOutputV, r: HookOutputV) -> HookOutputV {
    HookOutputV {
        decision: if r.decision is Some {
            r.decision
        } else {
            acc.decision
        },
        system_message: if r.system_message is Some {
            r.system_message
        } else {
            acc.system_message
        },
        hook_specific_output: if r.hook_specific_output is Some {
            r.hook_specific_output
        } else {
            acc.hook_specific_output
        },
    }
}

/// The combined output of a run of hook callbacks: outputs merge in order,
/// and a blocking decision stops the run at once.
pub open spec fn spec_combine(outs: Seq<HookOutputV>, acc: HookOutputV) -> HookOutputV
    decreases outs.len(),
{
    if outs.len() == 0 {
        acc
    } else {
        let next = spec_merge(acc, outs[0]);
        if next.decision == Some(HookDecision::Block) {
            next
        } else {
            spec_combine(outs.drop_first(), next)
        }
    }
}

/// Merge one hook output into an accumulated one.
pub fn merge_hook_output(acc: &mut HookOutput, r: &HookOutput)
    ensures
        final(acc)@ == spec_merge(old(acc)@, r@),
{
    if r.decision.is_some() {
        acc.decision = r.decision;
    }
    match &r.system_message {
        Option::Some(s) => {
            acc.system_message = Option::Some(s.clone());
        },
        Option::None => {},
    }
    match &r.hook_specific_output {
        Option::Some(j) => {
            acc.hook_specific_output = Option::Some(j.clone());
        },
        Option::None => {},
    }
    assert(final(acc)@ =~= spec_merge(old(acc)@, r@));
}

/// Combine the outputs of a run of hook callbacks, stopping at the first
/// blocking decision, as the callback driver does.
pub fn combine_hook_outputs(outs: &Vec<HookOutput>) -> (r: HookOutput)
    ensures
        r@ == spec_combine(outs@.map_values(|o: HookOutput| o@), HookOutput::empty_v()),
{
    let mut acc = HookOutput::empty();
    let ghost outsv = outs@.map_values(|o: HookOutput| o@);
    proof {
        assert(acc@ =~= HookOutput::empty_v());
        assert(outsv.skip(0) =~= outsv);
    }
    let mut i: usize = 0;
    while i < outs.len()
        invariant
            i <= outs@.len(),
            outsv == outs@.map_values(|o: HookOutput| o@),
            acc@.decision != Some(HookDecision::Block),
            spec_combine(outsv, HookOutput::empty_v()) == spec_combine(
                outsv.skip(i as int),
                acc@,
            ),
        decreases outs@.len() - i,
    {
        let ghost prev = acc@;
        merge_hook_output(&mut acc, &outs[i]);
        proof {
            assert(outsv[i as int] == outs@[i as int]@);
            assert(outsv.skip(i as int)[0] == outsv[i as int]);
            assert(outsv.skip(i as int).drop_first() =~= outsv.skip(i + 1));
            assert(acc@ == spec_merge(prev, outsv[i as int]));
        }
        if acc.decision.is_some() {
            proof {
                assert(acc@.decision == Some(HookDecision::Block));
                assert(spec_combine(outsv.skip(i as int), prev) == acc@);
            }
            return acc;
        }
        i = i + 1;
    }
    proof {
        assert(outsv.skip(outs@.len() as int) =~= Seq::<HookOutputV>::empty());
    }
    acc
}

impl HookOutput {
    /// The empty output, at the specification level.
    pub open spec fn empty_v() -> HookOutputV {
        HookOutputV {
            decision: Option::None,
            system_message: Option::None,
            hook_specific_output: Option::None,
        }
    }
}

} // verus!

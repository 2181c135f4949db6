//! The session manager: the active and completed pools, spawning, reads,
//! sends, termination, listing, and retention-based garbage collection.

use vstd::prelude::*;
use crate::error::ClaudeError;
use crate::json::Json;
use crate::message::Message;
use crate::protocol::spec_user_frame;
use crate::codec::spec_frame;
use crate::session::{BUFFER_CAPACITY, COMPLETED_RETENTION_MS, MessageRecord, MessageRecordV,
    RingBuffer, WORKING_THRESHOLD_MS, extract_last_output_lines, record_of_message,
    spec_last_output_lines, spec_turn_of, spec_type_tag};
use crate::strutil::str_eq;

verus! {

/// What a caller asks for when spawning a session.
#[derive(Debug, Clone)]
pub struct SpawnSessionRequest {
    pub prompt: String,
    pub system_prompt: Option<String>,
    pub allowed_tools: Vec<String>,
    pub disallowed_tools: Vec<String>,
    pub max_turns: u32,
    pub model: Option<String>,
    pub cwd: Option<String>,
    pub add_dirs: Vec<String>,
    pub label: String,
}

/// One live session: its identity, its ring of records, and its counters.
#[derive(Debug)]
pub struct ActiveSession {
    pub session_id: String,
    pub label: String,
    pub buffer: RingBuffer,
    pub created_at_ms: u64,
    pub last_activity_ms: u64,
    pub turn_count: u32,
    pub max_turns: u32,
    pub complete: bool,
}

/// One completed session, retained for reads until collection.
#[derive(Debug)]
pub struct CompletedSession {
    pub session_id: String,
    pub label: String,
    pub buffer: RingBuffer,
    pub final_turn_count: u32,
    pub runtime_ms: u64,
    pub completed_at_ms: i64,
}

/// A session is working while it is not complete and activity was seen
/// within the working window.
pub open spec fn spec_working(s: ActiveSession, now_ms: u64) -> bool {
    !s.complete && (now_ms as int) < s.last_activity_ms + WORKING_THRESHOLD_MS
}

/// The monotonic runtime of a session, zero if the clock ran backwards.
pub open spec fn spec_runtime(created_at_ms: u64, now_ms: u64) -> u64 {
    if now_ms >= created_at_ms {
        (now_ms - created_at_ms) as u64
    } else {
        0
    }
}

/// One listed session.
#[derive(Debug)]
pub struct AgentInfo {
    pub session_id: String,
    pub label: String,
    pub working: bool,
    pub turn_count: u32,
    pub max_turns: u32,
    pub runtime_ms: u64,
    pub message_count: usize,
    pub is_complete: bool,
    pub last_output: Vec<String>,
    pub completion_time: Option<i64>,
}

/// The shape of a listed session.
#[verifier::ext_equal]
pub ghost struct AgentInfoV {
    pub session_id: Seq<char>,
    pub label: Seq<char>,
    pub working: bool,
    pub turn_count: u32,
    pub max_turns: u32,
    pub runtime_ms: u64,
    pub message_count: int,
    pub is_complete: bool,
    pub last_output: Seq<Seq<char>>,
    pub completion_time: Option<i64>,
}

impl View for AgentInfo {
    type V = AgentInfoV;

    open spec fn view(&self) -> AgentInfoV {
        AgentInfoV {
            session_id: self.session_id@,
            label: self.label@,
            working: self.working,
            turn_count: self.turn_count,
            max_turns: self.max_turns,
            runtime_ms: self.runtime_ms,
            message_count: self.message_count as int,
            is_complete: self.is_complete,
            last_output: self.last_output@.map_values(|s: String| s@),
            completion_time: self.completion_time,
        }
    }
}

/// The listing entry an active session shows.
pub open spec fn spec_info_active(s: ActiveSession, now_ms: u64, lines: int) -> AgentInfoV {
    AgentInfoV {
        session_id: s.session_id@,
        label: s.label@,
        working: spec_working(s, now_ms),
        turn_count: s.turn_count,
        max_turns: s.max_turns,
        runtime_ms: spec_runtime(s.created_at_ms, now_ms),
        message_count: s.buffer.records().len() as int,
        is_complete: s.complete,
        last_output: spec_last_output_lines(s.buffer.records(), lines),
        completion_time: Option::None,
    }
}

/// The listing entry a completed session shows.
pub open spec fn spec_info_completed(c: CompletedSession, lines: int) -> AgentInfoV {
    AgentInfoV {
        session_id: c.session_id@,
        label: c.label@,
        working: false,
        turn_count: c.final_turn_count,
        max_turns: 0,
        runtime_ms: c.runtime_ms,
        message_count: c.buffer.records().len() as int,
        is_complete: true,
        last_output: spec_last_output_lines(c.buffer.records(), lines),
        completion_time: Option::Some(c.completed_at_ms),
    }
}

/// Paginated output of one session.
#[derive(Debug)]
pub struct GetOutputResponse {
    pub session_id: String,
    pub working: bool,
    pub output: Vec<MessageRecord>,
    pub total_messages: usize,
    pub messages_returned: usize,
    pub is_complete: bool,
    pub turn_count: u32,
    pub max_turns: u32,
    pub has_more: bool,
}

/// The outcome of terminating a session.
#[derive(Debug)]
pub struct TerminateResponse {
    pub session_id: String,
    pub success: bool,
    pub final_turn_count: u32,
    pub total_messages: usize,
    pub runtime_ms: u64,
}

/// The listing of all sessions.
#[derive(Debug)]
pub struct ListSessionsResponse {
    pub agents: Vec<AgentInfo>,
    pub total_active: usize,
    pub total_completed: usize,
}

/// The first position of the session with the given id among the active
/// sessions, if any.
pub open spec fn afind(s: Seq<ActiveSession>, id: Seq<char>) -> Option<int>
    decreases s.len(),
{
    if s.len() == 0 {
        Option::None
    } else if s[0].session_id@ == id {
        Option::Some(0)
    } else {
        match afind(s.drop_first(), id) {
            Option::Some(k) => Option::Some(k + 1),
            Option::None => Option::None,
        }
    }
}

/// The first position of the session with the given id among the completed
/// sessions, if any.
pub open spec fn cfind(s: Seq<CompletedSession>, id: Seq<char>) -> Option<int>
    decreases s.len(),
{
    if s.len() == 0 {
        Option::None
    } else if s[0].session_id@ == id {
        Option::Some(0)
    } else {
        match cfind(s.drop_first(), id) {
            Option::Some(k) => Option::Some(k + 1),
            Option::None => Option::None,
        }
    }
}

proof fn lemma_afind_hit(s: Seq<ActiveSession>, id: Seq<char>, i: int)
    requires
        0 <= i < s.len(),
        s[i].session_id@ == id,
        forall|k: int| 0 <= k < i ==> (#[trigger] s[k]).session_id@ != id,
    ensures
        afind(s, id) == Option::Some(i),
    decreases i,
{
    if i > 0 {
        lemma_afind_hit(s.drop_first(), id, i - 1);
    }
}

pub proof fn lemma_afind_miss(s: Seq<ActiveSession>, id: Seq<char>)
    requires
        forall|k: int| 0 <= k < s.len() ==> (#[trigger] s[k]).session_id@ != id,
    ensures
        afind(s, id) is None,
    decreases s.len(),
{
    if s.len() > 0 {
        lemma_afind_miss(s.drop_first(), id);
    }
}

proof fn lemma_cfind_hit(s: Seq<CompletedSession>, id: Seq<char>, i: int)
    requires
        0 <= i < s.len(),
        s[i].session_id@ == id,
        forall|k: int| 0 <= k < i ==> (#[trigger] s[k]).session_id@ != id,
    ensures
        cfind(s, id) == Option::Some(i),
    decreases i,
{
    if i > 0 {
        lemma_cfind_hit(s.drop_first(), id, i - 1);
    }
}

proof fn lemma_cfind_miss(s: Seq<CompletedSession>, id: Seq<char>)
    requires
        forall|k: int| 0 <= k < s.len() ==> (#[trigger] s[k]).session_id@ != id,
    ensures
        cfind(s, id) is None,
    decreases s.len(),
{
    if s.len() > 0 {
        lemma_cfind_miss(s.drop_first(), id);
    }
}

pub proof fn lemma_afind_none_absent(s: Seq<ActiveSession>, id: Seq<char>)
    requires
        afind(s, id) is None,
    ensures
        forall|k: int| 0 <= k < s.len() ==> (#[trigger] s[k]).session_id@ != id,
    decreases s.len(),
{
    if s.len() > 0 {
        lemma_afind_none_absent(s.drop_first(), id);
        assert forall|k: int| 0 <= k < s.len() implies (#[trigger] s[k]).session_id@ != id by {
            if k > 0 {
                assert(s.drop_first()[k - 1] == s[k]);
            }
        }
    }
}

proof fn lemma_cfind_none_absent(s: Seq<CompletedSession>, id: Seq<char>)
    requires
        cfind(s, id) is None,
    ensures
        forall|k: int| 0 <= k < s.len() ==> (#[trigger] s[k]).session_id@ != id,
    decreases s.len(),
{
    if s.len() > 0 {
        lemma_cfind_none_absent(s.drop_first(), id);
        assert forall|k: int| 0 <= k < s.len() implies (#[trigger] s[k]).session_id@ != id by {
            if k > 0 {
                assert(s.drop_first()[k - 1] == s[k]);
            }
        }
    }
}

/// The completed sessions young enough to keep, in order.
pub open spec fn spec_retained(s: Seq<CompletedSession>, wall_now_ms: i64) -> Seq<CompletedSession>
    decreases s.len(),
{
    if s.len() == 0 {
        s
    } else if wall_now_ms - s[0].completed_at_ms < COMPLETED_RETENTION_MS {
        seq![s[0]] + spec_retained(s.drop_first(), wall_now_ms)
    } else {
        spec_retained(s.drop_first(), wall_now_ms)
    }
}

proof fn lemma_retained_props(s: Seq<CompletedSession>, wall_now_ms: i64)
    ensures
        forall|i: int|
            0 <= i < spec_retained(s, wall_now_ms).len() ==> s.contains(
                #[trigger] spec_retained(s, wall_now_ms)[i],
            ),
        forall|i: int|
            0 <= i < spec_retained(s, wall_now_ms).len() ==> wall_now_ms - (#[trigger] spec_retained(
                s,
                wall_now_ms,
            )[i]).completed_at_ms < COMPLETED_RETENTION_MS,
        (forall|i: int, j: int|
            0 <= i < j < s.len() ==> (#[trigger] s[i]).session_id@ != (
            #[trigger] s[j]).session_id@) ==> (forall|i: int, j: int|
            0 <= i < j < spec_retained(s, wall_now_ms).len() ==> (#[trigger] spec_retained(
                s,
                wall_now_ms,
            )[i]).session_id@ != (#[trigger] spec_retained(s, wall_now_ms)[j]).session_id@),
    decreases s.len(),
{
    if s.len() > 0 {
        let rest = s.drop_first();
        lemma_retained_props(rest, wall_now_ms);
        let r = spec_retained(s, wall_now_ms);
        assert forall|i: int| 0 <= i < r.len() implies s.contains(#[trigger] r[i]) by {
            if wall_now_ms - s[0].completed_at_ms < COMPLETED_RETENTION_MS {
                if i == 0 {
                    assert(r[0] == s[0]);
                    assert(s[0] == s[0]);
                } else {
                    assert(r[i] == spec_retained(rest, wall_now_ms)[i - 1]);
                    assert(rest.contains(r[i]));
                    let j = choose|j: int| 0 <= j < rest.len() && rest[j] == r[i];
                    assert(s[j + 1] == r[i]);
                }
            } else {
                assert(rest.contains(r[i]));
                let j = choose|j: int| 0 <= j < rest.len() && rest[j] == r[i];
                assert(s[j + 1] == r[i]);
            }
        }
        if forall|i: int, j: int|
            0 <= i < j < s.len() ==> (#[trigger] s[i]).session_id@ != (
            #[trigger] s[j]).session_id@ {
            assert(forall|i: int, j: int|
                0 <= i < j < rest.len() ==> (#[trigger] rest[i]).session_id@ != (
                #[trigger] rest[j]).session_id@) by {
                assert(forall|i: int|
                    0 <= i < rest.len() ==> #[trigger] rest[i] == s[i + 1]);
            }
            assert forall|i: int, j: int| 0 <= i < j < r.len() implies (
            #[trigger] r[i]).session_id@ != (#[trigger] r[j]).session_id@ by {
                if wall_now_ms - s[0].completed_at_ms < COMPLETED_RETENTION_MS {
                    let rr = spec_retained(rest, wall_now_ms);
                    if i == 0 {
                        assert(r[j] == rr[j - 1]);
                        assert(rest.contains(r[j]));
                        let w = choose|w: int| 0 <= w < rest.len() && rest[w] == r[j];
                        assert(rest[w] == s[w + 1]);
                        assert(s[0].session_id@ != s[w + 1].session_id@);
                    } else {
                        assert(r[i] == rr[i - 1] && r[j] == rr[j - 1]);
                    }
                }
            }
        }
    }
}

/// A found session id names a session at its index.
pub proof fn lemma_afind_some_props(s: Seq<ActiveSession>, id: Seq<char>)
    requires
        afind(s, id) is Some,
    ensures
        0 <= afind(s, id)->0 < s.len(),
        s[afind(s, id)->0].session_id@ == id,
    decreases s.len(),
{
    if s.len() > 0 && s[0].session_id@ != id {
        lemma_afind_some_props(s.drop_first(), id);
    }
}

/// Removing any element keeps an absent session id absent.
pub proof fn lemma_afind_none_after_remove(s: Seq<ActiveSession>, x: int, id: Seq<char>)
    requires
        0 <= x < s.len(),
        afind(s, id) is None,
    ensures
        afind(s.remove(x), id) is None,
{
    lemma_afind_none_absent(s, id);
    let t = s.remove(x);
    assert forall|k: int| 0 <= k < t.len() implies (#[trigger] t[k]).session_id@ != id by {
        if k < x {
            assert(t[k] == s[k]);
        } else {
            assert(t[k] == s[k + 1]);
        }
    }
    lemma_afind_miss(t, id);
}

/// Removing the one session under an id leaves the id absent, when ids are
/// unique.
pub proof fn lemma_afind_none_after_removing_hit(s: Seq<ActiveSession>, k: int, id: Seq<char>)
    requires
        0 <= k < s.len(),
        s[k].session_id@ == id,
        forall|i: int, j: int|
            0 <= i < j < s.len() ==> (#[trigger] s[i]).session_id@ != (
            #[trigger] s[j]).session_id@,
    ensures
        afind(s.remove(k), id) is None,
{
    let t = s.remove(k);
    assert forall|w: int| 0 <= w < t.len() implies (#[trigger] t[w]).session_id@ != id by {
        if w < k {
            assert(t[w] == s[w]);
            assert(s[w].session_id@ != s[k].session_id@);
        } else {
            assert(t[w] == s[w + 1]);
            assert(s[k].session_id@ != s[w + 1].session_id@);
        }
    }
    lemma_afind_miss(t, id);
}

/// The active sessions that survive terminating the given ids: those whose
/// id is not among them, in their old order.
pub open spec fn spec_active_survivors(s: Seq<ActiveSession>, ids: Seq<Seq<char>>) -> Seq<
    ActiveSession,
>
    decreases s.len(),
{
    if s.len() == 0 {
        s
    } else if ids.contains(s[0].session_id@) {
        spec_active_survivors(s.drop_first(), ids)
    } else {
        seq![s[0]] + spec_active_survivors(s.drop_first(), ids)
    }
}

/// Terminating nothing leaves every session in place.
pub proof fn lemma_survivors_empty_ids(s: Seq<ActiveSession>)
    ensures
        spec_active_survivors(s, Seq::<Seq<char>>::empty()) =~= s,
    decreases s.len(),
{
    if s.len() > 0 {
        assert(!Seq::<Seq<char>>::empty().contains(s[0].session_id@));
        lemma_survivors_empty_ids(s.drop_first());
        assert(spec_active_survivors(s, Seq::<Seq<char>>::empty()) =~= seq![s[0]]
            + s.drop_first());
    }
}

/// Naming an id that no session carries changes nothing.
pub proof fn lemma_survivors_absent(s: Seq<ActiveSession>, ids: Seq<Seq<char>>, x: Seq<char>)
    requires
        forall|k: int| 0 <= k < s.len() ==> (#[trigger] s[k]).session_id@ != x,
    ensures
        spec_active_survivors(s, ids.push(x)) == spec_active_survivors(s, ids),
    decreases s.len(),
{
    if s.len() > 0 {
        let h = s[0];
        assert(ids.push(x).contains(h.session_id@) == ids.contains(h.session_id@)) by {
            if ids.contains(h.session_id@) {
                let w = choose|w: int| 0 <= w < ids.len() && ids[w] == h.session_id@;
                assert(ids.push(x)[w] == h.session_id@);
            }
            if ids.push(x).contains(h.session_id@) {
                let w = choose|w: int|
                    0 <= w < ids.push(x).len() && ids.push(x)[w] == h.session_id@;
                assert(w < ids.len());
            }
        }
        assert(forall|k: int|
            0 <= k < s.drop_first().len() ==> (#[trigger] s.drop_first()[k]).session_id@ != x)
            by {
            assert(forall|k: int|
                0 <= k < s.drop_first().len() ==> #[trigger] s.drop_first()[k] == s[k + 1]);
        }
        lemma_survivors_absent(s.drop_first(), ids, x);
    }
}

/// Terminating one more id removes exactly that session from the
/// survivors, at its found position, or nothing when it no longer
/// survives.
pub proof fn lemma_survivors_extend(s: Seq<ActiveSession>, ids: Seq<Seq<char>>, x: Seq<char>)
    requires
        forall|i: int, j: int|
            0 <= i < j < s.len() ==> (#[trigger] s[i]).session_id@ != (
            #[trigger] s[j]).session_id@,
    ensures
        match afind(spec_active_survivors(s, ids), x) {
            Option::Some(k) => spec_active_survivors(s, ids.push(x)) =~= spec_active_survivors(
                s,
                ids,
            ).remove(k),
            Option::None => spec_active_survivors(s, ids.push(x)) == spec_active_survivors(
                s,
                ids,
            ),
        },
    decreases s.len(),
{
    if s.len() == 0 {
        return ;
    }
    let h = s[0];
    let t = s.drop_first();
    assert(forall|i: int, j: int|
        0 <= i < j < t.len() ==> (#[trigger] t[i]).session_id@ != (#[trigger] t[j]).session_id@)
        by {
        assert(forall|k: int| 0 <= k < t.len() ==> #[trigger] t[k] == s[k + 1]);
    }
    assert(ids.push(x).contains(h.session_id@) == (ids.contains(h.session_id@) || h.session_id@
        == x)) by {
        if ids.contains(h.session_id@) {
            let w = choose|w: int| 0 <= w < ids.len() && ids[w] == h.session_id@;
            assert(ids.push(x)[w] == h.session_id@);
        }
        if h.session_id@ == x {
            assert(ids.push(x)[ids.len() as int] == x);
        }
        if ids.push(x).contains(h.session_id@) {
            let w = choose|w: int| 0 <= w < ids.push(x).len() && ids.push(x)[w] == h.session_id@;
            if w < ids.len() {
                assert(ids[w] == h.session_id@);
            }
        }
    }
    if ids.contains(h.session_id@) {
        lemma_survivors_extend(t, ids, x);
        assert(spec_active_survivors(s, ids) == spec_active_survivors(t, ids));
        assert(spec_active_survivors(s, ids.push(x)) == spec_active_survivors(t, ids.push(x)));
    } else if h.session_id@ == x {
        let surv = spec_active_survivors(s, ids);
        assert(surv == seq![h] + spec_active_survivors(t, ids));
        assert(surv[0] == h);
        assert(afind(surv, x) == Option::Some(0int));
        assert(forall|k: int| 0 <= k < t.len() ==> (#[trigger] t[k]).session_id@ != x) by {
            assert(forall|k: int|
                0 <= k < t.len() ==> #[trigger] t[k] == s[k + 1] && s[0].session_id@ != s[k
                    + 1].session_id@);
        }
        lemma_survivors_absent(t, ids, x);
        assert(spec_active_survivors(s, ids.push(x)) == spec_active_survivors(t, ids));
        assert(surv.remove(0) =~= spec_active_survivors(t, ids));
    } else {
        let surv_t = spec_active_survivors(t, ids);
        let surv = spec_active_survivors(s, ids);
        assert(surv == seq![h] + surv_t);
        assert(surv[0] == h && h.session_id@ != x);
        assert(surv.drop_first() =~= surv_t);
        lemma_survivors_extend(t, ids, x);
        assert(spec_active_survivors(s, ids.push(x)) == seq![h] + spec_active_survivors(
            t,
            ids.push(x),
        ));
        match afind(surv_t, x) {
            Option::Some(k) => {
                lemma_afind_some_props(surv_t, x);
                assert(afind(surv, x) == Option::Some(k + 1));
                assert(seq![h] + surv_t.remove(k) =~= surv.remove(k + 1));
            },
            Option::None => {
                assert(afind(surv, x) is None);
            },
        }
    }
}

/// Relies on `uuid::Uuid::new_v4` and its `Display` form: a fresh random
/// version-4 UUID rendered hyphenated, which is always 36 characters. The
/// value itself is random; nothing further is promised of it.
#[verifier::external_body]
fn fresh_session_id() -> (r: String)
    ensures
        r@.len() == 36,
{
    uuid::Uuid::new_v4().to_string()
}

/// The manager of all sessions: every session id names at most one session,
/// and a session is in at most one of the two pools.
pub struct AgentManager {
    active: Vec<ActiveSession>,
    completed: Vec<CompletedSession>,
}

impl AgentManager {
    /// The active pool, in insertion order.
    pub closed spec fn actives(&self) -> Seq<ActiveSession> {
        self.active@
    }

    /// The completed pool, in completion order.
    pub closed spec fn completeds(&self) -> Seq<CompletedSession> {
        self.completed@
    }

    /// Well-formedness: ids are unique within and across the pools, and
    /// every buffer respects its bound.
    pub open spec fn wf(&self) -> bool {
        (forall|i: int, j: int|
            0 <= i < j < self.actives().len() ==> (#[trigger] self.actives()[i]).session_id@ != (
            #[trigger] self.actives()[j]).session_id@) && (forall|i: int, j: int|
            0 <= i < j < self.completeds().len() ==> (#[trigger] self.completeds()[i]).session_id@
                != (#[trigger] self.completeds()[j]).session_id@) && (forall|i: int, j: int|
            0 <= i < self.actives().len() && 0 <= j < self.completeds().len() ==> (
            #[trigger] self.actives()[i]).session_id@ != (
            #[trigger] self.completeds()[j]).session_id@) && (forall|i: int|
            0 <= i < self.actives().len() ==> (#[trigger] self.actives()[i]).buffer.wf()) && (
        forall|i: int|
            0 <= i < self.completeds().len() ==> (#[trigger] self.completeds()[i]).buffer.wf())
    }

    /// A manager with no sessions.
    pub fn new() -> (r: Self)
        ensures
            r.wf(),
            r.actives().len() == 0,
            r.completeds().len() == 0,
    {
        AgentManager { active: Vec::new(), completed: Vec::new() }
    }

    /// The position of an active session by id.
    fn find_active(&self, session_id: &str) -> (r: Option<usize>)
        ensures
            match r {
                Option::Some(i) => afind(self.actives(), session_id@) == Option::Some(i as int) && i
                    < self.actives().len() && self.actives()[i as int].session_id@ == session_id@,
                Option::None => afind(self.actives(), session_id@) is None,
            },
    {
        let mut i: usize = 0;
        while i < self.active.len()
            invariant
                i <= self.actives().len(),
                forall|k: int| 0 <= k < i ==> (#[trigger] self.actives()[k]).session_id@
                    != session_id@,
            decreases self.actives().len() - i,
        {
            if str_eq(self.active[i].session_id.as_str(), session_id) {
                proof {
                    lemma_afind_hit(self.actives(), session_id@, i as int);
                }
                return Option::Some(i);
            }
            i = i + 1;
        }
        proof {
            lemma_afind_miss(self.actives(), session_id@);
        }
        Option::None
    }

    /// The position of a completed session by id.
    fn find_completed(&self, session_id: &str) -> (r: Option<usize>)
        ensures
            match r {
                Option::Some(i) => cfind(self.completeds(), session_id@) == Option::Some(i as int)
                    && i < self.completeds().len() && self.completeds()[i as int].session_id@
                    == session_id@,
                Option::None => cfind(self.completeds(), session_id@) is None,
            },
    {
        let mut i: usize = 0;
        while i < self.completed.len()
            invariant
                i <= self.completeds().len(),
                forall|k: int| 0 <= k < i ==> (#[trigger] self.completeds()[k]).session_id@
                    != session_id@,
            decreases self.completeds().len() - i,
        {
            if str_eq(self.completed[i].session_id.as_str(), session_id) {
                proof {
                    lemma_cfind_hit(self.completeds(), session_id@, i as int);
                }
                return Option::Some(i);
            }
            i = i + 1;
        }
        proof {
            lemma_cfind_miss(self.completeds(), session_id@);
        }
        Option::None
    }

    /// Insert a fresh session under the given id: a new active session with
    /// an empty buffer, zero turns, and its clocks set to now. Refused when
    /// the id already names a session in either pool.
    pub fn spawn_session_with_id(
        &mut self,
        session_id: &str,
        request: &SpawnSessionRequest,
        now_ms: u64,
    ) -> (r: Result<(), ClaudeError>)
        requires
            old(self).wf(),
        ensures
            final(self).wf(),
            final(self).completeds() == old(self).completeds(),
            if afind(old(self).actives(), session_id@) is None && cfind(
                old(self).completeds(),
                session_id@,
            ) is None {
                r is Ok && final(self).actives().len() == old(self).actives().len() + 1 && (forall|
                    i: int,
                |
                    0 <= i < old(self).actives().len() ==> final(self).actives()[i] == old(self).actives()[i]) && {
                    let s = final(self).actives().last();
                    s.session_id@ == session_id@ && s.label@ == request.label@
                        && s.buffer.records() == Seq::<MessageRecordV>::empty()
                        && s.created_at_ms == now_ms && s.last_activity_ms == now_ms
                        && s.turn_count == 0 && s.max_turns == request.max_turns && !s.complete
                }
            } else {
                (r matches Result::Err(e) && e is InvalidConfig) && final(self).actives() == old(self).actives()
            },
    {
        if self.find_active(session_id).is_some() || self.find_completed(session_id).is_some() {
            return Result::Err(ClaudeError::invalid_config("session id already in use"));
        }
        let session = ActiveSession {
            session_id: session_id.to_owned(),
            label: request.label.clone(),
            buffer: RingBuffer::new(),
            created_at_ms: now_ms,
            last_activity_ms: now_ms,
            turn_count: 0,
            max_turns: request.max_turns,
            complete: false,
        };
        self.active.push(session);
        proof {
            assert(final(self).actives() =~= old(self).actives().push(
                final(self).actives().last(),
            ));
            lemma_afind_none_absent(old(self).actives(), session_id@);
            lemma_cfind_none_absent(old(self).completeds(), session_id@);
            assert(final(self).wf()) by {
                assert(forall|i: int|
                    0 <= i < old(self).actives().len() ==> #[trigger] final(self).actives()[i]
                        == old(self).actives()[i]);
                assert(final(self).actives().last().session_id@ == session_id@);
                assert(final(self).actives().last().buffer.wf());
            }
        }
        Result::Ok(())
    }

    /// Spawn a session under a freshly generated id and return the id. On
    /// the (never expected) collision of the generated id the pools are
    /// unchanged and the collision is reported.
    pub fn spawn_session(&mut self, request: &SpawnSessionRequest, now_ms: u64) -> (r: Result<
        String,
        ClaudeError,
    >)
        requires
            old(self).wf(),
        ensures
            final(self).wf(),
            final(self).completeds() == old(self).completeds(),
            match r {
                Result::Ok(id) => afind(old(self).actives(), id@) is None && final(self).actives().len() == old(self).actives().len() + 1 && (forall|i: int|
                    0 <= i < old(self).actives().len() ==> final(self).actives()[i] == old(self).actives()[i]) && {
                    let s = final(self).actives().last();
                    s.session_id@ == id@ && s.label@ == request.label@ && s.buffer.records()
                        == Seq::<MessageRecordV>::empty() && s.created_at_ms == now_ms
                        && s.last_activity_ms == now_ms && s.turn_count == 0 && s.max_turns
                        == request.max_turns && !s.complete
                },
                Result::Err(_) => final(self).actives() == old(self).actives(),
            },
    {
        let id = fresh_session_id();
        match self.spawn_session_with_id(id.as_str(), request, now_ms) {
            Result::Ok(()) => Result::Ok(id),
            Result::Err(e) => Result::Err(e),
        }
    }

    /// Store one received message on its session: the record joins the ring
    /// (evicting the oldest past the bound), activity is stamped, and for a
    /// result frame the turn counter rises to the reported count; reaching
    /// the turn limit completes the session. Returns whether the session is
    /// complete after the message.
    pub fn record_message(
        &mut self,
        session_id: &str,
        msg: &Message,
        raw: &Json,
        now_ms: u64,
        wall_ms: i64,
    ) -> (r: Result<bool, ClaudeError>)
        requires
            old(self).wf(),
        ensures
            final(self).wf(),
            final(self).completeds() == old(self).completeds(),
            match afind(old(self).actives(), session_id@) {
                Option::Some(k) => r matches Result::Ok(done) && {
                    let s = old(self).actives()[k];
                    let s2 = final(self).actives()[k];
                    final(self).actives().len() == old(self).actives().len() && (forall|i: int|
                        0 <= i < old(self).actives().len() && i != k ==> final(self).actives()[i]
                            == old(self).actives()[i]) && s2.session_id@ == s.session_id@
                        && s2.label@ == s.label@ && s2.created_at_ms == s.created_at_ms
                        && s2.max_turns == s.max_turns && s2.last_activity_ms == now_ms && {
                        let rv = MessageRecordV {
                            message_type: spec_type_tag(msg@),
                            content: raw@,
                            turn: spec_turn_of(msg@),
                            timestamp_ms: wall_ms,
                        };
                        if s.buffer.records().len() < BUFFER_CAPACITY {
                            s2.buffer.records() == s.buffer.records().push(rv)
                        } else {
                            s2.buffer.records() == s.buffer.records().drop_first().push(rv)
                        }
                    } && s2.turn_count == (if spec_turn_of(msg@) > s.turn_count {
                        spec_turn_of(msg@)
                    } else {
                        s.turn_count
                    }) && s2.complete == (s.complete || (msg@ is Result && spec_turn_of(msg@)
                        >= s.max_turns)) && done == s2.complete && s2.turn_count >= s.turn_count
                },
                Option::None => (r matches Result::Err(e) && e is SessionNotFound) && final(self).actives() == old(self).actives(),
            },
    {
        let k = match self.find_active(session_id) {
            Option::Some(k) => k,
            Option::None => {
                return Result::Err(ClaudeError::session_not_found(session_id));
            },
        };
        let mut session = self.active.remove(k);
        let rec = record_of_message(msg, raw, wall_ms);
        session.buffer.push(rec);
        session.last_activity_ms = now_ms;
        let turn = match msg {
            Message::Result { num_turns, .. } => *num_turns,
            _ => 0u32,
        };
        if turn > session.turn_count {
            session.turn_count = turn;
        }
        let is_result = match msg {
            Message::Result { .. } => true,
            _ => false,
        };
        if is_result && turn >= session.max_turns {
            session.complete = true;
        }
        let done = session.complete;
        self.active.insert(k, session);
        proof {
            assert(final(self).actives() =~= old(self).actives().update(
                k as int,
                final(self).actives()[k as int],
            ));
            assert(final(self).wf()) by {
                assert(final(self).completeds() == old(self).completeds());
                assert(forall|i: int|
                    0 <= i < final(self).actives().len() ==> (#[trigger] final(self).actives()[i]).session_id@ == old(self).actives()[i].session_id@);
                assert(forall|i: int|
                    0 <= i < final(self).actives().len() ==> (#[trigger] final(self).actives()[i]).buffer.wf());
            }
        }
        Result::Ok(done)
    }

    /// Mark a session complete after a stream failure.
    pub fn record_session_failure(&mut self, session_id: &str) -> (r: Result<(), ClaudeError>)
        requires
            old(self).wf(),
        ensures
            final(self).wf(),
            final(self).completeds() == old(self).completeds(),
            match afind(old(self).actives(), session_id@) {
                Option::Some(k) => r is Ok && final(self).actives().len() == old(self).actives().len() && (forall|i: int|
                    0 <= i < old(self).actives().len() && i != k ==> final(self).actives()[i]
                        == old(self).actives()[i]) && final(self).actives()[k] == (ActiveSession {
                    complete: true,
                    ..old(self).actives()[k]
                }),
                Option::None => (r matches Result::Err(e) && e is SessionNotFound) && final(self).actives() == old(self).actives(),
            },
    {
        let k = match self.find_active(session_id) {
            Option::Some(k) => k,
            Option::None => {
                return Result::Err(ClaudeError::session_not_found(session_id));
            },
        };
        let mut session = self.active.remove(k);
        session.complete = true;
        self.active.insert(k, session);
        proof {
            assert(final(self).actives() =~= old(self).actives().update(
                k as int,
                final(self).actives()[k as int],
            ));
            assert(final(self).wf()) by {
                assert(final(self).completeds() == old(self).completeds());
                assert(forall|i: int|
                    0 <= i < final(self).actives().len() ==> (#[trigger] final(self).actives()[i]).session_id@ == old(self).actives()[i].session_id@);
                assert(forall|i: int|
                    0 <= i < final(self).actives().len() ==> (#[trigger] final(self).actives()[i]).buffer.wf());
            }
        }
        Result::Ok(())
    }

    /// Stamp activity after a prompt was delivered to the child.
    pub fn note_send_ok(&mut self, session_id: &str, now_ms: u64) -> (r: Result<(), ClaudeError>)
        requires
            old(self).wf(),
        ensures
            final(self).wf(),
            final(self).completeds() == old(self).completeds(),
            match afind(old(self).actives(), session_id@) {
                Option::Some(k) => r is Ok && final(self).actives().len() == old(self).actives().len() && (forall|i: int|
                    0 <= i < old(self).actives().len() && i != k ==> final(self).actives()[i]
                        == old(self).actives()[i]) && final(self).actives()[k] == (ActiveSession {
                    last_activity_ms: now_ms,
                    ..old(self).actives()[k]
                }),
                Option::None => (r matches Result::Err(e) && e is SessionNotFound) && final(self).actives() == old(self).actives(),
            },
    {
        let k = match self.find_active(session_id) {
            Option::Some(k) => k,
            Option::None => {
                return Result::Err(ClaudeError::session_not_found(session_id));
            },
        };
        let mut session = self.active.remove(k);
        session.last_activity_ms = now_ms;
        self.active.insert(k, session);
        proof {
            assert(final(self).actives() =~= old(self).actives().update(
                k as int,
                final(self).actives()[k as int],
            ));
            assert(final(self).wf()) by {
                assert(final(self).completeds() == old(self).completeds());
                assert(forall|i: int|
                    0 <= i < final(self).actives().len() ==> (#[trigger] final(self).actives()[i]).session_id@ == old(self).actives()[i].session_id@);
                assert(forall|i: int|
                    0 <= i < final(self).actives().len() ==> (#[trigger] final(self).actives()[i]).buffer.wf());
            }
        }
        Result::Ok(())
    }

    /// Whether a session is actively working; an unknown or completed
    /// session is not.
    pub fn is_working(&self, session_id: &str, now_ms: u64) -> (r: bool)
        ensures
            r == match afind(self.actives(), session_id@) {
                Option::Some(k) => spec_working(self.actives()[k], now_ms),
                Option::None => false,
            },
    {
        match self.find_active(session_id) {
            Option::Some(k) => {
                let s = &self.active[k];
                if s.complete {
                    false
                } else if now_ms <= s.last_activity_ms {
                    true
                } else {
                    now_ms - s.last_activity_ms < WORKING_THRESHOLD_MS
                }
            },
            Option::None => false,
        }
    }

    /// Validate a follow-up prompt for a session and build the one frame to
    /// write to its child: rejected when the session is unknown, and
    /// rejected as complete when it has completed or reached its turn
    /// limit.
    pub fn send_message(&self, session_id: &str, prompt: &str) -> (r: Result<String, ClaudeError>)
        ensures
            match afind(self.actives(), session_id@) {
                Option::Some(k) => {
                    let s = self.actives()[k];
                    if s.complete || s.turn_count >= s.max_turns {
                        r matches Result::Err(e) && e matches ClaudeError::SessionComplete(m)
                            && m@ == session_id@
                    } else {
                        r matches Result::Ok(frame) && frame@ == spec_frame(
                            spec_user_frame(prompt@),
                        )
                    }
                },
                Option::None => r matches Result::Err(e) && e
                    matches ClaudeError::SessionNotFound(m) && m@ == session_id@,
            },
    {
        let k = match self.find_active(session_id) {
            Option::Some(k) => k,
            Option::None => {
                return Result::Err(ClaudeError::session_not_found(session_id));
            },
        };
        let s = &self.active[k];
        if s.complete {
            return Result::Err(ClaudeError::session_complete(session_id));
        }
        if s.turn_count >= s.max_turns {
            return Result::Err(ClaudeError::session_complete(session_id));
        }
        let j = crate::protocol::user_frame_json(prompt);
        Result::Ok(crate::codec::build_frame(&j))
    }

    /// Remove a session from the active pool, snapshot it, and retain it in
    /// the completed pool stamped with the wall clock.
    pub fn terminate_session(
        &mut self,
        session_id: &str,
        now_ms: u64,
        wall_ms: i64,
    ) -> (r: Result<TerminateResponse, ClaudeError>)
        requires
            old(self).wf(),
        ensures
            final(self).wf(),
            match afind(old(self).actives(), session_id@) {
                Option::Some(k) => {
                    let s = old(self).actives()[k];
                    final(self).actives() == old(self).actives().remove(k) && final(self).completeds().len() == old(self).completeds().len() + 1 && (forall|i: int|
                        0 <= i < old(self).completeds().len() ==> final(self).completeds()[i]
                            == old(self).completeds()[i]) && {
                        let c = final(self).completeds().last();
                        c.session_id@ == s.session_id@ && c.label@ == s.label@
                            && c.buffer.records() == s.buffer.records() && c.final_turn_count
                            == s.turn_count && c.runtime_ms == spec_runtime(
                            s.created_at_ms,
                            now_ms,
                        ) && c.completed_at_ms == wall_ms
                    } && (r matches Result::Ok(resp) && resp.session_id@ == session_id@
                        && resp.success && resp.final_turn_count == s.turn_count
                        && resp.total_messages == s.buffer.records().len() && resp.runtime_ms
                        == spec_runtime(s.created_at_ms, now_ms))
                },
                Option::None => (r matches Result::Err(e) && e
                    matches ClaudeError::SessionNotFound(m) && m@ == session_id@) && final(self).actives() == old(self).actives() && final(self).completeds() == old(self).completeds(),
            },
    {
        let k = match self.find_active(session_id) {
            Option::Some(k) => k,
            Option::None => {
                return Result::Err(ClaudeError::session_not_found(session_id));
            },
        };
        let session = self.active.remove(k);
        let runtime_ms: u64 = if now_ms >= session.created_at_ms {
            now_ms - session.created_at_ms
        } else {
            0
        };
        let total_messages = session.buffer.len();
        let final_turn_count = session.turn_count;
        let completed = CompletedSession {
            session_id: session.session_id,
            label: session.label,
            buffer: session.buffer,
            final_turn_count,
            runtime_ms,
            completed_at_ms: wall_ms,
        };
        self.completed.push(completed);
        proof {
            assert(final(self).completeds() =~= old(self).completeds().push(
                final(self).completeds().last(),
            ));
        }
        Result::Ok(
            TerminateResponse {
                session_id: session_id.to_owned(),
                success: true,
                final_turn_count,
                total_messages,
                runtime_ms,
            },
        )
    }

    /// Drop every completed session whose completion lies further back than
    /// the retention window: afterwards the pool holds exactly the retained
    /// entries, in order.
    pub fn gc_completed(&mut self, wall_now_ms: i64)
        requires
            old(self).wf(),
        ensures
            final(self).wf(),
            final(self).actives() == old(self).actives(),
            final(self).completeds() == spec_retained(old(self).completeds(), wall_now_ms),
            forall|i: int|
                0 <= i < final(self).completeds().len() ==> wall_now_ms - (#[trigger] final(self).completeds()[i]).completed_at_ms < COMPLETED_RETENTION_MS,
    {
        let ghost orig = self.completed@;
        let mut kept: Vec<CompletedSession> = Vec::new();
        while self.completed.len() > 0
            invariant
                self.active@ == old(self).active@,
                kept@ + spec_retained(self.completed@, wall_now_ms) =~= spec_retained(
                    orig,
                    wall_now_ms,
                ),
            decreases self.completed@.len(),
        {
            let ghost before = self.completed@;
            let c = self.completed.remove(0);
            proof {
                assert(self.completed@ =~= before.drop_first());
            }
            if (wall_now_ms as i128) - (c.completed_at_ms as i128) < (
            COMPLETED_RETENTION_MS as i128) {
                let ghost kept_before = kept@;
                kept.push(c);
                proof {
                    assert(spec_retained(before, wall_now_ms) =~= seq![before[0]] + spec_retained(
                        before.drop_first(),
                        wall_now_ms,
                    ));
                    assert(kept@ + spec_retained(self.completed@, wall_now_ms) =~= spec_retained(
                        orig,
                        wall_now_ms,
                    ));
                }
            } else {
                proof {
                    assert(spec_retained(before, wall_now_ms) == spec_retained(
                        before.drop_first(),
                        wall_now_ms,
                    ));
                }
            }
        }
        self.completed = kept;
        proof {
            assert(self.completed@ =~= spec_retained(orig, wall_now_ms)) by {
                assert(spec_retained(Seq::<CompletedSession>::empty(), wall_now_ms)
                    =~= Seq::<CompletedSession>::empty());
            }
            assert(orig == old(self).completeds());
            assert(forall|i: int, j: int|
                0 <= i < j < orig.len() ==> (#[trigger] orig[i]).session_id@ != (
                #[trigger] orig[j]).session_id@) by {
                assert(forall|i: int, j: int|
                    0 <= i < j < old(self).completeds().len() ==> (#[trigger] old(self).completeds()[i]).session_id@ != (#[trigger] old(self).completeds()[j]).session_id@);
            }
            lemma_retained_props(orig, wall_now_ms);
            assert(final(self).completeds() == spec_retained(orig, wall_now_ms));
            assert forall|i: int, j: int|
                0 <= i < j < final(self).completeds().len() implies (#[trigger] final(self).completeds()[i]).session_id@ != (#[trigger] final(self).completeds()[j]).session_id@ by {
                assert(final(self).completeds()[i] == spec_retained(orig, wall_now_ms)[i]);
                assert(final(self).completeds()[j] == spec_retained(orig, wall_now_ms)[j]);
                assert(spec_retained(orig, wall_now_ms)[i].session_id@ != spec_retained(
                    orig,
                    wall_now_ms,
                )[j].session_id@);
            }
            assert forall|j: int| 0 <= j < final(self).completeds().len() implies (#[trigger] final(self).completeds()[j]).buffer.wf() by {
                assert(orig.contains(final(self).completeds()[j]));
                let w = choose|w: int| 0 <= w < orig.len() && orig[w] == final(self).completeds()[j];
                assert(old(self).completeds()[w].buffer.wf());
            }
            assert(final(self).actives() == old(self).actives());
            assert forall|i: int, j: int|
                0 <= i < j < final(self).actives().len() implies (#[trigger] final(self).actives()[i]).session_id@ != (#[trigger] final(self).actives()[j]).session_id@ by {
                assert(final(self).actives()[i] == old(self).actives()[i]);
                assert(final(self).actives()[j] == old(self).actives()[j]);
                assert(old(self).actives()[i].session_id@ != old(self).actives()[j].session_id@);
            }
            assert forall|i: int|
                0 <= i < final(self).actives().len() implies (#[trigger] final(self).actives()[i]).buffer.wf() by {
                assert(final(self).actives()[i] == old(self).actives()[i]);
                assert(old(self).actives()[i].buffer.wf());
            }
            assert forall|i: int, j: int|
                0 <= i < final(self).actives().len() && 0 <= j < final(self).completeds().len() implies (#[trigger] final(self).actives()[i]).session_id@
                != (#[trigger] final(self).completeds()[j]).session_id@ by {
                assert(orig.contains(final(self).completeds()[j]));
                let w = choose|w: int| 0 <= w < orig.len() && orig[w] == final(self).completeds()[j];
                assert(old(self).wf());
                assert(old(self).actives()[i].session_id@ != old(self).completeds()[w].session_id@);
            }
        }
    }

    /// Terminate every active session, best effort, moving each to the
    /// completed pool. Afterwards the active pool is empty.
    pub fn shutdown(&mut self, now_ms: u64, wall_ms: i64)
        requires
            old(self).wf(),
        ensures
            final(self).wf(),
            final(self).actives().len() == 0,
            final(self).completeds().len() == old(self).completeds().len() + old(self).actives().len(),
            forall|i: int|
                0 <= i < old(self).completeds().len() ==> final(self).completeds()[i] == old(self).completeds()[i],
            forall|j: int|
                0 <= j < old(self).actives().len() ==> {
                    let s = old(self).actives()[j];
                    let c = #[trigger] final(self).completeds()[old(self).completeds().len() + j];
                    c.session_id@ == s.session_id@ && c.label@ == s.label@ && c.buffer.records()
                        == s.buffer.records() && c.final_turn_count == s.turn_count
                        && c.runtime_ms == spec_runtime(s.created_at_ms, now_ms)
                        && c.completed_at_ms == wall_ms
                },
    {
        while self.active.len() > 0
            invariant
                old(self).wf(),
                self.actives().len() <= old(self).actives().len(),
                self.actives() =~= old(self).actives().skip(
                    old(self).actives().len() - self.actives().len(),
                ),
                self.completeds().len() == old(self).completeds().len() + old(self).actives().len() - self.actives().len(),
                forall|i: int|
                    0 <= i < old(self).completeds().len() ==> #[trigger] self.completeds()[i]
                        == old(self).completeds()[i],
                forall|j: int|
                    0 <= j < old(self).actives().len() - self.actives().len() ==> {
                        let s = old(self).actives()[j];
                        let c = #[trigger] self.completeds()[old(self).completeds().len() + j];
                        c.session_id@ == s.session_id@ && c.label@ == s.label@
                            && c.buffer.records() == s.buffer.records() && c.final_turn_count
                            == s.turn_count && c.runtime_ms == spec_runtime(
                            s.created_at_ms,
                            now_ms,
                        ) && c.completed_at_ms == wall_ms
                    },
            decreases self.actives().len(),
        {
            let ghost done_before = old(self).actives().len() - self.actives().len();
            let ghost act_before = self.actives();
            proof {
                assert(act_before =~= old(self).actives().skip(done_before));
                assert(old(self).actives().skip(done_before)[0] == old(self).actives()[done_before]);
                assert(act_before[0] == old(self).actives()[done_before]);
                assert forall|x: int|
                    0 <= x < act_before.len() - 1 implies act_before.drop_first()[x] == old(self).actives()[done_before + 1 + x] by {
                    assert(old(self).actives().skip(done_before)[x + 1] == old(self).actives()[done_before + x + 1]);
                    assert(act_before[x + 1] == old(self).actives()[done_before + x + 1]);
                }
                assert(act_before.drop_first() =~= old(self).actives().skip(done_before + 1));
            }
            let session = self.active.remove(0);
            proof {
                assert(self.actives() =~= act_before.drop_first());
                assert(self.actives() =~= old(self).actives().skip(done_before + 1));
            }
            let runtime_ms: u64 = if now_ms >= session.created_at_ms {
                now_ms - session.created_at_ms
            } else {
                0
            };
            let completed = CompletedSession {
                session_id: session.session_id,
                label: session.label,
                buffer: session.buffer,
                final_turn_count: session.turn_count,
                runtime_ms,
                completed_at_ms: wall_ms,
            };
            let ghost cpre = self.completeds();
            self.completed.push(completed);
            proof {
                assert(self.completeds() =~= cpre.push(self.completeds().last()));
            }
        }
        proof {
            assert(final(self).wf()) by {
                let oc = old(self).completeds().len();
                let oa = old(self).actives().len();
                assert forall|i: int, j: int|
                    0 <= i < j < final(self).completeds().len() implies (#[trigger] final(self).completeds()[i]).session_id@ != (#[trigger] final(self).completeds()[j]).session_id@ by {
                    if j < oc {
                        assert(old(self).completeds()[i].session_id@ != old(self).completeds()[j].session_id@);
                    } else if i < oc {
                        let jj = j - oc;
                        assert(final(self).completeds()[oc + jj].session_id@ == old(self).actives()[jj].session_id@);
                        assert(old(self).actives()[jj].session_id@ != old(self).completeds()[i].session_id@);
                    } else {
                        let ii = i - oc;
                        let jj = j - oc;
                        assert(final(self).completeds()[oc + ii].session_id@ == old(self).actives()[ii].session_id@);
                        assert(final(self).completeds()[oc + jj].session_id@ == old(self).actives()[jj].session_id@);
                        assert(old(self).actives()[ii].session_id@ != old(self).actives()[jj].session_id@);
                    }
                }
                assert forall|i: int|
                    0 <= i < final(self).completeds().len() implies (#[trigger] final(self).completeds()[i]).buffer.wf() by {
                    if i < oc {
                        assert(old(self).completeds()[i].buffer.wf());
                    } else {
                        let ii = i - oc;
                        assert(final(self).completeds()[oc + ii].buffer.records() == old(self).actives()[ii].buffer.records());
                        assert(old(self).actives()[ii].buffer.wf());
                    }
                }
            }
        }
    }
}

/// The page of records a read returns: from `offset` on for `length`
/// records when the offset is at least zero, and the last `-offset` records
/// in order when it is negative. Reads never change the buffer.
pub open spec fn spec_page(s: Seq<MessageRecordV>, offset: int, length: int) -> Seq<
    MessageRecordV,
> {
    if offset >= 0 {
        if offset >= s.len() {
            Seq::empty()
        } else {
            s.subrange(
                offset,
                if offset + length <= s.len() {
                    offset + length
                } else {
                    s.len() as int
                },
            )
        }
    } else {
        s.subrange(
            if s.len() + offset >= 0 {
                s.len() + offset
            } else {
                0
            },
            s.len() as int,
        )
    }
}

/// No session's buffer, active or completed, ever exceeds the ring
/// capacity.
pub proof fn lemma_buffer_bounds(m: AgentManager, i: int)
    requires
        m.wf(),
    ensures
        0 <= i < m.actives().len() ==> m.actives()[i].buffer.records().len() <= BUFFER_CAPACITY,
        0 <= i < m.completeds().len() ==> m.completeds()[i].buffer.records().len()
            <= BUFFER_CAPACITY,
{
}

/// A forward read of length zero returns no records; reads themselves never
/// change a buffer, since reading borrows the manager immutably.
pub proof fn lemma_zero_length_page(s: Seq<MessageRecordV>, offset: int)
    requires
        offset >= 0,
    ensures
        spec_page(s, offset, 0).len() == 0,
{
}

/// Paginate the records of a buffer: a non-negative offset pages forward
/// from it, a negative offset returns the tail, in order.
pub fn paginate_messages(buffer: &RingBuffer, offset: i64, length: usize) -> (r: Vec<
    MessageRecord,
>)
    ensures
        r@.map_values(|m: MessageRecord| m@) == spec_page(
            buffer.records(),
            offset as int,
            length as int,
        ),
{
    let total = buffer.len();
    let start: usize;
    let end: usize;
    if offset >= 0 {
        if offset as u64 >= total as u64 {
            let r: Vec<MessageRecord> = Vec::new();
            proof {
                assert(r@.map_values(|m: MessageRecord| m@) =~= spec_page(
                    buffer.records(),
                    offset as int,
                    length as int,
                ));
            }
            return r;
        }
        start = offset as usize;
        end = if length > total - start {
            total
        } else {
            start + length
        };
    } else {
        let t: u64 = if offset == i64::MIN {
            9223372036854775808u64
        } else {
            (-offset) as u64
        };
        start = if t >= total as u64 {
            0
        } else {
            total - (t as usize)
        };
        end = total;
    }
    let mut out: Vec<MessageRecord> = Vec::new();
    let mut i: usize = start;
    while i < end
        invariant
            start <= i <= end <= buffer.records().len(),
            out@.map_values(|m: MessageRecord| m@) =~= buffer.records().subrange(
                start as int,
                i as int,
            ),
        decreases end - i,
    {
        let ghost prev = out@;
        out.push(buffer.get(i).clone());
        proof {
            assert(out@.map_values(|m: MessageRecord| m@) =~= prev.map_values(
                |m: MessageRecord| m@,
            ).push(buffer.records()[i as int]));
            assert(out@.map_values(|m: MessageRecord| m@) =~= buffer.records().subrange(
                start as int,
                i + 1,
            ));
        }
        i = i + 1;
    }
    proof {
        assert(out@.map_values(|m: MessageRecord| m@) =~= spec_page(
            buffer.records(),
            offset as int,
            length as int,
        ));
    }
    out
}

/// Whether more records lie past the returned page: only forward reads can
/// have more.
pub fn calculate_has_more(offset: i64, messages_returned: usize, total_messages: usize) -> (r:
    bool)
    ensures
        r == (offset >= 0 && offset + messages_returned < total_messages),
{
    if offset < 0 {
        false
    } else {
        (offset as u128) + (messages_returned as u128) < (total_messages as u128)
    }
}

/// Whether `a` may stand before `b` in the session listing: working
/// sessions first, then longer runtimes first.
pub open spec fn agent_le(a: AgentInfoV, b: AgentInfoV) -> bool {
    if a.working != b.working {
        a.working
    } else {
        a.runtime_ms >= b.runtime_ms
    }
}

fn agent_le_exec(a: &AgentInfo, b: &AgentInfo) -> (r: bool)
    ensures
        r == agent_le(a@, b@),
{
    if a.working != b.working {
        a.working
    } else {
        a.runtime_ms >= b.runtime_ms
    }
}

/// The views of a run of listing entries.
pub open spec fn agent_views(s: Seq<AgentInfo>) -> Seq<AgentInfoV> {
    s.map_values(|a: AgentInfo| a@)
}

/// Sort listing entries: working sessions first, then by descending
/// runtime; the entries themselves are exactly the input's.
fn sort_agents(input: Vec<AgentInfo>) -> (r: Vec<AgentInfo>)
    ensures
        r@.len() == input@.len(),
        forall|i: int, j: int| 0 <= i <= j < r@.len() ==> agent_le(
            #[trigger] r@[i]@,
            #[trigger] r@[j]@,
        ),
        agent_views(r@).to_multiset() == agent_views(input@).to_multiset(),
{
    broadcast use vstd::seq_lib::group_seq_properties;

    let ghost origv = agent_views(input@);
    let mut rest = input;
    let mut out: Vec<AgentInfo> = Vec::new();
    proof {
        vstd::seq::Seq::to_multiset_ensures(agent_views(out@));
        assert(agent_views(out@) =~= Seq::<AgentInfoV>::empty());
        assert(agent_views(out@).to_multiset().add(agent_views(rest@).to_multiset())
            =~= origv.to_multiset());
    }
    while rest.len() > 0
        invariant
            agent_views(out@).to_multiset().add(agent_views(rest@).to_multiset())
                == origv.to_multiset(),
            out@.len() + rest@.len() == origv.len(),
            forall|i: int, j: int| 0 <= i <= j < out@.len() ==> agent_le(
                #[trigger] out@[i]@,
                #[trigger] out@[j]@,
            ),
            forall|i: int, j: int|
                0 <= i < out@.len() && 0 <= j < rest@.len() ==> agent_le(
                    #[trigger] out@[i]@,
                    #[trigger] rest@[j]@,
                ),
        decreases rest@.len(),
    {
        let mut best: usize = 0;
        let mut k: usize = 1;
        while k < rest.len()
            invariant
                best < k <= rest@.len() || (k <= rest@.len() && best == 0),
                best < rest@.len(),
                forall|j: int| 0 <= j < k ==> agent_le(#[trigger] rest@[best as int]@, rest@[j]@),
            decreases rest@.len() - k,
        {
            if !agent_le_exec(&rest[best], &rest[k]) {
                best = k;
                proof {
                    assert forall|j: int| 0 <= j < k + 1 implies agent_le(
                        #[trigger] rest@[best as int]@,
                        rest@[j]@,
                    ) by {
                        let a = rest@[k as int]@;
                        let b = rest@[j]@;
                        assert(agent_le(a, a));
                    }
                }
            }
            k = k + 1;
        }
        let ghost restv_before = rest@;
        let chosen = rest.remove(best);
        let ghost outv_before = out@;
        out.push(chosen);
        proof {
            let ov = agent_views(outv_before);
            let rv = agent_views(restv_before);
            vstd::seq::Seq::to_multiset_ensures(ov);
            vstd::seq::Seq::to_multiset_ensures(rv);
            assert(agent_views(out@) =~= ov.push(chosen@));
            assert(agent_views(rest@) =~= rv.remove(best as int));
            assert(rv[best as int] == chosen@);
            assert(agent_views(out@).to_multiset() =~= ov.to_multiset().insert(chosen@));
            assert(agent_views(rest@).to_multiset() =~= rv.to_multiset().remove(chosen@));
            assert(rv.to_multiset().count(chosen@) > 0) by {
                assert(rv.contains(chosen@));
            }
            assert(agent_views(out@).to_multiset().add(agent_views(rest@).to_multiset())
                =~= ov.to_multiset().add(rv.to_multiset()));
            assert forall|i: int, j: int|
                0 <= i < out@.len() && 0 <= j < rest@.len() implies agent_le(
                    #[trigger] out@[i]@,
                    #[trigger] rest@[j]@,
                ) by {
                if i < out@.len() - 1 {
                    if j < best {
                        assert(rest@[j] == restv_before[j]);
                        assert(agent_le(outv_before[i]@, restv_before[j]@));
                    } else {
                        assert(rest@[j] == restv_before[j + 1]);
                        assert(agent_le(outv_before[i]@, restv_before[j + 1]@));
                    }
                } else {
                    if j < best {
                        assert(rest@[j] == restv_before[j]);
                        assert(agent_le(restv_before[best as int]@, restv_before[j]@));
                    } else {
                        assert(rest@[j] == restv_before[j + 1]);
                        assert(agent_le(restv_before[best as int]@, restv_before[j + 1]@));
                    }
                }
            }
            assert forall|i: int, j: int| 0 <= i <= j < out@.len() implies agent_le(
                #[trigger] out@[i]@,
                #[trigger] out@[j]@,
            ) by {
                if j < out@.len() - 1 {
                    assert(agent_le(outv_before[i]@, outv_before[j]@));
                } else if i < j {
                    assert(agent_le(outv_before[i]@, restv_before[best as int]@));
                } else {
                    assert(agent_le(out@[i]@, out@[i]@));
                }
            }
        }
    }
    proof {
        assert(agent_views(rest@) =~= Seq::<AgentInfoV>::empty());
        vstd::seq::Seq::to_multiset_ensures(agent_views(rest@));
        assert(agent_views(out@).to_multiset() =~= origv.to_multiset());
    }
    out
}

impl AgentManager {
    /// The listing entry of one active session.
    fn info_of_active(s: &ActiveSession, now_ms: u64, lines: usize) -> (r: AgentInfo)
        ensures
            r@ == spec_info_active(*s, now_ms, lines as int),
    {
        let working = if s.complete {
            false
        } else if now_ms <= s.last_activity_ms {
            true
        } else {
            now_ms - s.last_activity_ms < WORKING_THRESHOLD_MS
        };
        let runtime_ms = if now_ms >= s.created_at_ms {
            now_ms - s.created_at_ms
        } else {
            0
        };
        let r = AgentInfo {
            session_id: s.session_id.clone(),
            label: s.label.clone(),
            working,
            turn_count: s.turn_count,
            max_turns: s.max_turns,
            runtime_ms,
            message_count: s.buffer.len(),
            is_complete: s.complete,
            last_output: extract_last_output_lines(&s.buffer, lines),
            completion_time: Option::None,
        };
        proof {
            assert(r@ =~= spec_info_active(*s, now_ms, lines as int));
        }
        r
    }

    /// The listing entry of one completed session.
    fn info_of_completed(c: &CompletedSession, lines: usize) -> (r: AgentInfo)
        ensures
            r@ == spec_info_completed(*c, lines as int),
    {
        let r = AgentInfo {
            session_id: c.session_id.clone(),
            label: c.label.clone(),
            working: false,
            turn_count: c.final_turn_count,
            max_turns: 0,
            runtime_ms: c.runtime_ms,
            message_count: c.buffer.len(),
            is_complete: true,
            last_output: extract_last_output_lines(&c.buffer, lines),
            completion_time: Option::Some(c.completed_at_ms),
        };
        proof {
            assert(r@ =~= spec_info_completed(*c, lines as int));
        }
        r
    }

    /// Details of one session, with a three-line output preview: active
    /// sessions first, then the completed pool; unknown ids are rejected.
    pub fn get_session_info(&self, session_id: &str, now_ms: u64) -> (r: Result<
        AgentInfo,
        ClaudeError,
    >)
        ensures
            match afind(self.actives(), session_id@) {
                Option::Some(k) => r matches Result::Ok(info) && info@ == spec_info_active(
                    self.actives()[k],
                    now_ms,
                    3,
                ),
                Option::None => match cfind(self.completeds(), session_id@) {
                    Option::Some(k) => r matches Result::Ok(info) && info@ == spec_info_completed(
                        self.completeds()[k],
                        3,
                    ),
                    Option::None => r matches Result::Err(e) && e
                        matches ClaudeError::SessionNotFound(m) && m@ == session_id@,
                },
            },
    {
        match self.find_active(session_id) {
            Option::Some(k) => {
                return Result::Ok(Self::info_of_active(&self.active[k], now_ms, 3));
            },
            Option::None => {},
        }
        match self.find_completed(session_id) {
            Option::Some(k) => Result::Ok(Self::info_of_completed(&self.completed[k], 3)),
            Option::None => Result::Err(ClaudeError::session_not_found(session_id)),
        }
    }

    /// A paginated read of one session's records, with its status. Reading
    /// never changes any buffer.
    pub fn get_output(&self, session_id: &str, offset: i64, length: usize, now_ms: u64) -> (r:
        Result<GetOutputResponse, ClaudeError>)
        ensures
            match afind(self.actives(), session_id@) {
                Option::Some(k) => r matches Result::Ok(resp) && {
                    let s = self.actives()[k];
                    let page = spec_page(s.buffer.records(), offset as int, length as int);
                    resp.session_id@ == session_id@ && resp.working == spec_working(s, now_ms)
                        && resp.output@.map_values(|m: MessageRecord| m@) == page
                        && resp.total_messages == s.buffer.records().len()
                        && resp.messages_returned == page.len() && resp.is_complete == s.complete
                        && resp.turn_count == s.turn_count && resp.max_turns == s.max_turns
                        && resp.has_more == (offset >= 0 && offset + page.len()
                        < s.buffer.records().len())
                },
                Option::None => match cfind(self.completeds(), session_id@) {
                    Option::Some(k) => r matches Result::Ok(resp) && {
                        let c = self.completeds()[k];
                        let page = spec_page(c.buffer.records(), offset as int, length as int);
                        resp.session_id@ == session_id@ && !resp.working
                            && resp.output@.map_values(|m: MessageRecord| m@) == page
                            && resp.total_messages == c.buffer.records().len()
                            && resp.messages_returned == page.len() && resp.is_complete
                            && resp.turn_count == c.final_turn_count && resp.max_turns == 0
                            && resp.has_more == (offset >= 0 && offset + page.len()
                            < c.buffer.records().len())
                    },
                    Option::None => r matches Result::Err(e) && e
                        matches ClaudeError::SessionNotFound(m) && m@ == session_id@,
                },
            },
    {
        match self.find_active(session_id) {
            Option::Some(k) => {
                let s = &self.active[k];
                let working = if s.complete {
                    false
                } else if now_ms <= s.last_activity_ms {
                    true
                } else {
                    now_ms - s.last_activity_ms < WORKING_THRESHOLD_MS
                };
                let output = paginate_messages(&s.buffer, offset, length);
                let total_messages = s.buffer.len();
                let messages_returned = output.len();
                let has_more = calculate_has_more(offset, messages_returned, total_messages);
                proof {
                    assert(output@.map_values(|m: MessageRecord| m@).len() == output@.len());
                }
                return Result::Ok(
                    GetOutputResponse {
                        session_id: session_id.to_owned(),
                        working,
                        output,
                        total_messages,
                        messages_returned,
                        is_complete: s.complete,
                        turn_count: s.turn_count,
                        max_turns: s.max_turns,
                        has_more,
                    },
                );
            },
            Option::None => {},
        }
        match self.find_completed(session_id) {
            Option::Some(k) => {
                let c = &self.completed[k];
                let output = paginate_messages(&c.buffer, offset, length);
                let total_messages = c.buffer.len();
                let messages_returned = output.len();
                let has_more = calculate_has_more(offset, messages_returned, total_messages);
                proof {
                    assert(output@.map_values(|m: MessageRecord| m@).len() == output@.len());
                }
                Result::Ok(
                    GetOutputResponse {
                        session_id: session_id.to_owned(),
                        working: false,
                        output,
                        total_messages,
                        messages_returned,
                        is_complete: true,
                        turn_count: c.final_turn_count,
                        max_turns: 0,
                        has_more,
                    },
                )
            },
            Option::None => Result::Err(ClaudeError::session_not_found(session_id)),
        }
    }

    /// List every session: active ones, and the completed pool when asked,
    /// each with a preview of its recent output; working sessions first,
    /// then longer runtimes first.
    pub fn list_sessions(
        &self,
        include_completed: bool,
        last_output_lines: usize,
        now_ms: u64,
    ) -> (r: ListSessionsResponse)
        ensures
            r.total_active == self.actives().len(),
            r.total_completed == if include_completed {
                self.completeds().len() as int
            } else {
                0
            },
            forall|i: int, j: int| 0 <= i <= j < r.agents@.len() ==> agent_le(
                #[trigger] r.agents@[i]@,
                #[trigger] r.agents@[j]@,
            ),
            agent_views(r.agents@).to_multiset() == (Seq::new(
                self.actives().len() as nat,
                |i: int| spec_info_active(self.actives()[i], now_ms, last_output_lines as int),
            ) + if include_completed {
                Seq::new(
                    self.completeds().len() as nat,
                    |i: int| spec_info_completed(self.completeds()[i], last_output_lines as int),
                )
            } else {
                Seq::empty()
            }).to_multiset(),
    {
        let ghost base = Seq::new(
            self.actives().len() as nat,
            |i: int| spec_info_active(self.actives()[i], now_ms, last_output_lines as int),
        );
        let ghost extra = if include_completed {
            Seq::new(
                self.completeds().len() as nat,
                |i: int| spec_info_completed(self.completeds()[i], last_output_lines as int),
            )
        } else {
            Seq::<AgentInfoV>::empty()
        };
        let mut collected: Vec<AgentInfo> = Vec::new();
        let mut i: usize = 0;
        while i < self.active.len()
            invariant
                i <= self.actives().len(),
                base == Seq::new(
                    self.actives().len() as nat,
                    |i: int| spec_info_active(self.actives()[i], now_ms, last_output_lines as int),
                ),
                agent_views(collected@) =~= base.take(i as int),
            decreases self.actives().len() - i,
        {
            let ghost prev = collected@;
            collected.push(Self::info_of_active(&self.active[i], now_ms, last_output_lines));
            proof {
                assert(agent_views(collected@) =~= agent_views(prev).push(
                    spec_info_active(self.actives()[i as int], now_ms, last_output_lines as int),
                ));
                assert(agent_views(collected@) =~= base.take(i + 1));
            }
            i = i + 1;
        }
        let total_active = collected.len();
        let mut total_completed: usize = 0;
        proof {
            assert(agent_views(collected@) =~= base);
        }
        if include_completed {
            total_completed = self.completed.len();
            let mut j: usize = 0;
            while j < self.completed.len()
                invariant
                    j <= self.completeds().len(),
                    extra == Seq::new(
                        self.completeds().len() as nat,
                        |i: int| spec_info_completed(
                            self.completeds()[i],
                            last_output_lines as int,
                        ),
                    ),
                    agent_views(collected@) =~= base + extra.take(j as int),
                decreases self.completeds().len() - j,
            {
                let ghost prev = collected@;
                collected.push(Self::info_of_completed(&self.completed[j], last_output_lines));
                proof {
                    assert(agent_views(collected@) =~= agent_views(prev).push(
                        spec_info_completed(
                            self.completeds()[j as int],
                            last_output_lines as int,
                        ),
                    ));
                    assert(agent_views(collected@) =~= base + extra.take(j + 1));
                }
                j = j + 1;
            }
            proof {
                assert(agent_views(collected@) =~= base + extra);
            }
        } else {
            proof {
                assert(agent_views(collected@) =~= base + extra);
            }
        }
        let agents = sort_agents(collected);
        ListSessionsResponse { agents, total_active, total_completed }
    }
}

impl CompletedSession {
    /// A copy holding the same fields and records.
    fn clone_session(&self) -> (r: Self)
        ensures
            r.session_id@ == self.session_id@,
            r.label@ == self.label@,
            r.buffer.records() == self.buffer.records(),
            r.final_turn_count == self.final_turn_count,
            r.runtime_ms == self.runtime_ms,
            r.completed_at_ms == self.completed_at_ms,
    {
        CompletedSession {
            session_id: self.session_id.clone(),
            label: self.label.clone(),
            buffer: self.buffer.snapshot(),
            final_turn_count: self.final_turn_count,
            runtime_ms: self.runtime_ms,
            completed_at_ms: self.completed_at_ms,
        }
    }
}

} // verus!

//! The action-dispatched tool surface: one operation that spawns, prompts,
//! reads, lists and kills agents for a connection, over the registry and the
//! manager. Process side effects are returned as explicit actions for the
//! runtime to carry out.

use vstd::prelude::*;
use crate::codec::spec_frame;
use crate::command::ClaudeAgentOptions;
use crate::error::ClaudeError;
use crate::identifiers::ToolName;
use crate::json::{Json, JsonV};
use crate::manager::{AgentManager, SpawnSessionRequest, afind, cfind, spec_page, spec_working};
use crate::protocol::spec_user_frame;
use crate::registry::{AgentRegistry, RegistryEntry, rfind, spec_dropped, spec_kept};
use crate::session::MessageRecord;
use crate::strutil::{spec_dec, u64_to_string};

verus! {

/// What one call asks for.
#[derive(Debug, Clone, Copy, PartialEq, Eq, Structural)]
pub enum ClaudeAgentAction {
    Spawn,
    Send,
    Read,
    List,
    Kill,
}

/// The arguments of one call.
#[derive(Debug)]
pub struct ClaudeAgentArgs {
    pub action: ClaudeAgentAction,
    pub agent: u32,
    pub prompt: Option<String>,
    pub system_prompt: Option<String>,
    pub allowed_tools: Vec<String>,
    pub disallowed_tools: Vec<String>,
    pub max_turns: Option<u32>,
    pub model: Option<String>,
    pub cwd: Option<String>,
    pub add_dirs: Vec<String>,
}

/// One line of the listing.
#[derive(Debug)]
pub struct ClaudeAgentSummary {
    pub agent: u32,
    pub session_id: Option<String>,
    pub message_count: usize,
    pub working: bool,
    pub completed: bool,
}

/// The shape of one listing line.
#[verifier::ext_equal]
pub ghost struct ClaudeAgentSummaryV {
    pub agent: u32,
    pub session_id: Option<Seq<char>>,
    pub message_count: int,
    pub working: bool,
    pub completed: bool,
}

impl View for ClaudeAgentSummary {
    type V = ClaudeAgentSummaryV;

    open spec fn view(&self) -> ClaudeAgentSummaryV {
        ClaudeAgentSummaryV {
            agent: self.agent,
            session_id: match self.session_id {
                Option::Some(ref s) => Option::Some(s@),
                Option::None => Option::None,
            },
            message_count: self.message_count as int,
            working: self.working,
            completed: self.completed,
        }
    }
}

/// The uniform answer envelope of one call.
#[derive(Debug)]
pub struct ClaudeAgentOutput {
    pub agent: u32,
    pub action: String,
    pub session_id: Option<String>,
    pub output: String,
    pub message_count: Option<usize>,
    pub working: Option<bool>,
    pub completed: bool,
    pub exit_code: Option<i32>,
    pub agents: Option<Vec<ClaudeAgentSummary>>,
}

/// A process action the runtime must carry out after a call.
#[derive(Debug)]
pub enum AgentEffect {
    /// Start a child for this session, configured by these options (its
    /// arguments come from `CommandBuilder`, its environment overrides from
    /// `build_child_env`), then write the first frame to it.
    StartChild {
        session_id: String,
        options: ClaudeAgentOptions,
        cwd: Option<String>,
        first_frame: String,
    },
    /// Write one frame to this session's child.
    WriteFrame { session_id: String, frame: String },
    /// Close this session's child.
    CloseChild { session_id: String },
}

/// The summary the listing shows for a registered handle, if its session
/// still exists in either pool.
pub open spec fn spec_summary_of(m: AgentManager, agent: u32, sid: Seq<char>, now_ms: u64) ->
    Option<ClaudeAgentSummaryV> {
    match afind(m.actives(), sid) {
        Option::Some(k) => Option::Some(
            ClaudeAgentSummaryV {
                agent,
                session_id: Option::Some(sid),
                message_count: m.actives()[k].buffer.records().len() as int,
                working: spec_working(m.actives()[k], now_ms),
                completed: m.actives()[k].complete,
            },
        ),
        Option::None => match cfind(m.completeds(), sid) {
            Option::Some(k) => Option::Some(
                ClaudeAgentSummaryV {
                    agent,
                    session_id: Option::Some(sid),
                    message_count: m.completeds()[k].buffer.records().len() as int,
                    working: false,
                    completed: true,
                },
            ),
            Option::None => Option::None,
        },
    }
}

/// The listing lines of a run of registry entries: one per entry whose
/// session still exists.
pub open spec fn spec_summaries(
    entries: Seq<RegistryEntry>,
    m: AgentManager,
    now_ms: u64,
) -> Seq<ClaudeAgentSummaryV>
    decreases entries.len(),
{
    if entries.len() == 0 {
        Seq::empty()
    } else {
        (match spec_summary_of(m, entries[0].agent_id, entries[0].session_id@, now_ms) {
            Option::Some(sv) => seq![sv],
            Option::None => Seq::empty(),
        }) + spec_summaries(entries.drop_first(), m, now_ms)
    }
}

/// Whether `a` may stand before `b` in the listing: ascending handles.
pub open spec fn summary_le(a: ClaudeAgentSummaryV, b: ClaudeAgentSummaryV) -> bool {
    a.agent <= b.agent
}

/// The views of a run of listing lines.
pub open spec fn summary_views(s: Seq<ClaudeAgentSummary>) -> Seq<ClaudeAgentSummaryV> {
    s.map_values(|x: ClaudeAgentSummary| x@)
}

/// Sort listing lines by ascending handle; the lines themselves are exactly
/// the input's.
fn sort_summaries(input: Vec<ClaudeAgentSummary>) -> (r: Vec<ClaudeAgentSummary>)
    ensures
        r@.len() == input@.len(),
        forall|i: int, j: int| 0 <= i <= j < r@.len() ==> summary_le(
            #[trigger] r@[i]@,
            #[trigger] r@[j]@,
        ),
        summary_views(r@).to_multiset() == summary_views(input@).to_multiset(),
{
    let ghost origv = summary_views(input@);
    let mut rest = input;
    let mut out: Vec<ClaudeAgentSummary> = Vec::new();
    proof {
        vstd::seq::Seq::to_multiset_ensures(summary_views(out@));
        assert(summary_views(out@) =~= Seq::<ClaudeAgentSummaryV>::empty());
        assert(summary_views(out@).to_multiset().add(summary_views(rest@).to_multiset())
            =~= origv.to_multiset());
    }
    while rest.len() > 0
        invariant
            summary_views(out@).to_multiset().add(summary_views(rest@).to_multiset())
                == origv.to_multiset(),
            out@.len() + rest@.len() == origv.len(),
            forall|i: int, j: int| 0 <= i <= j < out@.len() ==> summary_le(
                #[trigger] out@[i]@,
                #[trigger] out@[j]@,
            ),
            forall|i: int, j: int|
                0 <= i < out@.len() && 0 <= j < rest@.len() ==> summary_le(
                    #[trigger] out@[i]@,
                    #[trigger] rest@[j]@,
                ),
        decreases rest@.len(),
    {
        let mut best: usize = 0;
        let mut k: usize = 1;
        while k < rest.len()
            invariant
                best < rest@.len(),
                k <= rest@.len(),
                forall|j: int| 0 <= j < k ==> summary_le(
                    #[trigger] rest@[best as int]@,
                    rest@[j]@,
                ),
            decreases rest@.len() - k,
        {
            if !(rest[best].agent <= rest[k].agent) {
                best = k;
                proof {
                    assert forall|j: int| 0 <= j < k + 1 implies summary_le(
                        #[trigger] rest@[best as int]@,
                        rest@[j]@,
                    ) by {}
                }
            }
            k = k + 1;
        }
        let ghost restv_before = rest@;
        let chosen = rest.remove(best);
        let ghost outv_before = out@;
        out.push(chosen);
        proof {
            let ov = summary_views(outv_before);
            let rv = summary_views(restv_before);
            vstd::seq::Seq::to_multiset_ensures(ov);
            vstd::seq::Seq::to_multiset_ensures(rv);
            assert(summary_views(out@) =~= ov.push(chosen@));
            assert(summary_views(rest@) =~= rv.remove(best as int));
            assert(rv[best as int] == chosen@);
            assert(summary_views(out@).to_multiset() =~= ov.to_multiset().insert(chosen@));
            assert(summary_views(rest@).to_multiset() =~= rv.to_multiset().remove(chosen@));
            assert(rv.to_multiset().count(chosen@) > 0) by {
                assert(rv.contains(chosen@));
            }
            assert(summary_views(out@).to_multiset().add(summary_views(rest@).to_multiset())
                =~= ov.to_multiset().add(rv.to_multiset()));
            assert forall|i: int, j: int|
                0 <= i < out@.len() && 0 <= j < rest@.len() implies summary_le(
                #[trigger] out@[i]@,
                #[trigger] rest@[j]@,
            ) by {
                if i < out@.len() - 1 {
                    if j < best {
                        assert(rest@[j] == restv_before[j]);
                        assert(summary_le(outv_before[i]@, restv_before[j]@));
                    } else {
                        assert(rest@[j] == restv_before[j + 1]);
                        assert(summary_le(outv_before[i]@, restv_before[j + 1]@));
                    }
                } else {
                    if j < best {
                        assert(rest@[j] == restv_before[j]);
                        assert(summary_le(restv_before[best as int]@, restv_before[j]@));
                    } else {
                        assert(rest@[j] == restv_before[j + 1]);
                        assert(summary_le(restv_before[best as int]@, restv_before[j + 1]@));
                    }
                }
            }
            assert forall|i: int, j: int| 0 <= i <= j < out@.len() implies summary_le(
                #[trigger] out@[i]@,
                #[trigger] out@[j]@,
            ) by {
                if j < out@.len() - 1 {
                    assert(summary_le(outv_before[i]@, outv_before[j]@));
                } else if i < j {
                    assert(summary_le(outv_before[i]@, restv_before[best as int]@));
                }
            }
        }
    }
    proof {
        assert(summary_views(rest@) =~= Seq::<ClaudeAgentSummaryV>::empty());
        vstd::seq::Seq::to_multiset_ensures(summary_views(rest@));
        assert(summary_views(out@).to_multiset() =~= origv.to_multiset());
    }
    out
}

/// The unified agent tool: the registry of handles and the manager of
/// sessions, driven by one action-dispatched call per request.
pub struct ClaudeAgentTool {
    registry: AgentRegistry,
    manager: AgentManager,
}

impl ClaudeAgentTool {
    /// The registry.
    pub closed spec fn registry(&self) -> AgentRegistry {
        self.registry
    }

    /// The manager.
    pub closed spec fn manager(&self) -> AgentManager {
        self.manager
    }

    /// Both parts well-formed.
    pub open spec fn wf(&self) -> bool {
        self.registry().wf() && self.manager().wf()
    }

    /// A tool with no sessions and no handles.
    pub fn new() -> (r: Self)
        ensures
            r.wf(),
            r.registry().entries().len() == 0,
            r.manager().actives().len() == 0,
            r.manager().completeds().len() == 0,
    {
        ClaudeAgentTool { registry: AgentRegistry::new(), manager: AgentManager::new() }
    }

    /// The listing lines for one connection, sorted by ascending handle:
    /// one line per registered handle whose session still exists.
    pub fn list_all(&self, connection_id: &str, now_ms: u64) -> (r: Vec<ClaudeAgentSummary>)
        ensures
            forall|i: int, j: int| 0 <= i <= j < r@.len() ==> summary_le(
                #[trigger] r@[i]@,
                #[trigger] r@[j]@,
            ),
            summary_views(r@).to_multiset() == spec_summaries(
                spec_dropped(self.registry().entries(), connection_id@),
                self.manager(),
                now_ms,
            ).to_multiset(),
    {
        let pairs = self.registry.entries_for_connection(connection_id);
        let ghost own = spec_dropped(self.registry().entries(), connection_id@);
        let mut summaries: Vec<ClaudeAgentSummary> = Vec::new();
        let mut i: usize = 0;
        proof {
            assert(own.skip(0) =~= own);
            assert(summary_views(summaries@) =~= Seq::<ClaudeAgentSummaryV>::empty());
        }
        while i < pairs.len()
            invariant
                i <= pairs@.len(),
                pairs@.len() == own.len(),
                forall|k: int|
                    0 <= k < own.len() ==> (#[trigger] pairs@[k]).0 == own[k].agent_id
                        && pairs@[k].1@ == own[k].session_id@,
                summary_views(summaries@) + spec_summaries(own.skip(i as int), self.manager(), now_ms)
                    =~= spec_summaries(own, self.manager(), now_ms),
            decreases pairs@.len() - i,
        {
            let agent_id = pairs[i].0;
            let ghost before = summaries@;
            match self.manager.get_session_info(pairs[i].1.as_str(), now_ms) {
                Result::Ok(info) => {
                    let s = ClaudeAgentSummary {
                        agent: agent_id,
                        session_id: Option::Some(pairs[i].1.clone()),
                        message_count: info.message_count,
                        working: info.working,
                        completed: info.is_complete,
                    };
                    proof {
                        assert(spec_summary_of(
                            self.manager(),
                            own[i as int].agent_id,
                            own[i as int].session_id@,
                            now_ms,
                        ) == Option::Some(s@));
                        assert(own.skip(i as int)[0] == own[i as int]);
                        assert(own.skip(i as int).drop_first() =~= own.skip(i + 1));
                        assert(summary_views(summaries@.push(s)) =~= summary_views(before).push(
                            s@,
                        ));
                    }
                    summaries.push(s);
                },
                Result::Err(_) => {
                    proof {
                        assert(spec_summary_of(
                            self.manager(),
                            own[i as int].agent_id,
                            own[i as int].session_id@,
                            now_ms,
                        ) is None);
                        assert(own.skip(i as int)[0] == own[i as int]);
                        assert(own.skip(i as int).drop_first() =~= own.skip(i + 1));
                    }
                },
            }
            i = i + 1;
        }
        proof {
            assert(own.skip(own.len() as int) =~= Seq::<RegistryEntry>::empty());
            assert(summary_views(summaries@) =~= spec_summaries(own, self.manager(), now_ms));
        }
        sort_summaries(summaries)
    }

    /// Drop a connection: remove all of its handles and terminate each of
    /// their sessions, touching nothing else. Afterwards no handle of the
    /// connection remains, every session that was registered under it has
    /// had termination attempted, the surviving active pool is exactly the
    /// old one minus those sessions (in order), and the completed pool has
    /// grown only by them; the count of removed handles and the close
    /// actions come back.
    pub fn cleanup_connection(&mut self, connection_id: &str, now_ms: u64, wall_ms: i64) -> (r: (
        usize,
        Vec<AgentEffect>,
    ))
        requires
            old(self).wf(),
        ensures
            final(self).wf(),
            final(self).registry().entries() == spec_kept(
                old(self).registry().entries(),
                connection_id@,
            ),
            forall|i: int|
                0 <= i < final(self).registry().entries().len() ==> (#[trigger] final(self).registry().entries()[i]).connection_id@ != connection_id@,
            r.0 == spec_dropped(old(self).registry().entries(), connection_id@).len(),
            r.1@.len() == r.0,
            forall|i: int|
                0 <= i < r.1@.len() ==> ((#[trigger] r.1@[i]) matches AgentEffect::CloseChild {
                    session_id: sid,
                } && sid@ == spec_dropped(
                    old(self).registry().entries(),
                    connection_id@,
                )[i].session_id@),
            forall|i: int|
                0 <= i < spec_dropped(old(self).registry().entries(), connection_id@).len()
                    ==> afind(
                    final(self).manager().actives(),
                    #[trigger] spec_dropped(old(self).registry().entries(), connection_id@)[i].session_id@,
                ) is None,
            final(self).manager().actives() == crate::manager::spec_active_survivors(
                old(self).manager().actives(),
                spec_dropped(old(self).registry().entries(), connection_id@).map_values(
                    |e: RegistryEntry| e.session_id@,
                ),
            ),
            final(self).manager().completeds().len() >= old(self).manager().completeds().len(),
            forall|i: int|
                0 <= i < old(self).manager().completeds().len() ==> #[trigger] final(self).manager().completeds()[i] == old(self).manager().completeds()[i],
            forall|i: int|
                old(self).manager().completeds().len() <= i < final(self).manager().completeds().len() ==> spec_dropped(
                    old(self).registry().entries(),
                    connection_id@,
                ).map_values(|e: RegistryEntry| e.session_id@).contains(
                    (#[trigger] final(self).manager().completeds()[i]).session_id@,
                ),
    {
        let removed = self.registry.remove_connection(connection_id);
        let ghost dropped = spec_dropped(old(self).registry().entries(), connection_id@);
        let ghost dropped_sids = dropped.map_values(|e: RegistryEntry| e.session_id@);
        let ghost orig_acts = old(self).manager().actives();
        let ghost orig_comp = old(self).manager().completeds();
        let count = removed.len();
        let mut effects: Vec<AgentEffect> = Vec::new();
        let mut i: usize = 0;
        proof {
            assert(dropped_sids.take(0) =~= Seq::<Seq<char>>::empty());
            crate::manager::lemma_survivors_empty_ids(orig_acts);
        }
        while i < removed.len()
            invariant
                i <= removed@.len(),
                old(self).wf(),
                self.registry().entries() == spec_kept(
                    old(self).registry().entries(),
                    connection_id@,
                ),
                self.registry().wf(),
                self.manager().wf(),
                removed@.len() == dropped.len(),
                dropped_sids == dropped.map_values(|e: RegistryEntry| e.session_id@),
                dropped_sids.len() == dropped.len(),
                orig_acts == old(self).manager().actives(),
                orig_comp == old(self).manager().completeds(),
                forall|k: int|
                    0 <= k < dropped.len() ==> (#[trigger] removed@[k]).1@
                        == dropped[k].session_id@,
                effects@.len() == i,
                forall|k: int|
                    0 <= k < i ==> ((#[trigger] effects@[k]) matches AgentEffect::CloseChild {
                        session_id: sid,
                    } && sid@ == dropped[k].session_id@),
                forall|k: int|
                    0 <= k < i ==> afind(
                        self.manager().actives(),
                        (#[trigger] dropped[k]).session_id@,
                    ) is None,
                self.manager().actives() == crate::manager::spec_active_survivors(
                    orig_acts,
                    dropped_sids.take(i as int),
                ),
                self.manager().completeds().len() >= orig_comp.len(),
                forall|j: int|
                    0 <= j < orig_comp.len() ==> #[trigger] self.manager().completeds()[j]
                        == orig_comp[j],
                forall|j: int|
                    orig_comp.len() <= j < self.manager().completeds().len()
                        ==> dropped_sids.contains(
                        (#[trigger] self.manager().completeds()[j]).session_id@,
                    ),
            decreases removed@.len() - i,
        {
            let sid = removed[i].1.clone();
            let ghost acts_before = self.manager().actives();
            let ghost comp_before = self.manager().completeds();
            let ghost x = dropped_sids[i as int];
            proof {
                assert(x == dropped[i as int].session_id@);
                assert(sid@ == x);
                assert(forall|a: int, b: int|
                    0 <= a < b < orig_acts.len() ==> (#[trigger] orig_acts[a]).session_id@ != (
                    #[trigger] orig_acts[b]).session_id@);
                crate::manager::lemma_survivors_extend(
                    orig_acts,
                    dropped_sids.take(i as int),
                    x,
                );
                assert(dropped_sids.take(i as int).push(x) =~= dropped_sids.take(i + 1));
            }
            let _result = self.manager.terminate_session(sid.as_str(), now_ms, wall_ms);
            proof {
                assert(forall|a: int, b: int|
                    0 <= a < b < acts_before.len() ==> (#[trigger] acts_before[a]).session_id@
                        != (#[trigger] acts_before[b]).session_id@);
                match afind(acts_before, sid@) {
                    Option::Some(k0) => {
                        crate::manager::lemma_afind_some_props(acts_before, sid@);
                        crate::manager::lemma_afind_none_after_removing_hit(
                            acts_before,
                            k0,
                            sid@,
                        );
                        assert(self.manager().actives() =~= crate::manager::spec_active_survivors(
                            orig_acts,
                            dropped_sids.take(i + 1),
                        ));
                        assert(self.manager().completeds() == comp_before.push(
                            self.manager().completeds().last(),
                        ));
                        assert(self.manager().completeds().last().session_id@ == x);
                        assert(dropped_sids.contains(x)) by {
                            assert(dropped_sids[i as int] == x);
                        }
                    },
                    Option::None => {
                        assert(self.manager().actives() =~= crate::manager::spec_active_survivors(
                            orig_acts,
                            dropped_sids.take(i + 1),
                        ));
                    },
                }
                assert(afind(self.manager().actives(), dropped[i as int].session_id@) is None);
                assert forall|k: int|
                    0 <= k < i implies afind(
                    self.manager().actives(),
                    (#[trigger] dropped[k]).session_id@,
                ) is None by {
                    match afind(acts_before, sid@) {
                        Option::Some(k0) => {
                            crate::manager::lemma_afind_some_props(acts_before, sid@);
                            crate::manager::lemma_afind_none_after_remove(
                                acts_before,
                                k0,
                                dropped[k].session_id@,
                            );
                        },
                        Option::None => {},
                    }
                }
            }
            effects.push(AgentEffect::CloseChild { session_id: sid });
            i = i + 1;
        }
        proof {
            assert(dropped_sids.take(dropped_sids.len() as int) =~= dropped_sids);
        }
        (count, effects)
    }
}

/// The JSON object one stored record is shown as in a read.
pub open spec fn spec_record_json(r: crate::session::MessageRecordV) -> JsonV {
    JsonV::Obj(
        seq![
            ("message_type"@, JsonV::Str(r.message_type)),
            ("content"@, r.content),
            ("turn"@, JsonV::Int(r.turn as i64)),
            ("timestamp_ms"@, JsonV::Int(r.timestamp_ms)),
        ],
    )
}

/// The JSON array a page of records is shown as.
pub open spec fn spec_records_json(s: Seq<crate::session::MessageRecordV>) -> Seq<JsonV>
    decreases s.len(),
{
    if s.len() == 0 {
        Seq::empty()
    } else {
        spec_records_json(s.drop_last()).push(spec_record_json(s.last()))
    }
}

/// Encode a page of records as one JSON array value.
fn records_json(records: &Vec<MessageRecord>) -> (r: Json)
    ensures
        r@ == JsonV::Arr(spec_records_json(records@.map_values(|m: MessageRecord| m@))),
{
    let ghost rv = records@.map_values(|m: MessageRecord| m@);
    let mut elems: Vec<Json> = Vec::new();
    let mut i: usize = 0;
    proof {
        assert(rv.take(0) =~= Seq::<crate::session::MessageRecordV>::empty());
        assert(crate::json::jview_list(elems@, 0) =~= spec_records_json(rv.take(0)));
    }
    while i < records.len()
        invariant
            i <= records@.len(),
            rv == records@.map_values(|m: MessageRecord| m@),
            rv.len() == records@.len(),
            elems@.len() == i,
            crate::json::jview_list(elems@, i as int) =~= spec_records_json(rv.take(i as int)),
        decreases records@.len() - i,
    {
        let rec = &records[i];
        let mut members: Vec<(String, Json)> = Vec::new();
        members.push(("message_type".to_owned(), Json::Str(rec.message_type.clone())));
        members.push(("content".to_owned(), rec.content.clone()));
        members.push(("turn".to_owned(), Json::Int(rec.turn as i64)));
        members.push(("timestamp_ms".to_owned(), Json::Int(rec.timestamp_ms)));
        let obj = Json::Obj(members);
        proof {
            crate::json::lemma_members_view(obj->Obj_0@);
            assert(obj@->Obj_0 =~= spec_record_json(rv[i as int])->Obj_0);
            assert(obj@ == spec_record_json(rv[i as int]));
        }
        let ghost before = elems@;
        elems.push(obj);
        proof {
            crate::json::lemma_list_view(elems@);
            crate::json::lemma_list_view(before);
            assert(crate::json::jview_list(elems@, elems@.len() as int) =~= crate::json::jview_list(
                before,
                before.len() as int,
            ).push(spec_record_json(rv[i as int])));
            assert(rv.take(i + 1).drop_last() =~= rv.take(i as int));
            assert(rv.take(i + 1).last() == rv[i as int]);
            assert(crate::json::jview_list(elems@, elems@.len() as int) =~= spec_records_json(
                rv.take(i + 1),
            ));
        }
        i = i + 1;
    }
    proof {
        assert(rv.take(rv.len() as int) =~= rv);
    }
    Json::Arr(elems)
}

impl ClaudeAgentTool {
    /// One action-dispatched call for one connection. Spawning and prompt
    /// delivery come back as process actions for the runtime; reads and
    /// listings never change any state.
    pub fn execute(
        &mut self,
        args: &ClaudeAgentArgs,
        connection_id: &str,
        now_ms: u64,
        wall_ms: i64,
    ) -> (r: Result<(ClaudeAgentOutput, Vec<AgentEffect>), ClaudeError>)
        requires
            old(self).wf(),
        ensures
            final(self).wf(),
            args.action is List ==> final(self).registry() == old(self).registry() && final(self).manager() == old(self).manager() && (r matches Result::Ok((out, effects))
                && effects@.len() == 0 && out.action@ == "LIST"@ && out.agent == 0
                && out.completed && out.exit_code == Some(0i32) && (
            out.agents matches Some(v) && summary_views(v@).to_multiset() == spec_summaries(
                spec_dropped(old(self).registry().entries(), connection_id@),
                old(self).manager(),
                now_ms,
            ).to_multiset() && (forall|i: int, j: int|
                0 <= i <= j < v@.len() ==> summary_le(#[trigger] v@[i]@, #[trigger] v@[j]@)))),
            args.action is Kill ==> match rfind(
                old(self).registry().entries(),
                connection_id@,
                args.agent,
            ) {
                Option::Some(k) => final(self).registry().entries() == old(self).registry().entries().remove(k) && {
                    let sid = old(self).registry().entries()[k].session_id@;
                    match afind(old(self).manager().actives(), sid) {
                        Option::Some(_) => r matches Result::Ok((out, effects)) && afind(
                            final(self).manager().actives(),
                            sid,
                        ) is None && effects@.len() == 1 && (
                        effects@[0] matches AgentEffect::CloseChild { session_id: esid } && esid@
                            == sid) && out.action@ == "KILL"@ && out.agent == args.agent
                            && out.completed && out.exit_code == Some(0i32),
                        Option::None => (r matches Result::Err(e) && e is SessionNotFound)
                            && final(self).manager().actives() == old(self).manager().actives()
                            && final(self).manager().completeds() == old(self).manager().completeds(),
                    }
                },
                Option::None => (r matches Result::Err(e) && e is SessionNotFound) && final(self).registry().entries() == old(self).registry().entries() && final(self).manager() == old(self).manager(),
            },
            args.action is Read ==> final(self).registry() == old(self).registry() && final(self).manager() == old(self).manager() && match rfind(
                old(self).registry().entries(),
                connection_id@,
                args.agent,
            ) {
                Option::Some(k) => {
                    let sid = old(self).registry().entries()[k].session_id@;
                    match afind(old(self).manager().actives(), sid) {
                        Option::Some(ak) => {
                            let s = old(self).manager().actives()[ak];
                            let page = spec_page(s.buffer.records(), 0, 50);
                            r matches Result::Ok((out, effects)) && effects@.len() == 0
                                && out.action@ == "READ"@ && out.agent == args.agent && (
                            out.session_id matches Some(osid) && osid@ == sid)
                                && (out.message_count matches Some(mc) && mc
                                == s.buffer.records().len()) && out.working == Some(
                                spec_working(s, now_ms),
                            ) && out.completed == s.complete && out.output@
                                == crate::json::spec_enc(JsonV::Arr(spec_records_json(page)))
                        },
                        Option::None => match cfind(old(self).manager().completeds(), sid) {
                            Option::Some(ck) => {
                                let c = old(self).manager().completeds()[ck];
                                let page = spec_page(c.buffer.records(), 0, 50);
                                r matches Result::Ok((out, effects)) && effects@.len() == 0
                                    && out.action@ == "READ"@ && out.completed && out.output@
                                    == crate::json::spec_enc(
                                    JsonV::Arr(spec_records_json(page)),
                                )
                            },
                            Option::None => r matches Result::Err(e) && e is SessionNotFound,
                        },
                    }
                },
                Option::None => r matches Result::Err(e) && e is SessionNotFound,
            },
            args.action is Send ==> final(self).registry() == old(self).registry() && final(self).manager() == old(self).manager() && match args.prompt {
                Option::None => r matches Result::Err(e) && e is InvalidConfig,
                Option::Some(ref p) => match rfind(
                    old(self).registry().entries(),
                    connection_id@,
                    args.agent,
                ) {
                    Option::Some(k) => {
                        let sid = old(self).registry().entries()[k].session_id@;
                        match afind(old(self).manager().actives(), sid) {
                            Option::Some(ak) => {
                                let s = old(self).manager().actives()[ak];
                                if s.complete || s.turn_count >= s.max_turns {
                                    r matches Result::Err(e) && e is SessionComplete
                                } else {
                                    r matches Result::Ok((out, effects)) && effects@.len() == 1
                                        && (effects@[0] matches AgentEffect::WriteFrame {
                                        session_id: esid,
                                        frame,
                                    } && esid@ == sid && frame@ == spec_frame(
                                        spec_user_frame(p@),
                                    )) && out.action@ == "SEND"@ && out.agent == args.agent
                                        && !out.completed
                                }
                            },
                            Option::None => r matches Result::Err(e) && e is SessionNotFound,
                        }
                    },
                    Option::None => r matches Result::Err(e) && e is SessionNotFound,
                },
            },
            args.action is Spawn ==> match args.prompt {
                Option::None => (r matches Result::Err(e) && e is InvalidConfig) && final(self).registry() == old(self).registry() && final(self).manager() == old(self).manager(),
                Option::Some(ref p) => match r {
                    Result::Ok((out, effects)) => {
                        let m = final(self).manager();
                        let s = m.actives().last();
                        m.actives().len() == old(self).manager().actives().len() + 1
                            && s.max_turns == (match args.max_turns {
                            Option::Some(t) => t,
                            Option::None => 10u32,
                        }) && s.label@ == "agent:"@ + spec_dec(args.agent as nat) && rfind(
                            final(self).registry().entries(),
                            connection_id@,
                            args.agent,
                        ) is Some && out.action@ == "SPAWN"@ && out.agent == args.agent
                            && !out.completed && out.working == Some(true) && (
                        out.session_id matches Some(osid) && osid@ == s.session_id@)
                            && effects@.len() == 1 && (
                        effects@[0] matches AgentEffect::StartChild {
                            session_id: esid,
                            options,
                            first_frame,
                            ..
                        } && esid@ == s.session_id@ && first_frame@ == spec_frame(
                            spec_user_frame(p@),
                        ) && options.max_turns == Some(s.max_turns) && options.model
                            == args.model && options.cwd == args.cwd)
                    },
                    Result::Err(_) => final(self).registry().entries() == old(self).registry().entries() && final(self).manager().actives() == old(self).manager().actives()
                        && final(self).manager().completeds() == old(self).manager().completeds(),
                },
            },
    {
        match args.action {
            ClaudeAgentAction::List => {
                let agents = self.list_all(connection_id, now_ms);
                let count = agents.len();
                let mut output = u64_to_string(count as u64);
                output.append(" agent(s) active");
                let out = ClaudeAgentOutput {
                    agent: 0,
                    action: "LIST".to_owned(),
                    session_id: Option::None,
                    output,
                    message_count: Option::None,
                    working: Option::None,
                    completed: true,
                    exit_code: Option::Some(0),
                    agents: Option::Some(agents),
                };
                Result::Ok((out, Vec::new()))
            },
            ClaudeAgentAction::Kill => {
                let sid = match self.registry.remove_session(connection_id, args.agent) {
                    Option::Some(sid) => sid,
                    Option::None => {
                        return Result::Err(ClaudeError::session_not_found("agent not registered"));
                    },
                };
                match self.manager.terminate_session(sid.as_str(), now_ms, wall_ms) {
                    Result::Ok(_resp) => {
                        proof {
                            assert(forall|a: int, b: int|
                                0 <= a < b < old(self).manager().actives().len() ==> (
                                #[trigger] old(self).manager().actives()[a]).session_id@ != (
                                #[trigger] old(self).manager().actives()[b]).session_id@);
                            let k0 = afind(old(self).manager().actives(), sid@)->0;
                            crate::manager::lemma_afind_some_props(
                                old(self).manager().actives(),
                                sid@,
                            );
                            crate::manager::lemma_afind_none_after_removing_hit(
                                old(self).manager().actives(),
                                k0,
                                sid@,
                            );
                        }
                        let mut output = "agent ".to_owned();
                        crate::strutil::append_u64(&mut output, args.agent as u64);
                        output.append(" terminated");
                        let mut effects: Vec<AgentEffect> = Vec::new();
                        effects.push(AgentEffect::CloseChild { session_id: sid });
                        let out = ClaudeAgentOutput {
                            agent: args.agent,
                            action: "KILL".to_owned(),
                            session_id: Option::None,
                            output,
                            message_count: Option::None,
                            working: Option::None,
                            completed: true,
                            exit_code: Option::Some(0),
                            agents: Option::None,
                        };
                        Result::Ok((out, effects))
                    },
                    Result::Err(e) => Result::Err(e),
                }
            },
            ClaudeAgentAction::Read => {
                let sid = match self.registry.get_session_id(connection_id, args.agent) {
                    Result::Ok(sid) => sid,
                    Result::Err(e) => {
                        return Result::Err(e);
                    },
                };
                let info = match self.manager.get_session_info(sid.as_str(), now_ms) {
                    Result::Ok(info) => info,
                    Result::Err(e) => {
                        return Result::Err(e);
                    },
                };
                let resp = match self.manager.get_output(sid.as_str(), 0, 50, now_ms) {
                    Result::Ok(resp) => resp,
                    Result::Err(e) => {
                        return Result::Err(e);
                    },
                };
                let page = records_json(&resp.output);
                let output = crate::encode::encode_json(&page);
                let out = ClaudeAgentOutput {
                    agent: args.agent,
                    action: "READ".to_owned(),
                    session_id: Option::Some(sid),
                    output,
                    message_count: Option::Some(info.message_count),
                    working: Option::Some(info.working),
                    completed: info.is_complete,
                    exit_code: if info.is_complete {
                        Option::Some(0)
                    } else {
                        Option::None
                    },
                    agents: Option::None,
                };
                Result::Ok((out, Vec::new()))
            },
            ClaudeAgentAction::Send => {
                let p = match &args.prompt {
                    Option::Some(p) => p,
                    Option::None => {
                        return Result::Err(ClaudeError::invalid_config("prompt required"));
                    },
                };
                let sid = match self.registry.get_session_id(connection_id, args.agent) {
                    Result::Ok(sid) => sid,
                    Result::Err(e) => {
                        return Result::Err(e);
                    },
                };
                let frame = match self.manager.send_message(sid.as_str(), p.as_str()) {
                    Result::Ok(frame) => frame,
                    Result::Err(e) => {
                        return Result::Err(e);
                    },
                };
                let mut output = "prompt sent to agent ".to_owned();
                crate::strutil::append_u64(&mut output, args.agent as u64);
                let mut effects: Vec<AgentEffect> = Vec::new();
                effects.push(AgentEffect::WriteFrame { session_id: sid.clone(), frame });
                let out = ClaudeAgentOutput {
                    agent: args.agent,
                    action: "SEND".to_owned(),
                    session_id: Option::Some(sid),
                    output,
                    message_count: Option::None,
                    working: Option::Some(true),
                    completed: false,
                    exit_code: Option::None,
                    agents: Option::None,
                };
                Result::Ok((out, effects))
            },
            ClaudeAgentAction::Spawn => {
                let p = match &args.prompt {
                    Option::Some(p) => p,
                    Option::None => {
                        return Result::Err(ClaudeError::invalid_config("prompt required"));
                    },
                };
                let max_turns = match args.max_turns {
                    Option::Some(t) => t,
                    Option::None => 10,
                };
                let mut label = "agent:".to_owned();
                crate::strutil::append_u64(&mut label, args.agent as u64);
                let mut allowed: Vec<String> = Vec::new();
                let mut ai: usize = 0;
                while ai < args.allowed_tools.len()
                    invariant
                        ai <= args.allowed_tools@.len(),
                    decreases args.allowed_tools@.len() - ai,
                {
                    allowed.push(args.allowed_tools[ai].clone());
                    ai = ai + 1;
                }
                let mut disallowed: Vec<String> = Vec::new();
                let mut di: usize = 0;
                while di < args.disallowed_tools.len()
                    invariant
                        di <= args.disallowed_tools@.len(),
                    decreases args.disallowed_tools@.len() - di,
                {
                    disallowed.push(args.disallowed_tools[di].clone());
                    di = di + 1;
                }
                let mut dirs: Vec<String> = Vec::new();
                let mut gi: usize = 0;
                while gi < args.add_dirs.len()
                    invariant
                        gi <= args.add_dirs@.len(),
                    decreases args.add_dirs@.len() - gi,
                {
                    dirs.push(args.add_dirs[gi].clone());
                    gi = gi + 1;
                }
                let request = SpawnSessionRequest {
                    prompt: p.clone(),
                    system_prompt: match &args.system_prompt {
                        Option::Some(s) => Option::Some(s.clone()),
                        Option::None => Option::None,
                    },
                    allowed_tools: allowed,
                    disallowed_tools: disallowed,
                    max_turns,
                    model: match &args.model {
                        Option::Some(m) => Option::Some(m.clone()),
                        Option::None => Option::None,
                    },
                    cwd: match &args.cwd {
                        Option::Some(c) => Option::Some(c.clone()),
                        Option::None => Option::None,
                    },
                    add_dirs: dirs,
                    label,
                };
                let sid = match self.manager.spawn_session(&request, now_ms) {
                    Result::Ok(sid) => sid,
                    Result::Err(e) => {
                        return Result::Err(e);
                    },
                };
                self.registry.register_session(connection_id, args.agent, sid.clone());
                proof {
                    match rfind(old(self).registry().entries(), connection_id@, args.agent) {
                        Option::Some(k) => {
                            crate::registry::lemma_rfind_some_props(
                                old(self).registry().entries(),
                                connection_id@,
                                args.agent,
                            );
                            crate::registry::lemma_rfind_found(
                                self.registry().entries(),
                                connection_id@,
                                args.agent,
                                k,
                            );
                        },
                        Option::None => {
                            crate::registry::lemma_rfind_found(
                                self.registry().entries(),
                                connection_id@,
                                args.agent,
                                self.registry().entries().len() - 1,
                            );
                        },
                    }
                }
                let mut options = ClaudeAgentOptions::new();
                let mut tools: Vec<ToolName> = Vec::new();
                let mut ti: usize = 0;
                while ti < request.allowed_tools.len()
                    invariant
                        ti <= request.allowed_tools@.len(),
                    decreases request.allowed_tools@.len() - ti,
                {
                    tools.push(ToolName::new(request.allowed_tools[ti].as_str()));
                    ti = ti + 1;
                }
                options.allowed_tools = tools;
                let mut dtools: Vec<ToolName> = Vec::new();
                let mut dti: usize = 0;
                while dti < request.disallowed_tools.len()
                    invariant
                        dti <= request.disallowed_tools@.len(),
                    decreases request.disallowed_tools@.len() - dti,
                {
                    dtools.push(ToolName::new(request.disallowed_tools[dti].as_str()));
                    dti = dti + 1;
                }
                options.disallowed_tools = dtools;
                options.system_prompt = match &request.system_prompt {
                    Option::Some(s) => Option::Some(crate::command::SystemPrompt::Text(s.clone())),
                    Option::None => Option::None,
                };
                options.max_turns = Option::Some(max_turns);
                options.model = match &args.model {
                    Option::Some(m) => Option::Some(m.clone()),
                    Option::None => Option::None,
                };
                options.cwd = match &args.cwd {
                    Option::Some(c) => Option::Some(c.clone()),
                    Option::None => Option::None,
                };
                options.add_dirs = request.add_dirs;
                let first_frame = {
                    let j = crate::protocol::user_frame_json(p.as_str());
                    crate::codec::build_frame(&j)
                };
                let mut effects: Vec<AgentEffect> = Vec::new();
                effects.push(
                    AgentEffect::StartChild {
                        session_id: sid.clone(),
                        options,
                        cwd: match &args.cwd {
                            Option::Some(c) => Option::Some(c.clone()),
                            Option::None => Option::None,
                        },
                        first_frame,
                    },
                );
                let mut output = "agent ".to_owned();
                crate::strutil::append_u64(&mut output, args.agent as u64);
                output.append(" spawned");
                let out = ClaudeAgentOutput {
                    agent: args.agent,
                    action: "SPAWN".to_owned(),
                    session_id: Option::Some(sid),
                    output,
                    message_count: Option::None,
                    working: Option::Some(true),
                    completed: false,
                    exit_code: Option::None,
                    agents: Option::None,
                };
                Result::Ok((out, effects))
            },
        }
    }
}


impl ClaudeAgentTool {
    /// Store one received message on its session, exactly as the manager
    /// does: the record joins that session's ring (evicting the oldest past
    /// the bound), activity is stamped, the turn counter rises to the
    /// reported count, reaching the turn limit completes the session, and
    /// no other session and no registry entry changes. Returns whether the
    /// session is complete after the message.
    pub fn record_message(
        &mut self,
        session_id: &str,
        msg: &crate::message::Message,
        raw: &Json,
        now_ms: u64,
        wall_ms: i64,
    ) -> (r: Result<bool, ClaudeError>)
        requires
            old(self).wf(),
        ensures
            final(self).wf(),
            final(self).registry() == old(self).registry(),
            final(self).manager().completeds() == old(self).manager().completeds(),
            match afind(old(self).manager().actives(), session_id@) {
                Option::Some(k) => r matches Result::Ok(done) && {
                    let s = old(self).manager().actives()[k];
                    let s2 = final(self).manager().actives()[k];
                    final(self).manager().actives().len() == old(self).manager().actives().len()
                        && (forall|i: int|
                        0 <= i < old(self).manager().actives().len() && i != k ==> final(self).manager().actives()[i] == old(self).manager().actives()[i])
                        && s2.session_id@ == s.session_id@ && s2.label@ == s.label@
                        && s2.created_at_ms == s.created_at_ms && s2.max_turns == s.max_turns
                        && s2.last_activity_ms == now_ms && {
                        let rv = crate::session::MessageRecordV {
                            message_type: crate::session::spec_type_tag(msg@),
                            content: raw@,
                            turn: crate::session::spec_turn_of(msg@),
                            timestamp_ms: wall_ms,
                        };
                        if s.buffer.records().len() < crate::session::BUFFER_CAPACITY {
                            s2.buffer.records() == s.buffer.records().push(rv)
                        } else {
                            s2.buffer.records() == s.buffer.records().drop_first().push(rv)
                        }
                    } && s2.turn_count == (if crate::session::spec_turn_of(msg@) > s.turn_count {
                        crate::session::spec_turn_of(msg@)
                    } else {
                        s.turn_count
                    }) && s2.complete == (s.complete || (msg@ is Result
                        && crate::session::spec_turn_of(msg@) >= s.max_turns)) && done
                        == s2.complete && s2.turn_count >= s.turn_count
                },
                Option::None => (r matches Result::Err(e) && e is SessionNotFound) && final(self).manager().actives() == old(self).manager().actives(),
            },
    {
        self.manager.record_message(session_id, msg, raw, now_ms, wall_ms)
    }

    /// Stamp activity on a session after its prompt frame was delivered:
    /// that session's `last_activity_ms` becomes `now_ms` and nothing else
    /// changes; an unknown id is rejected with everything unchanged.
    pub fn note_send_ok(&mut self, session_id: &str, now_ms: u64) -> (r: Result<(), ClaudeError>)
        requires
            old(self).wf(),
        ensures
            final(self).wf(),
            final(self).registry() == old(self).registry(),
            final(self).manager().completeds() == old(self).manager().completeds(),
            match afind(old(self).manager().actives(), session_id@) {
                Option::Some(k) => r is Ok && final(self).manager().actives().len() == old(self).manager().actives().len() && (forall|i: int|
                    0 <= i < old(self).manager().actives().len() && i != k ==> final(self).manager().actives()[i] == old(self).manager().actives()[i])
                    && final(self).manager().actives()[k] == (crate::manager::ActiveSession {
                    last_activity_ms: now_ms,
                    ..old(self).manager().actives()[k]
                }),
                Option::None => (r matches Result::Err(e) && e is SessionNotFound) && final(self).manager().actives() == old(self).manager().actives(),
            },
    {
        self.manager.note_send_ok(session_id, now_ms)
    }

    /// Mark a session complete after its stream failed: that session's
    /// completion flag is set and nothing else changes; an unknown id is
    /// rejected with everything unchanged.
    pub fn record_session_failure(&mut self, session_id: &str) -> (r: Result<(), ClaudeError>)
        requires
            old(self).wf(),
        ensures
            final(self).wf(),
            final(self).registry() == old(self).registry(),
            final(self).manager().completeds() == old(self).manager().completeds(),
            match afind(old(self).manager().actives(), session_id@) {
                Option::Some(k) => r is Ok && final(self).manager().actives().len() == old(self).manager().actives().len() && (forall|i: int|
                    0 <= i < old(self).manager().actives().len() && i != k ==> final(self).manager().actives()[i] == old(self).manager().actives()[i])
                    && final(self).manager().actives()[k] == (crate::manager::ActiveSession {
                    complete: true,
                    ..old(self).manager().actives()[k]
                }),
                Option::None => (r matches Result::Err(e) && e is SessionNotFound) && final(self).manager().actives() == old(self).manager().actives(),
            },
    {
        self.manager.record_session_failure(session_id)
    }

    /// Run the retention sweep on the completed pool: afterwards the pool
    /// holds exactly the completions still inside the retention window, in
    /// order, and nothing else changes.
    pub fn gc_completed(&mut self, wall_now_ms: i64)
        requires
            old(self).wf(),
        ensures
            final(self).wf(),
            final(self).registry() == old(self).registry(),
            final(self).manager().actives() == old(self).manager().actives(),
            final(self).manager().completeds() == crate::manager::spec_retained(
                old(self).manager().completeds(),
                wall_now_ms,
            ),
            forall|i: int|
                0 <= i < final(self).manager().completeds().len() ==> wall_now_ms - (
                #[trigger] final(self).manager().completeds()[i]).completed_at_ms
                    < crate::session::COMPLETED_RETENTION_MS,
    {
        self.manager.gc_completed(wall_now_ms)
    }
}

} // verus!

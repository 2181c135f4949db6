//! The per-connection registry: maps `(connection id, handle)` pairs to
//! session ids, with at most one session per pair, and collects a whole
//! connection's entries on disconnect.

use vstd::prelude::*;
use crate::error::ClaudeError;
use crate::strutil::str_eq;

verus! {

/// One registered handle.
#[derive(Debug)]
pub struct RegistryEntry {
    pub connection_id: String,
    pub agent_id: u32,
    pub session_id: String,
}

/// The first position of the entry under `(conn, agent)`, if any.
pub open spec fn rfind(s: Seq<RegistryEntry>, conn: Seq<char>, agent: u32) -> Option<int>
    decreases s.len(),
{
    if s.len() == 0 {
        Option::None
    } else if s[0].connection_id@ == conn && s[0].agent_id == agent {
        Option::Some(0)
    } else {
        match rfind(s.drop_first(), conn, agent) {
            Option::Some(k) => Option::Some(k + 1),
            Option::None => Option::None,
        }
    }
}

proof fn lemma_rfind_hit(s: Seq<RegistryEntry>, conn: Seq<char>, agent: u32, i: int)
    requires
        0 <= i < s.len(),
        s[i].connection_id@ == conn && s[i].agent_id == agent,
        forall|k: int|
            0 <= k < i ==> !((#[trigger] s[k]).connection_id@ == conn && s[k].agent_id == agent),
    ensures
        rfind(s, conn, agent) == Option::Some(i),
    decreases i,
{
    if i > 0 {
        lemma_rfind_hit(s.drop_first(), conn, agent, i - 1);
    }
}

proof fn lemma_rfind_miss(s: Seq<RegistryEntry>, conn: Seq<char>, agent: u32)
    requires
        forall|k: int|
            0 <= k < s.len() ==> !((#[trigger] s[k]).connection_id@ == conn && s[k].agent_id
                == agent),
    ensures
        rfind(s, conn, agent) is None,
    decreases s.len(),
{
    if s.len() > 0 {
        lemma_rfind_miss(s.drop_first(), conn, agent);
    }
}

/// The entries that survive dropping a connection: those under any other
/// connection, in order.
pub open spec fn spec_kept(s: Seq<RegistryEntry>, conn: Seq<char>) -> Seq<RegistryEntry>
    decreases s.len(),
{
    if s.len() == 0 {
        s
    } else if s[0].connection_id@ == conn {
        spec_kept(s.drop_first(), conn)
    } else {
        seq![s[0]] + spec_kept(s.drop_first(), conn)
    }
}

/// The entries removed when dropping a connection: those under it, in
/// order.
pub open spec fn spec_dropped(s: Seq<RegistryEntry>, conn: Seq<char>) -> Seq<RegistryEntry>
    decreases s.len(),
{
    if s.len() == 0 {
        s
    } else if s[0].connection_id@ == conn {
        seq![s[0]] + spec_dropped(s.drop_first(), conn)
    } else {
        spec_dropped(s.drop_first(), conn)
    }
}

proof fn lemma_kept_props(s: Seq<RegistryEntry>, conn: Seq<char>)
    ensures
        forall|i: int|
            0 <= i < spec_kept(s, conn).len() ==> (#[trigger] spec_kept(s, conn)[i]).connection_id@
                != conn,
        forall|i: int|
            0 <= i < spec_kept(s, conn).len() ==> s.contains(#[trigger] spec_kept(s, conn)[i]),
        (forall|i: int, j: int|
            0 <= i < j < s.len() ==> !((#[trigger] s[i]).connection_id@ == (
            #[trigger] s[j]).connection_id@ && s[i].agent_id == s[j].agent_id)) ==> (forall|
            i: int,
            j: int,
        |
            0 <= i < j < spec_kept(s, conn).len() ==> !((#[trigger] spec_kept(
                s,
                conn,
            )[i]).connection_id@ == (#[trigger] spec_kept(s, conn)[j]).connection_id@ && spec_kept(
                s,
                conn,
            )[i].agent_id == spec_kept(s, conn)[j].agent_id)),
    decreases s.len(),
{
    if s.len() > 0 {
        let rest = s.drop_first();
        lemma_kept_props(rest, conn);
        let r = spec_kept(s, conn);
        let rr = spec_kept(rest, conn);
        assert forall|i: int| 0 <= i < r.len() implies s.contains(#[trigger] r[i]) by {
            if s[0].connection_id@ == conn {
                assert(r[i] == rr[i]);
                assert(rest.contains(rr[i]));
                let w = choose|w: int| 0 <= w < rest.len() && rest[w] == r[i];
                assert(s[w + 1] == r[i]);
            } else if i == 0 {
                assert(r[0] == s[0]);
            } else {
                assert(r[i] == rr[i - 1]);
                assert(rest.contains(rr[i - 1]));
                let w = choose|w: int| 0 <= w < rest.len() && rest[w] == r[i];
                assert(s[w + 1] == r[i]);
            }
        }
        if forall|i: int, j: int|
            0 <= i < j < s.len() ==> !((#[trigger] s[i]).connection_id@ == (
            #[trigger] s[j]).connection_id@ && s[i].agent_id == s[j].agent_id) {
            assert(forall|i: int, j: int|
                0 <= i < j < rest.len() ==> !((#[trigger] rest[i]).connection_id@ == (
                #[trigger] rest[j]).connection_id@ && rest[i].agent_id == rest[j].agent_id)) by {
                assert(forall|i: int| 0 <= i < rest.len() ==> #[trigger] rest[i] == s[i + 1]);
            }
            assert forall|i: int, j: int| 0 <= i < j < r.len() implies !((
            #[trigger] r[i]).connection_id@ == (#[trigger] r[j]).connection_id@ && r[i].agent_id
                == r[j].agent_id) by {
                if s[0].connection_id@ == conn {
                    assert(r[i] == rr[i] && r[j] == rr[j]);
                    assert(!(rr[i].connection_id@ == rr[j].connection_id@ && rr[i].agent_id
                        == rr[j].agent_id));
                } else {
                    if i == 0 {
                        assert(r[j] == rr[j - 1]);
                        assert(rest.contains(rr[j - 1]));
                        let w = choose|w: int| 0 <= w < rest.len() && rest[w] == r[j];
                        assert(rest[w] == s[w + 1]);
                        assert(!(s[0].connection_id@ == s[w + 1].connection_id@ && s[0].agent_id
                            == s[w + 1].agent_id));
                    } else {
                        assert(r[i] == rr[i - 1] && r[j] == rr[j - 1]);
                        assert(!(rr[i - 1].connection_id@ == rr[j - 1].connection_id@ && rr[i
                            - 1].agent_id == rr[j - 1].agent_id));
                    }
                }
            }
        }
    }
}

/// The registry of handles, per connection.
pub struct AgentRegistry {
    entries: Vec<RegistryEntry>,
}

impl AgentRegistry {
    /// The registered entries, in registration order.
    pub closed spec fn entries(&self) -> Seq<RegistryEntry> {
        self.entries@
    }

    /// At most one entry per `(connection id, handle)` pair.
    pub open spec fn wf(&self) -> bool {
        forall|i: int, j: int|
            0 <= i < j < self.entries().len() ==> !((#[trigger] self.entries()[i]).connection_id@
                == (#[trigger] self.entries()[j]).connection_id@ && self.entries()[i].agent_id
                == self.entries()[j].agent_id)
    }

    /// An empty registry.
    pub fn new() -> (r: Self)
        ensures
            r.wf(),
            r.entries().len() == 0,
    {
        AgentRegistry { entries: Vec::new() }
    }

    /// The position of the entry under `(conn, agent)`.
    fn find(&self, connection_id: &str, agent_id: u32) -> (r: Option<usize>)
        ensures
            match r {
                Option::Some(i) => rfind(self.entries(), connection_id@, agent_id) == Option::Some(
                    i as int,
                ) && i < self.entries().len() && self.entries()[i as int].connection_id@
                    == connection_id@ && self.entries()[i as int].agent_id == agent_id,
                Option::None => rfind(self.entries(), connection_id@, agent_id) is None,
            },
    {
        let mut i: usize = 0;
        while i < self.entries.len()
            invariant
                i <= self.entries().len(),
                forall|k: int|
                    0 <= k < i ==> !((#[trigger] self.entries()[k]).connection_id@
                        == connection_id@ && self.entries()[k].agent_id == agent_id),
            decreases self.entries().len() - i,
        {
            if str_eq(self.entries[i].connection_id.as_str(), connection_id)
                && self.entries[i].agent_id == agent_id {
                proof {
                    lemma_rfind_hit(self.entries(), connection_id@, agent_id, i as int);
                }
                return Option::Some(i);
            }
            i = i + 1;
        }
        proof {
            lemma_rfind_miss(self.entries(), connection_id@, agent_id);
        }
        Option::None
    }

    /// The session registered under `(conn, agent)`, or a not-found error.
    pub fn get_session_id(&self, connection_id: &str, agent_id: u32) -> (r: Result<
        String,
        ClaudeError,
    >)
        ensures
            match rfind(self.entries(), connection_id@, agent_id) {
                Option::Some(k) => r matches Result::Ok(sid) && sid@
                    == self.entries()[k].session_id@,
                Option::None => r matches Result::Err(e) && e is SessionNotFound,
            },
    {
        match self.find(connection_id, agent_id) {
            Option::Some(i) => Result::Ok(self.entries[i].session_id.clone()),
            Option::None => Result::Err(ClaudeError::session_not_found("agent not registered")),
        }
    }

    /// Register a session under `(conn, agent)`: a new handle is appended,
    /// an existing one starts naming the new session. Afterwards the pair
    /// names exactly this session.
    pub fn register_session(&mut self, connection_id: &str, agent_id: u32, session_id: String)
        requires
            old(self).wf(),
        ensures
            final(self).wf(),
            match rfind(old(self).entries(), connection_id@, agent_id) {
                Option::Some(k) => final(self).entries().len() == old(self).entries().len() && (
                forall|i: int|
                    0 <= i < old(self).entries().len() && i != k ==> final(self).entries()[i]
                        == old(self).entries()[i]) && final(self).entries()[k].connection_id@
                    == connection_id@ && final(self).entries()[k].agent_id == agent_id && final(self).entries()[k].session_id@ == session_id@,
                Option::None => final(self).entries().len() == old(self).entries().len() + 1 && (
                forall|i: int|
                    0 <= i < old(self).entries().len() ==> final(self).entries()[i] == old(self).entries()[i]) && final(self).entries().last().connection_id@
                    == connection_id@ && final(self).entries().last().agent_id == agent_id
                    && final(self).entries().last().session_id@ == session_id@,
            },
    {
        let entry = RegistryEntry {
            connection_id: connection_id.to_owned(),
            agent_id,
            session_id,
        };
        match self.find(connection_id, agent_id) {
            Option::Some(k) => {
                let _old = self.entries.remove(k);
                self.entries.insert(k, entry);
                proof {
                    assert(final(self).entries() =~= old(self).entries().update(
                        k as int,
                        final(self).entries()[k as int],
                    ));
                    assert(final(self).wf()) by {
                        assert(forall|i: int|
                            0 <= i < final(self).entries().len() ==> (#[trigger] final(self).entries()[i]).connection_id@ == old(self).entries()[i].connection_id@ && final(self).entries()[i].agent_id
                                == old(self).entries()[i].agent_id);
                    }
                }
            },
            Option::None => {
                self.entries.push(entry);
                proof {
                    assert(final(self).entries() =~= old(self).entries().push(
                        final(self).entries().last(),
                    ));
                    lemma_rfind_none_absent(old(self).entries(), connection_id@, agent_id);
                    assert(final(self).wf()) by {
                        assert(forall|i: int|
                            0 <= i < old(self).entries().len() ==> #[trigger] final(self).entries()[i] == old(self).entries()[i]);
                    }
                }
            },
        }
    }

    /// Remove the entry under `(conn, agent)` and hand back its session id,
    /// if it was registered.
    pub fn remove_session(&mut self, connection_id: &str, agent_id: u32) -> (r: Option<String>)
        requires
            old(self).wf(),
        ensures
            final(self).wf(),
            match rfind(old(self).entries(), connection_id@, agent_id) {
                Option::Some(k) => final(self).entries() == old(self).entries().remove(k) && (
                r matches Option::Some(sid) && sid@ == old(self).entries()[k].session_id@),
                Option::None => final(self).entries() == old(self).entries() && r is None,
            },
    {
        match self.find(connection_id, agent_id) {
            Option::Some(k) => {
                let entry = self.entries.remove(k);
                proof {
                    assert(final(self).wf()) by {
                        assert(forall|i: int|
                            0 <= i < final(self).entries().len() ==> #[trigger] final(self).entries()[i] == if i < k {
                                old(self).entries()[i]
                            } else {
                                old(self).entries()[i + 1]
                            });
                    }
                }
                Option::Some(entry.session_id)
            },
            Option::None => Option::None,
        }
    }

    /// The `(handle, session id)` pairs registered under a connection, in
    /// registration order.
    pub fn entries_for_connection(&self, connection_id: &str) -> (r: Vec<(u32, String)>)
        ensures
            r@.len() == spec_dropped(self.entries(), connection_id@).len(),
            forall|i: int|
                0 <= i < r@.len() ==> (#[trigger] r@[i]).0 == spec_dropped(
                    self.entries(),
                    connection_id@,
                )[i].agent_id && r@[i].1@ == spec_dropped(
                    self.entries(),
                    connection_id@,
                )[i].session_id@,
    {
        let mut out: Vec<(u32, String)> = Vec::new();
        let mut i: usize = 0;
        proof {
            assert(self.entries().take(0) =~= Seq::<RegistryEntry>::empty());
        }
        while i < self.entries.len()
            invariant
                i <= self.entries().len(),
                out@.len() == spec_dropped(self.entries().take(i as int), connection_id@).len(),
                forall|k: int|
                    0 <= k < out@.len() ==> (#[trigger] out@[k]).0 == spec_dropped(
                        self.entries().take(i as int),
                        connection_id@,
                    )[k].agent_id && out@[k].1@ == spec_dropped(
                        self.entries().take(i as int),
                        connection_id@,
                    )[k].session_id@,
            decreases self.entries().len() - i,
        {
            proof {
                lemma_dropped_take_step(self.entries(), connection_id@, i as int);
            }
            if str_eq(self.entries[i].connection_id.as_str(), connection_id) {
                out.push((self.entries[i].agent_id, self.entries[i].session_id.clone()));
            }
            i = i + 1;
        }
        proof {
            assert(self.entries().take(self.entries().len() as int) =~= self.entries());
        }
        out
    }

    /// Remove every entry under a connection: afterwards no entry of that
    /// connection remains, every other entry survives in order, and the
    /// removed `(handle, session id)` pairs come back in registration
    /// order.
    pub fn remove_connection(&mut self, connection_id: &str) -> (r: Vec<(u32, String)>)
        requires
            old(self).wf(),
        ensures
            final(self).wf(),
            final(self).entries() == spec_kept(old(self).entries(), connection_id@),
            forall|i: int|
                0 <= i < final(self).entries().len() ==> (#[trigger] final(self).entries()[i]).connection_id@ != connection_id@,
            r@.len() == spec_dropped(old(self).entries(), connection_id@).len(),
            forall|i: int|
                0 <= i < r@.len() ==> (#[trigger] r@[i]).0 == spec_dropped(
                    old(self).entries(),
                    connection_id@,
                )[i].agent_id && r@[i].1@ == spec_dropped(
                    old(self).entries(),
                    connection_id@,
                )[i].session_id@,
    {
        let removed = self.entries_for_connection(connection_id);
        let ghost orig = self.entries();
        let mut kept: Vec<RegistryEntry> = Vec::new();
        while self.entries.len() > 0
            invariant
                kept@ + spec_kept(self.entries(), connection_id@) =~= spec_kept(
                    orig,
                    connection_id@,
                ),
            decreases self.entries().len(),
        {
            let ghost before = self.entries();
            let e = self.entries.remove(0);
            proof {
                assert(self.entries() =~= before.drop_first());
            }
            if !str_eq(e.connection_id.as_str(), connection_id) {
                kept.push(e);
                proof {
                    assert(kept@ + spec_kept(self.entries(), connection_id@) =~= spec_kept(
                        orig,
                        connection_id@,
                    ));
                }
            }
        }
        self.entries = kept;
        proof {
            assert(spec_kept(Seq::<RegistryEntry>::empty(), connection_id@)
                =~= Seq::<RegistryEntry>::empty());
            assert(final(self).entries() =~= spec_kept(orig, connection_id@));
            lemma_kept_props(orig, connection_id@);
            assert(final(self).wf()) by {
                assert(forall|i: int, j: int|
                    0 <= i < j < orig.len() ==> !((#[trigger] orig[i]).connection_id@ == (
                    #[trigger] orig[j]).connection_id@ && orig[i].agent_id == orig[j].agent_id))
                    by {
                    assert(forall|i: int, j: int|
                        0 <= i < j < old(self).entries().len() ==> !((#[trigger] old(self).entries()[i]).connection_id@ == (#[trigger] old(self).entries()[j]).connection_id@ && old(self).entries()[i].agent_id == old(self).entries()[j].agent_id));
                }
            }
        }
        removed
    }
}

proof fn lemma_rfind_none_absent(s: Seq<RegistryEntry>, conn: Seq<char>, agent: u32)
    requires
        rfind(s, conn, agent) is None,
    ensures
        forall|k: int|
            0 <= k < s.len() ==> !((#[trigger] s[k]).connection_id@ == conn && s[k].agent_id
                == agent),
    decreases s.len(),
{
    if s.len() > 0 {
        lemma_rfind_none_absent(s.drop_first(), conn, agent);
        assert forall|k: int| 0 <= k < s.len() implies !((#[trigger] s[k]).connection_id@ == conn
            && s[k].agent_id == agent) by {
            if k > 0 {
                assert(s.drop_first()[k - 1] == s[k]);
            }
        }
    }
}

proof fn lemma_dropped_take_step(s: Seq<RegistryEntry>, conn: Seq<char>, i: int)
    requires
        0 <= i < s.len(),
    ensures
        spec_dropped(s.take(i + 1), conn) =~= if s[i].connection_id@ == conn {
            spec_dropped(s.take(i), conn) + seq![s[i]]
        } else {
            spec_dropped(s.take(i), conn)
        },
    decreases i,
{
    let t = s.take(i + 1);
    if i == 0 {
        assert(t.drop_first() =~= s.take(0));
        assert(spec_dropped(s.take(0), conn) =~= Seq::<RegistryEntry>::empty());
    } else {
        assert(t[0] == s[0]);
        assert(t.drop_first() =~= s.drop_first().take(i));
        assert(s.take(i)[0] == s[0]);
        assert(s.take(i).drop_first() =~= s.drop_first().take(i - 1));
        lemma_dropped_take_step(s.drop_first(), conn, i - 1);
        assert(s.drop_first()[i - 1] == s[i]);
    }
}

/// A found key names an entry at its index.
pub proof fn lemma_rfind_some_props(s: Seq<RegistryEntry>, conn: Seq<char>, agent: u32)
    requires
        rfind(s, conn, agent) is Some,
    ensures
        0 <= rfind(s, conn, agent)->0 < s.len(),
        s[rfind(s, conn, agent)->0].connection_id@ == conn,
        s[rfind(s, conn, agent)->0].agent_id == agent,
    decreases s.len(),
{
    if s.len() > 0 && !(s[0].connection_id@ == conn && s[0].agent_id == agent) {
        lemma_rfind_some_props(s.drop_first(), conn, agent);
    }
}

/// An entry with the key at any index makes the key found.
pub proof fn lemma_rfind_found(s: Seq<RegistryEntry>, conn: Seq<char>, agent: u32, i: int)
    requires
        0 <= i < s.len(),
        s[i].connection_id@ == conn,
        s[i].agent_id == agent,
    ensures
        rfind(s, conn, agent) is Some,
    decreases i,
{
    if !(s[0].connection_id@ == conn && s[0].agent_id == agent) {
        assert(s.drop_first()[i - 1] == s[i]);
        lemma_rfind_found(s.drop_first(), conn, agent, i - 1);
    }
}

/// There is never more than one session under one `(connection, handle)`
/// pair: two registered entries under the same pair are the same entry.
pub proof fn lemma_registry_key_unique(reg: AgentRegistry, i: int, j: int)
    requires
        reg.wf(),
        0 <= i < reg.entries().len(),
        0 <= j < reg.entries().len(),
        reg.entries()[i].connection_id@ == reg.entries()[j].connection_id@,
        reg.entries()[i].agent_id == reg.entries()[j].agent_id,
    ensures
        i == j,
{
}

} // verus!

//! Per-session state: the stored message records, the bounded ring they live
//! in, and the activity rule.

use std::collections::VecDeque;
use vstd::prelude::*;
use crate::json::{Json, JsonV};
use crate::message::{ContentBlock, ContentBlockV, Message, MessageV, spec_parse_message};

verus! {

/// The ring buffer's capacity: older records are evicted past this bound.
pub const BUFFER_CAPACITY: usize = 1000;

/// The trailing window, in milliseconds, in which received activity makes a
/// session report itself as working.
pub const WORKING_THRESHOLD_MS: u64 = 2000;

/// How long a completed session stays readable before garbage collection,
/// in milliseconds.
pub const COMPLETED_RETENTION_MS: i64 = 60000;

/// One stored message: its classification tag, the whole frame it came
/// from, the turn reported at receipt, and the wall-clock receive time.
#[derive(Debug)]
pub struct MessageRecord {
    pub message_type: String,
    pub content: Json,
    pub turn: u32,
    pub timestamp_ms: i64,
}

/// The shape of a stored message.
#[verifier::ext_equal]
pub ghost struct MessageRecordV {
    pub message_type: Seq<char>,
    pub content: JsonV,
    pub turn: u32,
    pub timestamp_ms: i64,
}

impl View for MessageRecord {
    type V = MessageRecordV;

    open spec fn view(&self) -> MessageRecordV {
        MessageRecordV {
            message_type: self.message_type@,
            content: self.content@,
            turn: self.turn,
            timestamp_ms: self.timestamp_ms,
        }
    }
}

impl Clone for MessageRecord {
    /// A copy whose view equals the original's.
    fn clone(&self) -> (r: Self)
        ensures
            r@ == self@,
    {
        let r = MessageRecord {
            message_type: self.message_type.clone(),
            content: self.content.clone(),
            turn: self.turn,
            timestamp_ms: self.timestamp_ms,
        };
        proof {
            assert(r@ =~= self@);
        }
        r
    }
}

/// The classification tag a message is stored under.
pub open spec fn spec_type_tag(m: MessageV) -> Seq<char> {
    match m {
        MessageV::User { .. } => "user"@,
        MessageV::Assistant { .. } => "assistant"@,
        MessageV::System { subtype, .. } => "system_"@ + subtype,
        MessageV::Result { .. } => "result"@,
        MessageV::StreamEvent { .. } => "stream_event"@,
    }
}

/// The turn a message is stored under: the reported turn count for a result
/// frame, zero for everything else.
pub open spec fn spec_turn_of(m: MessageV) -> u32 {
    match m {
        MessageV::Result { num_turns, .. } => num_turns,
        _ => 0,
    }
}

/// Build the stored record for a message: tag and turn from the typed
/// message, content from the raw frame, timestamp from the wall clock.
pub fn record_of_message(msg: &Message, raw: &Json, wall_ms: i64) -> (r: MessageRecord)
    ensures
        r@.message_type == spec_type_tag(msg@),
        r@.turn == spec_turn_of(msg@),
        r@.content == raw@,
        r@.timestamp_ms == wall_ms,
{
    let message_type: String = match msg {
        Message::User { .. } => "user".to_owned(),
        Message::Assistant { .. } => "assistant".to_owned(),
        Message::System { subtype, .. } => {
            let mut s = "system_".to_owned();
            s.append(subtype.as_str());
            s
        },
        Message::Result { .. } => "result".to_owned(),
        Message::StreamEvent { .. } => "stream_event".to_owned(),
    };
    let turn: u32 = match msg {
        Message::Result { num_turns, .. } => *num_turns,
        _ => 0,
    };
    MessageRecord { message_type, content: raw.clone(), turn, timestamp_ms: wall_ms }
}

/// A bounded ring of message records: pushing at the tail evicts the head
/// once the capacity is reached, so the ring never exceeds it.
#[derive(Debug)]
pub struct RingBuffer {
    items: VecDeque<MessageRecord>,
}

impl RingBuffer {
    /// The stored records, oldest first.
    pub closed spec fn records(&self) -> Seq<MessageRecordV> {
        self.items@.map_values(|r: MessageRecord| r@)
    }

    /// The ring never holds more than its capacity.
    pub open spec fn wf(&self) -> bool {
        self.records().len() <= BUFFER_CAPACITY
    }

    /// An empty ring.
    pub fn new() -> (r: Self)
        ensures
            r.records() == Seq::<MessageRecordV>::empty(),
            r.wf(),
    {
        let r = RingBuffer { items: VecDeque::new() };
        proof {
            assert(r.records() =~= Seq::<MessageRecordV>::empty());
        }
        r
    }

    /// How many records the ring holds.
    pub fn len(&self) -> (n: usize)
        ensures
            n == self.records().len(),
    {
        proof {
            assert(self.records().len() == self.items@.len());
        }
        self.items.len()
    }

    /// The record at position `i`, oldest first.
    pub fn get(&self, i: usize) -> (r: &MessageRecord)
        requires
            i < self.records().len(),
        ensures
            r@ == self.records()[i as int],
    {
        proof {
            assert(self.records().len() == self.items@.len());
        }
        &self.items[i]
    }

    /// Append a record; at capacity the oldest record leaves to make room,
    /// so the ring holds at most the capacity, and exactly it once reached.
    pub fn push(&mut self, rec: MessageRecord)
        requires
            old(self).wf(),
        ensures
            final(self).wf(),
            if old(self).records().len() < BUFFER_CAPACITY {
                final(self).records() == old(self).records().push(rec@)
            } else {
                final(self).records() == old(self).records().drop_first().push(rec@)
            },
    {
        proof {
            assert(self.records().len() == self.items@.len());
        }
        if self.items.len() == BUFFER_CAPACITY {
            let _evicted = self.items.pop_front();
            proof {
                assert(self.records() =~= old(self).records().drop_first());
            }
            let ghost mid = self.records();
            self.items.push_back(rec);
            proof {
                assert(self.records() =~= mid.push(rec@));
                assert(final(self).records() =~= old(self).records().drop_first().push(rec@));
            }
        } else {
            self.items.push_back(rec);
            proof {
                assert(self.records() =~= old(self).records().push(rec@));
            }
        }
    }

    /// A copy holding the same records.
    pub fn snapshot(&self) -> (r: RingBuffer)
        ensures
            r.records() == self.records(),
    {
        let mut i: usize = 0;
        proof {
            assert(self.records().len() == self.items@.len());
        }
        let n = self.items.len();
        let mut out = RingBuffer { items: VecDeque::new() };
        while i < n
            invariant
                i <= n,
                n == self.items@.len(),
                out.items@.len() == i,
                forall|k: int| 0 <= k < i ==> (#[trigger] out.items@[k])@ == self.items@[k]@,
            decreases n - i,
        {
            out.items.push_back(self.items[i].clone());
            i = i + 1;
        }
        proof {
            assert(out.records() =~= self.records());
        }
        out
    }
}

/// The records a fresh ring holds after the records of `s` go in, in
/// order: each step is exactly what `push` ensures (append, evicting the
/// head once the capacity is reached).
pub open spec fn spec_ring_fold(s: Seq<MessageRecordV>) -> Seq<MessageRecordV>
    decreases s.len(),
{
    if s.len() == 0 {
        Seq::empty()
    } else {
        let prev = spec_ring_fold(s.drop_last());
        if prev.len() < BUFFER_CAPACITY {
            prev.push(s.last())
        } else {
            prev.drop_first().push(s.last())
        }
    }
}

/// Pushing any run of records onto an empty ring leaves exactly the last
/// `BUFFER_CAPACITY` of them (all of them while they fit), in emission
/// order: the surplus is evicted oldest first.
pub proof fn lemma_ring_fold_tail(s: Seq<MessageRecordV>)
    ensures
        spec_ring_fold(s) =~= s.skip(
            if s.len() <= BUFFER_CAPACITY {
                0int
            } else {
                s.len() - BUFFER_CAPACITY
            },
        ),
    decreases s.len(),
{
    if s.len() > 0 {
        let n = s.len() as int;
        let d = s.drop_last();
        lemma_ring_fold_tail(d);
        let off_d: int = if d.len() <= BUFFER_CAPACITY {
            0int
        } else {
            d.len() - BUFFER_CAPACITY
        };
        let prev = spec_ring_fold(d);
        assert(prev =~= d.skip(off_d));
        assert(prev.len() == d.len() - off_d);
        assert(forall|i: int| 0 <= i < d.len() ==> #[trigger] d[i] == s[i]);
        if n - 1 < BUFFER_CAPACITY {
            assert(prev.len() < BUFFER_CAPACITY);
            assert(spec_ring_fold(s) =~= s.skip(0));
        } else if n - 1 == BUFFER_CAPACITY {
            assert(prev.len() == BUFFER_CAPACITY);
            assert(spec_ring_fold(s) == prev.drop_first().push(s.last()));
            assert forall|i: int| 0 <= i < n - 1 implies #[trigger] prev.drop_first().push(
                s.last(),
            )[i] == s.skip(1)[i] by {
                if i < n - 2 {
                    assert(prev.drop_first()[i] == prev[i + 1]);
                    assert(prev[i + 1] == d[i + 1]);
                }
            }
            assert(spec_ring_fold(s) =~= s.skip(1));
        } else {
            assert(off_d == n - 1 - BUFFER_CAPACITY);
            assert(prev.len() == BUFFER_CAPACITY);
            assert(spec_ring_fold(s) == prev.drop_first().push(s.last()));
            assert forall|i: int| 0 <= i < BUFFER_CAPACITY implies #[trigger] prev.drop_first().push(
                s.last(),
            )[i] == s.skip(n - BUFFER_CAPACITY)[i] by {
                if i < BUFFER_CAPACITY - 1 {
                    assert(prev.drop_first()[i] == prev[i + 1]);
                    assert(prev[i + 1] == d[off_d + i + 1]);
                    assert(d[off_d + i + 1] == s[off_d + i + 1]);
                }
            }
            assert(spec_ring_fold(s) =~= s.skip(n - BUFFER_CAPACITY));
        }
    }
}

/// The output lines one record contributes: the text and thinking blocks of
/// an assistant record, in block order; nothing from any other record.
pub open spec fn lines_of_record(r: MessageRecordV) -> Seq<Seq<char>> {
    if r.message_type == "assistant"@ {
        match spec_parse_message(r.content) {
            Option::Some(MessageV::Assistant { message, .. }) => block_lines(
                message.content,
                message.content.len() as int,
            ),
            _ => Seq::empty(),
        }
    } else {
        Seq::empty()
    }
}

/// The lines of the first `i` blocks: texts of text blocks and thinking of
/// thinking blocks, in order.
pub open spec fn block_lines(bs: Seq<ContentBlockV>, i: int) -> Seq<Seq<char>>
    decreases i,
{
    if i <= 0 || i > bs.len() {
        Seq::empty()
    } else {
        block_lines(bs, i - 1) + (match bs[i - 1] {
            ContentBlockV::Text { text } => seq![text],
            ContentBlockV::Thinking { thinking, .. } => seq![thinking],
            _ => Seq::empty(),
        })
    }
}

/// All output lines of the last `i` records, newest record first.
pub open spec fn rev_lines(s: Seq<MessageRecordV>, i: int) -> Seq<Seq<char>>
    decreases i,
{
    if i <= 0 || i > s.len() {
        Seq::empty()
    } else {
        lines_of_record(s[s.len() - 1]) + rev_lines(s.drop_last(), i - 1)
    }
}

/// At most the first `n` of `s`.
pub open spec fn take_at_most(s: Seq<Seq<char>>, n: int) -> Seq<Seq<char>> {
    if n < s.len() {
        s.take(n)
    } else {
        s
    }
}

/// The preview the session listing shows: up to `n` output lines gathered
/// from the newest records backwards.
pub open spec fn spec_last_output_lines(s: Seq<MessageRecordV>, n: int) -> Seq<Seq<char>> {
    take_at_most(rev_lines(s, s.len() as int), n)
}

proof fn lemma_rev_lines_step(s: Seq<MessageRecordV>, p: int)
    requires
        0 <= p < s.len(),
    ensures
        rev_lines(s, p + 1) =~= rev_lines(s, p) + lines_of_record(s[s.len() - 1 - p]),
    decreases p,
{
    if p == 0 {
        assert(rev_lines(s, 1) == lines_of_record(s[s.len() - 1]) + rev_lines(s.drop_last(), 0));
        assert(rev_lines(s, 1) =~= rev_lines(s, 0) + lines_of_record(s[s.len() - 1]));
    } else {
        let d = s.drop_last();
        lemma_rev_lines_step(d, p - 1);
        assert(d[d.len() - 1 - (p - 1)] == s[s.len() - 1 - p]);
        assert(rev_lines(s, p + 1) == lines_of_record(s[s.len() - 1]) + rev_lines(d, p));
        assert(rev_lines(s, p) == lines_of_record(s[s.len() - 1]) + rev_lines(d, p - 1));
        assert(rev_lines(s, p + 1) =~= rev_lines(s, p) + lines_of_record(s[s.len() - 1 - p]));
    }
}

proof fn lemma_take_push(a: Seq<Seq<char>>, e: Seq<char>, n: int)
    requires
        n >= 0,
    ensures
        take_at_most(a.push(e), n) =~= if a.len() < n {
            take_at_most(a, n).push(e)
        } else {
            take_at_most(a, n)
        },
{
    if a.len() < n {
        assert(take_at_most(a, n) == a);
        if a.len() + 1 < n {
            assert(take_at_most(a.push(e), n) == a.push(e));
        } else {
            if n < a.push(e).len() {
                assert(take_at_most(a.push(e), n) =~= a.push(e));
            }
        }
    } else {
        assert(take_at_most(a.push(e), n) =~= take_at_most(a, n));
    }
}

/// Up to `n` output lines from the newest records backwards: the preview of
/// a session's recent assistant output.
pub fn extract_last_output_lines(buffer: &RingBuffer, n: usize) -> (r: Vec<String>)
    ensures
        r@.map_values(|s: String| s@) == spec_last_output_lines(buffer.records(), n as int),
{
    let ghost recs = buffer.records();
    let total = buffer.len();
    let mut out: Vec<String> = Vec::new();
    let mut p: usize = 0;
    proof {
        assert(out@.map_values(|s: String| s@) =~= take_at_most(rev_lines(recs, 0), n as int));
    }
    while p < total
        invariant
            p <= total,
            total == recs.len(),
            recs == buffer.records(),
            out@.map_values(|s: String| s@) == take_at_most(rev_lines(recs, p as int), n as int),
            out@.len() <= n,
        decreases total - p,
    {
        let idx = total - 1 - p;
        let rec = buffer.get(idx);
        let ghost before = rev_lines(recs, p as int);
        if crate::strutil::str_eq(rec.message_type.as_str(), "assistant") {
            match crate::message::parse_message(rec.content.clone()) {
                Result::Ok(Message::Assistant { message, .. }) => {
                    let ghost bv = message@.content;
                    let blocks = &message.content;
                    let mut q: usize = 0;
                    proof {
                        assert(before + block_lines(bv, 0) =~= before);
                    }
                    while q < blocks.len()
                        invariant
                            q <= blocks@.len(),
                            bv == blocks@.map_values(|b: ContentBlock| b@),
                            bv.len() == blocks@.len(),
                            out@.map_values(|s: String| s@) == take_at_most(
                                before + block_lines(bv, q as int),
                                n as int,
                            ),
                            out@.len() <= n,
                        decreases blocks@.len() - q,
                    {
                        let ghost abs = before + block_lines(bv, q as int);
                        let line: Option<String> = match &blocks[q] {
                            ContentBlock::Text { text } => Option::Some(text.clone()),
                            ContentBlock::Thinking { thinking, .. } => Option::Some(
                                thinking.clone(),
                            ),
                            _ => Option::None,
                        };
                        proof {
                            assert(bv[q as int] == blocks@[q as int]@);
                        }
                        match line {
                            Option::Some(s) => {
                                let ghost sv = s@;
                                proof {
                                    assert(block_lines(bv, q + 1) =~= block_lines(bv, q as int)
                                        + seq![sv]);
                                    assert(before + block_lines(bv, q + 1) =~= abs.push(sv));
                                    lemma_take_push(abs, sv, n as int);
                                }
                                if out.len() < n {
                                    let ghost prev = out@;
                                    out.push(s);
                                    proof {
                                        assert(out@.map_values(|x: String| x@) =~= prev.map_values(
                                            |x: String| x@,
                                        ).push(sv));
                                        assert(abs.len() < n as int);
                                    }
                                } else {
                                    proof {
                                        assert(out@.len() == n);
                                        assert(abs.len() >= n as int);
                                    }
                                }
                            },
                            Option::None => {
                                proof {
                                    assert(block_lines(bv, q + 1) =~= block_lines(bv, q as int));
                                    assert(before + block_lines(bv, q + 1) =~= abs);
                                }
                            },
                        }
                        q = q + 1;
                    }
                    proof {
                        assert(block_lines(bv, bv.len() as int) == lines_of_record(
                            recs[idx as int],
                        ));
                        lemma_rev_lines_step(recs, p as int);
                        assert(before + block_lines(bv, bv.len() as int) =~= rev_lines(
                            recs,
                            p + 1,
                        ));
                    }
                },
                Result::Ok(_) => {
                    proof {
                        assert(lines_of_record(recs[idx as int]) =~= Seq::<Seq<char>>::empty());
                        lemma_rev_lines_step(recs, p as int);
                        assert(rev_lines(recs, p + 1) =~= before);
                    }
                },
                Result::Err(_) => {
                    proof {
                        assert(lines_of_record(recs[idx as int]) =~= Seq::<Seq<char>>::empty());
                        lemma_rev_lines_step(recs, p as int);
                        assert(rev_lines(recs, p + 1) =~= before);
                    }
                },
            }
        } else {
            proof {
                assert(lines_of_record(recs[idx as int]) =~= Seq::<Seq<char>>::empty());
                lemma_rev_lines_step(recs, p as int);
                assert(rev_lines(recs, p + 1) =~= before);
            }
        }
        p = p + 1;
    }
    out
}

} // verus!

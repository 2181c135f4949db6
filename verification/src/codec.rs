//! Wire codec: accumulation of inbound line-delimited JSON frames under a
//! size bound, and construction of outbound newline-terminated frames.

use vstd::prelude::*;
use crate::json::{Json, JsonV, esc_char, esc_prefix, is_num_char, json_wf, spec_enc,
    spec_enc_elems, spec_enc_i64, spec_enc_members, spec_escape, spec_quoted};
use crate::strutil::spec_dec;

verus! {

/// Whitespace as the line trimmer sees it.
pub open spec fn is_ws(c: char) -> bool {
    c == ' ' || c == '\t' || c == '\r' || c == '\n'
}

/// `s` without leading whitespace.
pub open spec fn trim_front(s: Seq<char>) -> Seq<char>
    decreases s.len(),
{
    if s.len() > 0 && is_ws(s[0]) {
        trim_front(s.drop_first())
    } else {
        s
    }
}

/// `s` without trailing whitespace.
pub open spec fn trim_back(s: Seq<char>) -> Seq<char>
    decreases s.len(),
{
    if s.len() > 0 && is_ws(s.last()) {
        trim_back(s.drop_last())
    } else {
        s
    }
}

/// `s` without leading and trailing whitespace.
pub open spec fn trimmed(s: Seq<char>) -> Seq<char> {
    trim_back(trim_front(s))
}

proof fn lemma_trim_front_skip(s: Seq<char>, a: int)
    requires
        0 <= a <= s.len(),
        forall|k: int| 0 <= k < a ==> is_ws(s[k]),
    ensures
        trim_front(s) == trim_front(s.skip(a)),
    decreases a,
{
    if a > 0 {
        assert(is_ws(s[0]));
        assert(s.drop_first() =~= s.skip(1));
        lemma_trim_front_skip(s.skip(1), a - 1);
        assert(s.skip(1).skip(a - 1) =~= s.skip(a));
    } else {
        assert(s.skip(0) =~= s);
    }
}

proof fn lemma_trim_back_take(s: Seq<char>, b: int)
    requires
        0 <= b <= s.len(),
        forall|k: int| b <= k < s.len() ==> is_ws(s[k]),
    ensures
        trim_back(s) == trim_back(s.take(b)),
    decreases s.len() - b,
{
    if b < s.len() {
        assert(is_ws(s.last()));
        assert(s.drop_last() =~= s.take(s.len() - 1));
        lemma_trim_back_take(s.take(s.len() - 1), b);
        assert(s.take(s.len() - 1).take(b) =~= s.take(b));
    } else {
        assert(s.take(s.len() as int) =~= s);
    }
}

fn is_ws_char(c: char) -> (r: bool)
    ensures
        r == is_ws(c),
{
    c == ' ' || c == '\t' || c == '\r' || c == '\n'
}

/// The input without leading and trailing whitespace, as a fresh string.
pub fn trim_str(s: &str) -> (r: String)
    ensures
        r@ == trimmed(s@),
{
    let n: usize = s.unicode_len();
    let mut a: usize = 0;
    while a < n && is_ws_char(s.get_char(a))
        invariant
            a <= n,
            n == s@.len(),
            forall|k: int| 0 <= k < a ==> is_ws(s@[k]),
        decreases n - a,
    {
        a = a + 1;
    }
    proof {
        lemma_trim_front_skip(s@, a as int);
        if a < n {
            assert(s@.skip(a as int)[0] == s@[a as int]);
            assert(trim_front(s@.skip(a as int)) == s@.skip(a as int));
        } else {
            assert(s@.skip(a as int) =~= Seq::<char>::empty());
            assert(trim_front(s@.skip(a as int)) == s@.skip(a as int));
        }
    }
    let mut b: usize = n;
    while b > a && is_ws_char(s.get_char(b - 1))
        invariant
            a <= b <= n,
            n == s@.len(),
            forall|k: int| b <= k < n ==> is_ws(s@[k]),
        decreases b,
    {
        b = b - 1;
    }
    let ghost t = s@.skip(a as int);
    proof {
        assert(forall|k: int| b <= k < n ==> is_ws(s@[k]));
        assert(forall|k: int| b - a <= k < t.len() ==> is_ws(#[trigger] t[k])) by {
            assert(forall|k: int|
                b - a <= k < t.len() ==> #[trigger] t[k] == s@[k + a] && is_ws(s@[k + a]));
        }
        lemma_trim_back_take(t, b - a);
        if b > a {
            let u = t.take(b - a);
            assert(u.last() == s@[b - 1]);
            assert(!is_ws(u.last()));
            assert(trim_back(u) == u);
        } else {
            assert(t.take(0) =~= Seq::<char>::empty());
        }
        assert(trimmed(s@) == t.take(b - a));
    }
    let mut out = String::new();
    let mut i: usize = a;
    while i < b
        invariant
            a <= i <= b <= n,
            n == s@.len(),
            out@ =~= s@.subrange(a as int, i as int),
        decreases b - i,
    {
        out.push(s.get_char(i));
        i = i + 1;
    }
    proof {
        assert(out@ =~= s@.skip(a as int).take(b - a));
    }
    out
}

/// Name for the judgment "this text parses as exactly one JSON value"; the
/// parse is a function of the characters alone.
pub uninterp spec fn json_ok(s: Seq<char>) -> bool;

/// Relies on `serde_json::from_str::<Value>`: returns whether the whole of
/// `s` parses as one JSON value.
#[verifier::external_body]
fn json_complete(s: &str) -> (r: bool)
    ensures
        r == json_ok(s@),
{
    serde_json::from_str::<serde_json::Value>(s).is_ok()
}

/// What one offered line did to the accumulator.
pub enum PushOutcome {
    /// The line completed one whole JSON frame; the accumulator is empty again.
    Frame(String),
    /// The line was blank after trimming and was skipped.
    Blank,
    /// The frame under accumulation is not complete yet.
    Incomplete,
    /// The accumulator would have exceeded its bound; it was cleared and the
    /// frame abandoned. The stream goes on.
    Overflow,
}

/// The default accumulation bound, in characters: one mebibyte's worth.
pub const DEFAULT_MAX_FRAME_CHARS: usize = 1024 * 1024;

/// Accumulates partial frames across reads, bounded by `max_frame_chars`.
pub struct FrameAccumulator {
    buf: String,
    max_frame_chars: usize,
}

impl FrameAccumulator {
    /// The text accumulated so far.
    pub closed spec fn buffered(&self) -> Seq<char> {
        self.buf@
    }

    /// The configured bound.
    pub closed spec fn bound(&self) -> int {
        self.max_frame_chars as int
    }

    /// The accumulator never holds more than its bound.
    pub open spec fn wf(&self) -> bool {
        self.buffered().len() <= self.bound()
    }

    /// An empty accumulator with the given bound.
    pub fn new(max_frame_chars: usize) -> (r: Self)
        ensures
            r.wf(),
            r.buffered() == Seq::<char>::empty(),
            r.bound() == max_frame_chars as int,
    {
        FrameAccumulator { buf: String::new(), max_frame_chars }
    }

    /// Offers one line read from the child. Blank lines are skipped; a line
    /// that completes a JSON value yields the whole frame and empties the
    /// accumulator; a line that would push the accumulator past its bound
    /// clears it and reports the overflow, and the stream continues.
    pub fn push_line(&mut self, line: &str) -> (r: PushOutcome)
        requires
            old(self).wf(),
        ensures
            final(self).wf(),
            final(self).bound() == old(self).bound(),
            ({
                let t = trimmed(line@);
                let nb = old(self).buffered() + t;
                if t.len() == 0 {
                    r is Blank && final(self).buffered() == old(self).buffered()
                } else if nb.len() > old(self).bound() {
                    r is Overflow && final(self).buffered() == Seq::<char>::empty()
                } else if json_ok(nb) {
                    (r matches PushOutcome::Frame(f) && f@ == nb) && final(self).buffered()
                        == Seq::<char>::empty()
                } else {
                    r is Incomplete && final(self).buffered() == nb
                }
            }),
    {
        let t = trim_str(line);
        if t.as_str().unicode_len() == 0 {
            return PushOutcome::Blank;
        }
        self.buf.append(t.as_str());
        if self.buf.as_str().unicode_len() > self.max_frame_chars {
            self.buf = String::new();
            return PushOutcome::Overflow;
        }
        if json_complete(self.buf.as_str()) {
            let frame = self.buf.clone();
            self.buf = String::new();
            return PushOutcome::Frame(frame);
        }
        PushOutcome::Incomplete
    }
}

/// No newline anywhere in `s`.
pub open spec fn has_no_newline(s: Seq<char>) -> bool {
    forall|i: int| 0 <= i < s.len() ==> s[i] != '\n'
}

proof fn lemma_no_nl_concat(a: Seq<char>, b: Seq<char>)
    requires
        has_no_newline(a),
        has_no_newline(b),
    ensures
        has_no_newline(a + b),
{
    assert forall|i: int| 0 <= i < (a + b).len() implies (a + b)[i] != '\n' by {
        if i < a.len() {
            assert((a + b)[i] == a[i]);
        } else {
            assert((a + b)[i] == b[i - a.len()]);
        }
    }
}

proof fn lemma_dec_no_nl(n: nat)
    ensures
        has_no_newline(spec_dec(n)),
    decreases n,
{
    if n >= 10 {
        lemma_dec_no_nl(n / 10);
        lemma_no_nl_concat(spec_dec(n / 10), seq![crate::strutil::spec_digit((n % 10) as int)]);
    }
}

proof fn lemma_enc_i64_no_nl(n: i64)
    ensures
        has_no_newline(spec_enc_i64(n)),
{
    if n < 0 {
        lemma_dec_no_nl((-(n as int)) as nat);
        lemma_no_nl_concat(seq!['-'], spec_dec((-(n as int)) as nat));
    } else {
        lemma_dec_no_nl(n as nat);
    }
}

proof fn lemma_esc_prefix_no_nl(s: Seq<char>, i: int)
    ensures
        has_no_newline(esc_prefix(s, i)),
    decreases i,
{
    if i > 0 {
        lemma_esc_prefix_no_nl(s, i - 1);
        assert(has_no_newline(esc_char(s[i - 1])));
        lemma_no_nl_concat(esc_prefix(s, i - 1), esc_char(s[i - 1]));
    }
}

proof fn lemma_quoted_no_nl(s: Seq<char>)
    ensures
        has_no_newline(spec_quoted(s)),
{
    lemma_esc_prefix_no_nl(s, s.len() as int);
    lemma_no_nl_concat(seq!['"'], spec_escape(s));
    lemma_no_nl_concat(seq!['"'] + spec_escape(s), seq!['"']);
}

/// The canonical text of a well-formed JSON value holds no newline: every
/// newline inside strings is escaped, and numeric literals hold none.
pub proof fn lemma_enc_no_newline(j: JsonV)
    requires
        json_wf(j),
    ensures
        has_no_newline(spec_enc(j)),
    decreases j, 0int,
{
    match j {
        JsonV::Null => {},
        JsonV::Bool(_) => {},
        JsonV::Int(n) => {
            lemma_enc_i64_no_nl(n);
        },
        JsonV::Num(s) => {
            assert forall|i: int| 0 <= i < s.len() implies s[i] != '\n' by {
                assert(is_num_char(s[i]));
            }
        },
        JsonV::Str(s) => {
            lemma_quoted_no_nl(s);
        },
        JsonV::Arr(v) => {
            lemma_enc_elems_no_nl(v, v.len() as int);
            lemma_no_nl_concat(seq!['['], spec_enc_elems(v, v.len() as int));
            lemma_no_nl_concat(seq!['['] + spec_enc_elems(v, v.len() as int), seq![']']);
        },
        JsonV::Obj(m) => {
            lemma_enc_members_no_nl(m, m.len() as int);
            lemma_no_nl_concat(seq!['{'], spec_enc_members(m, m.len() as int));
            lemma_no_nl_concat(seq!['{'] + spec_enc_members(m, m.len() as int), seq!['}']);
        },
    }
}

proof fn lemma_enc_elems_no_nl(s: Seq<JsonV>, i: int)
    requires
        forall|k: int| 0 <= k < s.len() ==> json_wf(#[trigger] s[k]),
    ensures
        has_no_newline(spec_enc_elems(s, i)),
    decreases s, i,
{
    if i <= 0 || i > s.len() {
    } else if i == 1 {
        lemma_enc_no_newline(s[0]);
    } else {
        lemma_enc_elems_no_nl(s, i - 1);
        lemma_enc_no_newline(s[i - 1]);
        lemma_no_nl_concat(spec_enc_elems(s, i - 1), seq![',']);
        lemma_no_nl_concat(spec_enc_elems(s, i - 1) + seq![','], spec_enc(s[i - 1]));
    }
}

proof fn lemma_enc_members_no_nl(s: Seq<(Seq<char>, JsonV)>, i: int)
    requires
        forall|k: int| 0 <= k < s.len() ==> json_wf(#[trigger] s[k].1),
    ensures
        has_no_newline(spec_enc_members(s, i)),
    decreases s, i,
{
    if i <= 0 || i > s.len() {
    } else if i == 1 {
        lemma_quoted_no_nl(s[0].0);
        lemma_enc_no_newline(s[0].1);
        lemma_no_nl_concat(spec_quoted(s[0].0), seq![':']);
        lemma_no_nl_concat(spec_quoted(s[0].0) + seq![':'], spec_enc(s[0].1));
    } else {
        lemma_enc_members_no_nl(s, i - 1);
        lemma_quoted_no_nl(s[i - 1].0);
        lemma_enc_no_newline(s[i - 1].1);
        lemma_no_nl_concat(spec_enc_members(s, i - 1), seq![',']);
        lemma_no_nl_concat(spec_enc_members(s, i - 1) + seq![','], spec_quoted(s[i - 1].0));
        lemma_no_nl_concat(
            spec_enc_members(s, i - 1) + seq![','] + spec_quoted(s[i - 1].0),
            seq![':'],
        );
        lemma_no_nl_concat(
            spec_enc_members(s, i - 1) + seq![','] + spec_quoted(s[i - 1].0) + seq![':'],
            spec_enc(s[i - 1].1),
        );
    }
}

/// One outbound frame: the canonical text of the value, newline terminated.
pub open spec fn spec_frame(j: JsonV) -> Seq<char> {
    spec_enc(j).push('\n')
}

/// Builds one outbound frame for `j`: exactly the canonical text of `j`
/// followed by one `\n`. For a well-formed value the newline at the end is
/// the only one in the frame.
pub fn build_frame(j: &Json) -> (r: String)
    ensures
        r@ == spec_frame(j@),
        r@.len() > 0,
        r@.last() == '\n',
        json_wf(j@) ==> forall|i: int| 0 <= i < r@.len() - 1 ==> r@[i] != '\n',
    {
    let mut out = crate::encode::encode_json(j);
    out.push('\n');
    proof {
        if json_wf(j@) {
            lemma_enc_no_newline(j@);
        }
    }
    out
}

/// A well-formed outbound frame is one newline-terminated line: the newline
/// it ends with is the only one it holds.
pub proof fn lemma_frame_single_line(j: JsonV)
    requires
        json_wf(j),
    ensures
        spec_frame(j).len() > 0,
        spec_frame(j).last() == '\n',
        forall|i: int| 0 <= i < spec_frame(j).len() - 1 ==> spec_frame(j)[i] != '\n',
{
    lemma_enc_no_newline(j);
    assert forall|i: int| 0 <= i < spec_frame(j).len() - 1 implies spec_frame(j)[i] != '\n' by {
        assert(spec_frame(j)[i] == spec_enc(j)[i]);
    }
}

} // verus!

//! The executable JSON emitter: produces exactly the text that `spec_enc`
//! describes.

use vstd::prelude::*;
use crate::json::{
    Json, JsonV, esc_prefix, jview_list, jview_members, lemma_jview_list_index,
    lemma_jview_list_len, lemma_jview_members_index, lemma_jview_members_len, spec_enc,
    spec_enc_elems, spec_enc_i64, spec_enc_members, spec_escape, spec_hex, spec_quoted,
};
use crate::strutil::append_u64;

verus! {

fn hex_char(d: u32) -> (c: char)
    requires
        d < 16,
    ensures
        c == spec_hex(d as int),
{
    if d == 0 {
        '0'
    } else if d == 1 {
        '1'
    } else if d == 2 {
        '2'
    } else if d == 3 {
        '3'
    } else if d == 4 {
        '4'
    } else if d == 5 {
        '5'
    } else if d == 6 {
        '6'
    } else if d == 7 {
        '7'
    } else if d == 8 {
        '8'
    } else if d == 9 {
        '9'
    } else if d == 10 {
        'a'
    } else if d == 11 {
        'b'
    } else if d == 12 {
        'c'
    } else if d == 13 {
        'd'
    } else if d == 14 {
        'e'
    } else {
        'f'
    }
}

/// Appends the escaped body of a JSON string literal for `s`.
pub fn append_escaped(out: &mut String, s: &str)
    ensures
        final(out)@ == old(out)@ + spec_escape(s@),
{
    let n: usize = s.unicode_len();
    let mut i: usize = 0;
    while i < n
        invariant
            i <= n,
            n == s@.len(),
            out@ == old(out)@ + esc_prefix(s@, i as int),
        decreases n - i,
    {
        let c = s.get_char(i);
        if c == '"' {
            out.push('\\');
            out.push('"');
        } else if c == '\\' {
            out.push('\\');
            out.push('\\');
        } else if c == '\n' {
            out.push('\\');
            out.push('n');
        } else if c == '\r' {
            out.push('\\');
            out.push('r');
        } else if c == '\t' {
            out.push('\\');
            out.push('t');
        } else if (c as u32) < 32 {
            out.push('\\');
            out.push('u');
            out.push('0');
            out.push('0');
            out.push(hex_char((c as u32) / 16));
            out.push(hex_char((c as u32) % 16));
        } else {
            out.push(c);
        }
        assert(out@ =~= old(out)@ + esc_prefix(s@, i + 1));
        i = i + 1;
    }
    assert(out@ =~= old(out)@ + spec_escape(s@));
}

/// Appends a quoted, escaped JSON string literal for `s`.
pub fn append_quoted(out: &mut String, s: &str)
    ensures
        final(out)@ == old(out)@ + spec_quoted(s@),
{
    out.push('"');
    append_escaped(out, s);
    out.push('"');
    assert(out@ =~= old(out)@ + spec_quoted(s@));
}

/// Appends the decimal text of a signed integer.
pub fn append_i64(out: &mut String, n: i64)
    ensures
        final(out)@ == old(out)@ + spec_enc_i64(n),
{
    if n < 0 {
        out.push('-');
        let mag: u64 = if n == i64::MIN {
            9223372036854775808u64
        } else {
            (-n) as u64
        };
        assert(mag as nat == (-(n as int)) as nat);
        append_u64(out, mag);
        assert(out@ =~= old(out)@ + spec_enc_i64(n));
    } else {
        append_u64(out, n as u64);
    }
}

/// Appends the canonical text of a JSON value.
pub fn append_json(out: &mut String, j: &Json)
    ensures
        final(out)@ == old(out)@ + spec_enc(j@),
    decreases j,
{
    match j {
        Json::Null => {
            out.push('n');
            out.push('u');
            out.push('l');
            out.push('l');
            assert(out@ =~= old(out)@ + spec_enc(j@));
        },
        Json::Bool(b) => {
            if *b {
                out.push('t');
                out.push('r');
                out.push('u');
                out.push('e');
            } else {
                out.push('f');
                out.push('a');
                out.push('l');
                out.push('s');
                out.push('e');
            }
            assert(out@ =~= old(out)@ + spec_enc(j@));
        },
        Json::Int(n) => {
            append_i64(out, *n);
        },
        Json::Num(s) => {
            out.append(s.as_str());
        },
        Json::Str(s) => {
            append_quoted(out, s.as_str());
        },
        Json::Arr(v) => {
            let ghost vs = jview_list(v@, v@.len() as int);
            proof {
                lemma_jview_list_len(v@, v@.len() as int);
            }
            out.push('[');
            let mut i: usize = 0;
            while i < v.len()
                invariant
                    i <= v@.len(),
                    *j == Json::Arr(*v),
                    vs == jview_list(v@, v@.len() as int),
                    vs.len() == v@.len(),
                    out@ == old(out)@ + seq!['['] + spec_enc_elems(vs, i as int),
                decreases v@.len() - i,
            {
                proof {
                    assert(decreases_to!(*j => j->Arr_0));
                    assert(decreases_to!(*j => *v));
                    assert(decreases_to!(*v => v@));
                    assert(decreases_to!(v@ => v@[i as int]));
                }
                if i > 0 {
                    out.push(',');
                }
                append_json(out, &v[i]);
                proof {
                    lemma_jview_list_index(v@, v@.len() as int, i as int);
                    if i == 0 {
                        assert(spec_enc_elems(vs, 1) == spec_enc(vs[0]));
                        assert(out@ =~= old(out)@ + seq!['['] + spec_enc_elems(vs, i + 1));
                    } else {
                        assert(spec_enc_elems(vs, i + 1) == spec_enc_elems(vs, i as int) + seq![
                            ','
                        ] + spec_enc(vs[i as int]));
                        assert(out@ =~= old(out)@ + seq!['['] + spec_enc_elems(vs, i + 1));
                    }
                }
                i = i + 1;
            }
            out.push(']');
            assert(out@ =~= old(out)@ + spec_enc(j@));
        },
        Json::Obj(m) => {
            let ghost ms = jview_members(m@, m@.len() as int);
            proof {
                lemma_jview_members_len(m@, m@.len() as int);
            }
            out.push('{');
            let mut i: usize = 0;
            while i < m.len()
                invariant
                    i <= m@.len(),
                    *j == Json::Obj(*m),
                    ms == jview_members(m@, m@.len() as int),
                    ms.len() == m@.len(),
                    out@ == old(out)@ + seq!['{'] + spec_enc_members(ms, i as int),
                decreases m@.len() - i,
            {
                proof {
                    assert(decreases_to!(*j => j->Obj_0));
                    assert(decreases_to!(*j => *m));
                    assert(decreases_to!(*m => m@));
                    assert(decreases_to!(m@ => m@[i as int]));
                    assert(decreases_to!(m@[i as int] => m@[i as int].1));
                }
                if i > 0 {
                    out.push(',');
                }
                append_quoted(out, m[i].0.as_str());
                out.push(':');
                append_json(out, &m[i].1);
                proof {
                    lemma_jview_members_index(m@, m@.len() as int, i as int);
                    if i == 0 {
                        assert(spec_enc_members(ms, 1) == spec_quoted(ms[0].0) + seq![':']
                            + spec_enc(ms[0].1));
                        assert(out@ =~= old(out)@ + seq!['{'] + spec_enc_members(ms, i + 1));
                    } else {
                        assert(spec_enc_members(ms, i + 1) == spec_enc_members(ms, i as int)
                            + seq![','] + spec_quoted(ms[i as int].0) + seq![':'] + spec_enc(
                            ms[i as int].1,
                        ));
                        assert(out@ =~= old(out)@ + seq!['{'] + spec_enc_members(ms, i + 1));
                    }
                }
                i = i + 1;
            }
            out.push('}');
            assert(out@ =~= old(out)@ + spec_enc(j@));
        },
    }
}

/// The canonical text of a JSON value as a fresh string.
pub fn encode_json(j: &Json) -> (r: String)
    ensures
        r@ == spec_enc(j@),
{
    let mut out = String::new();
    append_json(&mut out, j);
    assert(out@ =~= spec_enc(j@));
    out
}

} // verus!

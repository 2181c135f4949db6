//! The library's own JSON value: what a frame holds once parsed, and what
//! outbound frames are built from. Objects keep their members in order.

use vstd::prelude::*;

verus! {

/// A JSON value. Non-integer numbers carry their literal text, so the
/// library itself holds no floating point.
#[derive(Debug)]
pub enum Json {
    Null,
    Bool(bool),
    Int(i64),
    /// A numeric literal that is not a plain integer, as decimal text.
    Num(String),
    Str(String),
    Arr(Vec<Json>),
    Obj(Vec<(String, Json)>),
}

/// The mathematical shape of a JSON value: strings as character sequences,
/// collections as sequences.
#[verifier::ext_equal]
pub ghost enum JsonV {
    Null,
    Bool(bool),
    Int(i64),
    Num(Seq<char>),
    Str(Seq<char>),
    Arr(Seq<JsonV>),
    Obj(Seq<(Seq<char>, JsonV)>),
}

/// The views of the first `i` values of `s`, in order.
pub open spec fn jview_list(s: Seq<Json>, i: int) -> Seq<JsonV>
    decreases s, i,
{
    if i <= 0 || i > s.len() {
        Seq::empty()
    } else {
        jview_list(s, i - 1).push(jview(s[i - 1]))
    }
}

/// The views of the first `i` members of `s`, in order.
pub open spec fn jview_members(s: Seq<(String, Json)>, i: int) -> Seq<(Seq<char>, JsonV)>
    decreases s, i,
{
    if i <= 0 || i > s.len() {
        Seq::empty()
    } else {
        jview_members(s, i - 1).push((s[i - 1].0@, jview(s[i - 1].1)))
    }
}

/// The view of a JSON value.
pub open spec fn jview(j: Json) -> JsonV
    decreases j, 0int,
{
    match j {
        Json::Null => JsonV::Null,
        Json::Bool(b) => JsonV::Bool(b),
        Json::Int(n) => JsonV::Int(n),
        Json::Num(s) => JsonV::Num(s@),
        Json::Str(s) => JsonV::Str(s@),
        Json::Arr(v) => JsonV::Arr(jview_list(v@, v@.len() as int)),
        Json::Obj(m) => JsonV::Obj(jview_members(m@, m@.len() as int)),
    }
}

impl View for Json {
    type V = JsonV;

    open spec fn view(&self) -> JsonV {
        jview(*self)
    }
}

pub broadcast proof fn lemma_jview_list_index(s: Seq<Json>, i: int, k: int)
    requires
        0 <= i <= s.len(),
        0 <= k < i,
    ensures
        #[trigger] jview_list(s, i)[k] == jview(s[k]),
        jview_list(s, i).len() == i,
    decreases i,
{
    lemma_jview_list_len(s, i);
    if k < i - 1 {
        lemma_jview_list_index(s, i - 1, k);
    } else {
        lemma_jview_list_len(s, i - 1);
    }
}

pub broadcast proof fn lemma_jview_list_len(s: Seq<Json>, i: int)
    requires
        0 <= i <= s.len(),
    ensures
        (#[trigger] jview_list(s, i)).len() == i,
    decreases i,
{
    if i > 0 {
        lemma_jview_list_len(s, i - 1);
    }
}

pub broadcast proof fn lemma_jview_members_index(s: Seq<(String, Json)>, i: int, k: int)
    requires
        0 <= i <= s.len(),
        0 <= k < i,
    ensures
        #[trigger] jview_members(s, i)[k] == (s[k].0@, jview(s[k].1)),
        jview_members(s, i).len() == i,
    decreases i,
{
    lemma_jview_members_len(s, i);
    if k < i - 1 {
        lemma_jview_members_index(s, i - 1, k);
    } else {
        lemma_jview_members_len(s, i - 1);
    }
}

pub broadcast proof fn lemma_jview_members_len(s: Seq<(String, Json)>, i: int)
    requires
        0 <= i <= s.len(),
    ensures
        (#[trigger] jview_members(s, i)).len() == i,
    decreases i,
{
    if i > 0 {
        lemma_jview_members_len(s, i - 1);
    }
}

/// Characters allowed in a numeric literal.
pub open spec fn is_num_char(c: char) -> bool {
    c == '0' || c == '1' || c == '2' || c == '3' || c == '4' || c == '5' || c == '6' || c == '7'
        || c == '8' || c == '9' || c == '.' || c == '-' || c == '+' || c == 'e' || c == 'E'
}

/// Well-formedness: every numeric literal in the value is nonempty and made
/// of numeric characters only, so that it can be emitted raw.
pub open spec fn json_wf(j: JsonV) -> bool
    decreases j, 0int,
{
    match j {
        JsonV::Null => true,
        JsonV::Bool(_) => true,
        JsonV::Int(_) => true,
        JsonV::Num(s) => s.len() > 0 && (forall|i: int| 0 <= i < s.len() ==> is_num_char(s[i])),
        JsonV::Str(_) => true,
        JsonV::Arr(v) => forall|i: int| 0 <= i < v.len() ==> json_wf(#[trigger] v[i]),
        JsonV::Obj(m) => forall|i: int| 0 <= i < m.len() ==> json_wf(#[trigger] m[i].1),
    }
}

/// Hexadecimal digit character for a value below sixteen.
pub open spec fn spec_hex(d: int) -> char {
    if d == 0 {
        '0'
    } else if d == 1 {
        '1'
    } else if d == 2 {
        '2'
    } else if d == 3 {
        '3'
    } else if d == 4 {
        '4'
    } else if d == 5 {
        '5'
    } else if d == 6 {
        '6'
    } else if d == 7 {
        '7'
    } else if d == 8 {
        '8'
    } else if d == 9 {
        '9'
    } else if d == 10 {
        'a'
    } else if d == 11 {
        'b'
    } else if d == 12 {
        'c'
    } else if d == 13 {
        'd'
    } else if d == 14 {
        'e'
    } else {
        'f'
    }
}

/// The escape of one character inside a JSON string literal.
pub open spec fn esc_char(c: char) -> Seq<char> {
    if c == '"' {
        seq!['\\', '"']
    } else if c == '\\' {
        seq!['\\', '\\']
    } else if c == '\n' {
        seq!['\\', 'n']
    } else if c == '\r' {
        seq!['\\', 'r']
    } else if c == '\t' {
        seq!['\\', 't']
    } else if (c as u32) < 32 {
        seq!['\\', 'u', '0', '0', spec_hex(c as u32 as int / 16), spec_hex(c as u32 as int % 16)]
    } else {
        seq![c]
    }
}

/// The escape of the first `i` characters of `s`.
pub open spec fn esc_prefix(s: Seq<char>, i: int) -> Seq<char>
    decreases i,
{
    if i <= 0 {
        Seq::empty()
    } else {
        esc_prefix(s, i - 1) + esc_char(s[i - 1])
    }
}

/// The escaped body of a JSON string literal.
pub open spec fn spec_escape(s: Seq<char>) -> Seq<char> {
    esc_prefix(s, s.len() as int)
}

/// A quoted JSON string literal.
pub open spec fn spec_quoted(s: Seq<char>) -> Seq<char> {
    seq!['"'] + spec_escape(s) + seq!['"']
}

/// The decimal text of a signed integer.
pub open spec fn spec_enc_i64(n: i64) -> Seq<char> {
    if n < 0 {
        seq!['-'] + crate::strutil::spec_dec((-(n as int)) as nat)
    } else {
        crate::strutil::spec_dec(n as nat)
    }
}

/// The canonical text of a JSON value, as this library emits it.
pub open spec fn spec_enc(j: JsonV) -> Seq<char>
    decreases j, 0int,
{
    match j {
        JsonV::Null => seq!['n', 'u', 'l', 'l'],
        JsonV::Bool(b) => if b {
            seq!['t', 'r', 'u', 'e']
        } else {
            seq!['f', 'a', 'l', 's', 'e']
        },
        JsonV::Int(n) => spec_enc_i64(n),
        JsonV::Num(s) => s,
        JsonV::Str(s) => spec_quoted(s),
        JsonV::Arr(v) => seq!['['] + spec_enc_elems(v, v.len() as int) + seq![']'],
        JsonV::Obj(m) => seq!['{'] + spec_enc_members(m, m.len() as int) + seq!['}'],
    }
}

/// The first `i` array elements, comma separated.
pub open spec fn spec_enc_elems(s: Seq<JsonV>, i: int) -> Seq<char>
    decreases s, i,
{
    if i <= 0 || i > s.len() {
        Seq::empty()
    } else if i == 1 {
        spec_enc(s[0])
    } else {
        spec_enc_elems(s, i - 1) + seq![','] + spec_enc(s[i - 1])
    }
}

/// The first `i` object members, comma separated.
pub open spec fn spec_enc_members(s: Seq<(Seq<char>, JsonV)>, i: int) -> Seq<char>
    decreases s, i,
{
    if i <= 0 || i > s.len() {
        Seq::empty()
    } else if i == 1 {
        spec_quoted(s[0].0) + seq![':'] + spec_enc(s[0].1)
    } else {
        spec_enc_members(s, i - 1) + seq![','] + spec_quoted(s[i - 1].0) + seq![':'] + spec_enc(
            s[i - 1].1,
        )
    }
}

impl Clone for Json {
    /// A deep copy whose view equals the original's.
    fn clone(&self) -> (r: Self)
        ensures
            r@ == self@,
        decreases self,
    {
        match self {
            Json::Null => Json::Null,
            Json::Bool(b) => Json::Bool(*b),
            Json::Int(n) => Json::Int(*n),
            Json::Num(s) => Json::Num(s.clone()),
            Json::Str(s) => Json::Str(s.clone()),
            Json::Arr(v) => {
                let mut out: Vec<Json> = Vec::new();
                let mut i: usize = 0;
                while i < v.len()
                    invariant
                        i <= v@.len(),
                        *self == Json::Arr(*v),
                        out@.len() == i,
                        forall|k: int| 0 <= k < i ==> jview(#[trigger] out@[k]) == jview(v@[k]),
                    decreases v@.len() - i,
                {
                    proof {
                        assert(decreases_to!(*self => self->Arr_0));
                        assert(decreases_to!(*self => *v));
                        assert(decreases_to!(*v => v@));
                        assert(decreases_to!(v@ => v@[i as int]));
                    }
                    out.push(v[i].clone());
                    i = i + 1;
                }
                let r = Json::Arr(out);
                proof {
                    lemma_jview_lists_equal(out@, v@);
                }
                r
            },
            Json::Obj(m) => {
                let mut out: Vec<(String, Json)> = Vec::new();
                let mut i: usize = 0;
                while i < m.len()
                    invariant
                        i <= m@.len(),
                        *self == Json::Obj(*m),
                        out@.len() == i,
                        forall|k: int| 0 <= k < i ==> (#[trigger] out@[k]).0@ == m@[k].0@ && jview(
                            out@[k].1,
                        ) == jview(m@[k].1),
                    decreases m@.len() - i,
                {
                    proof {
                        assert(decreases_to!(*self => self->Obj_0));
                        assert(decreases_to!(*self => *m));
                        assert(decreases_to!(*m => m@));
                        assert(decreases_to!(m@ => m@[i as int]));
                        assert(decreases_to!(m@[i as int] => m@[i as int].1));
                    }
                    let k = m[i].0.clone();
                    let val = m[i].1.clone();
                    out.push((k, val));
                    i = i + 1;
                }
                let r = Json::Obj(out);
                proof {
                    lemma_jview_member_lists_equal(out@, m@);
                }
                r
            },
        }
    }
}

/// Two element vectors with pointwise equal views have equal view lists.
proof fn lemma_jview_lists_equal(a: Seq<Json>, b: Seq<Json>)
    requires
        a.len() == b.len(),
        forall|k: int| 0 <= k < a.len() ==> jview(#[trigger] a[k]) == jview(b[k]),
    ensures
        jview_list(a, a.len() as int) =~= jview_list(b, b.len() as int),
{
    let n = a.len() as int;
    lemma_jview_list_len(a, n);
    lemma_jview_list_len(b, n);
    assert forall|k: int| 0 <= k < n implies jview_list(a, n)[k] == jview_list(b, n)[k] by {
        lemma_jview_list_index(a, n, k);
        lemma_jview_list_index(b, n, k);
    }
}

/// Two member vectors with pointwise equal key views and value views have
/// equal view lists.
proof fn lemma_jview_member_lists_equal(a: Seq<(String, Json)>, b: Seq<(String, Json)>)
    requires
        a.len() == b.len(),
        forall|k: int| 0 <= k < a.len() ==> (#[trigger] a[k]).0@ == b[k].0@ && jview(a[k].1)
            == jview(b[k].1),
    ensures
        jview_members(a, a.len() as int) =~= jview_members(b, b.len() as int),
{
    let n = a.len() as int;
    lemma_jview_members_len(a, n);
    lemma_jview_members_len(b, n);
    assert forall|k: int| 0 <= k < n implies jview_members(a, n)[k] == jview_members(b, n)[k] by {
        lemma_jview_members_index(a, n, k);
        lemma_jview_members_index(b, n, k);
    }
}

/// The view list of an element vector, fully described.
pub proof fn lemma_list_view(s: Seq<Json>)
    ensures
        jview_list(s, s.len() as int).len() == s.len(),
        forall|k: int|
            0 <= k < s.len() ==> #[trigger] jview_list(s, s.len() as int)[k] == jview(s[k]),
{
    lemma_jview_list_len(s, s.len() as int);
    assert forall|k: int| 0 <= k < s.len() implies #[trigger] jview_list(s, s.len() as int)[k]
        == jview(s[k]) by {
        lemma_jview_list_index(s, s.len() as int, k);
    }
}

/// The view list of a member vector, fully described.
pub proof fn lemma_members_view(s: Seq<(String, Json)>)
    ensures
        jview_members(s, s.len() as int).len() == s.len(),
        forall|k: int|
            0 <= k < s.len() ==> #[trigger] jview_members(s, s.len() as int)[k] == (s[k].0@,
            jview(s[k].1)),
{
    lemma_jview_members_len(s, s.len() as int);
    assert forall|k: int| 0 <= k < s.len() implies #[trigger] jview_members(s, s.len() as int)[k]
        == (s[k].0@, jview(s[k].1)) by {
        lemma_jview_members_index(s, s.len() as int, k);
    }
}

/// The value of `key` in an object member list: the first member with that
/// key, if any.
pub open spec fn spec_lookup(m: Seq<(Seq<char>, JsonV)>, key: Seq<char>) -> Option<JsonV>
    decreases m.len(),
{
    if m.len() == 0 {
        Option::None
    } else if m[0].0 == key {
        Option::Some(m[0].1)
    } else {
        spec_lookup(m.drop_first(), key)
    }
}

impl Json {
    /// Whether this value is an object.
    pub fn is_obj(&self) -> (r: bool)
        ensures
            r == (self@ is Obj),
    {
        match self {
            Json::Obj(_) => true,
            _ => false,
        }
    }

    /// Looks a key up in an object; `None` on other shapes or a missing key.
    pub fn get<'a>(&'a self, key: &str) -> (r: Option<&'a Json>)
        ensures
            match self@ {
                JsonV::Obj(m) => match r {
                    Option::Some(v) => spec_lookup(m, key@) == Option::Some(v@),
                    Option::None => spec_lookup(m, key@) is None,
                },
                _ => r is None,
            },
    {
        match self {
            Json::Obj(m) => {
                proof {
                    lemma_jview_members_len(m@, m@.len() as int);
                }
                let mut i: usize = 0;
                while i < m.len()
                    invariant
                        i <= m@.len(),
                        *self == Json::Obj(*m),
                        forall|k: int| 0 <= k < i ==> (#[trigger] m@[k].0@) != key@,
                    decreases m@.len() - i,
                {
                    if crate::strutil::str_eq(m[i].0.as_str(), key) {
                        proof {
                            lemma_jview_members_index(m@, m@.len() as int, i as int);
                            assert forall|k: int| 0 <= k < i implies (#[trigger] jview_members(
                                m@,
                                m@.len() as int,
                            )[k]).0 != key@ by {
                                lemma_jview_members_index(m@, m@.len() as int, k);
                            }
                            lemma_lookup_hit(jview_members(m@, m@.len() as int), key@, i as int);
                        }
                        return Option::Some(&m[i].1);
                    }
                    i = i + 1;
                }
                proof {
                    assert forall|k: int| 0 <= k < jview_members(m@, m@.len() as int).len() implies (
                    #[trigger] jview_members(m@, m@.len() as int)[k]).0 != key@ by {
                        lemma_jview_members_index(m@, m@.len() as int, k);
                    }
                    lemma_lookup_miss(jview_members(m@, m@.len() as int), key@);
                }
                Option::None
            },
            _ => Option::None,
        }
    }
}

/// If the first `i` keys miss and member `i` hits, the lookup returns member
/// `i`'s value.
proof fn lemma_lookup_hit(m: Seq<(Seq<char>, JsonV)>, key: Seq<char>, i: int)
    requires
        0 <= i < m.len(),
        m[i].0 == key,
        forall|k: int| 0 <= k < i ==> (#[trigger] m[k].0) != key,
    ensures
        spec_lookup(m, key) == Option::Some(m[i].1),
    decreases i,
{
    if i > 0 {
        lemma_lookup_hit(m.drop_first(), key, i - 1);
    }
}

/// If every key misses, the lookup returns nothing.
proof fn lemma_lookup_miss(m: Seq<(Seq<char>, JsonV)>, key: Seq<char>)
    requires
        forall|k: int| 0 <= k < m.len() ==> (#[trigger] m[k].0) != key,
    ensures
        spec_lookup(m, key) is None,
    decreases m.len(),
{
    if m.len() > 0 {
        lemma_lookup_miss(m.drop_first(), key);
    }
}

} // verus!

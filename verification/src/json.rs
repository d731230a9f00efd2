//! The crate's own JSON tree, its mathematical model, and the bridge to the
//! `serde_json` parser.
//!
//! Inbound gateway events arrive as JSON bytes. Parsing is done by
//! `serde_json` behind trusted wrappers; everything that walks or emits the
//! tree afterwards is verified against the model [`JsonData`].

use vstd::prelude::*;
use vstd::string::StringExecFns;
use crate::strutil::chars_to_string;
use crate::strutil::to_chars;

verus! {

/// Mathematical model of a JSON document.
///
/// Numbers keep their decimal text; object entries keep the order in which
/// they were produced (a parsed object has unique keys).
pub enum JsonData {
    Null,
    Bool(bool),
    Num(Seq<char>),
    Str(Seq<char>),
    Arr(Seq<JsonData>),
    Obj(Seq<(Seq<char>, JsonData)>),
}

/// A JSON value, as decoded from a request body or built by a handler.
#[derive(Debug)]
pub enum JsonValue {
    Null,
    Bool(bool),
    Num(String),
    Str(String),
    Arr(Vec<JsonValue>),
    Obj(Vec<(String, JsonValue)>),
}

/// The model of an executable JSON value.
pub open spec fn json_view(v: JsonValue) -> JsonData
    decreases v, 1int,
{
    match v {
        JsonValue::Null => JsonData::Null,
        JsonValue::Bool(b) => JsonData::Bool(b),
        JsonValue::Num(s) => JsonData::Num(s@),
        JsonValue::Str(s) => JsonData::Str(s@),
        JsonValue::Arr(vs) => JsonData::Arr(json_view_seq(vs@)),
        JsonValue::Obj(es) => JsonData::Obj(json_view_entries(es@)),
    }
}

/// The models of the elements of an array.
pub open spec fn json_view_seq(vs: Seq<JsonValue>) -> Seq<JsonData>
    decreases vs, 0int,
{
    if vs.len() == 0 {
        Seq::empty()
    } else {
        json_view_seq(vs.subrange(0, vs.len() - 1)).push(json_view(vs[vs.len() - 1]))
    }
}

/// The models of the entries of an object.
pub open spec fn json_view_entries(es: Seq<(String, JsonValue)>) -> Seq<(Seq<char>, JsonData)>
    decreases es, 0int,
{
    if es.len() == 0 {
        Seq::empty()
    } else {
        json_view_entries(es.subrange(0, es.len() - 1)).push(
            (es[es.len() - 1].0@, json_view(es[es.len() - 1].1)),
        )
    }
}

/// `json_view_seq` is the element-wise model.
pub proof fn lemma_json_view_seq(vs: Seq<JsonValue>)
    ensures
        json_view_seq(vs).len() == vs.len(),
        forall|i: int| 0 <= i < vs.len() ==> json_view_seq(vs)[i] == json_view(vs[i]),
    decreases vs.len(),
{
    if vs.len() > 0 {
        lemma_json_view_seq(vs.subrange(0, vs.len() - 1));
    }
}

/// `json_view_entries` is the entry-wise model.
pub proof fn lemma_json_view_entries(es: Seq<(String, JsonValue)>)
    ensures
        json_view_entries(es).len() == es.len(),
        forall|i: int| 0 <= i < es.len() ==> json_view_entries(es)[i] == (
            es[i].0@,
            json_view(es[i].1),
        ),
    decreases es.len(),
{
    if es.len() > 0 {
        lemma_json_view_entries(es.subrange(0, es.len() - 1));
    }
}

impl View for JsonValue {
    type V = JsonData;

    open spec fn view(&self) -> JsonData {
        json_view(*self)
    }
}

#[verifier::external_type_specification]
#[verifier::external_body]
pub struct ExSerdeJsonValue(serde_json::Value);

/// The JSON tree held by a `serde_json::Value`.
pub uninterp spec fn json_model(v: serde_json::Value) -> JsonData;

/// What parsing a byte sequence as a JSON document yields: `None` exactly on
/// malformed input.
pub uninterp spec fn json_of(b: Seq<u8>) -> Option<JsonData>;

/// Relies on `serde_json::from_slice::<serde_json::Value>`: the result is a
/// function of the input bytes alone, and parsing fails exactly on input
/// that is not a JSON document.
#[verifier::external_body]
fn parse_json_value(b: &[u8]) -> (r: Result<serde_json::Value, ()>)
    ensures
        r matches Ok(v) ==> json_of(b@) == Some(json_model(v)),
        r is Err ==> json_of(b@) is None,
{
    serde_json::from_slice::<serde_json::Value>(b).map_err(|_| ())
}

/// Relies on the public variants of `serde_json::Value` and on
/// `serde_json::Number::to_string`: each variant moves over to the crate's
/// own tree, numbers as their decimal text.
#[verifier::external_body]
fn value_to_json(v: &serde_json::Value) -> (r: JsonValue)
    ensures
        r@ == json_model(*v),
{
    match v {
        serde_json::Value::Null => JsonValue::Null,
        serde_json::Value::Bool(b) => JsonValue::Bool(*b),
        serde_json::Value::Number(n) => JsonValue::Num(n.to_string()),
        serde_json::Value::String(s) => JsonValue::Str(s.clone()),
        serde_json::Value::Array(vs) => JsonValue::Arr(vs.iter().map(value_to_json).collect()),
        serde_json::Value::Object(m) => JsonValue::Obj(
            m.iter().map(|(k, x)| (k.clone(), value_to_json(x))).collect(),
        ),
    }
}

/// Parse a JSON document; fails exactly on input `serde_json` rejects.
pub fn parse_json(b: &[u8]) -> (r: Result<JsonValue, ()>)
    ensures
        r matches Ok(v) ==> json_of(b@) == Some(v@),
        r is Err ==> json_of(b@) is None,
{
    match parse_json_value(b) {
        Ok(v) => Ok(value_to_json(&v)),
        Err(_) => Err(()),
    }
}

/// The value at `k` among object entries, the last occurrence winning
/// (a parsed object has unique keys, so the choice is moot there).
pub open spec fn obj_lookup(es: Seq<(Seq<char>, JsonData)>, k: Seq<char>) -> Option<JsonData>
    decreases es.len(),
{
    if es.len() == 0 {
        None
    } else if es.last().0 == k {
        Some(es.last().1)
    } else {
        obj_lookup(es.drop_last(), k)
    }
}

/// Scanning one more entry from the front extends a lookup.
proof fn lemma_obj_lookup_take(es: Seq<(Seq<char>, JsonData)>, k: Seq<char>, i: int)
    requires
        0 <= i < es.len(),
    ensures
        obj_lookup(es.take(i + 1), k) == if es[i].0 == k {
            Some(es[i].1)
        } else {
            obj_lookup(es.take(i), k)
        },
{
    assert(es.take(i + 1).drop_last() =~= es.take(i));
    assert(es.take(i + 1).last() == es[i]);
}

impl JsonValue {
    /// The entry named `k` of an object, the last occurrence winning;
    /// `None` when absent or when `self` is not an object.
    pub fn get<'a>(&'a self, k: &str) -> (r: Option<&'a JsonValue>)
        ensures
            match r {
                Some(v) => self@ matches JsonData::Obj(es) && obj_lookup(es, k@) == Some(v@),
                None => !(self@ matches JsonData::Obj(es) && obj_lookup(es, k@) is Some),
            },
    {
        match self {
            JsonValue::Obj(es) => {
                let ghost model = json_view_entries(es@);
                proof {
                    lemma_json_view_entries(es@);
                    assert(model.take(es@.len() as int) =~= model);
                    assert(self@ == JsonData::Obj(model));
                }
                let key = key_string(k);
                let n = es.len();
                let mut i: usize = n;
                while i > 0
                    invariant
                        i <= n,
                        n == es@.len(),
                        key@ == k@,
                        model == json_view_entries(es@),
                        self@ == JsonData::Obj(model),
                        model.len() == n,
                        forall|j: int| 0 <= j < n ==> model[j] == (es@[j].0@, json_view(es@[j].1)),
                        obj_lookup(model, k@) == obj_lookup(model.take(i as int), k@),
                    decreases i,
                {
                    i -= 1;
                    proof {
                        lemma_obj_lookup_take(model, k@, i as int);
                    }
                    if es[i].0.eq(&key) {
                        return Some(&es[i].1);
                    }
                }
                proof {
                    assert(model.take(0) =~= Seq::<(Seq<char>, JsonData)>::empty());
                }
                None
            },
            _ => None,
        }
    }
}

/// Make an owned `String` from a key so that verified code can compare it.
fn key_string(k: &str) -> (r: String)
    ensures
        r@ == k@,
{
    String::from_str(k)
}

/// The lower-case hexadecimal digit for `n < 16`.
pub open spec fn hex_digit(n: u32) -> char
    recommends
        n < 16,
{
    if n < 10 {
        (('0' as u32) + n) as char
    } else {
        (('a' as u32) + (n - 10)) as char
    }
}

/// How one character appears inside a JSON string: quote, backslash and
/// control characters are escaped exactly as the wire format's writer does.
pub open spec fn escape_char(c: char) -> Seq<char> {
    if c == '"' {
        seq!['\\', '"']
    } else if c == '\\' {
        seq!['\\', '\\']
    } else if c == '\u{8}' {
        seq!['\\', 'b']
    } else if c == '\t' {
        seq!['\\', 't']
    } else if c == '\n' {
        seq!['\\', 'n']
    } else if c == '\u{c}' {
        seq!['\\', 'f']
    } else if c == '\r' {
        seq!['\\', 'r']
    } else if (c as u32) < 32 {
        seq!['\\', 'u', '0', '0', hex_digit((c as u32) / 16), hex_digit((c as u32) % 16)]
    } else {
        seq![c]
    }
}

/// The body of a JSON string: every character escaped in order.
pub open spec fn escape_chars(s: Seq<char>) -> Seq<char>
    decreases s.len(),
{
    if s.len() == 0 {
        Seq::empty()
    } else {
        escape_chars(s.subrange(0, s.len() - 1)) + escape_char(s[s.len() - 1])
    }
}

/// A JSON string token: the escaped body between double quotes.
pub open spec fn json_str_token(s: Seq<char>) -> Seq<char> {
    seq!['"'] + escape_chars(s) + seq!['"']
}

/// The serialized text of a JSON document: numbers verbatim, strings
/// escaped, arrays and objects comma-separated without added whitespace.
pub open spec fn json_text(j: JsonData) -> Seq<char>
    decreases j, 1int,
{
    match j {
        JsonData::Null => seq!['n', 'u', 'l', 'l'],
        JsonData::Bool(b) => if b {
            seq!['t', 'r', 'u', 'e']
        } else {
            seq!['f', 'a', 'l', 's', 'e']
        },
        JsonData::Num(s) => s,
        JsonData::Str(s) => json_str_token(s),
        JsonData::Arr(vs) => seq!['['] + json_list_text(vs) + seq![']'],
        JsonData::Obj(es) => seq!['{'] + json_entries_text(es) + seq!['}'],
    }
}

/// The serialized elements of an array, comma-separated.
pub open spec fn json_list_text(vs: Seq<JsonData>) -> Seq<char>
    decreases vs, 0int,
{
    if vs.len() == 0 {
        Seq::empty()
    } else if vs.len() == 1 {
        json_text(vs[0])
    } else {
        json_list_text(vs.subrange(0, vs.len() - 1)) + seq![','] + json_text(vs[vs.len() - 1])
    }
}

/// The serialized entries of an object, comma-separated `"key":value` pairs.
pub open spec fn json_entries_text(es: Seq<(Seq<char>, JsonData)>) -> Seq<char>
    decreases es, 0int,
{
    if es.len() == 0 {
        Seq::empty()
    } else if es.len() == 1 {
        json_str_token(es[0].0) + seq![':'] + json_text(es[0].1)
    } else {
        json_entries_text(es.subrange(0, es.len() - 1)) + seq![','] + json_str_token(
            es[es.len() - 1].0,
        ) + seq![':'] + json_text(es[es.len() - 1].1)
    }
}

/// Append the characters of `cs` to `out`.
pub fn push_chars(out: &mut Vec<char>, cs: &Vec<char>)
    ensures
        final(out)@ == old(out)@ + cs@,
{
    let ghost base = out@;
    let n = cs.len();
    let mut i: usize = 0;
    while i < n
        invariant
            i <= n,
            n == cs@.len(),
            out@ == base + cs@.take(i as int),
        decreases n - i,
    {
        out.push(cs[i]);
        assert(out@ =~= base + cs@.take(i + 1));
        i += 1;
    }
    assert(out@ =~= base + cs@);
}

/// Append the characters of a string slice to `out`.
pub fn push_str_chars(out: &mut Vec<char>, s: &str)
    ensures
        final(out)@ == old(out)@ + s@,
{
    let cs = crate::strutil::to_chars(s);
    push_chars(out, &cs);
}

/// The lower-case hexadecimal digit for `n < 16`.
fn hex_digit_char(n: u32) -> (r: char)
    requires
        n < 16,
    ensures
        r == hex_digit(n),
{
    if n < 10 {
        (48 + n as u8) as char
    } else {
        (87 + n as u8) as char
    }
}

/// Append the escaped form of the single character `c` to `out`.
fn push_escaped_char(out: &mut Vec<char>, c: char)
    ensures
        final(out)@ == old(out)@ + escape_char(c),
{
    if c == '"' {
        out.push('\\');
        out.push('"');
    } else if c == '\\' {
        out.push('\\');
        out.push('\\');
    } else if c == '\u{8}' {
        out.push('\\');
        out.push('b');
    } else if c == '\t' {
        out.push('\\');
        out.push('t');
    } else if c == '\n' {
        out.push('\\');
        out.push('n');
    } else if c == '\u{c}' {
        out.push('\\');
        out.push('f');
    } else if c == '\r' {
        out.push('\\');
        out.push('r');
    } else {
        proof {
            vstd::utf8::char_is_scalar(c);
        }
        let u = c as u32;
        if u < 32 {
            out.push('\\');
            out.push('u');
            out.push('0');
            out.push('0');
            out.push(hex_digit_char(u / 16));
            out.push(hex_digit_char(u % 16));
        } else {
            out.push(c);
        }
    }
    assert(final(out)@ =~= old(out)@ + escape_char(c));
}

/// Append the escaped body of a JSON string to `out`.
fn push_escaped(out: &mut Vec<char>, cs: &Vec<char>)
    ensures
        final(out)@ == old(out)@ + escape_chars(cs@),
{
    let ghost base = out@;
    let n = cs.len();
    let mut i: usize = 0;
    while i < n
        invariant
            i <= n,
            n == cs@.len(),
            out@ == base + escape_chars(cs@.take(i as int)),
        decreases n - i,
    {
        push_escaped_char(out, cs[i]);
        proof {
            assert(cs@.take(i + 1).subrange(0, i as int) =~= cs@.take(i as int));
            assert(cs@.take(i + 1)[i as int] == cs@[i as int]);
            assert(out@ =~= base + escape_chars(cs@.take(i + 1)));
        }
        i += 1;
    }
    assert(cs@.take(n as int) =~= cs@);
}

/// Append a JSON string token (quoted, escaped) for `s` to `out`.
pub(crate) fn push_str_token(out: &mut Vec<char>, s: &str)
    ensures
        final(out)@ == old(out)@ + json_str_token(s@),
{
    let cs = crate::strutil::to_chars(s);
    out.push('"');
    push_escaped(out, &cs);
    out.push('"');
    assert(final(out)@ =~= old(out)@ + json_str_token(s@));
}

/// Append the serialized text of `v` to `out`.
fn write_json(v: &JsonValue, out: &mut Vec<char>)
    ensures
        final(out)@ == old(out)@ + json_text(v@),
    decreases v,
{
    match v {
        JsonValue::Null => {
            out.push('n');
            out.push('u');
            out.push('l');
            out.push('l');
            assert(final(out)@ =~= old(out)@ + json_text(v@));
        },
        JsonValue::Bool(b) => {
            if *b {
                out.push('t');
                out.push('r');
                out.push('u');
                out.push('e');
            } else {
                out.push('f');
                out.push('a');
                out.push('l');
                out.push('s');
                out.push('e');
            }
            assert(final(out)@ =~= old(out)@ + json_text(v@));
        },
        JsonValue::Num(s) => {
            push_str_chars(out, s.as_str());
        },
        JsonValue::Str(s) => {
            push_str_token(out, s.as_str());
        },
        JsonValue::Arr(vs) => {
            let ghost model = json_view_seq(vs@);
            proof {
                lemma_json_view_seq(vs@);
            }
            let ghost base = out@;
            out.push('[');
            let n = vs.len();
            let mut i: usize = 0;
            while i < n
                invariant
                    i <= n,
                    n == vs@.len(),
                    model == json_view_seq(vs@),
                    model.len() == n,
                    forall|j: int| 0 <= j < n ==> model[j] == json_view(vs@[j]),
                    *v == JsonValue::Arr(*vs),
                    out@ == base + seq!['['] + json_list_text(model.take(i as int)),
                decreases n - i,
            {
                if i > 0 {
                    out.push(',');
                }
                proof {
                    assert(decreases_to!(*v => (*v)->Arr_0));
                    assert(decreases_to!(*vs => vs@));
                    assert(decreases_to!(vs@ => vs@[i as int]));
                }
                write_json(&vs[i], out);
                proof {
                    assert(model.take(i + 1).subrange(0, i as int) =~= model.take(i as int));
                    assert(out@ =~= base + seq!['['] + json_list_text(model.take(i + 1)));
                }
                i += 1;
            }
            out.push(']');
            proof {
                assert(model.take(n as int) =~= model);
                assert(out@ =~= base + json_text(v@));
            }
        },
        JsonValue::Obj(es) => {
            let ghost model = json_view_entries(es@);
            proof {
                lemma_json_view_entries(es@);
            }
            let ghost base = out@;
            out.push('{');
            let n = es.len();
            let mut i: usize = 0;
            while i < n
                invariant
                    i <= n,
                    n == es@.len(),
                    model == json_view_entries(es@),
                    model.len() == n,
                    forall|j: int| 0 <= j < n ==> model[j] == (es@[j].0@, json_view(es@[j].1)),
                    *v == JsonValue::Obj(*es),
                    out@ == base + seq!['{'] + json_entries_text(model.take(i as int)),
                decreases n - i,
            {
                if i > 0 {
                    out.push(',');
                }
                push_str_token(out, es[i].0.as_str());
                out.push(':');
                proof {
                    assert(decreases_to!(*v => (*v)->Obj_0));
                    assert(decreases_to!(*es => es@));
                    assert(decreases_to!(es@ => es@[i as int]));
                    assert(decreases_to!(es@[i as int] => es@[i as int].1));
                }
                write_json(&es[i].1, out);
                proof {
                    assert(model.take(i + 1).subrange(0, i as int) =~= model.take(i as int));
                    assert(out@ =~= base + seq!['{'] + json_entries_text(model.take(i + 1)));
                }
                i += 1;
            }
            out.push('}');
            proof {
                assert(model.take(n as int) =~= model);
                assert(out@ =~= base + json_text(v@));
            }
        },
    }
}

/// True when `c` is a decimal digit.
pub open spec fn is_digit(c: char) -> bool {
    48 <= c as u32 && c as u32 <= 57
}

/// True when `s` consists of one or more decimal digits.
pub open spec fn is_dec_digits(s: Seq<char>) -> bool {
    s.len() > 0 && forall|i: int| 0 <= i < s.len() ==> is_digit(s[i])
}

/// The numeric value of a sequence of decimal digits.
pub open spec fn dec_val(s: Seq<char>) -> nat
    recommends
        forall|i: int| 0 <= i < s.len() ==> is_digit(s[i]),
    decreases s.len(),
{
    if s.len() == 0 {
        0
    } else {
        dec_val(s.subrange(0, s.len() - 1)) * 10 + (if s[s.len() - 1] as u32 >= 48 {
            (s[s.len() - 1] as u32 - 48) as nat
        } else {
            0
        })
    }
}

/// A longer digit prefix never has a smaller value.
proof fn lemma_dec_val_prefix_le(s: Seq<char>, k: int)
    requires
        0 <= k <= s.len(),
    ensures
        dec_val(s.take(k)) <= dec_val(s),
    decreases s.len() - k,
{
    if k < s.len() {
        assert(s.take(k + 1).subrange(0, k) =~= s.take(k));
        assert(dec_val(s.take(k + 1)) >= dec_val(s.take(k)));
        lemma_dec_val_prefix_le(s, k + 1);
        assert(s.take(s.len() as int) =~= s);
    } else {
        assert(s.take(k) =~= s);
    }
}

impl JsonValue {
    /// The value of a `Num` whose text is a plain decimal integer fitting
    /// in `u64`; `None` for anything else.
    pub fn as_u64(&self) -> (r: Option<u64>)
        ensures
            match r {
                Some(n) => self@ matches JsonData::Num(s) && is_dec_digits(s) && dec_val(s)
                    == n as nat,
                None => !(self@ matches JsonData::Num(s) && is_dec_digits(s) && dec_val(s)
                    <= u64::MAX),
            },
    {
        match self {
            JsonValue::Num(num) => {
                let cs = to_chars(num.as_str());
                let n = cs.len();
                if n == 0 {
                    return None;
                }
                let mut acc: u64 = 0;
                let mut i: usize = 0;
                while i < n
                    invariant
                        i <= n,
                        0 < n == cs@.len(),
                        self@ == JsonData::Num(cs@),
                        forall|j: int| 0 <= j < i ==> is_digit(cs@[j]),
                        acc as nat == dec_val(cs@.take(i as int)),
                    decreases n - i,
                {
                    let c = cs[i];
                    proof {
                        vstd::utf8::char_is_scalar(c);
                    }
                    let u = c as u32;
                    if u < 48 || u > 57 {
                        return None;
                    }
                    let d: u64 = (u - 48) as u64;
                    let next = match acc.checked_mul(10) {
                        Some(x) => x.checked_add(d),
                        None => None,
                    };
                    proof {
                        let t = cs@.take(i + 1);
                        assert(t.len() == i + 1);
                        assert(t.subrange(0, t.len() - 1) =~= cs@.take(i as int));
                        assert(t[t.len() - 1] == c);
                        assert(dec_val(t) == dec_val(t.subrange(0, t.len() - 1)) * 10 + (
                        if t[t.len() - 1] as u32 >= 48 {
                            (t[t.len() - 1] as u32 - 48) as nat
                        } else {
                            0
                        }));
                        assert(dec_val(cs@.take(i + 1)) == dec_val(cs@.take(i as int)) * 10 + d);
                    }
                    match next {
                        Some(x) => {
                            acc = x;
                        },
                        None => {
                            proof {
                                lemma_dec_val_prefix_le(cs@, i + 1);
                            }
                            return None;
                        },
                    }
                    i += 1;
                }
                proof {
                    assert(cs@.take(n as int) =~= cs@);
                }
                Some(acc)
            },
            _ => None,
        }
    }

    /// Serialize to the document's JSON text.
    pub fn to_json_string(&self) -> (r: String)
        ensures
            r@ == json_text(self@),
    {
        let mut out: Vec<char> = Vec::new();
        write_json(self, &mut out);
        chars_to_string(&out)
    }
}

} // verus!

//! Content-type–driven payload negotiation for canonical requests.

use vstd::prelude::*;
use crate::json::{json_of, parse_json, JsonValue};
use crate::request::Request;
use crate::strmap::{collapse, pairs_to_map, str_pairs_view, unique_keys, StrMap};
use crate::strutil::{chars_eq_ignore_ascii_case, eq_ignore_ascii_case, to_chars};

verus! {

broadcast use vstd::string::group_string_axioms;

/// Payload deserialization errors.
#[derive(Debug, PartialEq, Eq, Structural, Clone, Copy)]
pub enum PayloadError {
    /// Returned when an `application/json` body fails to parse.
    Json,
    /// Returned when an `application/x-www-form-urlencoded` body fails to
    /// parse.
    WwwFormUrlEncoded,
}

/// A structured payload decoded from a request body.
#[derive(Debug)]
pub enum Payload {
    /// The body of an `application/json` request.
    Json(JsonValue),
    /// The body of an `application/x-www-form-urlencoded` request.
    Form(StrMap),
}

/// The value of the first header with the given name in any ASCII case.
pub open spec fn first_header(hs: Seq<(Seq<char>, Seq<char>)>, name: Seq<char>) -> Option<
    Seq<char>,
>
    decreases hs.len(),
{
    if hs.len() == 0 {
        None
    } else if eq_ignore_ascii_case(hs.first().0, name) {
        Some(hs.first().1)
    } else {
        first_header(hs.drop_first(), name)
    }
}

/// Scanning past non-matching headers keeps the lookup.
proof fn lemma_first_header_skip(hs: Seq<(Seq<char>, Seq<char>)>, name: Seq<char>, i: int)
    requires
        0 <= i <= hs.len(),
        forall|j: int| 0 <= j < i ==> !eq_ignore_ascii_case(hs[j].0, name),
    ensures
        first_header(hs, name) == first_header(hs.skip(i), name),
    decreases i,
{
    if i > 0 {
        lemma_first_header_skip(hs, name, i - 1);
        let tail = hs.skip(i - 1);
        assert(tail.first() == hs[i - 1]);
        assert(tail.drop_first() =~= hs.skip(i));
    } else {
        assert(hs.skip(0) =~= hs);
    }
}

/// Find the first header with the given name in any ASCII case.
fn find_header(headers: &Vec<(String, String)>, name: &Vec<char>) -> (r: Option<usize>)
    ensures
        match r {
            Some(i) => i < headers@.len() && first_header(str_pairs_view(headers@), name@)
                == Some(str_pairs_view(headers@)[i as int].1),
            None => first_header(str_pairs_view(headers@), name@) is None,
        },
{
    let ghost hv = str_pairs_view(headers@);
    let n = headers.len();
    let mut i: usize = 0;
    while i < n
        invariant
            i <= n,
            n == headers@.len(),
            hv == str_pairs_view(headers@),
            forall|j: int| 0 <= j < i ==> !eq_ignore_ascii_case(hv[j].0, name@),
        decreases n - i,
    {
        let hn = to_chars(headers[i].0.as_str());
        if chars_eq_ignore_ascii_case(&hn, name) {
            proof {
                lemma_first_header_skip(hv, name@, i as int);
                assert(hv.skip(i as int).first() == hv[i as int]);
            }
            return Some(i);
        }
        i += 1;
    }
    proof {
        lemma_first_header_skip(hv, name@, n as int);
        assert(hv.skip(n as int) =~= Seq::<(Seq<char>, Seq<char>)>::empty());
    }
    None
}

/// True when `c` is a space or a horizontal tab.
pub open spec fn is_blank(c: char) -> bool {
    c as u32 == 32 || c as u32 == 9
}

/// The characters before the first `;`, or all of them.
pub open spec fn before_semi(s: Seq<char>) -> Seq<char>
    decreases s.len(),
{
    if s.len() == 0 {
        Seq::empty()
    } else if s.first() == ';' {
        Seq::empty()
    } else {
        seq![s.first()] + before_semi(s.drop_first())
    }
}

/// `s` without leading blanks.
pub open spec fn trim_start(s: Seq<char>) -> Seq<char>
    decreases s.len(),
{
    if s.len() > 0 && is_blank(s.first()) {
        trim_start(s.drop_first())
    } else {
        s
    }
}

/// `s` without trailing blanks.
pub open spec fn trim_end(s: Seq<char>) -> Seq<char>
    decreases s.len(),
{
    if s.len() > 0 && is_blank(s.last()) {
        trim_end(s.drop_last())
    } else {
        s
    }
}

/// The media-type token of a content-type value: what stands before any
/// parameters, with surrounding blanks removed.
pub open spec fn media_token(s: Seq<char>) -> Seq<char> {
    trim_end(trim_start(before_semi(s)))
}

/// The structured encodings a request can announce.
#[derive(Debug, PartialEq, Eq, Structural, Clone, Copy)]
pub enum PayloadEncoding {
    /// `application/json`.
    Json,
    /// `application/x-www-form-urlencoded`.
    Form,
    /// Anything else, or no content type at all: no structured payload.
    Other,
}

/// The encoding a content-type header announces: the media-type token is
/// matched case-insensitively, parameters ignored; a missing header means
/// no structured payload.
pub open spec fn encoding_of(ct: Option<Seq<char>>) -> PayloadEncoding {
    match ct {
        None => PayloadEncoding::Other,
        Some(s) => if eq_ignore_ascii_case(media_token(s), "application/json"@) {
            PayloadEncoding::Json
        } else if eq_ignore_ascii_case(media_token(s), "application/x-www-form-urlencoded"@) {
            PayloadEncoding::Form
        } else {
            PayloadEncoding::Other
        },
    }
}

/// What form decoding a body yields: string pairs in order, `None` exactly
/// on input the decoder rejects.
pub uninterp spec fn form_pairs_of(b: Seq<u8>) -> Option<Seq<(Seq<char>, Seq<char>)>>;

/// Relies on `serde_urlencoded::from_bytes` decoding into string pairs:
/// the result is a function of the input bytes alone, and it fails exactly
/// where the decoder rejects the input.
#[verifier::external_body]
fn form_decode(b: &[u8]) -> (r: Result<Vec<(String, String)>, ()>)
    ensures
        r matches Ok(ps) ==> form_pairs_of(b@) == Some(str_pairs_view(ps@)),
        r is Err ==> form_pairs_of(b@) is None,
{
    serde_urlencoded::from_bytes::<Vec<(String, String)>>(b).map_err(|_| ())
}

/// The blank prefix of `s` up to `a` vanishes under `trim_start`.
proof fn lemma_trim_start_skip(s: Seq<char>, a: int)
    requires
        0 <= a <= s.len(),
        forall|j: int| 0 <= j < a ==> is_blank(s[j]),
    ensures
        trim_start(s) == trim_start(s.skip(a)),
    decreases a,
{
    if a > 0 {
        lemma_trim_start_skip(s, a - 1);
        let tail = s.skip(a - 1);
        assert(tail.first() == s[a - 1]);
        assert(tail.drop_first() =~= s.skip(a));
    } else {
        assert(s.skip(0) =~= s);
    }
}

/// The blank suffix of `s` from `b` on vanishes under `trim_end`.
proof fn lemma_trim_end_take(s: Seq<char>, b: int)
    requires
        0 <= b <= s.len(),
        forall|j: int| b <= j < s.len() ==> is_blank(s[j]),
    ensures
        trim_end(s) == trim_end(s.take(b)),
    decreases s.len() - b,
{
    if b < s.len() {
        assert(is_blank(s.last()));
        assert(s.drop_last() =~= s.take(s.len() - 1));
        lemma_trim_end_take(s.take(s.len() - 1), b);
        assert(s.take(s.len() - 1).take(b) =~= s.take(b));
    } else {
        assert(s.take(b) =~= s);
    }
}

/// A sequence with no leading blank is fixed by `trim_start`.
proof fn lemma_trim_start_fixed(s: Seq<char>)
    requires
        s.len() == 0 || !is_blank(s.first()),
    ensures
        trim_start(s) == s,
{
}

/// A sequence with no trailing blank is fixed by `trim_end`.
proof fn lemma_trim_end_fixed(s: Seq<char>)
    requires
        s.len() == 0 || !is_blank(s.last()),
    ensures
        trim_end(s) == s,
{
}

/// The semicolon-free prefix of `s` up to `c` is what `before_semi` keeps.
proof fn lemma_before_semi_take(s: Seq<char>, c: int)
    requires
        0 <= c <= s.len(),
        forall|j: int| 0 <= j < c ==> s[j] != ';',
        c == s.len() || s[c] == ';',
    ensures
        before_semi(s) == s.take(c),
    decreases c,
{
    if s.len() == 0 {
        assert(s.take(c) =~= s);
    } else if c == 0 {
        assert(s.take(0) =~= Seq::<char>::empty());
    } else {
        assert(s.first() != ';');
        let tail = s.drop_first();
        assert(forall|j: int| 0 <= j < c - 1 ==> tail[j] != ';');
        assert(c - 1 == tail.len() || tail[c - 1] == ';');
        lemma_before_semi_take(tail, c - 1);
        assert(seq![s.first()] + tail.take(c - 1) =~= s.take(c));
    }
}

/// Compute the media-type token of a content-type value.
fn media_token_exec(v: &Vec<char>) -> (r: Vec<char>)
    ensures
        r@ == media_token(v@),
{
    let n = v.len();
    // the prefix before any parameter
    let mut c: usize = 0;
    while c < n && v[c] != ';'
        invariant
            c <= n,
            n == v@.len(),
            forall|j: int| 0 <= j < c ==> v@[j] != ';',
        decreases n - c,
    {
        c += 1;
    }
    proof {
        lemma_before_semi_take(v@, c as int);
    }
    // strip leading blanks
    let mut a: usize = 0;
    while a < c && (v[a] == ' ' || v[a] == '\t')
        invariant
            a <= c <= n,
            n == v@.len(),
            before_semi(v@) == v@.take(c as int),
            forall|j: int| 0 <= j < a ==> is_blank(v@[j]),
        decreases c - a,
    {
        proof {
            vstd::utf8::char_is_scalar(v@[a as int]);
        }
        a += 1;
    }
    // strip trailing blanks
    let mut b: usize = c;
    while b > a && (v[b - 1] == ' ' || v[b - 1] == '\t')
        invariant
            a <= b <= c <= n,
            n == v@.len(),
            before_semi(v@) == v@.take(c as int),
            forall|j: int| 0 <= j < a ==> is_blank(v@[j]),
            forall|j: int| b <= j < c ==> is_blank(v@[j]),
        decreases b,
    {
        b -= 1;
    }
    let mut out: Vec<char> = Vec::new();
    let mut i: usize = a;
    while i < b
        invariant
            a <= i <= b <= n,
            n == v@.len(),
            out@ == v@.subrange(a as int, i as int),
        decreases b - i,
    {
        out.push(v[i]);
        assert(out@ =~= v@.subrange(a as int, i + 1));
        i += 1;
    }
    proof {
        assert(' ' as u32 == 32);
        assert('\t' as u32 == 9);
        vstd::utf8::char_u32_cast(' ', 32);
        vstd::utf8::char_u32_cast('\t', 9);
        let p = v@.take(c as int);
        lemma_trim_start_skip(p, a as int);
        let q = p.skip(a as int);
        if a < c {
            assert(q.first() == v@[a as int]);
            vstd::utf8::char_u32_cast(v@[a as int], v@[a as int] as u32);
            assert(!is_blank(q.first()));
        }
        lemma_trim_start_fixed(q);
        lemma_trim_end_take(q, b - a);
        if b > a {
            assert(q.take(b - a).last() == v@[b - 1]);
            vstd::utf8::char_u32_cast(v@[b - 1], v@[b - 1] as u32);
            assert(!is_blank(q.take(b - a).last()));
        }
        lemma_trim_end_fixed(q.take(b - a));
        assert(q.take(b - a) =~= v@.subrange(a as int, b as int));
        assert(out@ =~= v@.subrange(a as int, b as int));
    }
    out
}

impl Request {
    /// The structured encoding this request announces through its
    /// content-type header.
    pub fn payload_encoding(&self) -> (r: PayloadEncoding)
        ensures
            r == encoding_of(first_header(self@.headers, "Content-Type"@)),
    {
        let name = to_chars("Content-Type");
        let headers = self.headers();
        match find_header(headers, &name) {
            None => PayloadEncoding::Other,
            Some(i) => {
                let ct = to_chars(headers[i].1.as_str());
                let token = media_token_exec(&ct);
                let json_tok = to_chars("application/json");
                let form_tok = to_chars("application/x-www-form-urlencoded");
                if chars_eq_ignore_ascii_case(&token, &json_tok) {
                    PayloadEncoding::Json
                } else if chars_eq_ignore_ascii_case(&token, &form_tok) {
                    PayloadEncoding::Form
                } else {
                    PayloadEncoding::Other
                }
            },
        }
    }

    /// The structured payload of this request, negotiated by content type.
    ///
    /// An `application/json` body parses to a JSON document and an
    /// `application/x-www-form-urlencoded` body to a string map; a failure
    /// there is a typed error. Any other content type, or none at all,
    /// yields `Ok(None)` whatever the body holds.
    pub fn payload(&self) -> (r: Result<Option<Payload>, PayloadError>)
        ensures
            match encoding_of(first_header(self@.headers, "Content-Type"@)) {
                PayloadEncoding::Json => (match json_of(self@.body.bytes()) {
                    Some(j) => r matches Ok(o) && o matches Some(p) && p matches Payload::Json(v)
                        && v@ == j,
                    None => (r matches Err(e) && e == PayloadError::Json),
                }),
                PayloadEncoding::Form => (match form_pairs_of(self@.body.bytes()) {
                    Some(ps) => r matches Ok(o) && o matches Some(p) && p matches Payload::Form(m)
                        && m.entries_view() == collapse(ps) && m@ == pairs_to_map(ps)
                        && unique_keys(m.entries_view()),
                    None => (r matches Err(e) && e == PayloadError::WwwFormUrlEncoded),
                }),
                PayloadEncoding::Other => r matches Ok(o) && o is None,
            },
    {
        match self.payload_encoding() {
            PayloadEncoding::Json => match parse_json(self.body().as_slice()) {
                Ok(v) => Ok(Some(Payload::Json(v))),
                Err(_) => Err(PayloadError::Json),
            },
            PayloadEncoding::Form => match form_decode(self.body().as_slice()) {
                Ok(ps) => Ok(Some(Payload::Form(StrMap::from(ps)))),
                Err(_) => Err(PayloadError::WwwFormUrlEncoded),
            },
            PayloadEncoding::Other => Ok(None),
        }
    }
}

} // verus!

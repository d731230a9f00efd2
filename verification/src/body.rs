//! The message payload container shared by requests and responses.
//!
//! A body comes in three flavors: empty, text and binary. Conversions from
//! common source values are total; the wire serialization turns an empty
//! body into JSON `null`, a text body into a JSON string (failing on bytes
//! that are not UTF-8), and a binary body into the base64 text of its bytes.

use vstd::prelude::*;
use vstd::slice::slice_to_vec;
use vstd::string::StrSliceExecFns;
use vstd::utf8::*;
use crate::b64::{b64_decode_of, b64_encode, b64_of};
use crate::json::json_str_token;

verus! {

broadcast use vstd::string::group_string_axioms;

/// Mathematical model of a [`Body`].
pub enum BodyData {
    Empty,
    Text(Seq<u8>),
    Binary(Seq<u8>),
}

/// A message payload: empty, text bytes, or binary bytes.
///
/// Values built from strings are text; values built from byte sequences are
/// binary; the unit value is empty. A `Text` body is only required to hold
/// valid UTF-8 at serialization time.
#[derive(Debug)]
pub enum Body {
    /// An empty body.
    Empty,
    /// A body holding text data.
    Text(Vec<u8>),
    /// A body holding binary data.
    Binary(Vec<u8>),
}

impl View for Body {
    type V = BodyData;

    open spec fn view(&self) -> BodyData {
        match self {
            Body::Empty => BodyData::Empty,
            Body::Text(v) => BodyData::Text(v@),
            Body::Binary(v) => BodyData::Binary(v@),
        }
    }
}

impl BodyData {
    /// The bytes a body holds; an empty body holds none.
    pub open spec fn bytes(self) -> Seq<u8> {
        match self {
            BodyData::Empty => Seq::empty(),
            BodyData::Text(b) => b,
            BodyData::Binary(b) => b,
        }
    }
}

/// Byte-wise equality of two vectors.
fn bytes_eq(a: &Vec<u8>, b: &Vec<u8>) -> (r: bool)
    ensures
        r == (a@ == b@),
{
    if a.len() != b.len() {
        assert(a@ != b@);
        return false;
    }
    let n = a.len();
    let mut i: usize = 0;
    while i < n
        invariant
            i <= n,
            n == a@.len() == b@.len(),
            forall|j: int| 0 <= j < i ==> a@[j] == b@[j],
        decreases n - i,
    {
        if a[i] != b[i] {
            return false;
        }
        i += 1;
    }
    proof {
        assert(a@ =~= b@);
    }
    true
}

impl PartialEq for Body {
    /// Bodies are equal when they have the same flavor and the same bytes.
    fn eq(&self, other: &Body) -> (r: bool) {
        match (self, other) {
            (Body::Empty, Body::Empty) => true,
            (Body::Text(a), Body::Text(b)) => bytes_eq(a, b),
            (Body::Binary(a), Body::Binary(b)) => bytes_eq(a, b),
            _ => false,
        }
    }
}

impl vstd::std_specs::cmp::PartialEqSpecImpl for Body {
    open spec fn obeys_eq_spec() -> bool {
        true
    }

    open spec fn eq_spec(&self, other: &Body) -> bool {
        self@ == other@
    }
}

impl Default for Body {
    /// The default body is empty.
    fn default() -> (r: Self)
        ensures
            r == Body::Empty,
    {
        Body::Empty
    }
}

impl From<()> for Body {
    /// The absence of a value yields an empty body.
    fn from(_v: ()) -> (r: Self)
        ensures
            r@ == BodyData::Empty,
    {
        Body::Empty
    }
}

impl vstd::std_specs::convert::FromSpecImpl<()> for Body {
    open spec fn obeys_from_spec() -> bool {
        false
    }

    open spec fn from_spec(v: ()) -> Body {
        Body::Empty
    }
}

impl<'a> From<&'a str> for Body {
    /// A string slice yields a text body holding its UTF-8 bytes.
    fn from(s: &'a str) -> (r: Self)
        ensures
            r@ == BodyData::Text(encode_utf8(s@)),
    {
        Body::Text(s.as_bytes_vec())
    }
}

impl<'a> vstd::std_specs::convert::FromSpecImpl<&'a str> for Body {
    open spec fn obeys_from_spec() -> bool {
        false
    }

    open spec fn from_spec(v: &'a str) -> Body {
        Body::Empty
    }
}

impl From<String> for Body {
    /// An owned string yields a text body holding its UTF-8 bytes.
    fn from(s: String) -> (r: Self)
        ensures
            r@ == BodyData::Text(encode_utf8(s@)),
    {
        Body::Text(s.as_str().as_bytes_vec())
    }
}

impl vstd::std_specs::convert::FromSpecImpl<String> for Body {
    open spec fn obeys_from_spec() -> bool {
        false
    }

    open spec fn from_spec(v: String) -> Body {
        Body::Empty
    }
}

impl From<Vec<u8>> for Body {
    /// An owned byte vector yields a binary body holding those bytes.
    fn from(b: Vec<u8>) -> (r: Self)
        ensures
            r@ == BodyData::Binary(b@),
    {
        Body::Binary(b)
    }
}

impl vstd::std_specs::convert::FromSpecImpl<Vec<u8>> for Body {
    open spec fn obeys_from_spec() -> bool {
        false
    }

    open spec fn from_spec(v: Vec<u8>) -> Body {
        Body::Empty
    }
}

impl<'a> From<&'a [u8]> for Body {
    /// A byte slice yields a binary body holding those bytes.
    fn from(b: &'a [u8]) -> (r: Self)
        ensures
            r@ == BodyData::Binary(b@),
    {
        Body::Binary(slice_to_vec(b))
    }
}

impl<'a> vstd::std_specs::convert::FromSpecImpl<&'a [u8]> for Body {
    open spec fn obeys_from_spec() -> bool {
        false
    }

    open spec fn from_spec(v: &'a [u8]) -> Body {
        Body::Empty
    }
}

/// A serialization failure: a text body whose bytes are not valid UTF-8.
#[derive(Debug, PartialEq, Eq, Structural, Clone, Copy)]
pub enum EncodeError {
    /// The text body does not hold valid UTF-8.
    TextNotUtf8,
}

/// The wire serialization of a body: `null` for empty, the JSON string of
/// the decoded text for text (an error on bytes that are not UTF-8), and
/// the JSON string of the base64 text for binary.
pub open spec fn body_json_spec(b: BodyData) -> Result<Seq<char>, EncodeError> {
    match b {
        BodyData::Empty => Ok(seq!['n', 'u', 'l', 'l']),
        BodyData::Text(v) => if valid_utf8(v) {
            Ok(json_str_token(decode_utf8(v)))
        } else {
            Err(EncodeError::TextNotUtf8)
        },
        BodyData::Binary(v) => Ok(json_str_token(b64_of(v))),
    }
}

impl Body {
    /// The bytes the body holds; total for all three flavors.
    pub fn as_slice(&self) -> (r: &[u8])
        ensures
            r@ == self@.bytes(),
    {
        match self {
            Body::Empty => {
                let r = "".as_bytes();
                proof {
                    reveal_strlit("");
                    assert(r@ =~= self@.bytes());
                }
                r
            },
            Body::Text(v) => v.as_slice(),
            Body::Binary(v) => v.as_slice(),
        }
    }

    /// Serialize the body to its JSON token.
    ///
    /// For a binary body the base64 text decodes back to exactly the bytes
    /// that were encoded.
    pub fn to_json_token(&self) -> (r: Result<String, EncodeError>)
        ensures
            r matches Ok(s) ==> body_json_spec(self@) == Ok::<Seq<char>, EncodeError>(s@),
            r matches Err(e) ==> body_json_spec(self@) == Err::<Seq<char>, EncodeError>(e),
            self@ matches BodyData::Binary(v) ==> b64_decode_of(b64_of(v)) == Some(v),
    {
        match self {
            Body::Empty => {
                let mut out: Vec<char> = Vec::new();
                out.push('n');
                out.push('u');
                out.push('l');
                out.push('l');
                let s = crate::strutil::chars_to_string(&out);
                proof {
                    assert(s@ =~= body_json_spec(self@)->Ok_0);
                }
                Ok(s)
            },
            Body::Text(v) => {
                match crate::strutil::string_from_utf8(v.as_slice()) {
                    Some(text) => {
                        let mut out: Vec<char> = Vec::new();
                        crate::json::push_str_token(&mut out, text.as_str());
                        Ok(crate::strutil::chars_to_string(&out))
                    },
                    None => Err(EncodeError::TextNotUtf8),
                }
            },
            Body::Binary(v) => {
                let encoded = b64_encode(v.as_slice());
                let mut out: Vec<char> = Vec::new();
                crate::json::push_str_token(&mut out, encoded.as_str());
                Ok(crate::strutil::chars_to_string(&out))
            },
        }
    }
}

/// A text body made from the characters `s` serializes to the JSON string
/// token of `s` itself, unchanged.
pub proof fn lemma_text_body_unchanged(s: Seq<char>)
    ensures
        body_json_spec(BodyData::Text(encode_utf8(s))) == Ok::<Seq<char>, EncodeError>(
            json_str_token(s),
        ),
{
    encode_utf8_valid_utf8(s);
    encode_utf8_decode_utf8(s);
}

} // verus!

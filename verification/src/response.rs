//! The canonical response and its projection to the gateway's JSON reply
//! shape.

use vstd::prelude::*;
use vstd::string::StringExecFns;
use crate::body::{Body, BodyData};
use crate::json::{json_text, json_view_entries, JsonData, JsonValue};
use crate::strmap::{collapse, str_pairs_view, upsert_in};
use crate::strutil::{chars_to_string, dec_rep, push_dec_u16, string_from_utf8_lossy, utf8_lossy_of};
use crate::request::opt_str_view;

verus! {

broadcast use vstd::string::group_string_axioms;

/// Mathematical model of a [`Response`].
pub struct ResponseView {
    pub status: u16,
    pub headers: Seq<(Seq<char>, Seq<char>)>,
    pub body: BodyData,
}

/// A canonical response: status, headers and a [`Body`].
#[derive(Debug)]
pub struct Response {
    status: u16,
    headers: Vec<(String, String)>,
    body: Body,
}

impl View for Response {
    type V = ResponseView;

    closed spec fn view(&self) -> ResponseView {
        ResponseView {
            status: self.status,
            headers: str_pairs_view(self.headers@),
            body: self.body@,
        }
    }
}

impl Response {
    /// A response with the given body, status 200 and no headers.
    pub fn new(body: Body) -> (r: Response)
        ensures
            r@.status == 200,
            r@.headers == Seq::<(Seq<char>, Seq<char>)>::empty(),
            r@.body == body@,
    {
        let r = Response { status: 200, headers: Vec::new(), body };
        proof {
            assert(str_pairs_view(r.headers@) =~= Seq::<(Seq<char>, Seq<char>)>::empty());
        }
        r
    }

    /// Replace the status code.
    pub fn set_status(&mut self, status: u16)
        ensures
            final(self)@ == (ResponseView { status, ..old(self)@ }),
    {
        self.status = status;
    }

    /// Append one header; repeated names are collapsed (last value wins)
    /// only when the response is projected to the wire shape.
    pub fn insert_header(&mut self, name: String, value: String)
        ensures
            final(self)@ == (
            ResponseView { headers: old(self)@.headers.push((name@, value@)), ..old(self)@ }),
    {
        let ghost before = str_pairs_view(self.headers@);
        self.headers.push((name, value));
        proof {
            assert(str_pairs_view(self.headers@) =~= before.push(
                (self.headers@.last().0@, self.headers@.last().1@),
            ));
        }
    }

    /// The status code.
    pub fn status(&self) -> (r: u16)
        ensures
            r == self@.status,
    {
        self.status
    }

    /// The headers, in insertion order.
    pub fn headers(&self) -> (r: &Vec<(String, String)>)
        ensures
            str_pairs_view(r@) == self@.headers,
    {
        &self.headers
    }

    /// The body.
    pub fn body(&self) -> (r: &Body)
        ensures
            r@ == self@.body,
    {
        &self.body
    }
}

/// The wire body of a canonical body: an empty body is omitted; text and
/// binary bytes are decoded to text, invalid sequences replaced.
pub open spec fn wire_body_of(b: BodyData) -> Option<Seq<char>> {
    match b {
        BodyData::Empty => None,
        BodyData::Text(v) => Some(utf8_lossy_of(v)),
        BodyData::Binary(v) => Some(utf8_lossy_of(v)),
    }
}

/// The gateway's JSON reply shape.
///
/// Header names keep the position of their first occurrence and the last
/// value wins; the base64 flag is never set by the projection from
/// [`Response`].
#[derive(Debug)]
pub struct GatewayResponse {
    pub status_code: u16,
    pub headers: Vec<(String, String)>,
    pub body: Option<String>,
    pub is_base64_encoded: bool,
}

impl Default for GatewayResponse {
    /// The default reply: status 200, no headers, no body, flag off.
    fn default() -> (r: Self)
        ensures
            r.status_code == 200,
            str_pairs_view(r.headers@) == Seq::<(Seq<char>, Seq<char>)>::empty(),
            r.body is None,
            !r.is_base64_encoded,
    {
        let r = GatewayResponse {
            status_code: 200,
            headers: Vec::new(),
            body: None,
            is_base64_encoded: false,
        };
        proof {
            assert(str_pairs_view(r.headers@) =~= Seq::<(Seq<char>, Seq<char>)>::empty());
        }
        r
    }
}

impl From<Response> for GatewayResponse {
    /// Project a canonical response to the wire shape: the status verbatim,
    /// the headers flattened to a single-valued map (last value wins), the
    /// body decoded to text (empty bodies omitted), the base64 flag off.
    fn from(value: Response) -> (r: GatewayResponse)
        ensures
            r.status_code == value@.status,
            str_pairs_view(r.headers@) == collapse(value@.headers),
            opt_str_view(r.body) == wire_body_of(value@.body),
            !r.is_base64_encoded,
    {
        let Response { status, headers, body } = value;
        let ghost hv = str_pairs_view(headers@);
        let mut flat: Vec<(String, String)> = Vec::new();
        proof {
            assert(str_pairs_view(flat@) =~= Seq::<(Seq<char>, Seq<char>)>::empty());
            assert(hv.take(0) =~= Seq::<(Seq<char>, Seq<char>)>::empty());
        }
        let n = headers.len();
        let mut i: usize = 0;
        while i < n
            invariant
                i <= n,
                n == headers@.len(),
                hv == str_pairs_view(headers@),
                str_pairs_view(flat@) == collapse(hv.take(i as int)),
            decreases n - i,
        {
            upsert_in(&mut flat, headers[i].0.clone(), headers[i].1.clone());
            proof {
                assert(hv.take(i + 1).drop_last() =~= hv.take(i as int));
                assert(hv.take(i + 1).last() == hv[i as int]);
            }
            i += 1;
        }
        proof {
            assert(hv.take(n as int) =~= hv);
        }
        let wire_body: Option<String> = match &body {
            Body::Empty => None,
            _ => Some(string_from_utf8_lossy(body.as_slice())),
        };
        GatewayResponse { status_code: status, headers: flat, body: wire_body, is_base64_encoded: false }
    }
}

impl vstd::std_specs::convert::FromSpecImpl<Response> for GatewayResponse {
    open spec fn obeys_from_spec() -> bool {
        false
    }

    open spec fn from_spec(v: Response) -> GatewayResponse {
        arbitrary()
    }
}

/// The JSON entries of a reply: the status always; the header map only
/// when non-empty; the body only when present; the base64 flag only when
/// set.
pub open spec fn response_entries(
    status: u16,
    headers: Seq<(Seq<char>, Seq<char>)>,
    body: Option<Seq<char>>,
    flag: bool,
) -> Seq<(Seq<char>, JsonData)> {
    let with_status = seq![("statusCode"@, JsonData::Num(dec_rep(status as nat)))];
    let with_headers = if headers.len() == 0 {
        with_status
    } else {
        with_status.push(
            (
                "headers"@,
                JsonData::Obj(
                    Seq::new(headers.len(), |i: int| (headers[i].0, JsonData::Str(headers[i].1))),
                ),
            ),
        )
    };
    let with_body = match body {
        Some(s) => with_headers.push(("body"@, JsonData::Str(s))),
        None => with_headers,
    };
    if flag {
        with_body.push(("isBase64Encoded"@, JsonData::Bool(true)))
    } else {
        with_body
    }
}

/// The serialized reply: the JSON text of its entries.
pub open spec fn response_json(
    status: u16,
    headers: Seq<(Seq<char>, Seq<char>)>,
    body: Option<Seq<char>>,
    flag: bool,
) -> Seq<char> {
    json_text(JsonData::Obj(response_entries(status, headers, body, flag)))
}

impl GatewayResponse {
    /// Serialize the reply to its exact wire text, omitting the header
    /// map when empty, the body when absent and the flag when false.
    pub fn to_json_string(&self) -> (r: String)
        ensures
            r@ == response_json(
                self.status_code,
                str_pairs_view(self.headers@),
                opt_str_view(self.body),
                self.is_base64_encoded,
            ),
    {
        let ghost target = response_entries(
            self.status_code,
            str_pairs_view(self.headers@),
            opt_str_view(self.body),
            self.is_base64_encoded,
        );
        let mut entries: Vec<(String, JsonValue)> = Vec::new();
        let mut status_chars: Vec<char> = Vec::new();
        push_dec_u16(&mut status_chars, self.status_code);
        entries.push(
            (String::from_str("statusCode"), JsonValue::Num(chars_to_string(&status_chars))),
        );
        if self.headers.len() > 0 {
            let mut hs: Vec<(String, JsonValue)> = Vec::new();
            let n = self.headers.len();
            let mut i: usize = 0;
            while i < n
                invariant
                    i <= n,
                    n == self.headers@.len(),
                    hs@.len() == i,
                    forall|j: int| 0 <= j < i ==> hs@[j].0@ == self.headers@[j].0@ && hs@[j].1
                        == JsonValue::Str(self.headers@[j].1),
                decreases n - i,
            {
                hs.push((self.headers[i].0.clone(), JsonValue::Str(self.headers[i].1.clone())));
                i += 1;
            }
            proof {
                crate::json::lemma_json_view_entries(hs@);
                assert(json_view_entries(hs@) =~= Seq::new(
                    str_pairs_view(self.headers@).len(),
                    |i: int| (str_pairs_view(self.headers@)[i].0, JsonData::Str(
                        str_pairs_view(self.headers@)[i].1,
                    )),
                ));
            }
            entries.push((String::from_str("headers"), JsonValue::Obj(hs)));
        }
        match &self.body {
            Some(s) => {
                entries.push((String::from_str("body"), JsonValue::Str(s.clone())));
            },
            None => {},
        }
        if self.is_base64_encoded {
            entries.push((String::from_str("isBase64Encoded"), JsonValue::Bool(true)));
        }
        let v = JsonValue::Obj(entries);
        proof {
            crate::json::lemma_json_view_entries(entries@);
            assert(json_view_entries(entries@) =~= target);
        }
        v.to_json_string()
    }
}

/// A conversion of a handler's return value into a canonical response.
pub trait IntoResponse {
    /// Turn `self` into a canonical response.
    fn into_response(self) -> Response;
}

impl IntoResponse for Response {
    /// A response converts to itself.
    fn into_response(self) -> (r: Response)
        ensures
            r@ == self@,
    {
        self
    }
}

impl IntoResponse for Body {
    /// A bare body becomes a 200 response without headers.
    fn into_response(self) -> (r: Response)
        ensures
            r@.status == 200,
            r@.headers == Seq::<(Seq<char>, Seq<char>)>::empty(),
            r@.body == self@,
    {
        Response::new(self)
    }
}

impl IntoResponse for String {
    /// A string becomes a 200 response with a text body.
    fn into_response(self) -> (r: Response)
        ensures
            r@.status == 200,
            r@.headers == Seq::<(Seq<char>, Seq<char>)>::empty(),
            r@.body == BodyData::Text(vstd::utf8::encode_utf8(self@)),
    {
        Response::new(Body::from(self))
    }
}

impl<'a> IntoResponse for &'a str {
    /// A string slice becomes a 200 response with a text body.
    fn into_response(self) -> (r: Response)
        ensures
            r@.status == 200,
            r@.headers == Seq::<(Seq<char>, Seq<char>)>::empty(),
            r@.body == BodyData::Text(vstd::utf8::encode_utf8(self@)),
    {
        Response::new(Body::from(self))
    }
}

impl IntoResponse for Vec<u8> {
    /// A byte vector becomes a 200 response with a binary body.
    fn into_response(self) -> (r: Response)
        ensures
            r@.status == 200,
            r@.headers == Seq::<(Seq<char>, Seq<char>)>::empty(),
            r@.body == BodyData::Binary(self@),
    {
        Response::new(Body::from(self))
    }
}

impl IntoResponse for JsonValue {
    /// A JSON document becomes a 200 response whose body is its serialized
    /// text, under an `application/json` content type.
    fn into_response(self) -> (r: Response)
        ensures
            r@.status == 200,
            r@.headers == seq![("Content-Type"@, "application/json"@)],
            r@.body == BodyData::Text(vstd::utf8::encode_utf8(json_text(self@))),
    {
        let text = self.to_json_string();
        let mut r = Response::new(Body::from(text));
        r.insert_header(String::from_str("Content-Type"), String::from_str("application/json"));
        proof {
            assert(r@.headers =~= seq![("Content-Type"@, "application/json"@)]);
        }
        r
    }
}

} // verus!

//! The gateway's proxy event: its decoded form, the canonical request
//! assembled from it, and the decoding rules for both.

use vstd::prelude::*;
use vstd::string::StringExecFns;
use vstd::utf8::*;
use crate::b64::{b64_decode, b64_decode_of};
use crate::body::{Body, BodyData};
use crate::json::{json_of, obj_lookup, parse_json, JsonData, JsonValue};
use crate::strmap::{collapse, lemma_collapse_fixed, pairs_to_map, str_pairs_view, unique_keys, StrMap};
use crate::strutil::{chars_eq_ignore_ascii_case, eq_ignore_ascii_case, to_chars};

verus! {

broadcast use vstd::string::group_string_axioms;

/// Mathematical model of an [`Identity`].
pub struct IdentityView {
    pub source_ip: Seq<char>,
    pub cognito_identity_id: Option<Seq<char>>,
    pub cognito_identity_pool_id: Option<Seq<char>>,
    pub cognito_authentication_provider: Option<Seq<char>>,
    pub cognito_authentication_type: Option<Seq<char>>,
    pub account_id: Option<Seq<char>>,
    pub caller: Option<Seq<char>>,
    pub api_key: Option<Seq<char>>,
    pub user: Option<Seq<char>>,
    pub user_agent: Option<Seq<char>>,
    pub user_arn: Option<Seq<char>>,
}

impl IdentityView {
    /// The identity the gateway supplies when the wire field is absent.
    pub open spec fn default_view() -> IdentityView {
        IdentityView {
            source_ip: Seq::empty(),
            cognito_identity_id: None,
            cognito_identity_pool_id: None,
            cognito_authentication_provider: None,
            cognito_authentication_type: None,
            account_id: None,
            caller: None,
            api_key: None,
            user: None,
            user_agent: None,
            user_arn: None,
        }
    }
}

/// Identity associated with a request.
#[derive(Debug)]
pub struct Identity {
    pub source_ip: String,
    pub cognito_identity_id: Option<String>,
    pub cognito_identity_pool_id: Option<String>,
    pub cognito_authentication_provider: Option<String>,
    pub cognito_authentication_type: Option<String>,
    pub account_id: Option<String>,
    pub caller: Option<String>,
    pub api_key: Option<String>,
    pub user: Option<String>,
    pub user_agent: Option<String>,
    pub user_arn: Option<String>,
}

/// The deep view of an optional string.
pub open spec fn opt_str_view(o: Option<String>) -> Option<Seq<char>> {
    match o {
        Some(s) => Some(s@),
        None => None,
    }
}

impl View for Identity {
    type V = IdentityView;

    open spec fn view(&self) -> IdentityView {
        IdentityView {
            source_ip: self.source_ip@,
            cognito_identity_id: opt_str_view(self.cognito_identity_id),
            cognito_identity_pool_id: opt_str_view(self.cognito_identity_pool_id),
            cognito_authentication_provider: opt_str_view(self.cognito_authentication_provider),
            cognito_authentication_type: opt_str_view(self.cognito_authentication_type),
            account_id: opt_str_view(self.account_id),
            caller: opt_str_view(self.caller),
            api_key: opt_str_view(self.api_key),
            user: opt_str_view(self.user),
            user_agent: opt_str_view(self.user_agent),
            user_arn: opt_str_view(self.user_arn),
        }
    }
}

impl Default for Identity {
    /// The default identity: empty source address, no provider fields.
    fn default() -> (r: Self)
        ensures
            r@ == IdentityView::default_view(),
    {
        Identity {
            source_ip: String::new(),
            cognito_identity_id: None,
            cognito_identity_pool_id: None,
            cognito_authentication_provider: None,
            cognito_authentication_type: None,
            account_id: None,
            caller: None,
            api_key: None,
            user: None,
            user_agent: None,
            user_arn: None,
        }
    }
}

/// Copy an optional string.
fn clone_opt_str(o: &Option<String>) -> (r: Option<String>)
    ensures
        r == *o,
{
    match o {
        Some(s) => Some(s.clone()),
        None => None,
    }
}

impl Clone for Identity {
    /// A clone carries exactly the same fields.
    fn clone(&self) -> (r: Self)
        ensures
            r == *self,
    {
        Identity {
            source_ip: self.source_ip.clone(),
            cognito_identity_id: clone_opt_str(&self.cognito_identity_id),
            cognito_identity_pool_id: clone_opt_str(&self.cognito_identity_pool_id),
            cognito_authentication_provider: clone_opt_str(
                &self.cognito_authentication_provider,
            ),
            cognito_authentication_type: clone_opt_str(&self.cognito_authentication_type),
            account_id: clone_opt_str(&self.account_id),
            caller: clone_opt_str(&self.caller),
            api_key: clone_opt_str(&self.api_key),
            user: clone_opt_str(&self.user),
            user_agent: clone_opt_str(&self.user_agent),
            user_arn: clone_opt_str(&self.user_arn),
        }
    }
}

/// Mathematical model of a [`RequestContext`].
pub struct RequestContextView {
    pub account_id: Seq<char>,
    pub resource_id: Seq<char>,
    pub stage: Seq<char>,
    pub request_id: Seq<char>,
    pub resource_path: Seq<char>,
    pub http_method: Seq<char>,
    pub api_id: Seq<char>,
    pub identity: IdentityView,
}

impl RequestContextView {
    /// The context the gateway supplies when the wire field is absent.
    pub open spec fn default_view() -> RequestContextView {
        RequestContextView {
            account_id: Seq::empty(),
            resource_id: Seq::empty(),
            stage: Seq::empty(),
            request_id: Seq::empty(),
            resource_path: Seq::empty(),
            http_method: Seq::empty(),
            api_id: Seq::empty(),
            identity: IdentityView::default_view(),
        }
    }
}

/// Gateway-supplied metadata about the deployment and the caller.
#[derive(Debug)]
pub struct RequestContext {
    pub account_id: String,
    pub resource_id: String,
    pub stage: String,
    pub request_id: String,
    pub resource_path: String,
    pub http_method: String,
    pub api_id: String,
    pub identity: Identity,
}

impl View for RequestContext {
    type V = RequestContextView;

    open spec fn view(&self) -> RequestContextView {
        RequestContextView {
            account_id: self.account_id@,
            resource_id: self.resource_id@,
            stage: self.stage@,
            request_id: self.request_id@,
            resource_path: self.resource_path@,
            http_method: self.http_method@,
            api_id: self.api_id@,
            identity: self.identity@,
        }
    }
}

impl Default for RequestContext {
    /// The default context: all fields empty, default identity.
    fn default() -> (r: Self)
        ensures
            r@ == RequestContextView::default_view(),
    {
        RequestContext {
            account_id: String::new(),
            resource_id: String::new(),
            stage: String::new(),
            request_id: String::new(),
            resource_path: String::new(),
            http_method: String::new(),
            api_id: String::new(),
            identity: Identity::default(),
        }
    }
}

impl Clone for RequestContext {
    /// A clone carries exactly the same fields.
    fn clone(&self) -> (r: Self)
        ensures
            r == *self,
    {
        RequestContext {
            account_id: self.account_id.clone(),
            resource_id: self.resource_id.clone(),
            stage: self.stage.clone(),
            request_id: self.request_id.clone(),
            resource_path: self.resource_path.clone(),
            http_method: self.http_method.clone(),
            api_id: self.api_id.clone(),
            identity: self.identity.clone(),
        }
    }
}

/// Mathematical model of a [`GatewayRequest`].
pub struct GatewayRequestView {
    pub path: Seq<char>,
    pub http_method: Seq<char>,
    pub headers: Seq<(Seq<char>, Seq<char>)>,
    pub query_string_parameters: Seq<(Seq<char>, Seq<char>)>,
    pub path_parameters: Seq<(Seq<char>, Seq<char>)>,
    pub stage_variables: Seq<(Seq<char>, Seq<char>)>,
    pub body: Option<Seq<char>>,
    pub is_base64_encoded: bool,
    pub request_context: RequestContextView,
}

/// A decoded gateway proxy event.
#[derive(Debug)]
pub struct GatewayRequest {
    pub path: String,
    pub http_method: String,
    pub headers: Vec<(String, String)>,
    pub query_string_parameters: StrMap,
    pub path_parameters: StrMap,
    pub stage_variables: StrMap,
    pub body: Option<String>,
    pub is_base64_encoded: bool,
    pub request_context: RequestContext,
}

impl View for GatewayRequest {
    type V = GatewayRequestView;

    open spec fn view(&self) -> GatewayRequestView {
        GatewayRequestView {
            path: self.path@,
            http_method: self.http_method@,
            headers: str_pairs_view(self.headers@),
            query_string_parameters: self.query_string_parameters.entries_view(),
            path_parameters: self.path_parameters.entries_view(),
            stage_variables: self.stage_variables.entries_view(),
            body: opt_str_view(self.body),
            is_base64_encoded: self.is_base64_encoded,
            request_context: self.request_context@,
        }
    }
}

impl Default for GatewayRequest {
    /// The default event: empty path and method, no headers, empty maps,
    /// no body, base64 flag off, default context.
    fn default() -> (r: Self)
        ensures
            r@.path == Seq::<char>::empty(),
            r@.http_method == Seq::<char>::empty(),
            r@.headers == Seq::<(Seq<char>, Seq<char>)>::empty(),
            r@.query_string_parameters == Seq::<(Seq<char>, Seq<char>)>::empty(),
            r@.path_parameters == Seq::<(Seq<char>, Seq<char>)>::empty(),
            r@.stage_variables == Seq::<(Seq<char>, Seq<char>)>::empty(),
            r@.body is None,
            !r@.is_base64_encoded,
            r@.request_context == RequestContextView::default_view(),
    {
        let r = GatewayRequest {
            path: String::new(),
            http_method: String::new(),
            headers: Vec::new(),
            query_string_parameters: StrMap::empty(),
            path_parameters: StrMap::empty(),
            stage_variables: StrMap::empty(),
            body: None,
            is_base64_encoded: false,
            request_context: RequestContext::default(),
        };
        proof {
            assert(str_pairs_view(r.headers@) =~= Seq::<(Seq<char>, Seq<char>)>::empty());
        }
        r
    }
}

/// Why a gateway event cannot be turned into a request.
#[derive(Debug, PartialEq, Eq, Structural, Clone, Copy)]
pub enum DecodeError {
    /// The event bytes are not a JSON document.
    Json,
    /// The document or one of its fields has the wrong shape.
    Shape,
    /// A header name is not a valid token.
    HeaderName,
    /// A header value holds a forbidden character.
    HeaderValue,
    /// The body claims to be base64 but the text does not decode.
    Base64,
}

/// True when `c` may appear in a header name: the token characters of the
/// HTTP grammar (letters, digits, and `!#$%&'*+-.^_`|~`).
pub open spec fn is_header_name_char(c: char) -> bool {
    let u = c as u32;
    (48 <= u && u <= 57) || (65 <= u && u <= 90) || (97 <= u && u <= 122) || u == 33 || (35 <= u
        && u <= 39) || u == 42 || u == 43 || u == 45 || u == 46 || u == 94 || u == 95 || u == 96
        || u == 124 || u == 126
}

/// True when `s` is a non-empty header-name token.
pub open spec fn is_valid_header_name(s: Seq<char>) -> bool {
    s.len() > 0 && forall|i: int| 0 <= i < s.len() ==> is_header_name_char(s[i])
}

/// True when `c` may appear in a header value: tab or anything that is
/// neither an ASCII control character nor delete.
pub open spec fn is_header_value_char(c: char) -> bool {
    let u = c as u32;
    u == 9 || (32 <= u && u != 127)
}

/// True when every character of `s` may appear in a header value.
pub open spec fn is_valid_header_value(s: Seq<char>) -> bool {
    forall|i: int| 0 <= i < s.len() ==> is_header_value_char(s[i])
}

/// A required string field: present and a JSON string, or the event is
/// rejected.
pub open spec fn spec_required_str(v: Option<JsonData>) -> Result<Seq<char>, DecodeError> {
    match v {
        Some(JsonData::Str(s)) => Ok(s),
        _ => Err(DecodeError::Shape),
    }
}

/// An optional string field: absent and `null` both mean `None`.
pub open spec fn spec_opt_opt_str(v: Option<JsonData>) -> Result<
    Option<Seq<char>>,
    DecodeError,
> {
    match v {
        None => Ok(None),
        Some(JsonData::Null) => Ok(None),
        Some(JsonData::Str(s)) => Ok(Some(s)),
        Some(_) => Err(DecodeError::Shape),
    }
}

/// A boolean field that defaults to `false` when absent.
pub open spec fn spec_bool_default(v: Option<JsonData>) -> Result<bool, DecodeError> {
    match v {
        None => Ok(false),
        Some(JsonData::Bool(b)) => Ok(b),
        Some(_) => Err(DecodeError::Shape),
    }
}

/// The pairs of an all-string JSON object, in order; any non-string value
/// rejects the event.
pub open spec fn spec_decode_str_entries(es: Seq<(Seq<char>, JsonData)>) -> Result<
    Seq<(Seq<char>, Seq<char>)>,
    DecodeError,
> {
    if forall|i: int| 0 <= i < es.len() ==> es[i].1 is Str {
        Ok(Seq::new(es.len(), |i: int| (es[i].0, es[i].1->Str_0)))
    } else {
        Err(DecodeError::Shape)
    }
}

/// A parameter map field: absent and `null` both mean the empty map; an
/// object contributes its (all-string) pairs with each key kept once, a
/// later duplicate winning, as map insertion prescribes.
pub open spec fn spec_decode_str_map(v: Option<JsonData>) -> Result<
    Seq<(Seq<char>, Seq<char>)>,
    DecodeError,
> {
    match v {
        None => Ok(Seq::empty()),
        Some(JsonData::Null) => Ok(Seq::empty()),
        Some(JsonData::Obj(es)) => match spec_decode_str_entries(es) {
            Ok(ps) => Ok(collapse(ps)),
            Err(e) => Err(e),
        },
        Some(_) => Err(DecodeError::Shape),
    }
}

/// One header entry's failure, if any: a non-string value is a shape
/// error, then the name must be a token, then the value must be clean.
pub open spec fn spec_header_entry_err(e: (Seq<char>, JsonData)) -> Option<DecodeError> {
    match e.1 {
        JsonData::Str(v) => if !is_valid_header_name(e.0) {
            Some(DecodeError::HeaderName)
        } else if !is_valid_header_value(v) {
            Some(DecodeError::HeaderValue)
        } else {
            None
        },
        _ => Some(DecodeError::Shape),
    }
}

/// The header pairs of a JSON object, each name a valid token and each
/// value clean; the first offending entry decides the error.
pub open spec fn spec_decode_header_entries(es: Seq<(Seq<char>, JsonData)>) -> Result<
    Seq<(Seq<char>, Seq<char>)>,
    DecodeError,
>
    decreases es.len(),
{
    if es.len() == 0 {
        Ok(Seq::empty())
    } else {
        match spec_header_entry_err(es.first()) {
            Some(e) => Err(e),
            None => match spec_decode_header_entries(es.drop_first()) {
                Ok(rest) => Ok(seq![(es.first().0, es.first().1->Str_0)] + rest),
                Err(e) => Err(e),
            },
        }
    }
}

/// The header collection field: absent means no headers; an object's
/// entries are validated and kept, case and order preserved.
pub open spec fn spec_decode_headers(v: Option<JsonData>) -> Result<
    Seq<(Seq<char>, Seq<char>)>,
    DecodeError,
> {
    match v {
        None => Ok(Seq::empty()),
        Some(JsonData::Obj(es)) => spec_decode_header_entries(es),
        Some(_) => Err(DecodeError::Shape),
    }
}

/// True when every identity field of the object decodes: the source
/// address is required, the provider fields are optional.
pub open spec fn spec_identity_fields_ok(es: Seq<(Seq<char>, JsonData)>) -> bool {
    &&& spec_required_str(obj_lookup(es, "sourceIp"@)) is Ok
    &&& spec_opt_opt_str(obj_lookup(es, "cognitoIdentityId"@)) is Ok
    &&& spec_opt_opt_str(obj_lookup(es, "cognitoIdentityPoolId"@)) is Ok
    &&& spec_opt_opt_str(obj_lookup(es, "cognitoAuthenticationProvider"@)) is Ok
    &&& spec_opt_opt_str(obj_lookup(es, "cognitoAuthenticationType"@)) is Ok
    &&& spec_opt_opt_str(obj_lookup(es, "accountId"@)) is Ok
    &&& spec_opt_opt_str(obj_lookup(es, "caller"@)) is Ok
    &&& spec_opt_opt_str(obj_lookup(es, "apiKey"@)) is Ok
    &&& spec_opt_opt_str(obj_lookup(es, "user"@)) is Ok
    &&& spec_opt_opt_str(obj_lookup(es, "userAgent"@)) is Ok
    &&& spec_opt_opt_str(obj_lookup(es, "userArn"@)) is Ok
}

/// The identity an object denotes, assuming its fields decode.
pub open spec fn spec_identity_of(es: Seq<(Seq<char>, JsonData)>) -> IdentityView {
    IdentityView {
        source_ip: spec_required_str(obj_lookup(es, "sourceIp"@))->Ok_0,
        cognito_identity_id: spec_opt_opt_str(obj_lookup(es, "cognitoIdentityId"@))->Ok_0,
        cognito_identity_pool_id: spec_opt_opt_str(obj_lookup(es, "cognitoIdentityPoolId"@))->Ok_0,
        cognito_authentication_provider: spec_opt_opt_str(
            obj_lookup(es, "cognitoAuthenticationProvider"@),
        )->Ok_0,
        cognito_authentication_type: spec_opt_opt_str(
            obj_lookup(es, "cognitoAuthenticationType"@),
        )->Ok_0,
        account_id: spec_opt_opt_str(obj_lookup(es, "accountId"@))->Ok_0,
        caller: spec_opt_opt_str(obj_lookup(es, "caller"@))->Ok_0,
        api_key: spec_opt_opt_str(obj_lookup(es, "apiKey"@))->Ok_0,
        user: spec_opt_opt_str(obj_lookup(es, "user"@))->Ok_0,
        user_agent: spec_opt_opt_str(obj_lookup(es, "userAgent"@))->Ok_0,
        user_arn: spec_opt_opt_str(obj_lookup(es, "userArn"@))->Ok_0,
    }
}

/// The identity field: absent and `null` mean the default identity; a
/// present object must carry its source address and decode field by
/// field.
pub open spec fn spec_decode_identity(v: Option<JsonData>) -> Result<IdentityView, DecodeError> {
    match v {
        None => Ok(IdentityView::default_view()),
        Some(JsonData::Null) => Ok(IdentityView::default_view()),
        Some(JsonData::Obj(es)) => if spec_identity_fields_ok(es) {
            Ok(spec_identity_of(es))
        } else {
            Err(DecodeError::Shape)
        },
        Some(_) => Err(DecodeError::Shape),
    }
}

/// True when every context field of the object decodes: the string
/// members are all required once the record is present.
pub open spec fn spec_context_fields_ok(es: Seq<(Seq<char>, JsonData)>) -> bool {
    &&& spec_required_str(obj_lookup(es, "accountId"@)) is Ok
    &&& spec_required_str(obj_lookup(es, "resourceId"@)) is Ok
    &&& spec_required_str(obj_lookup(es, "stage"@)) is Ok
    &&& spec_required_str(obj_lookup(es, "requestId"@)) is Ok
    &&& spec_required_str(obj_lookup(es, "resourcePath"@)) is Ok
    &&& spec_required_str(obj_lookup(es, "httpMethod"@)) is Ok
    &&& spec_required_str(obj_lookup(es, "apiId"@)) is Ok
    &&& spec_decode_identity(obj_lookup(es, "identity"@)) is Ok
}

/// The request context an object denotes, assuming its fields decode.
pub open spec fn spec_context_of(es: Seq<(Seq<char>, JsonData)>) -> RequestContextView {
    RequestContextView {
        account_id: spec_required_str(obj_lookup(es, "accountId"@))->Ok_0,
        resource_id: spec_required_str(obj_lookup(es, "resourceId"@))->Ok_0,
        stage: spec_required_str(obj_lookup(es, "stage"@))->Ok_0,
        request_id: spec_required_str(obj_lookup(es, "requestId"@))->Ok_0,
        resource_path: spec_required_str(obj_lookup(es, "resourcePath"@))->Ok_0,
        http_method: spec_required_str(obj_lookup(es, "httpMethod"@))->Ok_0,
        api_id: spec_required_str(obj_lookup(es, "apiId"@))->Ok_0,
        identity: spec_decode_identity(obj_lookup(es, "identity"@))->Ok_0,
    }
}

/// The request-context field: absent and `null` mean the default context;
/// a present object must carry every string member and decode field by
/// field.
pub open spec fn spec_decode_context(v: Option<JsonData>) -> Result<
    RequestContextView,
    DecodeError,
> {
    match v {
        None => Ok(RequestContextView::default_view()),
        Some(JsonData::Null) => Ok(RequestContextView::default_view()),
        Some(JsonData::Obj(es)) => if spec_context_fields_ok(es) {
            Ok(spec_context_of(es))
        } else {
            Err(DecodeError::Shape)
        },
        Some(_) => Err(DecodeError::Shape),
    }
}

/// What decoding a gateway event document yields: the envelope, or the
/// first error in wire-field order (path, method, headers, the three
/// parameter maps, body, base64 flag, request context).
pub open spec fn decode_envelope_spec(j: JsonData) -> Result<GatewayRequestView, DecodeError> {
    match j {
        JsonData::Obj(es) => match spec_required_str(obj_lookup(es, "path"@)) {
            Err(e) => Err(e),
            Ok(path) => match spec_required_str(obj_lookup(es, "httpMethod"@)) {
                Err(e) => Err(e),
                Ok(method) => match spec_decode_headers(obj_lookup(es, "headers"@)) {
                    Err(e) => Err(e),
                    Ok(headers) => match spec_decode_str_map(
                        obj_lookup(es, "queryStringParameters"@),
                    ) {
                        Err(e) => Err(e),
                        Ok(query) => match spec_decode_str_map(obj_lookup(es, "pathParameters"@)) {
                            Err(e) => Err(e),
                            Ok(path_params) => match spec_decode_str_map(
                                obj_lookup(es, "stageVariables"@),
                            ) {
                                Err(e) => Err(e),
                                Ok(stage) => match spec_opt_opt_str(obj_lookup(es, "body"@)) {
                                    Err(e) => Err(e),
                                    Ok(body) => match spec_bool_default(
                                        obj_lookup(es, "isBase64Encoded"@),
                                    ) {
                                        Err(e) => Err(e),
                                        Ok(flag) => match spec_decode_context(
                                            obj_lookup(es, "requestContext"@),
                                        ) {
                                            Err(e) => Err(e),
                                            Ok(ctx) => Ok(
                                                GatewayRequestView {
                                                    path,
                                                    http_method: method,
                                                    headers,
                                                    query_string_parameters: query,
                                                    path_parameters: path_params,
                                                    stage_variables: stage,
                                                    body,
                                                    is_base64_encoded: flag,
                                                    request_context: ctx,
                                                },
                                            ),
                                        },
                                    },
                                },
                            },
                        },
                    },
                },
            },
        },
        _ => Err(DecodeError::Shape),
    }
}

/// The model of an optional reference to a JSON value.
pub open spec fn opt_ref_view(f: Option<&JsonValue>) -> Option<JsonData> {
    match f {
        Some(x) => Some(x@),
        None => None,
    }
}

/// Decode a required string field.
fn decode_required_str(f: Option<&JsonValue>) -> (r: Result<String, DecodeError>)
    ensures
        r matches Ok(s) ==> spec_required_str(opt_ref_view(f)) == Ok::<Seq<char>, DecodeError>(
            s@,
        ),
        r matches Err(e) ==> spec_required_str(opt_ref_view(f)) == Err::<Seq<char>, DecodeError>(
            e,
        ),
{
    match f {
        Some(JsonValue::Str(s)) => Ok(s.clone()),
        _ => Err(DecodeError::Shape),
    }
}

/// Decode an optional string field; absent and `null` both mean `None`.
fn decode_opt_opt_str(f: Option<&JsonValue>) -> (r: Result<Option<String>, DecodeError>)
    ensures
        r matches Ok(o) ==> spec_opt_opt_str(opt_ref_view(f)) == Ok::<
            Option<Seq<char>>,
            DecodeError,
        >(opt_str_view(o)),
        r matches Err(e) ==> spec_opt_opt_str(opt_ref_view(f)) == Err::<
            Option<Seq<char>>,
            DecodeError,
        >(e),
{
    match f {
        None => Ok(None),
        Some(JsonValue::Null) => Ok(None),
        Some(JsonValue::Str(s)) => Ok(Some(s.clone())),
        Some(_) => Err(DecodeError::Shape),
    }
}

/// Decode a boolean field that defaults to `false` when absent.
fn decode_bool_default(f: Option<&JsonValue>) -> (r: Result<bool, DecodeError>)
    ensures
        r matches Ok(b) ==> spec_bool_default(opt_ref_view(f)) == Ok::<bool, DecodeError>(b),
        r matches Err(e) ==> spec_bool_default(opt_ref_view(f)) == Err::<bool, DecodeError>(e),
{
    match f {
        None => Ok(false),
        Some(JsonValue::Bool(b)) => Ok(*b),
        Some(_) => Err(DecodeError::Shape),
    }
}

/// Decode a parameter-map field into a [`StrMap`].
fn decode_str_map(f: Option<&JsonValue>) -> (r: Result<StrMap, DecodeError>)
    ensures
        r matches Ok(m) ==> spec_decode_str_map(opt_ref_view(f)) == Ok::<
            Seq<(Seq<char>, Seq<char>)>,
            DecodeError,
        >(m.entries_view()) && unique_keys(m.entries_view()),
        r matches Err(e) ==> spec_decode_str_map(opt_ref_view(f)) == Err::<
            Seq<(Seq<char>, Seq<char>)>,
            DecodeError,
        >(e),
{
    match f {
        None => Ok(StrMap::empty()),
        Some(JsonValue::Null) => Ok(StrMap::empty()),
        Some(x) => match x {
            JsonValue::Obj(es) => {
                let ghost model = crate::json::json_view_entries(es@);
                proof {
                    crate::json::lemma_json_view_entries(es@);
                    assert(x@ == JsonData::Obj(model));
                }
                let n = es.len();
                let mut out: Vec<(String, String)> = Vec::new();
                let mut i: usize = 0;
                while i < n
                    invariant
                        i <= n,
                        n == es@.len(),
                        model == crate::json::json_view_entries(es@),
                        model.len() == n,
                        opt_ref_view(f) == Some(x@),
                        x@ == JsonData::Obj(model),
                        forall|j: int| 0 <= j < n ==> model[j] == (
                            es@[j].0@,
                            crate::json::json_view(es@[j].1),
                        ),
                        forall|j: int| 0 <= j < i ==> model[j].1 is Str,
                        out@.len() == i,
                        forall|j: int| 0 <= j < i ==> out@[j].0@ == model[j].0 && out@[j].1@
                            == model[j].1->Str_0,
                    decreases n - i,
                {
                    match &es[i].1 {
                        JsonValue::Str(s) => {
                            out.push((es[i].0.clone(), s.clone()));
                            proof {
                                assert(es@[i as int].1 == JsonValue::Str(*s));
                                assert(model[i as int].1->Str_0 == s@);
                            }
                        },
                        _ => {
                            proof {
                                assert(!(model[i as int].1 is Str));
                                assert(!(forall|k: int|
                                    0 <= k < model.len() ==> model[k].1 is Str));
                            }
                            return Err(DecodeError::Shape);
                        },
                    }
                    i += 1;
                }
                proof {
                    assert(str_pairs_view(out@) =~= Seq::new(
                        n as nat,
                        |j: int| (model[j].0, model[j].1->Str_0),
                    ));
                }
                Ok(StrMap::from(out))
            },
            _ => Err(DecodeError::Shape),
        },
    }
}

/// True when `s` is a non-empty header-name token.
fn check_header_name(s: &String) -> (r: bool)
    ensures
        r == is_valid_header_name(s@),
{
    let cs = to_chars(s.as_str());
    let n = cs.len();
    if n == 0 {
        return false;
    }
    let mut i: usize = 0;
    while i < n
        invariant
            i <= n,
            n == cs@.len() == s@.len(),
            cs@ == s@,
            n > 0,
            forall|j: int| 0 <= j < i ==> is_header_name_char(s@[j]),
        decreases n - i,
    {
        let c = cs[i];
        proof {
            vstd::utf8::char_is_scalar(c);
        }
        let u = c as u32;
        let ok = (48 <= u && u <= 57) || (65 <= u && u <= 90) || (97 <= u && u <= 122) || u == 33
            || (35 <= u && u <= 39) || u == 42 || u == 43 || u == 45 || u == 46 || u == 94 || u
            == 95 || u == 96 || u == 124 || u == 126;
        if !ok {
            return false;
        }
        i += 1;
    }
    true
}

/// True when every character of `s` may stand in a header value.
fn check_header_value(s: &String) -> (r: bool)
    ensures
        r == is_valid_header_value(s@),
{
    let cs = to_chars(s.as_str());
    let n = cs.len();
    let mut i: usize = 0;
    while i < n
        invariant
            i <= n,
            n == cs@.len() == s@.len(),
            cs@ == s@,
            forall|j: int| 0 <= j < i ==> is_header_value_char(s@[j]),
        decreases n - i,
    {
        let c = cs[i];
        proof {
            vstd::utf8::char_is_scalar(c);
        }
        let u = c as u32;
        if !(u == 9 || (32 <= u && u != 127)) {
            return false;
        }
        i += 1;
    }
    true
}

/// Splitting the header entries after a clean prefix of length `i`.
proof fn lemma_header_entries_split(es: Seq<(Seq<char>, JsonData)>, i: int)
    requires
        0 <= i <= es.len(),
        forall|j: int| 0 <= j < i ==> spec_header_entry_err(es[j]) is None,
    ensures
        spec_decode_header_entries(es) == match spec_decode_header_entries(es.skip(i)) {
            Ok(rest) => Ok::<Seq<(Seq<char>, Seq<char>)>, DecodeError>(
                Seq::new(i as nat, |j: int| (es[j].0, es[j].1->Str_0)) + rest,
            ),
            Err(e) => Err::<Seq<(Seq<char>, Seq<char>)>, DecodeError>(e),
        },
    decreases i,
{
    if i == 0 {
        assert(es.skip(0) =~= es);
        match spec_decode_header_entries(es) {
            Ok(rest) => {
                assert(Seq::new(0nat, |j: int| (es[j].0, es[j].1->Str_0)) + rest =~= rest);
            },
            Err(_) => {},
        }
    } else {
        lemma_header_entries_split(es, i - 1);
        let tail = es.skip(i - 1);
        assert(tail.first() == es[i - 1]);
        assert(tail.drop_first() =~= es.skip(i));
        assert(spec_header_entry_err(es[i - 1]) is None);
        match spec_decode_header_entries(es.skip(i)) {
            Ok(rest) => {
                assert(spec_decode_header_entries(tail) == Ok::<
                    Seq<(Seq<char>, Seq<char>)>,
                    DecodeError,
                >(seq![(es[i - 1].0, es[i - 1].1->Str_0)] + rest));
                assert(Seq::new((i - 1) as nat, |j: int| (es[j].0, es[j].1->Str_0)) + (
                seq![(es[i - 1].0, es[i - 1].1->Str_0)] + rest) =~= Seq::new(
                    i as nat,
                    |j: int| (es[j].0, es[j].1->Str_0),
                ) + rest);
            },
            Err(_) => {},
        }
    }
}

/// Decode the header collection of an event.
fn decode_headers(f: Option<&JsonValue>) -> (r: Result<Vec<(String, String)>, DecodeError>)
    ensures
        r matches Ok(hs) ==> spec_decode_headers(opt_ref_view(f)) == Ok::<
            Seq<(Seq<char>, Seq<char>)>,
            DecodeError,
        >(str_pairs_view(hs@)),
        r matches Err(e) ==> spec_decode_headers(opt_ref_view(f)) == Err::<
            Seq<(Seq<char>, Seq<char>)>,
            DecodeError,
        >(e),
{
    match f {
        None => {
            let out: Vec<(String, String)> = Vec::new();
            proof {
                assert(str_pairs_view(out@) =~= Seq::<(Seq<char>, Seq<char>)>::empty());
            }
            Ok(out)
        },
        Some(x) => match x {
            JsonValue::Obj(es) => {
                let ghost model = crate::json::json_view_entries(es@);
                proof {
                    crate::json::lemma_json_view_entries(es@);
                    assert(x@ == JsonData::Obj(model));
                }
                let n = es.len();
                let mut out: Vec<(String, String)> = Vec::new();
                let mut i: usize = 0;
                while i < n
                    invariant
                        i <= n,
                        n == es@.len(),
                        model == crate::json::json_view_entries(es@),
                        model.len() == n,
                        opt_ref_view(f) == Some(x@),
                        x@ == JsonData::Obj(model),
                        forall|j: int| 0 <= j < n ==> model[j] == (
                            es@[j].0@,
                            crate::json::json_view(es@[j].1),
                        ),
                        forall|j: int| 0 <= j < i ==> spec_header_entry_err(model[j]) is None,
                        out@.len() == i,
                        forall|j: int| 0 <= j < i ==> out@[j].0@ == model[j].0 && out@[j].1@
                            == model[j].1->Str_0,
                    decreases n - i,
                {
                    match &es[i].1 {
                        JsonValue::Str(s) => {
                            if !check_header_name(&es[i].0) {
                                proof {
                                    lemma_header_entries_split(model, i as int);
                                    assert(model.skip(i as int).first() == model[i as int]);
                                }
                                return Err(DecodeError::HeaderName);
                            }
                            if !check_header_value(s) {
                                proof {
                                    lemma_header_entries_split(model, i as int);
                                    assert(model.skip(i as int).first() == model[i as int]);
                                }
                                return Err(DecodeError::HeaderValue);
                            }
                            out.push((es[i].0.clone(), s.clone()));
                            proof {
                                assert(es@[i as int].1 == JsonValue::Str(*s));
                                assert(model[i as int].1->Str_0 == s@);
                            }
                        },
                        _ => {
                            proof {
                                lemma_header_entries_split(model, i as int);
                                assert(model.skip(i as int).first() == model[i as int]);
                            }
                            return Err(DecodeError::Shape);
                        },
                    }
                    i += 1;
                }
                proof {
                    lemma_header_entries_split(model, n as int);
                    assert(model.skip(n as int) =~= Seq::<(Seq<char>, JsonData)>::empty());
                    assert(str_pairs_view(out@) =~= Seq::new(
                        n as nat,
                        |j: int| (model[j].0, model[j].1->Str_0),
                    ) + Seq::<(Seq<char>, Seq<char>)>::empty());
                    assert(spec_decode_headers(opt_ref_view(f)) == Ok::<
                        Seq<(Seq<char>, Seq<char>)>,
                        DecodeError,
                    >(str_pairs_view(out@)));
                }
                Ok(out)
            },
            _ => Err(DecodeError::Shape),
        },
    }
}

/// Decode the identity record of a request context.
#[verifier::rlimit(100)]
#[verifier::spinoff_prover]
fn decode_identity(f: Option<&JsonValue>) -> (r: Result<Identity, DecodeError>)
    ensures
        r matches Ok(id) ==> spec_decode_identity(opt_ref_view(f)) == Ok::<
            IdentityView,
            DecodeError,
        >(id@),
        r matches Err(e) ==> spec_decode_identity(opt_ref_view(f)) == Err::<
            IdentityView,
            DecodeError,
        >(e),
{
    match f {
        None => Ok(Identity::default()),
        Some(JsonValue::Null) => Ok(Identity::default()),
        Some(x) => match x {
            JsonValue::Obj(_) => {
                let source_ip = match decode_required_str(x.get("sourceIp")) {
                    Ok(v) => v,
                    Err(e) => {
                        return Err(e);
                    },
                };
                let cognito_identity_id = match decode_opt_opt_str(x.get("cognitoIdentityId")) {
                    Ok(v) => v,
                    Err(e) => {
                        return Err(e);
                    },
                };
                let cognito_identity_pool_id = match decode_opt_opt_str(
                    x.get("cognitoIdentityPoolId"),
                ) {
                    Ok(v) => v,
                    Err(e) => {
                        return Err(e);
                    },
                };
                let cognito_authentication_provider = match decode_opt_opt_str(
                    x.get("cognitoAuthenticationProvider"),
                ) {
                    Ok(v) => v,
                    Err(e) => {
                        return Err(e);
                    },
                };
                let cognito_authentication_type = match decode_opt_opt_str(
                    x.get("cognitoAuthenticationType"),
                ) {
                    Ok(v) => v,
                    Err(e) => {
                        return Err(e);
                    },
                };
                let account_id = match decode_opt_opt_str(x.get("accountId")) {
                    Ok(v) => v,
                    Err(e) => {
                        return Err(e);
                    },
                };
                let caller = match decode_opt_opt_str(x.get("caller")) {
                    Ok(v) => v,
                    Err(e) => {
                        return Err(e);
                    },
                };
                let api_key = match decode_opt_opt_str(x.get("apiKey")) {
                    Ok(v) => v,
                    Err(e) => {
                        return Err(e);
                    },
                };
                let user = match decode_opt_opt_str(x.get("user")) {
                    Ok(v) => v,
                    Err(e) => {
                        return Err(e);
                    },
                };
                let user_agent = match decode_opt_opt_str(x.get("userAgent")) {
                    Ok(v) => v,
                    Err(e) => {
                        return Err(e);
                    },
                };
                let user_arn = match decode_opt_opt_str(x.get("userArn")) {
                    Ok(v) => v,
                    Err(e) => {
                        return Err(e);
                    },
                };
                Ok(
                    Identity {
                        source_ip,
                        cognito_identity_id,
                        cognito_identity_pool_id,
                        cognito_authentication_provider,
                        cognito_authentication_type,
                        account_id,
                        caller,
                        api_key,
                        user,
                        user_agent,
                        user_arn,
                    },
                )
            },
            _ => Err(DecodeError::Shape),
        },
    }
}

/// Decode the request-context record of an event.
#[verifier::rlimit(100)]
#[verifier::spinoff_prover]
fn decode_context(f: Option<&JsonValue>) -> (r: Result<RequestContext, DecodeError>)
    ensures
        r matches Ok(c) ==> spec_decode_context(opt_ref_view(f)) == Ok::<
            RequestContextView,
            DecodeError,
        >(c@),
        r matches Err(e) ==> spec_decode_context(opt_ref_view(f)) == Err::<
            RequestContextView,
            DecodeError,
        >(e),
{
    match f {
        None => Ok(RequestContext::default()),
        Some(JsonValue::Null) => Ok(RequestContext::default()),
        Some(x) => match x {
            JsonValue::Obj(_) => {
                let account_id = match decode_required_str(x.get("accountId")) {
                    Ok(v) => v,
                    Err(e) => {
                        return Err(e);
                    },
                };
                let resource_id = match decode_required_str(x.get("resourceId")) {
                    Ok(v) => v,
                    Err(e) => {
                        return Err(e);
                    },
                };
                let stage = match decode_required_str(x.get("stage")) {
                    Ok(v) => v,
                    Err(e) => {
                        return Err(e);
                    },
                };
                let request_id = match decode_required_str(x.get("requestId")) {
                    Ok(v) => v,
                    Err(e) => {
                        return Err(e);
                    },
                };
                let resource_path = match decode_required_str(x.get("resourcePath")) {
                    Ok(v) => v,
                    Err(e) => {
                        return Err(e);
                    },
                };
                let http_method = match decode_required_str(x.get("httpMethod")) {
                    Ok(v) => v,
                    Err(e) => {
                        return Err(e);
                    },
                };
                let api_id = match decode_required_str(x.get("apiId")) {
                    Ok(v) => v,
                    Err(e) => {
                        return Err(e);
                    },
                };
                let identity = match decode_identity(x.get("identity")) {
                    Ok(v) => v,
                    Err(e) => {
                        return Err(e);
                    },
                };
                Ok(
                    RequestContext {
                        account_id,
                        resource_id,
                        stage,
                        request_id,
                        resource_path,
                        http_method,
                        api_id,
                        identity,
                    },
                )
            },
            _ => Err(DecodeError::Shape),
        },
    }
}

impl GatewayRequest {
    /// Decode a gateway event from its JSON document.
    pub fn from_json(v: &JsonValue) -> (r: Result<GatewayRequest, DecodeError>)
        ensures
            r matches Ok(g) ==> decode_envelope_spec(v@) == Ok::<
                GatewayRequestView,
                DecodeError,
            >(g@),
            r matches Err(e) ==> decode_envelope_spec(v@) == Err::<
                GatewayRequestView,
                DecodeError,
            >(e),
    {
        match v {
            JsonValue::Obj(_) => {
                let path = match decode_required_str(v.get("path")) {
                    Ok(s) => s,
                    Err(e) => {
                        return Err(e);
                    },
                };
                let http_method = match decode_required_str(v.get("httpMethod")) {
                    Ok(s) => s,
                    Err(e) => {
                        return Err(e);
                    },
                };
                let headers = match decode_headers(v.get("headers")) {
                    Ok(h) => h,
                    Err(e) => {
                        return Err(e);
                    },
                };
                let query_string_parameters = match decode_str_map(
                    v.get("queryStringParameters"),
                ) {
                    Ok(m) => m,
                    Err(e) => {
                        return Err(e);
                    },
                };
                let path_parameters = match decode_str_map(v.get("pathParameters")) {
                    Ok(m) => m,
                    Err(e) => {
                        return Err(e);
                    },
                };
                let stage_variables = match decode_str_map(v.get("stageVariables")) {
                    Ok(m) => m,
                    Err(e) => {
                        return Err(e);
                    },
                };
                let body = match decode_opt_opt_str(v.get("body")) {
                    Ok(b) => b,
                    Err(e) => {
                        return Err(e);
                    },
                };
                let is_base64_encoded = match decode_bool_default(v.get("isBase64Encoded")) {
                    Ok(b) => b,
                    Err(e) => {
                        return Err(e);
                    },
                };
                let request_context = match decode_context(v.get("requestContext")) {
                    Ok(c) => c,
                    Err(e) => {
                        return Err(e);
                    },
                };
                Ok(
                    GatewayRequest {
                        path,
                        http_method,
                        headers,
                        query_string_parameters,
                        path_parameters,
                        stage_variables,
                        body,
                        is_base64_encoded,
                        request_context,
                    },
                )
            },
            _ => Err(DecodeError::Shape),
        }
    }
}

/// The value of the first header whose name is `Host` in any ASCII case;
/// empty when there is none.
pub open spec fn host_of(hs: Seq<(Seq<char>, Seq<char>)>) -> Seq<char>
    decreases hs.len(),
{
    if hs.len() == 0 {
        Seq::empty()
    } else if eq_ignore_ascii_case(hs.first().0, "Host"@) {
        hs.first().1
    } else {
        host_of(hs.drop_first())
    }
}

/// Scanning past non-`Host` headers keeps the host.
proof fn lemma_host_of_skip(hs: Seq<(Seq<char>, Seq<char>)>, i: int)
    requires
        0 <= i <= hs.len(),
        forall|j: int| 0 <= j < i ==> !eq_ignore_ascii_case(hs[j].0, "Host"@),
    ensures
        host_of(hs) == host_of(hs.skip(i)),
    decreases i,
{
    if i > 0 {
        lemma_host_of_skip(hs, i - 1);
        let tail = hs.skip(i - 1);
        assert(tail.first() == hs[i - 1]);
        assert(tail.drop_first() =~= hs.skip(i));
    } else {
        assert(hs.skip(0) =~= hs);
    }
}

/// The body a request materializes: absent means empty; with the base64
/// flag the text must decode to bytes, else the text's UTF-8 bytes.
pub open spec fn assemble_body(body: Option<Seq<char>>, flag: bool) -> Result<
    BodyData,
    DecodeError,
> {
    match body {
        None => Ok(BodyData::Empty),
        Some(s) => if flag {
            match b64_decode_of(s) {
                Some(d) => Ok(BodyData::Binary(d)),
                None => Err(DecodeError::Base64),
            }
        } else {
            Ok(BodyData::Text(encode_utf8(s)))
        },
    }
}

/// What assembling a canonical request from an envelope yields: the method
/// verbatim, the target `https://{host}{path}`, headers and metadata kept,
/// and the body materialized per the base64 flag (a malformed base64 body
/// is a fatal error, never silently dropped).
pub open spec fn assemble_spec(g: GatewayRequestView) -> Result<RequestView, DecodeError> {
    match assemble_body(g.body, g.is_base64_encoded) {
        Err(e) => Err(e),
        Ok(b) => Ok(
            RequestView {
                method: g.http_method,
                uri: "https://"@ + host_of(g.headers) + g.path,
                headers: g.headers,
                body: b,
                query_string_parameters: g.query_string_parameters,
                path_parameters: g.path_parameters,
                stage_variables: g.stage_variables,
                request_context: g.request_context,
            },
        ),
    }
}

/// Mathematical model of a [`Request`].
pub struct RequestView {
    pub method: Seq<char>,
    pub uri: Seq<char>,
    pub headers: Seq<(Seq<char>, Seq<char>)>,
    pub body: BodyData,
    pub query_string_parameters: Seq<(Seq<char>, Seq<char>)>,
    pub path_parameters: Seq<(Seq<char>, Seq<char>)>,
    pub stage_variables: Seq<(Seq<char>, Seq<char>)>,
    pub request_context: RequestContextView,
}

/// The canonical request handed to the application handler: a conventional
/// method/target/headers/body quadruple carrying the gateway's side-channel
/// metadata as retrievable fields.
#[derive(Debug)]
pub struct Request {
    method: String,
    uri: String,
    headers: Vec<(String, String)>,
    body: Body,
    query_string_parameters: StrMap,
    path_parameters: StrMap,
    stage_variables: StrMap,
    request_context: RequestContext,
}

impl View for Request {
    type V = RequestView;

    closed spec fn view(&self) -> RequestView {
        RequestView {
            method: self.method@,
            uri: self.uri@,
            headers: str_pairs_view(self.headers@),
            body: self.body@,
            query_string_parameters: self.query_string_parameters.entries_view(),
            path_parameters: self.path_parameters.entries_view(),
            stage_variables: self.stage_variables.entries_view(),
            request_context: self.request_context@,
        }
    }
}

/// Find the first header named `Host` in any ASCII case.
fn find_host(headers: &Vec<(String, String)>) -> (r: Option<usize>)
    ensures
        match r {
            Some(i) => i < headers@.len() && host_of(str_pairs_view(headers@))
                == str_pairs_view(headers@)[i as int].1,
            None => host_of(str_pairs_view(headers@)) == Seq::<char>::empty(),
        },
{
    let ghost hv = str_pairs_view(headers@);
    let host_chars = to_chars("Host");
    let n = headers.len();
    let mut i: usize = 0;
    while i < n
        invariant
            i <= n,
            n == headers@.len(),
            host_chars@ == "Host"@,
            hv == str_pairs_view(headers@),
            forall|j: int| 0 <= j < i ==> !eq_ignore_ascii_case(hv[j].0, "Host"@),
        decreases n - i,
    {
        let name = to_chars(headers[i].0.as_str());
        if chars_eq_ignore_ascii_case(&name, &host_chars) {
            proof {
                lemma_host_of_skip(hv, i as int);
                assert(hv.skip(i as int).first() == hv[i as int]);
            }
            return Some(i);
        }
        i += 1;
    }
    proof {
        lemma_host_of_skip(hv, n as int);
        assert(hv.skip(n as int) =~= Seq::<(Seq<char>, Seq<char>)>::empty());
    }
    None
}

impl GatewayRequest {
    /// Assemble the canonical request from this envelope: the method
    /// verbatim, the target synthesized from the `Host` header and the
    /// path, headers copied with case and order preserved, the parameter
    /// maps and context attached, and the body materialized per the base64
    /// flag. A body that claims to be base64 but does not decode is a
    /// fatal error.
    pub fn into_request(self) -> (r: Result<Request, DecodeError>)
        ensures
            r matches Ok(req) ==> assemble_spec(self@) == Ok::<RequestView, DecodeError>(req@),
            r matches Err(e) ==> assemble_spec(self@) == Err::<RequestView, DecodeError>(e),
    {
        let GatewayRequest {
            path,
            http_method,
            headers,
            query_string_parameters,
            path_parameters,
            stage_variables,
            body,
            is_base64_encoded,
            request_context,
        } = self;
        let ghost hv = str_pairs_view(headers@);
        let mut uri = String::new();
        uri.append("https://");
        match find_host(&headers) {
            Some(i) => {
                uri.append(headers[i].1.as_str());
            },
            None => {},
        }
        uri.append(path.as_str());
        proof {
            assert(uri@ =~= "https://"@ + host_of(hv) + path@);
        }
        let b: Body = match body {
            None => Body::Empty,
            Some(s) => {
                if is_base64_encoded {
                    match b64_decode(s.as_str()) {
                        Ok(d) => Body::Binary(d),
                        Err(_) => {
                            return Err(DecodeError::Base64);
                        },
                    }
                } else {
                    Body::Text(s.as_str().as_bytes_vec())
                }
            },
        };
        Ok(
            Request {
                method: http_method,
                uri,
                headers,
                body: b,
                query_string_parameters,
                path_parameters,
                stage_variables,
                request_context,
            },
        )
    }
}

impl Request {
    /// The request method, taken verbatim from the event.
    pub fn method(&self) -> (r: &String)
        ensures
            r@ == self@.method,
    {
        &self.method
    }

    /// The request target, `https://{host}{path}`.
    pub fn uri(&self) -> (r: &String)
        ensures
            r@ == self@.uri,
    {
        &self.uri
    }

    /// The headers, case and order preserved.
    pub fn headers(&self) -> (r: &Vec<(String, String)>)
        ensures
            str_pairs_view(r@) == self@.headers,
    {
        &self.headers
    }

    /// The materialized body.
    pub fn body(&self) -> (r: &Body)
        ensures
            r@ == self@.body,
    {
        &self.body
    }

    /// Pre-parsed query string parameters; empty when the event had none.
    pub fn query_string_parameters(&self) -> (r: StrMap)
        ensures
            r.entries_view() == self@.query_string_parameters,
            r@ == pairs_to_map(self@.query_string_parameters),
    {
        self.query_string_parameters.clone()
    }

    /// Pre-extracted path parameters; empty when the event had none.
    pub fn path_parameters(&self) -> (r: StrMap)
        ensures
            r.entries_view() == self@.path_parameters,
            r@ == pairs_to_map(self@.path_parameters),
    {
        self.path_parameters.clone()
    }

    /// Stage variables; empty when the event had none.
    pub fn stage_variables(&self) -> (r: StrMap)
        ensures
            r.entries_view() == self@.stage_variables,
            r@ == pairs_to_map(self@.stage_variables),
    {
        self.stage_variables.clone()
    }

    /// The gateway's request context; defaulted when the event had none.
    pub fn request_context(&self) -> (r: RequestContext)
        ensures
            r@ == self@.request_context,
    {
        self.request_context.clone()
    }
}

impl GatewayRequest {
    /// Decode a gateway event from raw JSON bytes.
    pub fn decode(bytes: &[u8]) -> (r: Result<GatewayRequest, DecodeError>)
        ensures
            json_of(bytes@) is None ==> (r matches Err(e) && e == DecodeError::Json),
            json_of(bytes@) matches Some(j) ==> (match r {
                Ok(g) => decode_envelope_spec(j) == Ok::<GatewayRequestView, DecodeError>(g@),
                Err(e) => decode_envelope_spec(j) == Err::<GatewayRequestView, DecodeError>(e),
            }),
    {
        match parse_json(bytes) {
            Ok(v) => GatewayRequest::from_json(&v),
            Err(_) => Err(DecodeError::Json),
        }
    }
}

/// Decoding `null` (or an absent field) as a parameter map yields the
/// empty map, and decoding an object whose values are all strings and
/// whose keys are distinct (as a parsed object's are) yields exactly the
/// object's key/value pairs, in order.
pub proof fn lemma_str_map_decode(es: Seq<(Seq<char>, JsonData)>)
    ensures
        spec_decode_str_map(None) == Ok::<Seq<(Seq<char>, Seq<char>)>, DecodeError>(Seq::empty()),
        spec_decode_str_map(Some(JsonData::Null)) == Ok::<
            Seq<(Seq<char>, Seq<char>)>,
            DecodeError,
        >(Seq::empty()),
        ((forall|i: int| 0 <= i < es.len() ==> es[i].1 is Str) && (forall|i: int, j: int|
            0 <= i < j < es.len() ==> es[i].0 != es[j].0)) ==> spec_decode_str_map(
            Some(JsonData::Obj(es)),
        ) == Ok::<Seq<(Seq<char>, Seq<char>)>, DecodeError>(
            Seq::new(es.len(), |i: int| (es[i].0, es[i].1->Str_0)),
        ),
{
    if (forall|i: int| 0 <= i < es.len() ==> es[i].1 is Str) && (forall|i: int, j: int|
        0 <= i < j < es.len() ==> es[i].0 != es[j].0) {
        let ps = Seq::new(es.len(), |i: int| (es[i].0, es[i].1->Str_0));
        assert(unique_keys(ps));
        lemma_collapse_fixed(ps);
    }
}

/// What a raw event yields end to end: parse the JSON, decode the
/// envelope, assemble the canonical request; the first failure wins.
pub open spec fn request_of_event(b: Seq<u8>) -> Result<RequestView, DecodeError> {
    match json_of(b) {
        None => Err(DecodeError::Json),
        Some(j) => match decode_envelope_spec(j) {
            Err(e) => Err(e),
            Ok(g) => assemble_spec(g),
        },
    }
}

impl Request {
    /// Decode a gateway event and assemble the canonical request: the one
    /// inbound seam the embedding layer calls.
    pub fn from_event(bytes: &[u8]) -> (r: Result<Request, DecodeError>)
        ensures
            r matches Ok(req) ==> request_of_event(bytes@) == Ok::<RequestView, DecodeError>(
                req@,
            ),
            r matches Err(e) ==> request_of_event(bytes@) == Err::<RequestView, DecodeError>(e),
    {
        match GatewayRequest::decode(bytes) {
            Ok(g) => g.into_request(),
            Err(e) => Err(e),
        }
    }
}

} // verus!

use lando::{Body, GatewayResponse, IntoResponse, JsonValue, Response};

#[test]
fn default_response() {
    assert_eq!(GatewayResponse::default().status_code, 200)
}

#[test]
fn serialize_default() {
    assert_eq!(
        GatewayResponse::default().to_json_string(),
        r#"{"statusCode":200}"#
    );
}

#[test]
fn serialize_body() {
    let mut resp = GatewayResponse::default();
    resp.body = Some("foo".into());
    assert_eq!(
        resp.to_json_string(),
        r#"{"statusCode":200,"body":"foo"}"#
    );
}

#[test]
fn serialize_status_and_headers() {
    let mut resp = GatewayResponse::default();
    resp.status_code = 404;
    resp.headers = vec![("x-request-id".to_string(), "abc".to_string())];
    assert_eq!(
        resp.to_json_string(),
        r#"{"statusCode":404,"headers":{"x-request-id":"abc"}}"#
    );
}

#[test]
fn serialize_base64_flag_only_when_set() {
    let mut resp = GatewayResponse::default();
    resp.is_base64_encoded = true;
    assert_eq!(
        resp.to_json_string(),
        r#"{"statusCode":200,"isBase64Encoded":true}"#
    );
}

#[test]
fn response_projects_to_wire_shape() {
    let mut r = Response::new(Body::from("foo"));
    r.set_status(201);
    r.insert_header("X-One".to_string(), "1".to_string());
    let wire = GatewayResponse::from(r);
    assert_eq!(wire.status_code, 201);
    assert_eq!(wire.headers, vec![("X-One".to_string(), "1".to_string())]);
    assert_eq!(wire.body, Some("foo".to_string()));
    assert!(!wire.is_base64_encoded);
}

#[test]
fn duplicate_headers_collapse_last_wins() {
    let mut r = Response::new(Body::Empty);
    r.insert_header("X-One".to_string(), "1".to_string());
    r.insert_header("X-Two".to_string(), "2".to_string());
    r.insert_header("X-One".to_string(), "3".to_string());
    let wire = GatewayResponse::from(r);
    assert_eq!(
        wire.headers,
        vec![
            ("X-One".to_string(), "3".to_string()),
            ("X-Two".to_string(), "2".to_string()),
        ]
    );
}

#[test]
fn empty_body_is_omitted() {
    let wire = GatewayResponse::from(Response::new(Body::Empty));
    assert_eq!(wire.body, None);
    assert_eq!(wire.to_json_string(), r#"{"statusCode":200}"#);
}

#[test]
fn invalid_utf8_body_is_replaced_not_failed() {
    let wire = GatewayResponse::from(Response::new(Body::Binary(vec![0xff])));
    assert_eq!(wire.body, Some("\u{FFFD}".to_string()));
}

#[test]
fn json_into_response() {
    let value = JsonValue::Obj(vec![(
        "hello".to_string(),
        JsonValue::Str("lambda".to_string()),
    )]);
    let response = value.into_response();
    match response.body() {
        Body::Text(json) => assert_eq!(
            String::from_utf8(json.clone()).expect("invalid body"),
            r#"{"hello":"lambda"}"#
        ),
        _ => panic!("invalid body"),
    }
    let content_type = response
        .headers()
        .iter()
        .find(|(k, _)| k == "Content-Type")
        .map(|(_, v)| v.as_str());
    assert_eq!(content_type, Some("application/json"));
}

#[test]
fn text_into_response_is_unchanged() {
    let response = "hello".into_response();
    assert_eq!(response.status(), 200);
    assert_eq!(response.body(), &Body::from("hello"));
}

#[test]
fn json_documents_serialize_exactly() {
    let value = JsonValue::Arr(vec![
        JsonValue::Null,
        JsonValue::Bool(true),
        JsonValue::Num("2".to_string()),
        JsonValue::Str("x".to_string()),
        JsonValue::Obj(vec![]),
    ]);
    assert_eq!(value.to_json_string(), r#"[null,true,2,"x",{}]"#);
}

#[test]
fn json_num_as_u64_parses_decimals() {
    assert_eq!(JsonValue::Num("2".to_string()).as_u64(), Some(2));
    assert_eq!(
        JsonValue::Num("18446744073709551615".to_string()).as_u64(),
        Some(u64::MAX)
    );
    assert_eq!(JsonValue::Num("18446744073709551616".to_string()).as_u64(), None);
    assert_eq!(JsonValue::Num("1.5".to_string()).as_u64(), None);
    assert_eq!(JsonValue::Str("2".to_string()).as_u64(), None);
}

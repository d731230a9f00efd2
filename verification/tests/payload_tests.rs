use lando::{GatewayRequest, JsonValue, Payload, PayloadError};

fn pairs(list: &[(&str, &str)]) -> Vec<(String, String)> {
    list.iter().map(|(k, v)| (k.to_string(), v.to_string())).collect()
}

#[test]
fn requests_have_form_post_parseable_payloads() {
    let gwr = GatewayRequest {
        path: "/foo".into(),
        http_method: "GET".into(),
        headers: pairs(&[
            ("Host", "www.rust-lang.org"),
            ("Content-Type", "application/x-www-form-urlencoded"),
        ]),
        body: Some("foo=bar&baz=2".into()),
        ..Default::default()
    };
    let actual = gwr.into_request().unwrap();
    match actual.payload().unwrap() {
        Some(Payload::Form(m)) => {
            assert_eq!(m.get("foo"), Some("bar"));
            assert_eq!(m.get("baz").and_then(|v| v.parse::<usize>().ok()), Some(2));
        }
        other => panic!("expected a form payload, got {:?}", other),
    }
}

#[test]
fn requests_have_form_post_parseable_payloads_for_hashmaps() {
    let gwr = GatewayRequest {
        path: "/foo".into(),
        http_method: "GET".into(),
        headers: pairs(&[
            ("Host", "www.rust-lang.org"),
            ("Content-Type", "application/x-www-form-urlencoded"),
        ]),
        body: Some("foo=bar&baz=2".into()),
        ..Default::default()
    };
    let actual = gwr.into_request().unwrap();
    match actual.payload().unwrap() {
        Some(Payload::Form(m)) => {
            assert_eq!(m.get("foo"), Some("bar"));
            assert_eq!(m.get("baz"), Some("2"));
            assert_eq!(m.get("boom"), None);
        }
        other => panic!("expected a form payload, got {:?}", other),
    }
}

#[test]
fn requests_have_json_parseable_payloads() {
    let gwr = GatewayRequest {
        path: "/foo".into(),
        http_method: "GET".into(),
        headers: pairs(&[
            ("Host", "www.rust-lang.org"),
            ("Content-Type", "application/json"),
        ]),
        body: Some(r#"{"foo":"bar", "baz": 2}"#.into()),
        ..Default::default()
    };
    let actual = gwr.into_request().unwrap();
    match actual.payload().unwrap() {
        Some(Payload::Json(v)) => {
            match v.get("foo") {
                Some(JsonValue::Str(s)) => assert_eq!(s, "bar"),
                other => panic!("expected a string, got {:?}", other),
            }
            assert_eq!(v.get("baz").and_then(|n| n.as_u64()), Some(2));
        }
        other => panic!("expected a json payload, got {:?}", other),
    }
}

#[test]
fn no_content_type_means_no_payload() {
    let gwr = GatewayRequest {
        path: "/foo".into(),
        http_method: "POST".into(),
        headers: pairs(&[("Host", "www.rust-lang.org")]),
        body: Some(r#"{"foo":"bar"}"#.into()),
        ..Default::default()
    };
    let actual = gwr.into_request().unwrap();
    assert!(matches!(actual.payload(), Ok(None)));
}

#[test]
fn unrecognized_content_type_means_no_payload() {
    let gwr = GatewayRequest {
        path: "/foo".into(),
        http_method: "POST".into(),
        headers: pairs(&[("Content-Type", "text/plain")]),
        body: Some("anything at all".into()),
        ..Default::default()
    };
    let actual = gwr.into_request().unwrap();
    assert!(matches!(actual.payload(), Ok(None)));
}

#[test]
fn media_type_match_ignores_case_and_parameters() {
    let gwr = GatewayRequest {
        path: "/foo".into(),
        http_method: "POST".into(),
        headers: pairs(&[("content-type", " Application/JSON ; charset=utf-8")]),
        body: Some(r#"{"a":1}"#.into()),
        ..Default::default()
    };
    let actual = gwr.into_request().unwrap();
    assert!(matches!(actual.payload(), Ok(Some(Payload::Json(_)))));
}

#[test]
fn malformed_json_payload_is_a_typed_error() {
    let gwr = GatewayRequest {
        path: "/foo".into(),
        http_method: "POST".into(),
        headers: pairs(&[("Content-Type", "application/json")]),
        body: Some("{oops".into()),
        ..Default::default()
    };
    let actual = gwr.into_request().unwrap();
    assert_eq!(actual.payload().unwrap_err(), PayloadError::Json);
}

#[test]
fn form_payloads_keep_undecodable_escapes_literally() {
    let gwr = GatewayRequest {
        path: "/foo".into(),
        http_method: "POST".into(),
        headers: pairs(&[("Content-Type", "application/x-www-form-urlencoded")]),
        body: Some("foo=%zz&bar=a%20b".into()),
        ..Default::default()
    };
    let actual = gwr.into_request().unwrap();
    match actual.payload().unwrap() {
        Some(Payload::Form(m)) => {
            assert_eq!(m.get("foo"), Some("%zz"));
            assert_eq!(m.get("bar"), Some("a b"));
        }
        other => panic!("expected a form payload, got {:?}", other),
    }
}

#[test]
fn form_payload_repeated_keys_last_wins() {
    let gwr = GatewayRequest {
        path: "/foo".into(),
        http_method: "POST".into(),
        headers: pairs(&[("Content-Type", "application/x-www-form-urlencoded")]),
        body: Some("a=1&a=2".into()),
        ..Default::default()
    };
    let actual = gwr.into_request().unwrap();
    match actual.payload().unwrap() {
        Some(Payload::Form(m)) => {
            assert_eq!(m.get("a"), Some("2"));
            let mut count = 0;
            let mut it = m.iter();
            while let Some((k, v)) = it.next() {
                assert_eq!(k, "a");
                assert_eq!(v, "2");
                count += 1;
            }
            assert_eq!(count, 1);
        }
        other => panic!("expected a form payload, got {:?}", other),
    }
}

#[test]
fn empty_body_with_form_content_type_yields_empty_map() {
    let gwr = GatewayRequest {
        path: "/foo".into(),
        http_method: "POST".into(),
        headers: pairs(&[("Content-Type", "application/x-www-form-urlencoded")]),
        ..Default::default()
    };
    let actual = gwr.into_request().unwrap();
    match actual.payload().unwrap() {
        Some(Payload::Form(m)) => assert!(m.is_empty()),
        other => panic!("expected a form payload, got {:?}", other),
    }
}

use lando::{Body, DecodeError, GatewayRequest, Request, StrMap};

fn pairs(list: &[(&str, &str)]) -> Vec<(String, String)> {
    list.iter().map(|(k, v)| (k.to_string(), v.to_string())).collect()
}

#[test]
fn str_map_default_is_empty() {
    assert!(StrMap::default().is_empty())
}

#[test]
fn str_map_get() {
    let strmap = StrMap::from(pairs(&[("foo", "bar")]));
    assert_eq!(strmap.get("foo"), Some("bar"));
    assert_eq!(strmap.get("bar"), None);
}

#[test]
fn str_map_iter() {
    let strmap = StrMap::from(pairs(&[("foo", "bar"), ("baz", "boom")]));
    let mut values = Vec::new();
    let mut it = strmap.iter();
    while let Some((_, v)) = it.next() {
        values.push(v.to_string());
    }
    values.sort();
    assert_eq!(values, vec!["bar", "boom"]);
}

#[test]
fn request_requests_convert() {
    let gwr = GatewayRequest {
        path: "/foo".into(),
        http_method: "GET".into(),
        headers: pairs(&[("Host", "www.rust-lang.org")]),
        ..Default::default()
    };
    let actual = gwr.into_request().unwrap();
    assert_eq!(actual.uri().as_str(), "https://www.rust-lang.org/foo");
    assert_eq!(actual.method().as_str(), "GET");
}

#[test]
fn ext_requests_convert() {
    let gwr = GatewayRequest {
        path: "/foo".into(),
        http_method: "GET".into(),
        headers: pairs(&[("Host", "www.rust-lang.org")]),
        ..Default::default()
    };
    let actual = gwr.into_request().unwrap();
    assert_eq!(actual.uri().as_str(), "https://www.rust-lang.org/foo");
    assert_eq!(actual.method().as_str(), "GET");
}

#[test]
fn http_requests_convert() {
    let gwr = GatewayRequest {
        path: "/foo".into(),
        http_method: "GET".into(),
        headers: pairs(&[("Host", "www.rust-lang.org")]),
        ..Default::default()
    };
    let actual = gwr.into_request().unwrap();
    assert_eq!(actual.uri().as_str(), "https://www.rust-lang.org/foo");
    assert_eq!(actual.method().as_str(), "GET");
}

#[test]
fn ext_requests_have_query_string_ext() {
    let query = StrMap::from(pairs(&[("foo", "bar")]));
    let gwr = GatewayRequest {
        path: "/foo".into(),
        http_method: "GET".into(),
        headers: pairs(&[("Host", "www.rust-lang.org")]),
        query_string_parameters: query.clone(),
        ..Default::default()
    };
    let actual = gwr.into_request().unwrap();
    assert_eq!(actual.query_string_parameters(), query.clone());
}

#[test]
fn http_requests_have_query_string_ext() {
    let query = StrMap::from(pairs(&[("foo", "bar")]));
    let gwr = GatewayRequest {
        path: "/foo".into(),
        http_method: "GET".into(),
        headers: pairs(&[("Host", "www.rust-lang.org")]),
        query_string_parameters: query.clone(),
        ..Default::default()
    };
    let actual = gwr.into_request().unwrap();
    assert_eq!(actual.query_string_parameters(), query.clone());
}

#[test]
fn implements_default() {
    assert_eq!(
        GatewayRequest { path: "/foo".into(), ..Default::default() }.path,
        "/foo"
    )
}

#[test]
fn deserializes_request_events() {
    let input = r#"{
      "path": "/test/hello",
      "headers": {
        "Accept": "text/html,application/xhtml+xml,application/xml;q=0.9,image/webp,*/*;q=0.8",
        "Accept-Encoding": "gzip, deflate, lzma, sdch, br",
        "Accept-Language": "en-US,en;q=0.8",
        "CloudFront-Forwarded-Proto": "https",
        "Host": "wt6mne2s9k.execute-api.us-west-2.amazonaws.com",
        "Upgrade-Insecure-Requests": "1",
        "X-Forwarded-For": "192.168.100.1, 192.168.1.1",
        "X-Forwarded-Port": "443",
        "X-Forwarded-Proto": "https"
      },
      "pathParameters": {"proxy": "hello"},
      "requestContext": {
        "accountId": "123456789012",
        "resourceId": "us4z18",
        "stage": "test",
        "requestId": "41b45ea3-70b5-11e6-b7bd-69b5aaebc7d9",
        "identity": {
          "accountId": null,
          "sourceIp": "192.168.100.1",
          "userAgent": "Mozilla/5.0"
        },
        "resourcePath": "/{proxy+}",
        "httpMethod": "GET",
        "apiId": "wt6mne2s9k"
      },
      "resource": "/{proxy+}",
      "httpMethod": "GET",
      "queryStringParameters": {"name": "me"},
      "stageVariables": {"stageVarName": "stageVarValue"},
      "body": null,
      "isBase64Encoded": false
    }"#;
    assert!(GatewayRequest::decode(input.as_bytes()).is_ok())
}

#[test]
fn deserialize_with_null() {
    let input = r#"{
      "path": "/foo",
      "httpMethod": "GET",
      "queryStringParameters": null,
      "pathParameters": null,
      "stageVariables": null
    }"#;
    let gwr = GatewayRequest::decode(input.as_bytes()).expect("failed to deserialize");
    assert!(gwr.query_string_parameters.is_empty());
    assert!(gwr.path_parameters.is_empty());
    assert!(gwr.stage_variables.is_empty());
}

#[test]
fn decodes_object_parameter_maps_exactly() {
    let input = r#"{"path":"/","httpMethod":"GET","queryStringParameters":{"a":"1","b":"2"}}"#;
    let gwr = GatewayRequest::decode(input.as_bytes()).unwrap();
    assert_eq!(gwr.query_string_parameters.get("a"), Some("1"));
    assert_eq!(gwr.query_string_parameters.get("b"), Some("2"));
    assert_eq!(gwr.query_string_parameters.get("c"), None);
}

#[test]
fn rejects_missing_path() {
    let input = r#"{"httpMethod":"GET"}"#;
    assert_eq!(GatewayRequest::decode(input.as_bytes()).unwrap_err(), DecodeError::Shape);
}

#[test]
fn rejects_malformed_json() {
    assert_eq!(GatewayRequest::decode(b"{not json").unwrap_err(), DecodeError::Json);
}

#[test]
fn rejects_bad_header_name() {
    let input = r#"{"path":"/","httpMethod":"GET","headers":{"bad name":"x"}}"#;
    assert_eq!(GatewayRequest::decode(input.as_bytes()).unwrap_err(), DecodeError::HeaderName);
}

#[test]
fn rejects_bad_header_value() {
    let input = "{\"path\":\"/\",\"httpMethod\":\"GET\",\"headers\":{\"X-Thing\":\"a\\u0000b\"}}";
    assert_eq!(GatewayRequest::decode(input.as_bytes()).unwrap_err(), DecodeError::HeaderValue);
}

#[test]
fn rejects_non_string_header_value() {
    let input = r#"{"path":"/","httpMethod":"GET","headers":{"X-Thing":2}}"#;
    assert_eq!(GatewayRequest::decode(input.as_bytes()).unwrap_err(), DecodeError::Shape);
}

#[test]
fn base64_bodies_decode() {
    let gwr = GatewayRequest {
        path: "/".into(),
        http_method: "POST".into(),
        body: Some("YmFy".into()),
        is_base64_encoded: true,
        ..Default::default()
    };
    let req = gwr.into_request().unwrap();
    assert_eq!(req.body(), &Body::Binary(b"bar".to_vec()));
}

#[test]
fn malformed_base64_bodies_are_fatal() {
    let gwr = GatewayRequest {
        path: "/".into(),
        http_method: "POST".into(),
        body: Some("!!not base64!!".into()),
        is_base64_encoded: true,
        ..Default::default()
    };
    assert_eq!(gwr.into_request().unwrap_err(), DecodeError::Base64);
}

#[test]
fn text_bodies_stay_text() {
    let gwr = GatewayRequest {
        path: "/".into(),
        http_method: "POST".into(),
        body: Some("hello".into()),
        ..Default::default()
    };
    let req = gwr.into_request().unwrap();
    assert_eq!(req.body(), &Body::from("hello"));
}

#[test]
fn host_lookup_is_case_insensitive() {
    let gwr = GatewayRequest {
        path: "/x".into(),
        http_method: "GET".into(),
        headers: pairs(&[("hOsT", "example.org")]),
        ..Default::default()
    };
    let req = gwr.into_request().unwrap();
    assert_eq!(req.uri().as_str(), "https://example.org/x");
}

#[test]
fn missing_host_leaves_empty_segment() {
    let gwr = GatewayRequest {
        path: "/x".into(),
        http_method: "GET".into(),
        ..Default::default()
    };
    let req = gwr.into_request().unwrap();
    assert_eq!(req.uri().as_str(), "https:///x");
}

#[test]
fn end_to_end_event_to_request() {
    let input = r#"{"path":"/foo","httpMethod":"GET","headers":{"Host":"example.org"}}"#;
    let req = Request::from_event(input.as_bytes()).unwrap();
    assert_eq!(req.uri().as_str(), "https://example.org/foo");
}

#[test]
fn context_defaults_when_absent() {
    let input = r#"{"path":"/","httpMethod":"GET"}"#;
    let gwr = GatewayRequest::decode(input.as_bytes()).unwrap();
    assert_eq!(gwr.request_context.account_id, "");
    assert_eq!(gwr.request_context.identity.source_ip, "");
    assert_eq!(gwr.request_context.identity.caller, None);
}

#[test]
fn context_fields_decode() {
    let input = r#"{"path":"/","httpMethod":"GET","requestContext":{
        "accountId":"a1","resourceId":"r1","stage":"prod","requestId":"q1",
        "resourcePath":"/","httpMethod":"GET","apiId":"api1",
        "identity":{"sourceIp":"10.0.0.1","caller":"me","user":null}}}"#;
    let gwr = GatewayRequest::decode(input.as_bytes()).unwrap();
    assert_eq!(gwr.request_context.account_id, "a1");
    assert_eq!(gwr.request_context.stage, "prod");
    assert_eq!(gwr.request_context.identity.source_ip, "10.0.0.1");
    assert_eq!(gwr.request_context.identity.caller, Some("me".to_string()));
    assert_eq!(gwr.request_context.identity.user, None);
}

#[test]
fn rejects_context_missing_member() {
    let input = r#"{"path":"/","httpMethod":"GET","requestContext":{
        "accountId":"a1","stage":"prod"}}"#;
    assert_eq!(GatewayRequest::decode(input.as_bytes()).unwrap_err(), DecodeError::Shape);
}

#[test]
fn rejects_identity_missing_source_ip() {
    let input = r#"{"path":"/","httpMethod":"GET","requestContext":{
        "accountId":"a1","resourceId":"r1","stage":"prod","requestId":"q1",
        "resourcePath":"/","httpMethod":"GET","apiId":"api1",
        "identity":{"caller":"me"}}}"#;
    assert_eq!(GatewayRequest::decode(input.as_bytes()).unwrap_err(), DecodeError::Shape);
}

#[test]
fn str_map_from_collapses_duplicates() {
    let strmap = StrMap::from(pairs(&[("a", "1"), ("b", "x"), ("a", "2")]));
    assert_eq!(strmap.get("a"), Some("2"));
    assert_eq!(strmap.get("b"), Some("x"));
    let mut seen = Vec::new();
    let mut it = strmap.iter();
    while let Some((k, v)) = it.next() {
        seen.push((k.to_string(), v.to_string()));
    }
    assert_eq!(seen, vec![("a".to_string(), "2".to_string()), ("b".to_string(), "x".to_string())]);
}

#[test]
fn str_map_eq_compares_the_association() {
    let a = StrMap::from(pairs(&[("a", "1"), ("b", "2")]));
    let b = StrMap::from(pairs(&[("b", "2"), ("a", "1")]));
    let c = StrMap::from(pairs(&[("a", "1"), ("b", "3")]));
    assert_eq!(a, b);
    assert_ne!(a, c);
}

use lando::Body;

#[test]
fn body_has_default() {
    assert_eq!(Body::default(), Body::Empty);
}

#[test]
fn from_unit() {
    assert_eq!(Body::from(()), Body::Empty);
}

#[test]
fn from_str() {
    match Body::from(String::from("foo").as_str()) {
        Body::Text(_) => (),
        not => assert!(false, "expected Body::Text(...) got {:?}", not),
    }
}

#[test]
fn from_string() {
    match Body::from(String::from("foo")) {
        Body::Text(_) => (),
        not => assert!(false, "expected Body::Text(...) got {:?}", not),
    }
}

#[test]
fn from_bytes() {
    match Body::from("foo".as_bytes()) {
        Body::Binary(_) => (),
        not => assert!(false, "expected Body::Binary(...) got {:?}", not),
    }
}

#[test]
fn serialize_text() {
    let token = Body::from("bar").to_json_token().unwrap();
    assert_eq!(format!("{{\"foo\":{}}}", token), r#"{"foo":"bar"}"#);
}

#[test]
fn serialize_binary() {
    let token = Body::from("bar".as_bytes()).to_json_token().unwrap();
    assert_eq!(format!("{{\"foo\":{}}}", token), r#"{"foo":"YmFy"}"#);
}

#[test]
fn serialize_empty() {
    let token = Body::Empty.to_json_token().unwrap();
    assert_eq!(format!("{{\"foo\":{}}}", token), r#"{"foo":null}"#);
}

#[test]
fn serialize_text_escapes() {
    let token = Body::from("a\"b\\c\n").to_json_token().unwrap();
    assert_eq!(token, "\"a\\\"b\\\\c\\n\"");
}

#[test]
fn serialize_control_chars_as_hex() {
    let token = Body::from("\u{1}").to_json_token().unwrap();
    assert_eq!(token, "\"\\u0001\"");
}

#[test]
fn serialize_invalid_utf8_text_fails() {
    let body = Body::Text(vec![0xff, 0xfe]);
    assert!(body.to_json_token().is_err());
}

#[test]
fn binary_round_trips_through_base64() {
    let bytes: Vec<u8> = vec![0, 159, 146, 150];
    let token = Body::Binary(bytes.clone()).to_json_token().unwrap();
    let encoded = token.trim_matches('"');
    let mut decoded = Vec::new();
    let table = "ABCDEFGHIJKLMNOPQRSTUVWXYZabcdefghijklmnopqrstuvwxyz0123456789+/";
    let mut acc: u32 = 0;
    let mut bits: u32 = 0;
    for ch in encoded.chars() {
        if ch == '=' {
            break;
        }
        let v = table.find(ch).expect("not a base64 digit") as u32;
        acc = (acc << 6) | v;
        bits += 6;
        if bits >= 8 {
            bits -= 8;
            decoded.push((acc >> bits) as u8);
        }
    }
    assert_eq!(decoded, bytes);
}

#[test]
fn body_as_slice_is_total() {
    assert_eq!(Body::Empty.as_slice(), b"");
    assert_eq!(Body::from("hi").as_slice(), b"hi");
    assert_eq!(Body::from(vec![1u8, 2u8]).as_slice(), &[1u8, 2u8][..]);
}

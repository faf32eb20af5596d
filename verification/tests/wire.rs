use nomad::wire::{
    encode_page_request, parse_page_request, parse_response_tuple, parse_resource_tuple,
    parse_page_response, parse_display_name, PageError,
};
use nomad::hashing::{compute_path_hash, sha256, hex_encode, hex_decode};
use serde_bytes::ByteBuf;
use sha2::Digest;

#[test]
fn test_page_request_format() {
    let path = "/page/index.mu";
    let path_hash = compute_path_hash(path);

    let timestamp: f64 = 1736541605.123;
    let request_data: (f64, ByteBuf, Option<()>) = (
        timestamp,
        ByteBuf::from(path_hash.to_vec()),
        None,
    );
    let packed = rmp_serde::to_vec(&request_data).unwrap();

    println!("Path: {}", path);
    println!("Path hash: {}", hex_encode(&path_hash));
    println!("Packed length: {}", packed.len());
    println!("Packed hex: {}", hex_encode(&packed));

    // Python produces 29 bytes for this structure
    assert!(packed.len() <= 30, "Packed data too large: {} bytes", packed.len());
}

#[test]
fn request_encoding_matches_rmp_serde() {
    let path = "/page/index.mu";
    let path_hash = compute_path_hash(path);
    let timestamp: f64 = 1736541605.123;

    let reference: (f64, ByteBuf, Option<()>) =
        (timestamp, ByteBuf::from(path_hash.clone()), None);
    let expected = rmp_serde::to_vec(&reference).unwrap();

    let form: Vec<(String, String)> = Vec::new();
    let ours = encode_page_request(timestamp.to_bits(), &path_hash, &form);
    assert_eq!(ours, expected);
}

#[test]
fn request_encoding_with_form_matches_rmp_serde() {
    let path_hash = compute_path_hash("/submit");
    let timestamp: f64 = 1700000000.5;

    let mut reference_map = std::collections::BTreeMap::new();
    reference_map.insert("field_name".to_string(), "Joe".to_string());
    let reference: (f64, ByteBuf, &std::collections::BTreeMap<String, String>) =
        (timestamp, ByteBuf::from(path_hash.clone()), &reference_map);
    let expected = rmp_serde::to_vec(&reference).unwrap();

    let form = vec![("field_name".to_string(), "Joe".to_string())];
    let ours = encode_page_request(timestamp.to_bits(), &path_hash, &form);
    assert_eq!(ours, expected);
}

#[test]
fn response_parses_rmp_serde_encoding() {
    let request_hash = vec![7u8; 16];
    let body = b"Hello".to_vec();
    let reference: (f64, ByteBuf, Option<ByteBuf>) = (
        1700000000.0,
        ByteBuf::from(request_hash.clone()),
        Some(ByteBuf::from(body.clone())),
    );
    let encoded = rmp_serde::to_vec(&reference).unwrap();

    let tuple = parse_response_tuple(&encoded).expect("canonical response must parse");
    assert_eq!(tuple.ts_bits, 1700000000.0f64.to_bits());
    assert_eq!(tuple.request_hash, request_hash);
    assert_eq!(tuple.content, Some(body.clone()));

    let content = parse_page_response(&encoded).unwrap();
    assert_eq!(content, body);
}

#[test]
fn nil_content_yields_no_content_error() {
    let reference: (f64, ByteBuf, Option<ByteBuf>) =
        (1700000000.0, ByteBuf::from(vec![7u8; 16]), None);
    let encoded = rmp_serde::to_vec(&reference).unwrap();

    let r = parse_page_response(&encoded);
    assert_eq!(r, Err(PageError::NoContent));
    assert_eq!(PageError::NoContent.message(), "No content in response");
}

#[test]
fn invalid_utf8_content_is_refused() {
    let reference: (f64, ByteBuf, Option<ByteBuf>) = (
        1.0,
        ByteBuf::from(vec![1u8; 16]),
        Some(ByteBuf::from(vec![0xffu8, 0xfe])),
    );
    let encoded = rmp_serde::to_vec(&reference).unwrap();
    assert_eq!(parse_page_response(&encoded), Err(PageError::InvalidUtf8));
}

#[test]
fn garbage_fails_to_parse() {
    assert_eq!(parse_page_response(b"not msgpack"), Err(PageError::ParseFailed));
    assert!(parse_response_tuple(&[]).is_none());
}

#[test]
fn resource_tuple_parses_rmp_serde_encoding() {
    let reference: (ByteBuf, ByteBuf) = (
        ByteBuf::from(vec![9u8; 32]),
        ByteBuf::from(b"page-body".to_vec()),
    );
    let encoded = rmp_serde::to_vec(&reference).unwrap();
    let (hash, content) = parse_resource_tuple(&encoded).unwrap();
    assert_eq!(hash, vec![9u8; 32]);
    assert_eq!(content, b"page-body".to_vec());
}

#[test]
fn display_name_from_msgpack_array() {
    // A one-element MessagePack array holding the string "Alice".
    let app_data = vec![0x91u8, 0xa5, b'A', b'l', b'i', b'c', b'e'];
    assert_eq!(parse_display_name(&app_data), Some("Alice".to_string()));
}

#[test]
fn display_name_from_raw_utf8() {
    assert_eq!(parse_display_name(b"Bob"), Some("Bob".to_string()));
}

#[test]
fn display_name_empty_and_nil_cases() {
    assert_eq!(parse_display_name(&[]), None);
    // An array whose first element is nil carries no name.
    assert_eq!(parse_display_name(&[0x91, 0xc0]), None);
    // An empty array carries no name.
    assert_eq!(parse_display_name(&[0x90]), None);
}

#[test]
fn path_hash_matches_sha256_prefix() {
    let digest = sha2::Sha256::digest(b"/index.mu");
    let hash = compute_path_hash("/index.mu");
    assert_eq!(&hash[..], &digest[..16]);
    assert_eq!(sha256(b"/index.mu"), digest.to_vec());
}

#[test]
fn hex_round_trip_matches_hex_crate() {
    let bytes = vec![0x01u8, 0xab, 0xff, 0x00];
    let text = hex_encode(&bytes);
    assert_eq!(text, hex::encode(&bytes));
    assert_eq!(hex_decode(&text), Some(bytes));
    assert_eq!(hex_decode("ABCD"), Some(vec![0xab, 0xcd]));
    assert_eq!(hex_decode("abc"), None);
    assert_eq!(hex_decode("zz"), None);
}

#[test]
fn request_round_trips_through_encode_and_decode() {
    let path_hash = compute_path_hash("/index.mu");
    let ts_bits = 1736541605.123f64.to_bits();

    // Without form data.
    let encoded = encode_page_request(ts_bits, &path_hash, &Vec::new());
    let parsed = parse_page_request(&encoded).unwrap();
    assert_eq!(parsed.ts_bits, ts_bits);
    assert_eq!(parsed.path_hash, path_hash);
    assert!(parsed.form.is_none());

    // With form data: the path hash and every entry come back unchanged.
    let form = vec![
        ("field_user".to_string(), "Joe".to_string()),
        ("var_action".to_string(), "send".to_string()),
    ];
    let encoded = encode_page_request(ts_bits, &path_hash, &form);
    let parsed = parse_page_request(&encoded).unwrap();
    assert_eq!(parsed.path_hash, path_hash);
    let entries = parsed.form.unwrap();
    assert_eq!(entries.len(), 2);
    assert_eq!(entries[0].0, b"field_user".to_vec());
    assert_eq!(entries[0].1, b"Joe".to_vec());
    assert_eq!(entries[1].0, b"var_action".to_vec());
    assert_eq!(entries[1].1, b"send".to_vec());
}

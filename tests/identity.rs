use bjnp::channel::{decode_identity_reply, ReplyError};
use bjnp::identity::Response;
use bjnp::serdes::ParseError;
use bjnp::serdes::FormatError;

const IDENTITY: [u8; 32] = [
    0x00, 0x20, 0x4d, 0x46, 0x47, 0x3a, 0x43, 0x61, 0x6e, 0x6f, 0x6e, 0x3b, 0x4d, 0x44, 0x4c, 0x3a,
    0x44, 0x75, 0x6d, 0x6d, 0x79, 0x3b, 0x43, 0x4c, 0x53, 0x3a, 0x49, 0x4d, 0x41, 0x47, 0x45, 0x3b,
];

#[test]
fn deserialize() {
    // MFG:Canon;MDL:Dummy;CLS:IMAGE;
    let response = Response::deserialize(&[
        0x00, 0x20, 0x4d, 0x46, 0x47, 0x3a, 0x43, 0x61, 0x6e, 0x6f, 0x6e, 0x3b, 0x4d, 0x44,
        0x4c, 0x3a, 0x44, 0x75, 0x6d, 0x6d, 0x79, 0x3b, 0x43, 0x4c, 0x53, 0x3a, 0x49, 0x4d,
        0x41, 0x47, 0x45, 0x3b,
    ])
    .unwrap()
    .0;
    assert_eq!(response.get("MFG"), Some("Canon"));
    assert_eq!(response.get("MDL"), Some("Dummy"));
    assert_eq!(response.get("CLS"), Some("IMAGE"));
}

#[test]
fn identity_parse_consumes_declared_length() {
    let (response, consumed) = Response::deserialize(&IDENTITY).unwrap();
    // The length field counts itself: 0x20 bytes in all.
    assert_eq!(consumed, 32);
    assert_eq!(
        response.iter(),
        vec![("MFG", "Canon"), ("MDL", "Dummy"), ("CLS", "IMAGE")]
    );
    assert!(response.contains_key("MDL"));
    assert!(!response.contains_key("CMD"));
    assert_eq!(response.get("CMD"), None);
}

#[test]
fn identity_ignores_trailing_bytes() {
    let mut bytes = IDENTITY.to_vec();
    bytes.extend_from_slice(b"junk");
    let (response, consumed) = Response::deserialize(&bytes).unwrap();
    assert_eq!(consumed, 32);
    assert_eq!(response.get("CLS"), Some("IMAGE"));
}

#[test]
fn identity_drops_records_without_colon_and_keeps_last_value() {
    let text = b"A:1;junk;B:2;A:3;;C:x:y";
    let mut bytes = vec![0u8, (text.len() + 2) as u8];
    bytes.extend_from_slice(text);
    let (response, _) = Response::deserialize(&bytes).unwrap();
    assert_eq!(response.iter(), vec![("A", "3"), ("B", "2"), ("C", "x:y")]);
}

#[test]
fn identity_keeps_multibyte_values() {
    let text = "MDL:Caf\u{e9};".as_bytes();
    let mut bytes = vec![0u8, (text.len() + 2) as u8];
    bytes.extend_from_slice(text);
    let (response, _) = Response::deserialize(&bytes).unwrap();
    assert_eq!(response.get("MDL"), Some("Caf\u{e9}"));
}

#[test]
fn identity_empty_text() {
    let (response, consumed) = Response::deserialize(&[0x00, 0x02]).unwrap();
    assert_eq!(consumed, 2);
    assert!(response.iter().is_empty());
}

#[test]
fn identity_length_below_two_is_invalid() {
    let err = Response::deserialize(&[0x00, 0x01, 0x41]).unwrap_err();
    match err {
        ParseError::InvalidFormat(FormatError::InvalidSlice { span, .. }) => {
            assert_eq!(span, 0..2)
        }
        other => panic!("unexpected {:?}", other),
    }
}

#[test]
fn identity_truncated() {
    let err = Response::deserialize(&IDENTITY[..20]).unwrap_err();
    assert!(matches!(err, ParseError::UnexpectedEnd { expected: 32, actual: 18 }));
    let err = Response::deserialize(&[0x00]).unwrap_err();
    assert!(matches!(err, ParseError::UnexpectedEnd { expected: 2, actual: 1 }));
}

#[test]
fn identity_invalid_utf8_byte() {
    // "AB" then a lone continuation byte.
    let err = Response::deserialize(&[0x00, 0x05, 0x41, 0x42, 0x80]).unwrap_err();
    assert!(matches!(
        err,
        ParseError::InvalidFormat(FormatError::InvalidByte { byte: 0x80, offset: 4, .. })
    ));
}

#[test]
fn identity_invalid_utf8_sequence() {
    // A three-byte lead followed by one continuation byte and then ASCII.
    let err = Response::deserialize(&[0x00, 0x06, 0x41, 0xe2, 0x82, 0x41]).unwrap_err();
    match err {
        ParseError::InvalidFormat(FormatError::InvalidSlice { span, .. }) => {
            assert_eq!(span, 3..5)
        }
        other => panic!("unexpected {:?}", other),
    }
}

#[test]
fn identity_utf8_cut_at_end() {
    let err = Response::deserialize(&[0x00, 0x05, 0x41, 0xe2, 0x82]).unwrap_err();
    assert!(matches!(err, ParseError::UnexpectedEnd { expected: 6, actual: 5 }));
}

#[test]
fn identity_reply_through_packet() {
    let mut datagram = vec![
        0x42, 0x4a, 0x4e, 0x50, 0x82, 0x30, 0x00, 0x00, 0x00, 0x01, 0x00, 0x00, 0x00, 0x00, 0x00,
        32,
    ];
    datagram.extend_from_slice(&IDENTITY);
    let response = decode_identity_reply(&datagram).unwrap();
    assert_eq!(response.get("MFG"), Some("Canon"));

    let remote = [
        0x42, 0x4a, 0x4e, 0x50, 0x82, 0x30, 0x09, 0x00, 0x00, 0x01, 0x00, 0x00, 0x00, 0x00, 0x00,
        0x00,
    ];
    assert!(matches!(decode_identity_reply(&remote), Err(ReplyError::Remote(9))));
}

#[test]
fn identity_serializes_back() {
    let (response, _) = Response::deserialize(&IDENTITY).unwrap();
    let mut out = vec![0xaa];
    response.serialize(&mut out).unwrap();
    assert_eq!(out[0], 0xaa);
    assert_eq!(&out[1..], &IDENTITY[..]);
}

#[test]
fn identity_serialize_adds_final_semicolon() {
    let text = b"A:1;B:2";
    let mut bytes = vec![0u8, (text.len() + 2) as u8];
    bytes.extend_from_slice(text);
    let (response, _) = Response::deserialize(&bytes).unwrap();
    let mut out = Vec::new();
    response.serialize(&mut out).unwrap();
    assert_eq!(out, b"\x00\x0aA:1;B:2;".to_vec());
}

#[test]
fn identity_too_long_to_serialize() {
    // The longest text the length field allows, without a final `;`: written
    // back, it needs one byte more.
    let mut text = b"A:".to_vec();
    text.resize(0xffff - 2, b'x');
    let mut bytes = vec![0xff, 0xff];
    bytes.extend_from_slice(&text);
    let (response, consumed) = Response::deserialize(&bytes).unwrap();
    assert_eq!(consumed, 0xffff);
    let mut out = vec![1, 2, 3];
    assert!(response.serialize(&mut out).is_err());
    assert_eq!(out, vec![1, 2, 3]);
}

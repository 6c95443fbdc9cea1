use bjnp::discover::{Eui48, Eui64, IpAddr, MacAddr, Response as DiscoverResponse};
use bjnp::header::Header;
use bjnp::serdes::{Deserialize, Empty, FormatError, ParseError, Serialize};
use bjnp::{Packet, PacketBuilder, PacketHeaderOnly, PacketType, PayloadType};

fn discover_response() -> DiscoverResponse {
    DiscoverResponse::new(
        MacAddr::Eui48(Eui48::from_octets([0x00, 0x11, 0x22, 0x33, 0x44, 0x55])),
        IpAddr::V4([192, 0, 2, 1]),
    )
}

#[test]
fn discover_round_trip_bytes() {
    let mut builder = PacketBuilder::new(PacketType::ScannerResponse, PayloadType::Discover);
    let packet = builder.sequence(7).build(discover_response());
    let bytes = packet.serialize_to_vec();
    assert_eq!(bytes.len(), 32);
    assert_eq!(
        &bytes[..16],
        &[0x42, 0x4a, 0x4e, 0x50, 0x82, 0x01, 0x00, 0x00, 0x00, 0x07, 0x00, 0x00, 0x00, 0x00, 0x00, 0x10]
    );
    assert_eq!(
        &bytes[16..],
        &[0x00, 0x01, 0x08, 0x00, 0x06, 0x04, 0x00, 0x11, 0x22, 0x33, 0x44, 0x55, 0xc0, 0x00, 0x02, 0x01]
    );

    let parsed = PacketHeaderOnly::parse(&bytes).unwrap();
    assert_eq!(parsed.packet_type(), PacketType::ScannerResponse);
    assert_eq!(parsed.payload_type(), PayloadType::Discover);
    assert_eq!(parsed.sequence(), 7);
    assert_eq!(parsed.payload_size(), 16);
    assert_eq!(parsed.job_id(), None);
    let packet: Packet<DiscoverResponse> = Packet::try_from_header_only(parsed).unwrap();
    let response = packet.payload();
    assert_eq!(*response.mac_addr(), *discover_response().mac_addr());
    assert_eq!(*response.ip_addr(), IpAddr::V4([192, 0, 2, 1]));
}

#[test]
fn discover_eui64_ipv6() {
    let mac = MacAddr::Eui64(Eui64::from_octets([1, 2, 3, 4, 5, 6, 7, 8]));
    let ip = IpAddr::V6([0xfe, 0x80, 0, 0, 0, 0, 0, 0, 0, 0, 0, 0, 0, 0, 0, 1]);
    let response = DiscoverResponse::new(mac, ip);
    let bytes = response.serialize_to_vec();
    assert_eq!(response.size(), 30);
    assert_eq!(&bytes[..6], &[0x00, 0x01, 0x08, 0x00, 0x08, 0x10]);
    let (decoded, consumed) = DiscoverResponse::deserialize(&bytes).unwrap();
    assert_eq!(consumed, 30);
    assert_eq!(*decoded.mac_addr(), mac);
    assert_eq!(*decoded.ip_addr(), ip);
}

#[test]
fn mac_text() {
    let mac = MacAddr::Eui48(Eui48::from_octets([0x00, 0x11, 0x22, 0xab, 0xcd, 0xef]));
    assert_eq!(mac.to_text(), "00:11:22:ab:cd:ef");
    let mac = MacAddr::Eui64(Eui64::from_octets([0xff, 0, 1, 2, 3, 4, 5, 0x9a]));
    assert_eq!(mac.to_text(), "ff:00:01:02:03:04:05:9a");
}

#[test]
fn discover_bad_mac_length() {
    let bytes = [0x00, 0x01, 0x08, 0x00, 0x07, 0x04, 0, 0, 0, 0, 0, 0, 0, 0, 0, 0, 0];
    let err = DiscoverResponse::deserialize(&bytes).unwrap_err();
    assert!(matches!(
        err,
        ParseError::InvalidFormat(FormatError::InvalidByte { byte: 7, offset: 4, .. })
    ));
}

#[test]
fn discover_bad_ip_length() {
    let bytes = [0x00, 0x01, 0x08, 0x00, 0x06, 0x05, 0, 0x11, 0x22, 0x33, 0x44, 0x55, 1, 2, 3, 4, 5];
    let err = DiscoverResponse::deserialize(&bytes).unwrap_err();
    assert!(matches!(
        err,
        ParseError::InvalidFormat(FormatError::InvalidByte { byte: 5, offset: 5, .. })
    ));
}

#[test]
fn discover_truncated() {
    let bytes = discover_response().serialize_to_vec();
    let err = DiscoverResponse::deserialize(&bytes[..4]).unwrap_err();
    assert!(matches!(err, ParseError::UnexpectedEnd { expected: 6, actual: 4 }));
    let err = DiscoverResponse::deserialize(&bytes[..9]).unwrap_err();
    assert!(matches!(err, ParseError::UnexpectedEnd { expected: 12, actual: 3 }));
    let err = DiscoverResponse::deserialize(&bytes[..14]).unwrap_err();
    assert!(matches!(err, ParseError::UnexpectedEnd { expected: 16, actual: 2 }));
}

#[test]
fn header_round_trip_with_job() {
    let mut builder = PacketBuilder::new(PacketType::PrinterCommand, PayloadType::GetId);
    builder.error(3).sequence(0xfffe).job_id(0x1234);
    let packet = builder.build(Empty);
    assert_eq!(packet.payload_size(), 0);
    assert_eq!(packet.error(), 3);
    assert_eq!(packet.job_id(), Some(0x1234));
    let bytes = packet.serialize_to_vec();
    assert_eq!(
        bytes,
        vec![0x42, 0x4a, 0x4e, 0x50, 0x01, 0x30, 0x03, 0x00, 0xff, 0xfe, 0x12, 0x34, 0, 0, 0, 0]
    );
    let (header, consumed) = Header::deserialize(&bytes).unwrap();
    assert_eq!(consumed, 16);
    assert_eq!(header.packet_type, PacketType::PrinterCommand);
    assert_eq!(header.payload_type, PayloadType::GetId);
    assert_eq!(header.error, 3);
    assert_eq!(header.sequence, 0xfffe);
    assert_eq!(header.job_id, Some(0x1234));
    assert_eq!(header.payload_size, 0);
}

#[test]
fn builder_job_id_zero_means_none() {
    let mut builder = PacketBuilder::new(PacketType::ScannerCommand, PayloadType::Poll);
    builder.job_id(0);
    let packet = builder.build(Empty);
    assert_eq!(packet.job_id(), None);
    assert_eq!(packet.sequence(), 0);
    assert_eq!(packet.error(), 0);
    builder.packet_type(PacketType::PrinterResponse).payload_type(PayloadType::Close);
    let packet = builder.build(Empty);
    assert_eq!(packet.packet_type(), PacketType::PrinterResponse);
    assert_eq!(packet.payload_type(), PayloadType::Close);
    assert_eq!(*packet.payload_ref(), Empty);
}

#[test]
fn header_bad_magic() {
    let bytes = [b'B', b'J', b'N', b'Q', 0x02, 0x01, 0, 0, 0, 0, 0, 0, 0, 0, 0, 0];
    let err = Header::deserialize(&bytes).unwrap_err();
    match err {
        ParseError::InvalidFormat(FormatError::InvalidSlice { span, .. }) => assert_eq!(span, 0..4),
        other => panic!("unexpected {:?}", other),
    }
}

#[test]
fn header_unknown_packet_type() {
    let bytes = [0x42, 0x4a, 0x4e, 0x50, 0x03, 0x01, 0, 0, 0, 0, 0, 0, 0, 0, 0, 0];
    let err = Header::deserialize(&bytes).unwrap_err();
    assert!(matches!(
        err,
        ParseError::InvalidFormat(FormatError::InvalidByte { byte: 0x03, offset: 4, .. })
    ));
}

#[test]
fn header_unknown_payload_type() {
    let bytes = [0x42, 0x4a, 0x4e, 0x50, 0x82, 0x33, 0, 0, 0, 0, 0, 0, 0, 0, 0, 0];
    let err = Header::deserialize(&bytes).unwrap_err();
    assert!(matches!(
        err,
        ParseError::InvalidFormat(FormatError::InvalidByte { byte: 0x33, offset: 5, .. })
    ));
}

#[test]
fn header_truncated() {
    let err = Header::deserialize(&[0x42, 0x4a, 0x4e]).unwrap_err();
    assert!(matches!(err, ParseError::UnexpectedEnd { expected: 16, actual: 3 }));
}

#[test]
fn header_only_payload_truncated() {
    let bytes = [0x42, 0x4a, 0x4e, 0x50, 0x82, 0x01, 0, 0, 0, 0, 0, 0, 0, 0, 0, 0x10, 1, 2, 3];
    let err = PacketHeaderOnly::parse(&bytes).unwrap_err();
    assert!(matches!(err, ParseError::UnexpectedEnd { expected: 32, actual: 19 }));
}

#[test]
fn payload_error_is_located_after_header() {
    let bytes = [
        0x42, 0x4a, 0x4e, 0x50, 0x82, 0x01, 0, 0, 0, 0, 0, 0, 0, 0, 0, 0x06, 0x00, 0x01, 0x08,
        0x00, 0x09, 0x04,
    ];
    let parsed = PacketHeaderOnly::parse(&bytes).unwrap();
    let err = Packet::<DiscoverResponse>::try_from_header_only(parsed).unwrap_err();
    assert!(matches!(
        err,
        ParseError::InvalidFormat(FormatError::InvalidByte { byte: 9, offset: 20, .. })
    ));
}

#[test]
fn names() {
    assert_eq!(PacketType::ScannerCommand.name(), "scanner cmd");
    assert_eq!(PayloadType::GetId.name(), "get identity");
    assert_eq!(PacketType::try_from_u8(0x81).unwrap(), PacketType::PrinterResponse);
    assert_eq!(PayloadType::try_from_u8(0x32).unwrap(), PayloadType::Poll);
    assert_eq!(PayloadType::Write.to_u8(), 0x21);
}

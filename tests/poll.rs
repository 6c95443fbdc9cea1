use bjnp::datetime::DateTime;
use bjnp::poll::{
    ColorMode, Command, CommandBuilder, FeederOrientation, FeederType, Format, Interrupt,
    PollType, Response, Size, Source, DPI,
};
use bjnp::serdes::{Deserialize, FormatError, ParseError, Serialize};
use bjnp::Host;

fn units_of(text: &str) -> Vec<u16> {
    text.encode_utf16().collect()
}

#[test]
fn host_truncation_ascii() {
    let host = Host::new("abcdefghijklmnopqrstuvwxyzabcdefghij");
    let units = host.into_buf();
    let mut expected = units_of("abcdefghijklmnopqrstuvwxyzabc");
    assert_eq!(expected.len(), 29);
    expected.extend(units_of("..."));
    assert_eq!(units.to_vec(), expected);
}

#[test]
fn host_short_is_zero_padded() {
    let units = Host::new("H").into_buf();
    assert_eq!(units[0], 0x48);
    assert!(units[1..].iter().all(|u| *u == 0));
    let units = Host::new("").into_buf();
    assert!(units.iter().all(|u| *u == 0));
}

#[test]
fn host_exactly_full() {
    let name = "0123456789abcdef0123456789abcdef";
    let units = Host::new(name).into_buf();
    assert_eq!(units.to_vec(), units_of(name));
}

#[test]
fn host_truncation_keeps_surrogate_pairs_whole() {
    // 28 ASCII characters, then a character that takes two units, then more.
    let name = format!("{}{}{}", "a".repeat(28), "\u{1F600}", "bbbb");
    let units = Host::new(&name).into_buf();
    // The pair would end at unit 30 > 29, so it is dropped whole.
    let mut expected = units_of(&"a".repeat(28));
    expected.extend(units_of("..."));
    expected.push(0);
    assert_eq!(units.to_vec(), expected);

    let name = format!("{}{}{}", "a".repeat(27), "\u{1F600}", "bbbb");
    let units = Host::new(&name).into_buf();
    let mut expected = units_of(&"a".repeat(27));
    expected.extend(units_of("\u{1F600}..."));
    assert_eq!(units.to_vec(), expected);
}

fn sample_datetime() -> DateTime {
    DateTime::new(2024, 1, 2, 3, 4, 5).unwrap()
}

#[test]
fn full_command_bytes() {
    let mut builder = CommandBuilder::new(PollType::Full);
    builder.session_id(0x01020304).host(Host::new("H")).datetime(sample_datetime());
    let command = builder.build().unwrap();
    let bytes = command.serialize_to_vec();
    // Tag, two reserved bytes, the session id, then the host "H".
    assert_eq!(
        &bytes[..12],
        &[0x00, 0x02, 0x00, 0x00, 0x01, 0x02, 0x03, 0x04, 0x00, 0x48, 0x00, 0x00]
    );
    assert_eq!(bytes.len(), 116);
    assert_eq!(command.size(), 116);
    assert_eq!(&bytes[72..76], &[0, 0, 0, 0x14]);
    assert_eq!(&bytes[96..100], &[0, 0, 0, 0x10]);
    assert_eq!(&bytes[100..114], b"20240102030405");
    assert_eq!(&bytes[114..], &[0, 0]);
}

#[test]
fn command_round_trips() {
    let host = Host::new("scanner-host");
    let commands = [
        Command::Empty,
        Command::HostOnly { host },
        Command::Full { session_id: 77, host, datetime: sample_datetime() },
        Command::Reset { session_id: 0xdeadbeef, host, action_id: 9 },
    ];
    let sizes = [80, 76, 116, 100];
    for (command, size) in commands.iter().zip(sizes) {
        let bytes = command.serialize_to_vec();
        assert_eq!(bytes.len(), size);
        let (decoded, consumed) = Command::deserialize(&bytes).unwrap();
        assert_eq!(consumed, size);
        assert_eq!(decoded.poll_type(), command.poll_type());
        assert_eq!(decoded.session_id(), command.session_id());
        assert_eq!(decoded.action_id(), command.action_id());
        assert_eq!(decoded.host(), command.host());
        assert_eq!(decoded.datetime(), command.datetime());
    }
}

#[test]
fn reset_command_layout() {
    let command = Command::Reset { session_id: 1, host: Host::new("H"), action_id: 0x0a0b0c0d };
    let bytes = command.serialize_to_vec();
    assert_eq!(&bytes[..2], &[0x00, 0x05]);
    assert_eq!(&bytes[72..80], &[0, 0, 0, 0x14, 0x0a, 0x0b, 0x0c, 0x0d]);
    assert!(bytes[80..].iter().all(|b| *b == 0));
}

#[test]
fn builder_requires_parts() {
    assert!(CommandBuilder::new(PollType::HostOnly).build().is_none());
    let mut builder = CommandBuilder::new(PollType::Reset);
    builder.session_id(1).host(Host::new("x"));
    assert!(builder.build().is_none());
    builder.action_id(2);
    assert_eq!(builder.build().unwrap().action_id(), Some(2));
    builder.poll_type(PollType::Full);
    assert!(builder.build().is_none());
    assert!(matches!(CommandBuilder::new(PollType::Empty).build(), Some(Command::Empty)));
}

#[test]
fn command_unknown_type() {
    let mut bytes = vec![0u8; 80];
    bytes[1] = 0x03;
    match Command::deserialize(&bytes).unwrap_err() {
        ParseError::InvalidFormat(FormatError::InvalidSlice { span, .. }) => assert_eq!(span, 0..2),
        other => panic!("unexpected {:?}", other),
    }
}

#[test]
fn command_truncated() {
    let bytes = Command::HostOnly { host: Host::new("x") }.serialize_to_vec();
    let err = Command::deserialize(&bytes[..40]).unwrap_err();
    assert!(matches!(err, ParseError::UnexpectedEnd { expected: 76, actual: 38 }));
    let err = Command::deserialize(&bytes[..1]).unwrap_err();
    assert!(matches!(err, ParseError::UnexpectedEnd { expected: 2, actual: 1 }));
}

#[test]
fn command_bad_datetime() {
    let command = Command::Full { session_id: 1, host: Host::new("x"), datetime: sample_datetime() };
    let mut bytes = command.serialize_to_vec();
    // February 30th.
    bytes[100..114].copy_from_slice(b"20240230030405");
    match Command::deserialize(&bytes).unwrap_err() {
        ParseError::InvalidFormat(FormatError::InvalidSlice { span, .. }) => {
            assert_eq!(span, 100..114)
        }
        other => panic!("unexpected {:?}", other),
    }
    bytes[100..114].copy_from_slice(b"2024010203040x");
    assert!(Command::deserialize(&bytes).is_err());
}

#[test]
fn datetime_validation() {
    assert!(DateTime::new(2024, 2, 29, 0, 0, 0).is_some());
    assert!(DateTime::new(2023, 2, 29, 0, 0, 0).is_none());
    assert!(DateTime::new(1900, 2, 29, 0, 0, 0).is_none());
    assert!(DateTime::new(2000, 2, 29, 0, 0, 0).is_some());
    assert!(DateTime::new(2024, 4, 31, 0, 0, 0).is_none());
    assert!(DateTime::new(2024, 13, 1, 0, 0, 0).is_none());
    assert!(DateTime::new(2024, 0, 1, 0, 0, 0).is_none());
    assert!(DateTime::new(2024, 1, 0, 0, 0, 0).is_none());
    assert!(DateTime::new(2024, 1, 1, 24, 0, 0).is_none());
    assert!(DateTime::new(2024, 1, 1, 23, 60, 0).is_none());
    assert!(DateTime::new(2024, 1, 1, 23, 59, 60).is_none());
    assert!(DateTime::new(10000, 1, 1, 0, 0, 0).is_none());
    let d = DateTime::new(9999, 12, 31, 23, 59, 59).unwrap();
    assert_eq!((d.year(), d.month(), d.day()), (9999, 12, 31));
    assert_eq!((d.hour(), d.minute(), d.second()), (23, 59, 59));
}

fn response_bytes(status: u32, session: u32, action: u32, descriptor: [u8; 20]) -> Vec<u8> {
    let mut bytes = Vec::new();
    bytes.extend_from_slice(&status.to_be_bytes());
    bytes.extend_from_slice(&session.to_be_bytes());
    bytes.extend_from_slice(&[0, 0, 0, 0x14]);
    bytes.extend_from_slice(&action.to_be_bytes());
    bytes.extend_from_slice(&descriptor);
    bytes
}

fn descriptor(color: u8, source: u8, feeder: u8, size: u8, format: u8, dpi: u8, orient: u8) -> [u8; 20] {
    let mut d = [0u8; 20];
    d[7] = color;
    d[8] = source;
    d[9] = feeder;
    d[10] = size;
    d[11] = format;
    d[12] = dpi;
    d[16] = orient;
    d
}

#[test]
fn interrupt_detection() {
    let bytes = response_bytes(0x0000_8000, 0x55, 7, descriptor(1, 1, 0, 1, 1, 3, 0));
    let (response, consumed) = Response::deserialize(&bytes).unwrap();
    assert_eq!(consumed, 36);
    assert_eq!(response.status(), 0x8000);
    assert_eq!(response.session_id(), None);
    assert_eq!(response.action_id(), Some(7));
    let interrupt = response.interrupt().unwrap();
    assert_eq!(interrupt.color_mode(), ColorMode::Color);
    assert_eq!(interrupt.size(), Size::A4);
    assert_eq!(interrupt.format(), Format::Jpeg);
    assert_eq!(interrupt.dpi(), DPI::_300);
    assert_eq!(interrupt.dpi().dpi_value(), 300);
    assert_eq!(interrupt.source(), Source::Flatbed);
    assert_eq!(interrupt.feeder_type(), None);
    assert_eq!(interrupt.feeder_orientation(), None);
}

#[test]
fn plain_poll_response() {
    let bytes = response_bytes(0x0000_0001, 0x0102_0304, 7, [0xff; 20]);
    let (response, _) = Response::deserialize(&bytes).unwrap();
    assert_eq!(response.session_id(), Some(0x0102_0304));
    assert_eq!(response.action_id(), None);
    assert!(response.interrupt().is_none());
}

#[test]
fn interrupt_unknown_dpi() {
    let bytes = response_bytes(0x8000, 0, 1, descriptor(1, 1, 0, 1, 1, 9, 0));
    let err = Response::deserialize(&bytes).unwrap_err();
    assert!(matches!(
        err,
        ParseError::InvalidFormat(FormatError::InvalidByte { byte: 9, offset: 28, .. })
    ));
}

#[test]
fn interrupt_unknown_feeder_orientation_is_checked_early() {
    let bytes = response_bytes(0x8000, 0, 1, descriptor(7, 1, 2, 1, 1, 1, 3));
    let err = Response::deserialize(&bytes).unwrap_err();
    assert!(matches!(
        err,
        ParseError::InvalidFormat(FormatError::InvalidByte { byte: 3, offset: 32, .. })
    ));
}

#[test]
fn poll_response_truncated() {
    let bytes = response_bytes(0, 0, 0, [0; 20]);
    let err = Response::deserialize(&bytes[..35]).unwrap_err();
    assert!(matches!(err, ParseError::UnexpectedEnd { expected: 36, actual: 35 }));
}

#[test]
fn interrupt_round_trip() {
    let interrupt = Interrupt {
        color_mode: ColorMode::Mono,
        size: Size::_13x18,
        format: Format::KompaktPdf,
        dpi: DPI::_600,
        source: Source::AutoDocumentFeeder,
        feeder_type: Some(FeederType::Duplex),
        feeder_orientation: Some(FeederOrientation::Landscape),
    };
    let bytes = interrupt.serialize_to_vec();
    assert_eq!(bytes, descriptor(2, 2, 2, 9, 4, 4, 2).to_vec());
    let (decoded, consumed) = Interrupt::deserialize(&bytes).unwrap();
    assert_eq!(consumed, 20);
    assert_eq!(decoded, interrupt);
}

#[test]
fn host_text_round_trip() {
    assert_eq!(Host::new("scanner-host").to_text(), "scanner-host");
    assert_eq!(Host::new("caf\u{e9} \u{1F600}").to_text(), "caf\u{e9} \u{1F600}");
    assert_eq!(
        Host::new("abcdefghijklmnopqrstuvwxyzabcdefghij").to_text(),
        "abcdefghijklmnopqrstuvwxyzabc..."
    );
}

#[test]
fn host_text_is_lossy_and_stops_at_nul() {
    let mut units = [0u16; 32];
    units[0] = 0x41;
    units[1] = 0xd800; // a high surrogate without its low half
    units[2] = 0x42;
    units[3] = 0xdc00; // a lone low surrogate
    units[4] = 0xd83d;
    units[5] = 0xde00;
    units[6] = 0;
    units[7] = 0x43;
    let host = Host { units };
    assert_eq!(host.to_text(), "A\u{FFFD}B\u{FFFD}\u{1F600}");
}

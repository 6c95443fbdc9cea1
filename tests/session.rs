use bjnp::channel::{decode_reply, ChannelState, ReplyError};
use bjnp::datetime::DateTime;
use bjnp::discover::{Eui48, IpAddr, MacAddr, Response as DiscoverResponse};
use bjnp::listen::{scanner_env, transit_err, Action, ListenConfig, Listener, Stage, State};
use bjnp::poll::{ColorMode, Format, Interrupt, Response as PollResponse, Size, Source, DPI};
use bjnp::serdes::{Empty, ParseError, Serialize};
use bjnp::utils::ignore_err;
use bjnp::{Host, PacketBuilder, PacketType, PayloadType};

fn config() -> ListenConfig {
    ListenConfig {
        hostname: Host::new("H"),
        initial_max_waiting: 5,
        backoff_factor_milli: 2000,
        backoff_maximum: 1800,
    }
}

fn now() -> DateTime {
    DateTime::new(2024, 1, 2, 3, 4, 5).unwrap()
}

fn reply(payload_type: u8, payload: &[u8]) -> Vec<u8> {
    let mut bytes = vec![0x42, 0x4a, 0x4e, 0x50, 0x82, payload_type, 0, 0, 0, 0, 0, 0];
    bytes.extend_from_slice(&(payload.len() as u32).to_be_bytes());
    bytes.extend_from_slice(payload);
    bytes
}

fn poll_payload(status: u32, session: u32, action: u32, descriptor: [u8; 20]) -> Vec<u8> {
    let mut bytes = Vec::new();
    bytes.extend_from_slice(&status.to_be_bytes());
    bytes.extend_from_slice(&session.to_be_bytes());
    bytes.extend_from_slice(&[0, 0, 0, 0x14]);
    bytes.extend_from_slice(&action.to_be_bytes());
    bytes.extend_from_slice(&descriptor);
    bytes
}

fn discover_reply() -> Vec<u8> {
    let response = DiscoverResponse::new(
        MacAddr::Eui48(Eui48::from_octets([0, 0x11, 0x22, 0x33, 0x44, 0x55])),
        IpAddr::V4([192, 0, 2, 1]),
    );
    let mut builder = PacketBuilder::new(PacketType::ScannerResponse, PayloadType::Discover);
    builder.build(response).serialize_to_vec()
}

fn exchange(action: Action) -> (Vec<u8>, u64) {
    match action {
        Action::Exchange { packet, wait_secs } => (packet, wait_secs),
        other => panic!("expected an exchange, got {:?}", other),
    }
}

#[test]
fn state_transition() {
    let mut listener = Listener::new(config());
    assert_eq!(listener.state(), State::Init);
    let (packet, wait) = exchange(listener.on_go(now()));
    assert_eq!(wait, 5);
    assert_eq!(&packet[4..6], &[0x02, 0x01]);
    // A send timeout in Init backs off with the initial wait.
    assert!(matches!(listener.on_failure(), Action::Continue));
    assert_eq!(listener.state(), State::Backoff(5));
    let (_, wait) = exchange(listener.on_go(now()));
    assert_eq!(wait, 5);
    assert!(matches!(listener.on_failure(), Action::Continue));
    assert_eq!(listener.state(), State::Backoff(10));
    // A successful init from Backoff reaches Poll.
    let (packet, wait) = exchange(listener.on_go(now()));
    assert_eq!(wait, 10);
    assert_eq!(&packet[8..10], &[0, 0]);
    let (packet, _) = exchange(listener.on_datagram(&discover_reply()));
    assert_eq!(&packet[5..6], &[0x32]);
    assert_eq!(&packet[8..10], &[0, 1]);
    assert_eq!(&packet[16..18], &[0, 1]);
    let answer = reply(0x32, &poll_payload(0, 0xabcd, 0, [0; 20]));
    assert!(matches!(listener.on_datagram(&answer), Action::Continue));
    assert_eq!(listener.state(), State::Poll);
    assert_eq!(listener.session_id(), 0xabcd);
    assert_eq!(listener.stage(), Stage::Start);
}

#[test]
fn poll_round_with_interrupt() {
    let mut listener = Listener::new(config());
    exchange(listener.on_go(now()));
    exchange(listener.on_datagram(&discover_reply()));
    listener.on_datagram(&reply(0x32, &poll_payload(0, 1, 0, [0; 20])));
    let (packet, wait) = exchange(listener.on_go(now()));
    assert_eq!(wait, 5);
    assert_eq!(&packet[8..10], &[0, 2]);
    assert_eq!(&packet[16..18], &[0, 2]);
    assert_eq!(&packet[20..24], &[0, 0, 0, 1]);
    assert_eq!(&packet[116..130], b"20240102030405");

    let mut descriptor = [0u8; 20];
    descriptor[7] = 1;
    descriptor[8] = 1;
    descriptor[10] = 1;
    descriptor[11] = 1;
    descriptor[12] = 3;
    let answer = reply(0x32, &poll_payload(0x8000, 0, 7, descriptor));
    match listener.on_datagram(&answer) {
        Action::LaunchThenExchange { interrupt, packet, wait_secs } => {
            assert_eq!(interrupt.dpi(), DPI::_300);
            assert_eq!(wait_secs, 5);
            assert_eq!(&packet[16..18], &[0, 5]);
            assert_eq!(&packet[20..24], &[0, 0, 0, 1]);
            assert_eq!(&packet[92..96], &[0, 0, 0, 7]);
        }
        other => panic!("unexpected {:?}", other),
    }
    assert_eq!(listener.stage(), Stage::AwaitReset);
    assert!(matches!(
        listener.on_datagram(&reply(0x32, &poll_payload(0, 1, 0, [0; 20]))),
        Action::Sleep { secs: 1 }
    ));
    assert_eq!(listener.state(), State::Poll);
}

#[test]
fn first_poll_interrupt_fails_init() {
    let mut listener = Listener::new(config());
    exchange(listener.on_go(now()));
    exchange(listener.on_datagram(&discover_reply()));
    let mut descriptor = [0u8; 20];
    descriptor[7] = 1;
    descriptor[8] = 1;
    descriptor[10] = 1;
    descriptor[11] = 1;
    descriptor[12] = 1;
    listener.on_datagram(&reply(0x32, &poll_payload(0x8000, 0, 1, descriptor)));
    assert_eq!(listener.state(), State::Backoff(5));
}

#[test]
fn poll_failure_restarts() {
    let mut listener = Listener::new(config());
    exchange(listener.on_go(now()));
    exchange(listener.on_datagram(&discover_reply()));
    listener.on_datagram(&reply(0x32, &poll_payload(0, 1, 0, [0; 20])));
    exchange(listener.on_go(now()));
    // A remote error instead of a poll response.
    listener.on_datagram(&reply(0x32, &[]).iter().enumerate().map(|(i, b)| if i == 6 { 1 } else { *b }).collect::<Vec<u8>>());
    assert_eq!(listener.state(), State::Init);
}

#[test]
fn unexpected_events_are_ignored() {
    let mut listener = Listener::new(config());
    assert!(matches!(listener.on_datagram(&discover_reply()), Action::Continue));
    assert_eq!(listener.stage(), Stage::Start);
    exchange(listener.on_go(now()));
    assert!(matches!(listener.on_go(now()), Action::Continue));
    assert_eq!(listener.stage(), Stage::AwaitDiscover);
}

#[test]
fn backoff_growth_is_capped() {
    let c = ListenConfig { backoff_maximum: 12, backoff_factor_milli: 1500, ..config() };
    assert_eq!(transit_err(State::Init, &c), State::Backoff(5));
    assert_eq!(transit_err(State::Backoff(5), &c), State::Backoff(7));
    assert_eq!(transit_err(State::Backoff(10), &c), State::Backoff(12));
    assert_eq!(transit_err(State::Poll, &c), State::Init);
    let big = ListenConfig { backoff_maximum: u64::MAX, backoff_factor_milli: 4000, ..config() };
    assert_eq!(transit_err(State::Backoff(u64::MAX / 2), &big), State::Backoff(u64::MAX));
}

#[test]
fn sequence_advances_and_wraps() {
    let mut channel = ChannelState::new();
    for _ in 0..70000u32 {
        channel.sent();
    }
    assert_eq!(channel.sequence(), (70000u32 % 65536) as u16);
    let bytes = channel.command(PayloadType::GetId, Empty);
    assert_eq!(u16::from_be_bytes([bytes[8], bytes[9]]), 4464);
    assert_eq!(&bytes[4..6], &[0x02, 0x30]);
    channel.reset_sequence();
    assert_eq!(channel.sequence(), 0);
}

#[test]
fn decode_reply_outcomes() {
    let ok: PollResponse = decode_reply(&reply(0x32, &poll_payload(0, 3, 0, [0; 20]))).unwrap();
    assert_eq!(ok.session_id(), Some(3));
    let mut remote = reply(0x32, &[]);
    remote[6] = 0x2a;
    assert!(matches!(decode_reply::<PollResponse>(&remote), Err(ReplyError::Remote(0x2a))));
    let short = reply(0x32, &[0; 10]);
    assert!(matches!(
        decode_reply::<PollResponse>(&short),
        Err(ReplyError::Parse(ParseError::UnexpectedEnd { expected: 52, actual: 10 }))
    ));
}

#[test]
fn environment_of_interrupt() {
    let interrupt = Interrupt {
        color_mode: ColorMode::Color,
        size: Size::_10x15,
        format: Format::KompaktPdf,
        dpi: DPI::_75,
        source: Source::AutoDocumentFeeder,
        feeder_type: None,
        feeder_orientation: Some(bjnp::poll::FeederOrientation::Portrait),
    };
    assert_eq!(
        scanner_env(&interrupt),
        vec![
            ("SCANNER_COLOR_MODE", "COLOR"),
            ("SCANNER_PAGE", "10x15"),
            ("SCANNER_FORMAT", "KOMPAKT_PDF"),
            ("SCANNER_DPI", "75"),
            ("SCANNER_SOURCE", "FEEDER"),
            ("SCANNER_ADF_TYPE", ""),
            ("SCANNER_ADF_ORIENT", "PORTRAIT"),
        ]
    );
}

#[test]
fn ignore_err_keeps_values() {
    assert_eq!(ignore_err::<u8, ()>(Ok(3)), Some(3));
    assert_eq!(ignore_err::<u8, ()>(Err(())), None);
}

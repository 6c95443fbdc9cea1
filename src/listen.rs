//! The decisions of a long-lived listening session with one scanner.
//!
//! The session moves between `Init`, `Poll` and `Backoff(d)`. Within a state
//! it runs a short exchange of commands and replies; the caller performs each
//! exchange (send a datagram, wait for the reply at most a number of seconds)
//! and reports what happened, and the listener answers with the next action.
use crate::channel::{command_header, next_sequence, spec_decode_reply, decode_reply, ChannelState};
use crate::datetime::DateTime;
use crate::discover;
use crate::header::{header_bytes, PayloadType};
use crate::poll::command::{command_bytes, Command, Host};
use crate::poll::response::{
    ColorMode, FeederOrientation, FeederType, Format, Interrupt, Size, Source, DPI,
};
use crate::poll::response;
use crate::serdes::Empty;
use vstd::prelude::*;

verus! {

#[derive(Debug, Clone, Copy, PartialEq, Eq, Structural)]
pub enum State {
    Init,
    Poll,
    /// Initialization failed; it is tried again, waiting this many seconds
    /// for each reply.
    Backoff(u64),
}

/// How a session is run. The backoff factor is given in thousandths.
#[derive(Debug, Clone, Copy)]
pub struct ListenConfig {
    pub hostname: Host,
    pub initial_max_waiting: u64,
    pub backoff_factor_milli: u64,
    pub backoff_maximum: u64,
}

pub open spec fn min(a: int, b: int) -> int {
    if a <= b {
        a
    } else {
        b
    }
}

/// Where a state goes on an error: a failed init backs off with the initial
/// wait, a failed poll starts over, and a failed retry backs off longer, by
/// the factor but never beyond the maximum.
pub open spec fn spec_transit_err(state: State, config: ListenConfig) -> State {
    match state {
        State::Init => State::Backoff(config.initial_max_waiting),
        State::Poll => State::Init,
        State::Backoff(d) => State::Backoff(
            min(config.backoff_maximum as int, (d * config.backoff_factor_milli) / 1000) as u64,
        ),
    }
}

pub fn transit_err(state: State, config: &ListenConfig) -> (r: State)
    ensures
        r == spec_transit_err(state, *config),
{
    match state {
        State::Init => State::Backoff(config.initial_max_waiting),
        State::Poll => State::Init,
        State::Backoff(d) => {
            let m = config.backoff_factor_milli;
            assert((d as u128) * (m as u128) <= 0xffff_ffff_ffff_ffffu128 * 0xffff_ffff_ffff_ffffu128)
                by (nonlinear_arith)
                requires
                    d <= 0xffff_ffff_ffff_ffffu64,
                    m <= 0xffff_ffff_ffff_ffffu64,
            ;
            let grown = (d as u128) * (m as u128) / 1000;
            if grown <= config.backoff_maximum as u128 {
                State::Backoff(grown as u64)
            } else {
                State::Backoff(config.backoff_maximum)
            }
        },
    }
}

/// The seconds to wait for each reply in a state.
pub open spec fn spec_max_waiting(state: State, config: ListenConfig) -> u64 {
    match state {
        State::Backoff(d) => d,
        _ => config.initial_max_waiting,
    }
}

/// Where the session stands within its state.
#[derive(Debug, Clone, Copy, PartialEq, Eq, Structural)]
pub enum Stage {
    /// Nothing of the state's exchange is under way.
    Start,
    /// A discover command is out.
    AwaitDiscover,
    /// The first, host-only, poll is out.
    AwaitRegister,
    /// A full poll is out.
    AwaitPoll,
    /// A reset acknowledging an interrupt is out.
    AwaitReset,
}

/// What the caller does next.
#[derive(Debug)]
pub enum Action {
    /// Send the datagram and wait for a reply at most `wait_secs` seconds.
    Exchange { packet: Vec<u8>, wait_secs: u64 },
    /// Hand the interrupt to the external command, then exchange as above.
    LaunchThenExchange { interrupt: Interrupt, packet: Vec<u8>, wait_secs: u64 },
    /// Sleep, then ask for the next action.
    Sleep { secs: u64 },
    /// Ask for the next action right away.
    Continue,
}

pub struct ListenerView {
    pub state: State,
    pub stage: Stage,
    pub session_id: u32,
    pub sequence: u16,
    pub config: ListenConfig,
}

pub struct Listener {
    state: State,
    stage: Stage,
    session_id: u32,
    channel: ChannelState,
    config: ListenConfig,
}

impl View for Listener {
    type V = ListenerView;

    closed spec fn view(&self) -> ListenerView {
        ListenerView {
            state: self.state,
            stage: self.stage,
            session_id: self.session_id,
            sequence: self.channel.spec_sequence(),
            config: self.config,
        }
    }
}

/// The session after an error in `l`: the state takes its error transition
/// and the exchange starts over.
pub open spec fn after_failure(l: ListenerView) -> ListenerView {
    ListenerView { state: spec_transit_err(l.state, l.config), stage: Stage::Start, ..l }
}

pub open spec fn is_exchange(a: Action, packet: Seq<u8>, wait_secs: u64) -> bool {
    a matches Action::Exchange { packet: p, wait_secs: w } && p@ == packet && w == wait_secs
}

/// The datagram of a scanner command numbered `sequence`.
pub open spec fn command_datagram(sequence: u16, payload_type: PayloadType, payload: Seq<u8>) -> Seq<u8> {
    header_bytes(command_header(sequence, payload_type, payload.len())) + payload
}

impl Listener {
    pub fn new(config: ListenConfig) -> (r: Listener)
        ensures
            r@.state == State::Init,
            r@.stage == Stage::Start,
            r@.session_id == 0,
            r@.sequence == 0,
            r@.config == config,
    {
        Listener { state: State::Init, stage: Stage::Start, session_id: 0, channel: ChannelState::new(), config }
    }

    pub fn state(&self) -> (r: State)
        ensures
            r == self@.state,
    {
        self.state
    }

    pub fn stage(&self) -> (r: Stage)
        ensures
            r == self@.stage,
    {
        self.stage
    }

    pub fn session_id(&self) -> (r: u32)
        ensures
            r == self@.session_id,
    {
        self.session_id
    }

    fn max_waiting(&self) -> (r: u64)
        ensures
            r == spec_max_waiting(self@.state, self@.config),
    {
        match self.state {
            State::Backoff(d) => d,
            _ => self.config.initial_max_waiting,
        }
    }

    /// An exchange failed: the send failed, no reply came in time, or the
    /// reply was not what the exchange expects.
    pub fn on_failure(&mut self) -> (r: Action)
        ensures
            final(self)@ == after_failure(old(self)@),
            r is Continue,
    {
        self.state = transit_err(self.state, &self.config);
        self.stage = Stage::Start;
        Action::Continue
    }

    /// The caller is ready for the next exchange; `now` is the local time.
    /// From `Init` or `Backoff` the sequence starts over and a discover
    /// command goes out; from `Poll` a full poll with the session id, the
    /// host name and `now`. While an exchange is under way nothing happens.
    pub fn on_go(&mut self, now: DateTime) -> (r: Action)
        ensures
            old(self)@.stage != Stage::Start ==> final(self)@ == old(self)@ && r is Continue,
            old(self)@.stage == Stage::Start && old(self)@.state != State::Poll ==> {
                &&& final(self)@ == ListenerView {
                    stage: Stage::AwaitDiscover,
                    sequence: 0,
                    ..old(self)@
                }
                &&& is_exchange(
                    r,
                    command_datagram(0, PayloadType::Discover, Seq::empty()),
                    spec_max_waiting(old(self)@.state, old(self)@.config),
                )
            },
            old(self)@.stage == Stage::Start && old(self)@.state == State::Poll ==> {
                &&& final(self)@ == ListenerView { stage: Stage::AwaitPoll, ..old(self)@ }
                &&& is_exchange(
                    r,
                    command_datagram(
                        old(self)@.sequence,
                        PayloadType::Poll,
                        command_bytes(
                            Command::Full {
                                session_id: old(self)@.session_id,
                                host: old(self)@.config.hostname,
                                datetime: now,
                            },
                        ),
                    ),
                    old(self)@.config.initial_max_waiting,
                )
            },
    {
        if self.stage != Stage::Start {
            return Action::Continue;
        }
        let wait_secs = self.max_waiting();
        match self.state {
            State::Poll => {
                let command = Command::Full {
                    session_id: self.session_id,
                    host: self.config.hostname,
                    datetime: now,
                };
                let packet = self.channel.command(PayloadType::Poll, command);
                self.stage = Stage::AwaitPoll;
                Action::Exchange { packet, wait_secs }
            },
            _ => {
                self.channel.reset_sequence();
                let packet = self.channel.command(PayloadType::Discover, Empty);
                self.stage = Stage::AwaitDiscover;
                Action::Exchange { packet, wait_secs }
            },
        }
    }

    /// A reply arrived in time for the exchange under way.
    ///
    /// A reply that does not decode counts as a failure. A discover reply
    /// moves on to the host-only poll. The reply to that poll must carry a
    /// session id, which is kept, and the session is then polling. A poll
    /// reply updates the session id when it carries one; a status of exactly
    /// `0x8000` asks for a reset with the action id (0 if absent), after the
    /// interrupt, if any, is launched; otherwise, as after a reset, the next
    /// poll follows a one-second pause.
    pub fn on_datagram(&mut self, datagram: &[u8]) -> (r: Action)
        ensures
            old(self)@.stage == Stage::Start ==> final(self)@ == old(self)@ && r is Continue,
            old(self)@.stage == Stage::AwaitDiscover ==> match spec_decode_reply::<
                discover::Response,
            >(datagram@) {
                Err(_) => final(self)@ == after_failure(old(self)@) && r is Continue,
                Ok(_) => {
                    &&& final(self)@ == ListenerView {
                        stage: Stage::AwaitRegister,
                        sequence: next_sequence(old(self)@.sequence),
                        ..old(self)@
                    }
                    &&& is_exchange(
                        r,
                        command_datagram(
                            next_sequence(old(self)@.sequence),
                            PayloadType::Poll,
                            command_bytes(Command::HostOnly { host: old(self)@.config.hostname }),
                        ),
                        spec_max_waiting(old(self)@.state, old(self)@.config),
                    )
                },
            },
            old(self)@.stage == Stage::AwaitRegister ==> match spec_decode_reply::<
                response::Response,
            >(datagram@) {
                Ok(resp) if resp.session_id is Some => {
                    &&& final(self)@ == ListenerView {
                        state: State::Poll,
                        stage: Stage::Start,
                        session_id: resp.session_id->Some_0,
                        sequence: next_sequence(old(self)@.sequence),
                        ..old(self)@
                    }
                    &&& r is Continue
                },
                _ => final(self)@ == after_failure(old(self)@) && r is Continue,
            },
            old(self)@.stage == Stage::AwaitPoll ==> match spec_decode_reply::<
                response::Response,
            >(datagram@) {
                Err(_) => final(self)@ == after_failure(old(self)@) && r is Continue,
                Ok(resp) => {
                    let session_id = match resp.session_id {
                        Some(s) => s,
                        None => old(self)@.session_id,
                    };
                    let sequence = next_sequence(old(self)@.sequence);
                    if resp.status == 0x8000 {
                        let packet = command_datagram(
                            sequence,
                            PayloadType::Poll,
                            command_bytes(
                                Command::Reset {
                                    session_id,
                                    host: old(self)@.config.hostname,
                                    action_id: match resp.action_id {
                                        Some(a) => a,
                                        None => 0,
                                    },
                                },
                            ),
                        );
                        &&& final(self)@ == ListenerView {
                            stage: Stage::AwaitReset,
                            session_id,
                            sequence,
                            ..old(self)@
                        }
                        &&& match resp.interrupt {
                            Some(i) => r matches Action::LaunchThenExchange {
                                interrupt,
                                packet: p,
                                wait_secs,
                            } && interrupt == i && p@ == packet && wait_secs
                                == old(self)@.config.initial_max_waiting,
                            None => is_exchange(r, packet, old(self)@.config.initial_max_waiting),
                        }
                    } else {
                        &&& final(self)@ == ListenerView {
                            stage: Stage::Start,
                            session_id,
                            sequence,
                            ..old(self)@
                        }
                        &&& r == Action::Sleep { secs: 1 }
                    }
                },
            },
            old(self)@.stage == Stage::AwaitReset ==> match spec_decode_reply::<
                response::Response,
            >(datagram@) {
                Err(_) => final(self)@ == after_failure(old(self)@) && r is Continue,
                Ok(_) => {
                    &&& final(self)@ == ListenerView {
                        stage: Stage::Start,
                        sequence: next_sequence(old(self)@.sequence),
                        ..old(self)@
                    }
                    &&& r == Action::Sleep { secs: 1 }
                },
            },
    {
        match self.stage {
            Stage::Start => Action::Continue,
            Stage::AwaitDiscover => match decode_reply::<discover::Response>(datagram) {
                Err(_) => self.on_failure(),
                Ok(_) => {
                    let wait_secs = self.max_waiting();
                    self.channel.sent();
                    let command = Command::HostOnly { host: self.config.hostname };
                    let packet = self.channel.command(PayloadType::Poll, command);
                    self.stage = Stage::AwaitRegister;
                    Action::Exchange { packet, wait_secs }
                },
            },
            Stage::AwaitRegister => match decode_reply::<response::Response>(datagram) {
                Ok(resp) => match resp.session_id {
                    Some(session_id) => {
                        self.channel.sent();
                        self.session_id = session_id;
                        self.state = State::Poll;
                        self.stage = Stage::Start;
                        Action::Continue
                    },
                    None => self.on_failure(),
                },
                Err(_) => self.on_failure(),
            },
            Stage::AwaitPoll => match decode_reply::<response::Response>(datagram) {
                Err(_) => self.on_failure(),
                Ok(resp) => {
                    self.channel.sent();
                    if let Some(session_id) = resp.session_id {
                        self.session_id = session_id;
                    }
                    if resp.status == 0x8000 {
                        let action_id = match resp.action_id {
                            Some(a) => a,
                            None => 0,
                        };
                        let command = Command::Reset {
                            session_id: self.session_id,
                            host: self.config.hostname,
                            action_id,
                        };
                        let packet = self.channel.command(PayloadType::Poll, command);
                        let wait_secs = self.config.initial_max_waiting;
                        self.stage = Stage::AwaitReset;
                        match resp.interrupt {
                            Some(interrupt) => Action::LaunchThenExchange {
                                interrupt,
                                packet,
                                wait_secs,
                            },
                            None => Action::Exchange { packet, wait_secs },
                        }
                    } else {
                        self.stage = Stage::Start;
                        Action::Sleep { secs: 1 }
                    }
                },
            },
            Stage::AwaitReset => match decode_reply::<response::Response>(datagram) {
                Err(_) => self.on_failure(),
                Ok(_) => {
                    self.channel.sent();
                    self.stage = Stage::Start;
                    Action::Sleep { secs: 1 }
                },
            },
        }
    }
}

pub open spec fn color_mode_value(c: ColorMode) -> &'static str {
    match c {
        ColorMode::Color => "COLOR",
        ColorMode::Mono => "MONO",
    }
}

pub open spec fn size_value(s: Size) -> &'static str {
    match s {
        Size::A4 => "A4",
        Size::Letter => "LETTER",
        Size::_10x15 => "10x15",
        Size::_13x18 => "13x18",
        Size::Auto => "AUTO",
    }
}

pub open spec fn format_value(f: Format) -> &'static str {
    match f {
        Format::Jpeg => "JPEG",
        Format::Tiff => "TIFF",
        Format::Pdf => "PDF",
        Format::KompaktPdf => "KOMPAKT_PDF",
    }
}

pub open spec fn dpi_text(d: DPI) -> &'static str {
    match d {
        DPI::_75 => "75",
        DPI::_150 => "150",
        DPI::_300 => "300",
        DPI::_600 => "600",
    }
}

pub open spec fn source_value(s: Source) -> &'static str {
    match s {
        Source::Flatbed => "FLATBED",
        Source::AutoDocumentFeeder => "FEEDER",
    }
}

pub open spec fn feeder_type_value(f: Option<FeederType>) -> &'static str {
    match f {
        Some(FeederType::Simplex) => "SIMPLEX",
        Some(FeederType::Duplex) => "DUPLEX",
        None => "",
    }
}

pub open spec fn feeder_orientation_value(f: Option<FeederOrientation>) -> &'static str {
    match f {
        Some(FeederOrientation::Portrait) => "PORTRAIT",
        Some(FeederOrientation::Landscape) => "LANDSCAPE",
        None => "",
    }
}

/// The environment that describes an interrupt to the external command.
pub open spec fn spec_scanner_env(i: Interrupt) -> Seq<(&'static str, &'static str)> {
    seq![
        ("SCANNER_COLOR_MODE", color_mode_value(i.color_mode)),
        ("SCANNER_PAGE", size_value(i.size)),
        ("SCANNER_FORMAT", format_value(i.format)),
        ("SCANNER_DPI", dpi_text(i.dpi)),
        ("SCANNER_SOURCE", source_value(i.source)),
        ("SCANNER_ADF_TYPE", feeder_type_value(i.feeder_type)),
        ("SCANNER_ADF_ORIENT", feeder_orientation_value(i.feeder_orientation)),
    ]
}

/// The variables, names and values, that the external command receives.
pub fn scanner_env(interrupt: &Interrupt) -> (r: Vec<(&'static str, &'static str)>)
    ensures
        r@ == spec_scanner_env(*interrupt),
{
    let color_mode = match interrupt.color_mode {
        ColorMode::Color => "COLOR",
        ColorMode::Mono => "MONO",
    };
    let size = match interrupt.size {
        Size::A4 => "A4",
        Size::Letter => "LETTER",
        Size::_10x15 => "10x15",
        Size::_13x18 => "13x18",
        Size::Auto => "AUTO",
    };
    let format = match interrupt.format {
        Format::Jpeg => "JPEG",
        Format::Tiff => "TIFF",
        Format::Pdf => "PDF",
        Format::KompaktPdf => "KOMPAKT_PDF",
    };
    let dpi = match interrupt.dpi {
        DPI::_75 => "75",
        DPI::_150 => "150",
        DPI::_300 => "300",
        DPI::_600 => "600",
    };
    let source = match interrupt.source {
        Source::Flatbed => "FLATBED",
        Source::AutoDocumentFeeder => "FEEDER",
    };
    let feeder_type = match interrupt.feeder_type {
        Some(FeederType::Simplex) => "SIMPLEX",
        Some(FeederType::Duplex) => "DUPLEX",
        None => "",
    };
    let feeder_orientation = match interrupt.feeder_orientation {
        Some(FeederOrientation::Portrait) => "PORTRAIT",
        Some(FeederOrientation::Landscape) => "LANDSCAPE",
        None => "",
    };
    let mut env: Vec<(&'static str, &'static str)> = Vec::new();
    env.push(("SCANNER_COLOR_MODE", color_mode));
    env.push(("SCANNER_PAGE", size));
    env.push(("SCANNER_FORMAT", format));
    env.push(("SCANNER_DPI", dpi));
    env.push(("SCANNER_SOURCE", source));
    env.push(("SCANNER_ADF_TYPE", feeder_type));
    env.push(("SCANNER_ADF_ORIENT", feeder_orientation));
    assert(env@ =~= spec_scanner_env(*interrupt));
    env
}

} // verus!

//! Poll commands sent to a scanner, and the host name they carry.
use crate::datetime::{datetime_digits, parse_datetime, parse_datetime_at, DateTime};
use crate::serdes::{
    read_u16_be, read_u32_be, u16_at, u16_be_bytes, u32_at, u32_be_bytes, write_u16_be,
    write_u32_be, write_zeros, zeros, Deserialize, FormatError, ParseError,
    Serialize,
};
use crate::utf16::{
    char_to_utf16, decode_until_nul, decode_utf16_lossy, encode_utf16, first_nul,
    lemma_encode_monotone, lemma_encode_take,
};
use core::ops::Range;
use vstd::prelude::*;
use vstd::std_specs::iter::IteratorSpec;

verus! {

broadcast use vstd::string::next_postcondition, vstd::string::axiom_spec_iter;

pub const HOST_UNITS: usize = 32;

/// A host name as shown on the scanner: exactly 32 UTF-16 code units, sent
/// big-endian as 64 bytes.
#[derive(Debug, Clone, Copy, PartialEq, Eq)]
pub struct Host {
    pub units: [u16; 32],
}

pub open spec fn zero_units(n: nat) -> Seq<u16> {
    Seq::new(n, |i: int| 0u16)
}

/// The number of leading characters of `s`, among the first `k`, whose
/// encoding is longest while still fitting in `limit` units.
pub open spec fn longest_fit(s: Seq<char>, limit: nat, k: nat) -> nat
    decreases k,
{
    if k == 0 {
        0
    } else if encode_utf16(s.take(k as int)).len() <= limit {
        k
    } else {
        longest_fit(s, limit, (k - 1) as nat)
    }
}

pub open spec fn dots() -> Seq<u16> {
    seq![0x2eu16, 0x2eu16, 0x2eu16]
}

/// The units of `Host::new(s)`: the encoding of `s` padded with zeros when it
/// fits in 32 units; otherwise the longest prefix of whole characters that
/// fits in 29 units, then `...`, then zeros.
pub open spec fn host_units(s: Seq<char>) -> Seq<u16> {
    let e = encode_utf16(s);
    if e.len() <= 32 {
        e + zero_units((32 - e.len()) as nat)
    } else {
        let p = encode_utf16(s.take(longest_fit(s, 29, s.len()) as int));
        p + dots() + zero_units((29 - p.len()) as nat)
    }
}

proof fn lemma_longest_fit_bound(s: Seq<char>, limit: nat, k: nat)
    requires
        k <= s.len(),
    ensures
        longest_fit(s, limit, k) <= k,
        encode_utf16(s.take(longest_fit(s, limit, k) as int)).len() <= limit,
    decreases k,
{
    if k > 0 && encode_utf16(s.take(k as int)).len() > limit {
        lemma_longest_fit_bound(s, limit, (k - 1) as nat);
    }
    if k == 0 {
        assert(s.take(0) =~= Seq::<char>::empty());
    }
}

/// `longest_fit` is the largest count of leading characters whose encoding
/// fits.
pub proof fn lemma_longest_fit(s: Seq<char>, limit: nat, k: nat)
    requires
        k <= s.len(),
    ensures
        longest_fit(s, limit, k) <= k,
        encode_utf16(s.take(longest_fit(s, limit, k) as int)).len() <= limit,
        forall|j: int|
            0 <= j <= k && encode_utf16(#[trigger] s.take(j)).len() <= limit ==> j <= longest_fit(
                s,
                limit,
                k,
            ),
    decreases k,
{
    lemma_longest_fit_bound(s, limit, k);
    if k > 0 && encode_utf16(s.take(k as int)).len() > limit {
        lemma_longest_fit(s, limit, (k - 1) as nat);
    }
}

proof fn lemma_longest_fit_stable(s: Seq<char>, limit: nat, k: nat, j: nat)
    requires
        k < j <= s.len(),
        encode_utf16(s.take(k as int + 1)).len() > limit,
    ensures
        longest_fit(s, limit, j) == longest_fit(s, limit, k),
    decreases j - k,
{
    lemma_encode_monotone(s, k as int + 1, j as int);
    if j > k + 1 {
        lemma_longest_fit_stable(s, limit, k, (j - 1) as nat);
    }
}

impl Host {
    /// The host name for `host`, cut with `...` where it does not fit.
    pub fn new(host: &str) -> (r: Host)
        ensures
            r.units@ == host_units(host@),
    {
        let ghost s = host@;
        let mut units: Vec<u16> = Vec::new();
        let mut cut: usize = 0;
        let mut overflow = false;
        let mut done = false;
        let mut it = host.chars();
        let ghost mut k: nat = 0;
        proof {
            assert(s.take(0) =~= Seq::<char>::empty());
        }
        while !done
            invariant
                k <= s.len(),
                !done ==> it.remaining() == s.subrange(k as int, s.len() as int),
                it.obeys_prophetic_iter_laws(),
                units@ == encode_utf16(s.take(k as int)),
                units@.len() <= 32,
                cut <= 29,
                cut == encode_utf16(s.take(longest_fit(s, 29, k) as int)).len(),
                done && !overflow ==> k == s.len(),
                overflow ==> done && k < s.len() && encode_utf16(s.take(k as int + 1)).len()
                    > 32,
            decreases s.len() - k + (if done {
                0int
            } else {
                1int
            }),
        {
            match it.next() {
                None => {
                    done = true;
                },
                Some(c) => {
                    assert(c == s[k as int]);
                    proof {
                        lemma_encode_take(s, k as int);
                    }
                    let (n, u0, u1) = char_to_utf16(c);
                    if units.len() + n > HOST_UNITS {
                        overflow = true;
                        done = true;
                    } else {
                        units.push(u0);
                        if n == 2 {
                            units.push(u1);
                        }
                        assert(units@ =~= encode_utf16(s.take(k as int + 1)));
                        proof {
                            k = k + 1;
                        }
                        if units.len() <= 29 {
                            cut = units.len();
                        }
                        proof {
                            lemma_longest_fit_bound(s, 29, k);
                        }
                    }
                },
            }
        }
        let mut out = [0u16; 32];
        if overflow {
            proof {
                lemma_longest_fit_stable(s, 29, k, s.len());
                lemma_encode_monotone(s, k as int + 1, s.len() as int);
                assert(s.take(s.len() as int) =~= s);
                lemma_longest_fit_bound(s, 29, k);
                lemma_encode_monotone(s, longest_fit(s, 29, k) as int, k as int);
                assert(encode_utf16(s.take(longest_fit(s, 29, k) as int)) =~= units@.subrange(
                    0,
                    cut as int,
                )) by {
                    lemma_prefix_encoding(s, longest_fit(s, 29, k) as int, k as int);
                }
            }
            let mut i: usize = 0;
            while i < cut
                invariant
                    i <= cut <= 29,
                    cut <= units@.len(),
                    forall|j: int| 0 <= j < i ==> out@[j] == units@[j],
                    forall|j: int| i <= j < 32 ==> out@[j] == 0,
                decreases cut - i,
            {
                out[i] = units[i];
                i = i + 1;
            }
            out[cut] = 0x2eu16;
            out[cut + 1] = 0x2eu16;
            out[cut + 2] = 0x2eu16;
            assert(out@ =~= host_units(s));
        } else {
            assert(s.take(s.len() as int) =~= s);
            let mut i: usize = 0;
            while i < units.len()
                invariant
                    i <= units@.len() <= 32,
                    forall|j: int| 0 <= j < i ==> out@[j] == units@[j],
                    forall|j: int| i <= j < 32 ==> out@[j] == 0,
                decreases units@.len() - i,
            {
                out[i] = units[i];
                i = i + 1;
            }
            assert(out@ =~= host_units(s));
        }
        Host { units: out }
    }

    /// The host name as text: the units in front of the first 0 unit,
    /// with each unpaired surrogate shown as U+FFFD.
    pub fn to_text(&self) -> (r: String)
        ensures
            r@ == decode_utf16_lossy(self.units@.subrange(0, first_nul(self.units@, 0))),
    {
        decode_until_nul(self.units.as_slice())
    }

    /// The 32 code units.
    pub fn into_buf(self) -> (r: [u16; 32])
        ensures
            r == self.units,
    {
        self.units
    }
}

proof fn lemma_prefix_encoding(s: Seq<char>, i: int, j: int)
    requires
        0 <= i <= j <= s.len(),
    ensures
        encode_utf16(s.take(i)) =~= encode_utf16(s.take(j)).subrange(
            0,
            encode_utf16(s.take(i)).len() as int,
        ),
    decreases j - i,
{
    if i < j {
        lemma_prefix_encoding(s, i, j - 1);
        lemma_encode_take(s, j - 1);
        lemma_encode_monotone(s, i, j - 1);
    }
}


#[derive(Debug, Clone, Copy, PartialEq, Eq, Structural)]
pub enum PollType {
    Empty,
    HostOnly,
    Full,
    Reset,
}

impl PollType {
    pub open spec fn spec_to_u16(self) -> u16 {
        match self {
            PollType::Empty => 0x00,
            PollType::HostOnly => 0x01,
            PollType::Full => 0x02,
            PollType::Reset => 0x05,
        }
    }

    pub open spec fn spec_from_u16(value: u16) -> Option<PollType> {
        if value == 0x00 {
            Some(PollType::Empty)
        } else if value == 0x01 {
            Some(PollType::HostOnly)
        } else if value == 0x02 {
            Some(PollType::Full)
        } else if value == 0x05 {
            Some(PollType::Reset)
        } else {
            None
        }
    }

    pub fn to_u16(&self) -> (r: u16)
        ensures
            r == self.spec_to_u16(),
    {
        match self {
            PollType::Empty => 0x00,
            PollType::HostOnly => 0x01,
            PollType::Full => 0x02,
            PollType::Reset => 0x05,
        }
    }

    pub fn from_u16(value: u16) -> (r: Option<PollType>)
        ensures
            r == Self::spec_from_u16(value),
    {
        if value == 0x00 {
            Some(PollType::Empty)
        } else if value == 0x01 {
            Some(PollType::HostOnly)
        } else if value == 0x02 {
            Some(PollType::Full)
        } else if value == 0x05 {
            Some(PollType::Reset)
        } else {
            None
        }
    }

    pub fn name(&self) -> &'static str {
        match self {
            PollType::Empty => "empty",
            PollType::HostOnly => "host only",
            PollType::Full => "full",
            PollType::Reset => "reset",
        }
    }

    /// The number of bytes after the 2-byte type tag.
    pub open spec fn spec_body_size(self) -> usize {
        match self {
            PollType::Empty => 78,
            PollType::HostOnly => 74,
            PollType::Full => 114,
            PollType::Reset => 98,
        }
    }

    pub fn body_size(&self) -> (r: usize)
        ensures
            r == self.spec_body_size(),
    {
        match self {
            PollType::Empty => 78,
            PollType::HostOnly => 74,
            PollType::Full => 114,
            PollType::Reset => 98,
        }
    }
}

/// A poll command. Every variant but `Empty` names the host; `Full` and
/// `Reset` continue a session, `Full` stamps the time and `Reset`
/// acknowledges an action.
#[derive(Debug, Clone, Copy)]
pub enum Command {
    Empty,
    HostOnly { host: Host },
    Full { session_id: u32, host: Host, datetime: DateTime },
    Reset { session_id: u32, host: Host, action_id: u32 },
}

impl Command {
    pub open spec fn spec_poll_type(&self) -> PollType {
        match self {
            Command::Empty => PollType::Empty,
            Command::HostOnly { .. } => PollType::HostOnly,
            Command::Full { .. } => PollType::Full,
            Command::Reset { .. } => PollType::Reset,
        }
    }

    pub fn poll_type(&self) -> (r: PollType)
        ensures
            r == self.spec_poll_type(),
    {
        match self {
            Command::Empty => PollType::Empty,
            Command::HostOnly { .. } => PollType::HostOnly,
            Command::Full { .. } => PollType::Full,
            Command::Reset { .. } => PollType::Reset,
        }
    }

    pub fn session_id(&self) -> (r: Option<u32>)
        ensures
            r == (match self {
                Command::Full { session_id, .. } => Some(*session_id),
                Command::Reset { session_id, .. } => Some(*session_id),
                _ => None::<u32>,
            }),
    {
        match self {
            Command::Full { session_id, .. } => Some(*session_id),
            Command::Reset { session_id, .. } => Some(*session_id),
            _ => None,
        }
    }

    pub fn host(&self) -> (r: Option<&Host>)
        ensures
            r == (match self {
                Command::Empty => None::<&Host>,
                Command::HostOnly { host } => Some(host),
                Command::Full { host, .. } => Some(host),
                Command::Reset { host, .. } => Some(host),
            }),
    {
        match self {
            Command::Empty => None,
            Command::HostOnly { host } => Some(host),
            Command::Full { host, .. } => Some(host),
            Command::Reset { host, .. } => Some(host),
        }
    }

    pub fn action_id(&self) -> (r: Option<u32>)
        ensures
            r == (match self {
                Command::Reset { action_id, .. } => Some(*action_id),
                _ => None::<u32>,
            }),
    {
        match self {
            Command::Reset { action_id, .. } => Some(*action_id),
            _ => None,
        }
    }

    pub fn datetime(&self) -> (r: Option<&DateTime>)
        ensures
            r == (match self {
                Command::Full { datetime, .. } => Some(datetime),
                _ => None::<&DateTime>,
            }),
    {
        match self {
            Command::Full { datetime, .. } => Some(datetime),
            _ => None,
        }
    }
}

/// The 64 bytes of a host name: each unit big-endian.
pub open spec fn host_bytes(h: Host) -> Seq<u8> {
    Seq::new(
        64,
        |i: int|
            if i % 2 == 0 {
                (h.units@[i / 2] >> 8u16) as u8
            } else {
                (h.units@[i / 2] & 0xffu16) as u8
            },
    )
}

/// The host whose units are the 32 big-endian `u16` from offset `at`.
pub open spec fn host_at(b: Seq<u8>, at: int) -> Host {
    Host { units: choose|a: [u16; 32]| a@ == Seq::new(32, |j: int| u16_at(b, at + 2 * j)) }
}

/// The fixed word `00 00 00 14` that follows the host in full and reset
/// commands.
pub open spec fn marker_14() -> Seq<u8> {
    seq![0u8, 0u8, 0u8, 0x14u8]
}

/// The fixed word `00 00 00 10` in front of the date of a full command.
pub open spec fn marker_10() -> Seq<u8> {
    seq![0u8, 0u8, 0u8, 0x10u8]
}

/// The body of a command, after its type tag; reserved bytes are 0.
pub open spec fn command_body(c: Command) -> Seq<u8> {
    match c {
        Command::Empty => zeros(78),
        Command::HostOnly { host } => zeros(6) + host_bytes(host) + zeros(4),
        Command::Full { session_id, host, datetime } => zeros(2) + u32_be_bytes(session_id)
            + host_bytes(host) + marker_14() + zeros(20) + marker_10() + datetime_digits(datetime)
            + zeros(2),
        Command::Reset { session_id, host, action_id } => zeros(2) + u32_be_bytes(session_id)
            + host_bytes(host) + marker_14() + u32_be_bytes(action_id) + zeros(20),
    }
}

pub open spec fn command_bytes(c: Command) -> Seq<u8> {
    u16_be_bytes(c.spec_poll_type().spec_to_u16()) + command_body(c)
}

/// What a buffer decodes to as a poll command. The type tag comes first;
/// the body must then be complete. The session id is read at 4, the host at
/// 8, the action id of a reset at 76 and the date of a full command at 100;
/// the fixed words and reserved bytes are not checked.
pub open spec fn parse_command(b: Seq<u8>) -> Result<(Command, usize), ParseError> {
    if b.len() < 2 {
        Err(ParseError::UnexpectedEnd { expected: 2, actual: b.len() as usize })
    } else {
        match PollType::spec_from_u16(u16_at(b, 0)) {
            None => Err(
                ParseError::InvalidFormat(
                    FormatError::InvalidSlice {
                        span: Range { start: 0, end: 2 },
                        message: "unknown poll type",
                    },
                ),
            ),
            Some(t) => if b.len() - 2 < t.spec_body_size() {
                Err(
                    ParseError::UnexpectedEnd {
                        expected: (t.spec_body_size() + 2) as usize,
                        actual: (b.len() - 2) as usize,
                    },
                )
            } else {
                let size = (t.spec_body_size() + 2) as usize;
                match t {
                    PollType::Empty => Ok((Command::Empty, size)),
                    PollType::HostOnly => Ok((Command::HostOnly { host: host_at(b, 8) }, size)),
                    PollType::Full => match parse_datetime(b.subrange(100, 114)) {
                        None => Err(
                            ParseError::InvalidFormat(
                                FormatError::InvalidSlice {
                                    span: Range { start: 100, end: 114 },
                                    message: "invalid datetime string",
                                },
                            ),
                        ),
                        Some(datetime) => Ok(
                            (
                                Command::Full {
                                    session_id: u32_at(b, 4),
                                    host: host_at(b, 8),
                                    datetime,
                                },
                                size,
                            ),
                        ),
                    },
                    PollType::Reset => Ok(
                        (
                            Command::Reset {
                                session_id: u32_at(b, 4),
                                host: host_at(b, 8),
                                action_id: u32_at(b, 76),
                            },
                            size,
                        ),
                    ),
                }
            },
        }
    }
}

proof fn lemma_marker_words()
    ensures
        u32_be_bytes(0x14) == marker_14(),
        u32_be_bytes(0x10) == marker_10(),
{
    let a: u32 = 0x14;
    let b: u32 = 0x10;
    assert((a >> 24u32) as u8 == 0u8 && ((a >> 16u32) & 0xffu32) as u8 == 0u8 && ((a >> 8u32)
        & 0xffu32) as u8 == 0u8 && (a & 0xffu32) as u8 == 0x14u8) by (bit_vector)
        requires
            a == 0x14u32,
    ;
    assert((b >> 24u32) as u8 == 0u8 && ((b >> 16u32) & 0xffu32) as u8 == 0u8 && ((b >> 8u32)
        & 0xffu32) as u8 == 0u8 && (b & 0xffu32) as u8 == 0x10u8) by (bit_vector)
        requires
            b == 0x10u32,
    ;
    assert(u32_be_bytes(0x14) =~= marker_14());
    assert(u32_be_bytes(0x10) =~= marker_10());
}

fn write_host(writer: &mut Vec<u8>, host: &Host)
    ensures
        final(writer)@ == old(writer)@ + host_bytes(*host),
{
    let mut i: usize = 0;
    while i < HOST_UNITS
        invariant
            i <= 32,
            writer@.len() == old(writer)@.len() + 2 * i,
            writer@.subrange(0, old(writer)@.len() as int) == old(writer)@,
            forall|j: int|
                0 <= j < 2 * i ==> writer@[old(writer)@.len() + j] == #[trigger] host_bytes(
                    *host,
                )[j],
        decreases 32 - i,
    {
        let ghost before = writer@;
        write_u16_be(writer, host.units[i]);
        assert(writer@.subrange(0, old(writer)@.len() as int) =~= before.subrange(
            0,
            old(writer)@.len() as int,
        ));
        i = i + 1;
    }
    assert(writer@ =~= old(writer)@ + host_bytes(*host));
}

fn read_host(buffer: &[u8], at: usize) -> (r: Host)
    requires
        at + 64 <= buffer.len(),
    ensures
        r == host_at(buffer@, at as int),
{
    let mut units = [0u16; 32];
    let mut i: usize = 0;
    while i < HOST_UNITS
        invariant
            i <= 32,
            at + 64 <= buffer.len(),
            forall|j: int| 0 <= j < i ==> units@[j] == u16_at(buffer@, at + 2 * j),
        decreases 32 - i,
    {
        units[i] = read_u16_be(buffer, at + 2 * i);
        i = i + 1;
    }
    let ghost want = Seq::new(32, |j: int| u16_at(buffer@, at + 2 * j));
    assert(units@ =~= want);
    proof {
        let c = host_at(buffer@, at as int).units;
        assert(units@ == Seq::new(32, |j: int| u16_at(buffer@, at + 2 * j)));
        assert(c@ == want);
        assert(c =~= units);
    }
    Host { units }
}

impl Serialize for Command {
    open spec fn spec_serialize(&self) -> Seq<u8> {
        command_bytes(*self)
    }

    fn serialize(&self, writer: &mut Vec<u8>) {
        let ghost start = writer@;
        write_u16_be(writer, self.poll_type().to_u16());
        let ghost tagged = writer@;
        match self {
            Command::Empty => {
                write_zeros(writer, 78);
            },
            Command::HostOnly { host } => {
                write_zeros(writer, 6);
                write_host(writer, host);
                write_zeros(writer, 4);
            },
            Command::Full { session_id, host, datetime } => {
                write_zeros(writer, 2);
                write_u32_be(writer, *session_id);
                write_host(writer, host);
                write_u32_be(writer, 0x14);
                write_zeros(writer, 20);
                write_u32_be(writer, 0x10);
                datetime.write_digits(writer);
                write_zeros(writer, 2);
                proof {
                    lemma_marker_words();
                }
            },
            Command::Reset { session_id, host, action_id } => {
                write_zeros(writer, 2);
                write_u32_be(writer, *session_id);
                write_host(writer, host);
                write_u32_be(writer, 0x14);
                write_u32_be(writer, *action_id);
                write_zeros(writer, 20);
                proof {
                    lemma_marker_words();
                }
            },
        }
        assert(writer@ =~= start + command_bytes(*self));
    }

    fn size(&self) -> (n: usize) {
        2 + self.poll_type().body_size()
    }
}

impl Deserialize for Command {
    open spec fn spec_deserialize(buf: Seq<u8>) -> Result<(Command, usize), ParseError> {
        parse_command(buf)
    }

    fn deserialize(buffer: &[u8]) -> (r: Result<(Command, usize), ParseError>) {
        if buffer.len() < 2 {
            return Err(ParseError::UnexpectedEnd { expected: 2, actual: buffer.len() });
        }
        let poll_type = match PollType::from_u16(read_u16_be(buffer, 0)) {
            Some(t) => t,
            None => {
                return Err(
                    ParseError::InvalidFormat(
                        FormatError::InvalidSlice {
                            span: Range { start: 0, end: 2 },
                            message: "unknown poll type",
                        },
                    ),
                );
            },
        };
        let body_size = poll_type.body_size();
        if buffer.len() - 2 < body_size {
            return Err(
                ParseError::UnexpectedEnd { expected: body_size + 2, actual: buffer.len() - 2 },
            );
        }
        let size = body_size + 2;
        match poll_type {
            PollType::Empty => Ok((Command::Empty, size)),
            PollType::HostOnly => Ok((Command::HostOnly { host: read_host(buffer, 8) }, size)),
            PollType::Full => {
                let datetime = match parse_datetime_at(buffer, 100) {
                    Some(d) => d,
                    None => {
                        return Err(
                            ParseError::InvalidFormat(
                                FormatError::InvalidSlice {
                                    span: Range { start: 100, end: 114 },
                                    message: "invalid datetime string",
                                },
                            ),
                        );
                    },
                };
                Ok(
                    (
                        Command::Full {
                            session_id: read_u32_be(buffer, 4),
                            host: read_host(buffer, 8),
                            datetime,
                        },
                        size,
                    ),
                )
            },
            PollType::Reset => Ok(
                (
                    Command::Reset {
                        session_id: read_u32_be(buffer, 4),
                        host: read_host(buffer, 8),
                        action_id: read_u32_be(buffer, 76),
                    },
                    size,
                ),
            ),
        }
    }
}

/// Collects the parts of a command; `build` checks that the parts its poll
/// type needs are there.
#[derive(Debug, Clone, Copy)]
pub struct CommandBuilder {
    pub poll_type: PollType,
    pub session_id: Option<u32>,
    pub host: Option<Host>,
    pub action_id: Option<u32>,
    pub datetime: Option<DateTime>,
}

/// The command that the parts make, if the poll type has all it needs.
pub open spec fn spec_build(b: CommandBuilder) -> Option<Command> {
    match b.poll_type {
        PollType::Empty => Some(Command::Empty),
        PollType::HostOnly => match b.host {
            Some(host) => Some(Command::HostOnly { host }),
            None => None,
        },
        PollType::Full => match (b.session_id, b.host, b.datetime) {
            (Some(session_id), Some(host), Some(datetime)) => Some(
                Command::Full { session_id, host, datetime },
            ),
            _ => None,
        },
        PollType::Reset => match (b.session_id, b.host, b.action_id) {
            (Some(session_id), Some(host), Some(action_id)) => Some(
                Command::Reset { session_id, host, action_id },
            ),
            _ => None,
        },
    }
}

impl CommandBuilder {
    pub fn new(poll_type: PollType) -> (r: CommandBuilder)
        ensures
            r == (CommandBuilder {
                poll_type,
                session_id: None,
                host: None,
                action_id: None,
                datetime: None,
            }),
    {
        CommandBuilder { poll_type, session_id: None, host: None, action_id: None, datetime: None }
    }

    pub fn poll_type(&mut self, poll_type: PollType) -> (r: &mut CommandBuilder)
        ensures
            *r == (CommandBuilder { poll_type, ..*old(self) }),
            *final(self) == *final(r),
    {
        self.poll_type = poll_type;
        self
    }

    pub fn session_id(&mut self, session_id: u32) -> (r: &mut CommandBuilder)
        ensures
            *r == (CommandBuilder { session_id: Some(session_id), ..*old(self) }),
            *final(self) == *final(r),
    {
        self.session_id = Some(session_id);
        self
    }

    pub fn host(&mut self, host: Host) -> (r: &mut CommandBuilder)
        ensures
            *r == (CommandBuilder { host: Some(host), ..*old(self) }),
            *final(self) == *final(r),
    {
        self.host = Some(host);
        self
    }

    pub fn action_id(&mut self, action_id: u32) -> (r: &mut CommandBuilder)
        ensures
            *r == (CommandBuilder { action_id: Some(action_id), ..*old(self) }),
            *final(self) == *final(r),
    {
        self.action_id = Some(action_id);
        self
    }

    pub fn datetime(&mut self, datetime: DateTime) -> (r: &mut CommandBuilder)
        ensures
            *r == (CommandBuilder { datetime: Some(datetime), ..*old(self) }),
            *final(self) == *final(r),
    {
        self.datetime = Some(datetime);
        self
    }

    pub fn build(&self) -> (r: Option<Command>)
        ensures
            r == spec_build(*self),
    {
        match self.poll_type {
            PollType::Empty => Some(Command::Empty),
            PollType::HostOnly => match self.host {
                Some(host) => Some(Command::HostOnly { host }),
                None => None,
            },
            PollType::Full => match (self.session_id, self.host, self.datetime) {
                (Some(session_id), Some(host), Some(datetime)) => Some(
                    Command::Full { session_id, host, datetime },
                ),
                _ => None,
            },
            PollType::Reset => match (self.session_id, self.host, self.action_id) {
                (Some(session_id), Some(host), Some(action_id)) => Some(
                    Command::Reset { session_id, host, action_id },
                ),
                _ => None,
            },
        }
    }
}

} // verus!

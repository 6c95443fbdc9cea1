//! Properties that hold across the codec: encoding and decoding agree,
//! unknown enumeration bytes and truncated buffers are reported where they
//! are, and host names are cut as documented.
use crate::channel::{lemma_sequence_advances, sequence_after};
use crate::datetime::{lemma_datetime_round_trip, datetime_digits};
use crate::listen::command_datagram;
use crate::discover::{self, lemma_discover_round_trip};
use crate::header::{header_bytes, lemma_header_round_trip, magic, parse_header, Header, PacketType, PayloadType};
use crate::poll::command::{
    command_bytes, dots, lemma_longest_fit, host_at, host_bytes, host_units,
    longest_fit, Command, Host, PollType,
};
use crate::poll::response::{interrupt_bytes, lemma_interrupt_round_trip, Interrupt};
use crate::serdes::{
    lemma_u16_be_round_trip, lemma_u32_be_round_trip, spec_deserialize_sized, u16_at, u16_be_bytes,
    u32_at, u32_be_bytes, Deserialize, FormatError, ParseError, Serialize, SizedDeserialize,
};
use crate::packet::{spec_parse_header_only, Packet};
use crate::utf16::encode_utf16;
use vstd::prelude::*;

verus! {

/// A well-formed header decodes from its own bytes, which take 16 bytes and
/// leave the reserved byte 0.
pub proof fn law_header_round_trip(h: Header)
    requires
        h.wf(),
    ensures
        Header::spec_deserialize(h.spec_serialize()) == Ok::<(Header, usize), ParseError>((h, 16)),
        h.spec_serialize()[7] == 0,
{
    lemma_header_round_trip(h);
    assert(header_bytes(h).subrange(0, 16) =~= header_bytes(h));
}

/// An interrupt descriptor decodes from its own bytes; its reserved bytes
/// are 0.
pub proof fn law_interrupt_round_trip(i: Interrupt)
    ensures
        Interrupt::spec_deserialize(i.spec_serialize()) == Ok::<(Interrupt, usize), ParseError>(
            (i, 20),
        ),
        forall|k: int|
            (0 <= k < 7 || 13 <= k < 16 || 17 <= k < 20) ==> #[trigger] i.spec_serialize()[k]
                == 0,
{
    lemma_interrupt_round_trip(i);
    assert(interrupt_bytes(i).subrange(0, 20) =~= interrupt_bytes(i));
}

/// A discover response decodes from its own bytes, all of which it takes.
pub proof fn law_discover_round_trip(r: discover::Response)
    ensures
        discover::Response::spec_deserialize(r.spec_serialize()) == Ok::<
            (discover::Response, usize),
            ParseError,
        >((r, r.spec_serialize().len() as usize)),
{
    lemma_discover_round_trip(r);
}

proof fn lemma_host_round_trip(h: Host, b: Seq<u8>, at: int)
    requires
        0 <= at,
        at + 64 <= b.len(),
        b.subrange(at, at + 64) == host_bytes(h),
    ensures
        host_at(b, at) == h,
{
    let want = Seq::new(32, |j: int| u16_at(b, at + 2 * j));
    assert forall|j: int| 0 <= j < 32 implies want[j] == h.units@[j] by {
        let u = h.units@[j];
        lemma_u16_be_round_trip(u);
        assert(b[at + 2 * j] == host_bytes(h)[2 * j]);
        assert(b[at + 2 * j + 1] == host_bytes(h)[2 * j + 1]);
        assert(u16_be_bytes(u)[0] == host_bytes(h)[2 * j]);
        assert(u16_be_bytes(u)[1] == host_bytes(h)[2 * j + 1]);
    }
    assert(h.units@ =~= want);
    let c = host_at(b, at).units;
    assert(c@ == want);
    assert(c =~= h.units);
}

/// A poll command decodes from its own bytes, all of which it takes.
pub proof fn law_command_round_trip(c: Command)
    requires
        c matches Command::Full { datetime, .. } ==> datetime.wf(),
    ensures
        Command::spec_deserialize(c.spec_serialize()) == Ok::<(Command, usize), ParseError>(
            (c, c.spec_serialize().len() as usize),
        ),
{
    let b = command_bytes(c);
    let t = c.spec_poll_type();
    lemma_u16_be_round_trip(t.spec_to_u16());
    assert(u16_at(b, 0) == u16_at(u16_be_bytes(t.spec_to_u16()), 0));
    match c {
        Command::Empty => {},
        Command::HostOnly { host } => {
            assert(b.subrange(8, 72) =~= host_bytes(host));
            lemma_host_round_trip(host, b, 8);
        },
        Command::Full { session_id, host, datetime } => {
            lemma_u32_be_round_trip(session_id);
            assert(b.subrange(4, 8) =~= u32_be_bytes(session_id));
            assert(u32_at(b, 4) == u32_at(u32_be_bytes(session_id), 0));
            assert(b.subrange(8, 72) =~= host_bytes(host));
            lemma_host_round_trip(host, b, 8);
            lemma_datetime_round_trip(datetime);
            assert(b.subrange(100, 114) =~= datetime_digits(datetime));
        },
        Command::Reset { session_id, host, action_id } => {
            lemma_u32_be_round_trip(session_id);
            lemma_u32_be_round_trip(action_id);
            assert(b.subrange(4, 8) =~= u32_be_bytes(session_id));
            assert(u32_at(b, 4) == u32_at(u32_be_bytes(session_id), 0));
            assert(b.subrange(76, 80) =~= u32_be_bytes(action_id));
            assert(u32_at(b, 76) == u32_at(u32_be_bytes(action_id), 0));
            assert(b.subrange(8, 72) =~= host_bytes(host));
            lemma_host_round_trip(host, b, 8);
        },
    }
}

/// An unknown packet type byte is reported as that byte at offset 4.
pub proof fn law_unknown_packet_type(buf: Seq<u8>)
    requires
        buf.len() >= 16,
        buf.subrange(0, 4) == magic(),
        PacketType::spec_from_u8(buf[4]) is None,
    ensures
        Header::spec_deserialize(buf) matches Err(
            ParseError::InvalidFormat(FormatError::InvalidByte { byte, offset, .. }),
        ) && byte == buf[4] && offset == 4,
{
    assert(buf.subrange(0, 16).subrange(0, 4) =~= buf.subrange(0, 4));
}

/// An unknown payload type byte, after a known packet type, is reported as
/// that byte at offset 5.
pub proof fn law_unknown_payload_type(buf: Seq<u8>)
    requires
        buf.len() >= 16,
        buf.subrange(0, 4) == magic(),
        PacketType::spec_from_u8(buf[4]) is Some,
        PayloadType::spec_from_u8(buf[5]) is None,
    ensures
        Header::spec_deserialize(buf) matches Err(
            ParseError::InvalidFormat(FormatError::InvalidByte { byte, offset, .. }),
        ) && byte == buf[5] && offset == 5,
{
    assert(buf.subrange(0, 16).subrange(0, 4) =~= buf.subrange(0, 4));
}

/// A MAC length other than 6 or 8 is reported as that byte at offset 4.
pub proof fn law_unknown_mac_length(buf: Seq<u8>)
    requires
        buf.len() >= 6,
        buf[4] != 6 && buf[4] != 8,
    ensures
        discover::Response::spec_deserialize(buf) matches Err(
            ParseError::InvalidFormat(FormatError::InvalidByte { byte, offset, .. }),
        ) && byte == buf[4] && offset == 4,
{
}

/// An IP length other than 4 or 16, after a complete MAC, is reported as
/// that byte at offset 5.
pub proof fn law_unknown_ip_length(buf: Seq<u8>)
    requires
        buf[4] == 6 || buf[4] == 8,
        buf.len() >= 6 + buf[4],
        buf[5] != 4 && buf[5] != 16,
    ensures
        discover::Response::spec_deserialize(buf) matches Err(
            ParseError::InvalidFormat(FormatError::InvalidByte { byte, offset, .. }),
        ) && byte == buf[5] && offset == 5,
{
}

/// The byte offsets of the enumerated fields of an interrupt descriptor.
pub open spec fn interrupt_field_offset(k: int) -> bool {
    k == 7 || k == 8 || k == 9 || k == 10 || k == 11 || k == 12 || k == 16
}

/// Every failure to decode an interrupt descriptor names a byte of one of
/// its enumerated fields, at that field's offset.
pub proof fn law_interrupt_invalid_byte(buf: Seq<u8>)
    requires
        buf.len() >= 20,
    ensures
        Interrupt::spec_deserialize(buf) is Err ==> (Interrupt::spec_deserialize(buf) matches Err(
            ParseError::InvalidFormat(FormatError::InvalidByte { byte, offset, .. }),
        ) && interrupt_field_offset(offset as int) && byte == buf[offset as int]),
{
    let b = buf.subrange(0, 20);
    assert(forall|k: int| 0 <= k < 20 ==> b[k] == buf[k]);
}

/// In an interrupt poll response, a failure to decode the descriptor names
/// the field's byte at its offset within the response, 16 further on.
pub proof fn law_poll_response_invalid_byte(buf: Seq<u8>)
    requires
        buf.len() >= 36,
    ensures
        crate::poll::Response::spec_deserialize(buf) is Err ==> (
        crate::poll::Response::spec_deserialize(buf) matches Err(
            ParseError::InvalidFormat(FormatError::InvalidByte { byte, offset, .. }),
        ) && interrupt_field_offset(offset - 16) && byte == buf[offset as int]),
{
    let b = buf.subrange(0, 36);
    let d = b.subrange(16, 36);
    assert(forall|k: int| 0 <= k < 20 ==> d[k] == buf[16 + k]);
}

/// A buffer shorter than the fixed size of a record is reported as
/// truncated, with the size that was needed.
pub proof fn law_sized_truncation<T: SizedDeserialize>(buf: Seq<u8>)
    requires
        buf.len() < T::spec_size(),
    ensures
        spec_deserialize_sized::<T>(buf) == Err::<(T, usize), ParseError>(
            ParseError::UnexpectedEnd { expected: T::spec_size(), actual: buf.len() as usize },
        ),
{
}

/// A discover response cut before the end of its addresses is reported as
/// truncated.
pub proof fn law_discover_truncation(buf: Seq<u8>)
    requires
        buf.len() >= 6,
        buf[4] == 6 || buf[4] == 8,
        buf[5] == 4 || buf[5] == 16,
        buf.len() < 6 + buf[4] + buf[5],
    ensures
        discover::Response::spec_deserialize(buf) matches Err(ParseError::UnexpectedEnd { .. }),
{
}

/// A poll command cut before the end of its body is reported as truncated.
pub proof fn law_command_truncation(buf: Seq<u8>)
    requires
        buf.len() >= 2,
        PollType::spec_from_u16(u16_at(buf, 0)) matches Some(t) && buf.len() < 2
            + t.spec_body_size(),
    ensures
        Command::spec_deserialize(buf) matches Err(ParseError::UnexpectedEnd { .. }),
{
}

/// A datagram cut before the end of the payload its header declares is
/// reported as truncated.
pub proof fn law_packet_truncation(buf: Seq<u8>)
    requires
        buf.len() >= 16,
        parse_header(buf.subrange(0, 16)) matches Ok(h) && buf.len() < 16 + h.payload_size,
    ensures
        crate::packet::spec_parse_header_only(buf) matches Err(ParseError::UnexpectedEnd { .. }),
{
}

/// An identity cut before the length it declares is reported as truncated.
pub proof fn law_identity_truncation(buf: Seq<u8>)
    requires
        buf.len() >= 2,
        u16_at(buf, 0) >= 2,
        buf.len() < u16_at(buf, 0),
    ensures
        crate::identity::spec_parse_identity(buf) matches Err(ParseError::UnexpectedEnd { .. }),
{
}

/// A host name whose encoding exceeds 32 units keeps the longest prefix of
/// whole characters that fits in 29 units, then three dots, then zeros.
pub proof fn law_host_truncation(s: Seq<char>)
    requires
        encode_utf16(s).len() > 32,
    ensures
        ({
            let p = longest_fit(s, 29, s.len());
            let e = encode_utf16(s.take(p as int));
            let u = host_units(s);
            &&& u.len() == 32
            &&& e.len() <= 29
            &&& u.subrange(0, e.len() as int) == e
            &&& u.subrange(e.len() as int, e.len() as int + 3) == dots()
            &&& forall|j: int| e.len() + 3 <= j < 32 ==> u[j] == 0
            &&& forall|k: int| 0 <= k <= s.len() && encode_utf16(s.take(k)).len() <= 29 ==> k <= p
        }),
{
    let p = longest_fit(s, 29, s.len());
    lemma_longest_fit(s, 29, s.len());
    let e = encode_utf16(s.take(p as int));
    let u = host_units(s);
    assert(u.subrange(0, e.len() as int) =~= e);
    assert(u.subrange(e.len() as int, e.len() as int + 3) =~= dots());
}

/// A packet whose header declares its payload's true size parses back into
/// that header and exactly the payload's bytes.
pub proof fn law_packet_round_trip<T: Serialize>(p: Packet<T>)
    requires
        p.spec_header().wf(),
        p.spec_header().payload_size == p.spec_payload().spec_serialize().len(),
    ensures
        spec_parse_header_only(p.spec_serialize()) == Ok::<(Header, Seq<u8>), ParseError>(
            (p.spec_header(), p.spec_payload().spec_serialize()),
        ),
{
    let h = p.spec_header();
    let payload = p.spec_payload().spec_serialize();
    let b = p.spec_serialize();
    lemma_header_round_trip(h);
    assert(b.subrange(0, 16) =~= header_bytes(h));
    assert(b.subrange(16, 16 + h.payload_size) =~= payload);
}

/// After `n` successful sends on a channel whose sequence number was `s`,
/// the sequence field of the next command on the wire is `s + n` modulo
/// 2^16.
pub proof fn law_sequence_on_wire(s: u16, n: nat, payload_type: PayloadType, payload: Seq<u8>)
    ensures
        u16_at(command_datagram(sequence_after(s, n), payload_type, payload), 8) as int == (s as int
            + n) % 65536,
{
    let seq = sequence_after(s, n);
    lemma_sequence_advances(s, n);
    lemma_u16_be_round_trip(seq);
    let b = command_datagram(seq, payload_type, payload);
    assert(b.subrange(8, 10) =~= u16_be_bytes(seq));
    assert(u16_at(b, 8) == u16_at(u16_be_bytes(seq), 0));
}

} // verus!

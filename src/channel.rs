//! What a UDP channel to one scanner decides: the sequence number of each
//! outbound command, how a command becomes a datagram, and how a datagram
//! becomes a reply. Sending and receiving are left to the caller.
use crate::header::{header_bytes, Header};
use crate::identity;
use crate::packet::{spec_parse_header_only, Packet, PacketBuilder, PacketHeaderOnly, PacketType, PayloadType};
use crate::serdes::{Deserialize, OffsetError, ParseError, Serialize};
use vstd::prelude::*;

verus! {

/// The sequence number after `s`, wrapping at 2^16.
pub open spec fn next_sequence(s: u16) -> u16 {
    ((s as int + 1) % 65536) as u16
}

/// The sequence number after `n` successful sends from `s`.
pub open spec fn sequence_after(s: u16, n: nat) -> u16
    decreases n,
{
    if n == 0 {
        s
    } else {
        next_sequence(sequence_after(s, (n - 1) as nat))
    }
}

/// After `n` successful sends the sequence number has advanced by exactly
/// `n`, modulo 2^16.
pub proof fn lemma_sequence_advances(s: u16, n: nat)
    ensures
        sequence_after(s, n) as int == (s as int + n) % 65536,
    decreases n,
{
    if n > 0 {
        lemma_sequence_advances(s, (n - 1) as nat);
    }
}

/// The header of a command sent on a channel.
pub open spec fn command_header(sequence: u16, payload_type: PayloadType, size: nat) -> Header {
    Header {
        packet_type: PacketType::ScannerCommand,
        payload_type,
        error: 0,
        sequence,
        job_id: None,
        payload_size: size as u32,
    }
}

/// The sequence state of a channel.
#[derive(Debug, Clone, Copy)]
pub struct ChannelState {
    sequence: u16,
}

impl ChannelState {
    pub closed spec fn spec_sequence(&self) -> u16 {
        self.sequence
    }

    pub fn new() -> (r: ChannelState)
        ensures
            r.spec_sequence() == 0,
    {
        ChannelState { sequence: 0 }
    }

    pub fn sequence(&self) -> (r: u16)
        ensures
            r == self.spec_sequence(),
    {
        self.sequence
    }

    /// The datagram of a scanner command that carries `payload` with the
    /// current sequence number.
    pub fn command<T: Serialize>(&self, payload_type: PayloadType, payload: T) -> (r: Vec<u8>)
        requires
            payload.spec_serialize().len() <= u32::MAX,
        ensures
            r@ == header_bytes(
                command_header(self.spec_sequence(), payload_type, payload.spec_serialize().len()),
            ) + payload.spec_serialize(),
    {
        let mut builder = PacketBuilder::new(PacketType::ScannerCommand, payload_type);
        builder.sequence(self.sequence);
        let packet = builder.build(payload);
        packet.serialize_to_vec()
    }

    /// Records a successful send: the next command gets the next number.
    pub fn sent(&mut self)
        ensures
            final(self).spec_sequence() == next_sequence(old(self).spec_sequence()),
    {
        self.sequence = self.sequence.wrapping_add(1);
    }

    /// Starts numbering again from 0, for a new session.
    pub fn reset_sequence(&mut self)
        ensures
            final(self).spec_sequence() == 0,
    {
        self.sequence = 0;
    }
}

/// Why a datagram did not yield a reply.
#[derive(Debug)]
pub enum ReplyError {
    /// The bytes do not form a packet with a payload of the expected kind.
    Parse(ParseError),
    /// The peer reported this error code with an empty payload.
    Remote(u8),
}

/// What a datagram yields as a reply carrying a `T`: a packet whose header
/// reports an error and has no payload is a remote error; a nonzero error
/// with a payload is taken as success.
pub open spec fn spec_decode_reply<T: Deserialize>(buf: Seq<u8>) -> Result<T, ReplyError> {
    match spec_parse_header_only(buf) {
        Err(e) => Err(ReplyError::Parse(e)),
        Ok((h, payload)) => if h.error != 0 && h.payload_size == 0 {
            Err(ReplyError::Remote(h.error))
        } else {
            match T::spec_deserialize(payload) {
                Ok((v, _)) => Ok(v),
                Err(e) => Err(ReplyError::Parse(e.spec_offset_by(16))),
            }
        },
    }
}

pub fn decode_reply<T: Deserialize>(buffer: &[u8]) -> (r: Result<T, ReplyError>)
    ensures
        r == spec_decode_reply::<T>(buffer@),
{
    let packet = match PacketHeaderOnly::parse(buffer) {
        Ok(p) => p,
        Err(e) => {
            return Err(ReplyError::Parse(e));
        },
    };
    if packet.error() != 0 && packet.payload_size() == 0 {
        return Err(ReplyError::Remote(packet.error()));
    }
    match Packet::<T>::try_from_header_only(packet) {
        Ok(p) => Ok(p.payload()),
        Err(e) => Err(ReplyError::Parse(e)),
    }
}

/// Like `decode_reply`, for an identity reply.
pub fn decode_identity_reply(buffer: &[u8]) -> (r: Result<identity::Response, ReplyError>)
    ensures
        match spec_parse_header_only(buffer@) {
            Err(e) => r matches Err(ReplyError::Parse(e2)) && e2 == e,
            Ok((h, payload)) => if h.error != 0 && h.payload_size == 0 {
                r matches Err(ReplyError::Remote(code)) && code == h.error
            } else {
                match identity::spec_parse_identity(payload) {
                    Ok((entries, _)) => r matches Ok(resp) && resp.spec_entries() == entries,
                    Err(e) => r matches Err(ReplyError::Parse(e2)) && e2 == e.spec_offset_by(16),
                }
            },
        },
{
    let packet = match PacketHeaderOnly::parse(buffer) {
        Ok(p) => p,
        Err(e) => {
            return Err(ReplyError::Parse(e));
        },
    };
    if packet.error() != 0 && packet.payload_size() == 0 {
        return Err(ReplyError::Remote(packet.error()));
    }
    match identity::Response::deserialize(packet.payload_bytes()) {
        Ok((resp, _)) => Ok(resp),
        Err(e) => Err(ReplyError::Parse(e.offset_by(16))),
    }
}

} // verus!

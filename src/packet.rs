//! A complete BJNP packet: a header and a payload.
use crate::header::{header_bytes, parse_header, Header, HEADER_SIZE};
pub use crate::header::{PacketType, PayloadType};
use crate::serdes::{shifted, Deserialize, OffsetError, ParseError, Serialize};
use vstd::prelude::*;

verus! {

#[derive(Debug, Clone)]
pub struct Packet<T> {
    header: Header,
    payload: T,
}

impl<T> Packet<T> {
    pub closed spec fn spec_header(&self) -> Header {
        self.header
    }

    pub closed spec fn spec_payload(&self) -> T {
        self.payload
    }

    pub fn packet_type(&self) -> (r: PacketType)
        ensures
            r == self.spec_header().packet_type,
    {
        self.header.packet_type
    }

    pub fn payload_type(&self) -> (r: PayloadType)
        ensures
            r == self.spec_header().payload_type,
    {
        self.header.payload_type
    }

    pub fn error(&self) -> (r: u8)
        ensures
            r == self.spec_header().error,
    {
        self.header.error
    }

    pub fn sequence(&self) -> (r: u16)
        ensures
            r == self.spec_header().sequence,
    {
        self.header.sequence
    }

    /// The job id, `None` when the header carries 0.
    pub fn job_id(&self) -> (r: Option<u16>)
        ensures
            r == self.spec_header().job_id,
    {
        self.header.job_id
    }

    pub fn payload_size(&self) -> (r: u32)
        ensures
            r == self.spec_header().payload_size,
    {
        self.header.payload_size
    }

    pub fn payload_ref(&self) -> (r: &T)
        ensures
            *r == self.spec_payload(),
    {
        &self.payload
    }

    pub fn payload(self) -> (r: T)
        ensures
            r == self.spec_payload(),
    {
        self.payload
    }
}

impl<T: Serialize> Serialize for Packet<T> {
    open spec fn spec_serialize(&self) -> Seq<u8> {
        header_bytes(self.spec_header()) + self.spec_payload().spec_serialize()
    }

    fn serialize(&self, writer: &mut Vec<u8>) {
        let ghost start = writer@;
        self.header.serialize(writer);
        self.payload.serialize(writer);
        assert(writer@ =~= start + (header_bytes(self.header) + self.payload.spec_serialize()));
    }

    fn size(&self) -> (n: usize) {
        HEADER_SIZE + self.payload.size()
    }
}

/// Assembles a packet: the types are given up front, error and sequence
/// default to 0 and the job id to "no job".
#[derive(Debug, Clone, Copy)]
pub struct PacketBuilder {
    packet_type: PacketType,
    payload_type: PayloadType,
    error: Option<u8>,
    sequence: Option<u16>,
    job_id: Option<u16>,
}

impl PacketBuilder {
    pub closed spec fn spec_packet_type(&self) -> PacketType {
        self.packet_type
    }

    pub closed spec fn spec_payload_type(&self) -> PayloadType {
        self.payload_type
    }

    /// The error byte that `build` writes.
    pub closed spec fn spec_error(&self) -> u8 {
        match self.error {
            Some(e) => e,
            None => 0,
        }
    }

    /// The sequence number that `build` writes.
    pub closed spec fn spec_sequence(&self) -> u16 {
        match self.sequence {
            Some(s) => s,
            None => 0,
        }
    }

    pub closed spec fn spec_job_id(&self) -> Option<u16> {
        self.job_id
    }

    pub closed spec fn wf(&self) -> bool {
        self.job_id != Some(0u16)
    }

    pub fn new(packet_type: PacketType, payload_type: PayloadType) -> (r: PacketBuilder)
        ensures
            r.wf(),
            r.spec_packet_type() == packet_type,
            r.spec_payload_type() == payload_type,
            r.spec_error() == 0,
            r.spec_sequence() == 0,
            r.spec_job_id() == None::<u16>,
    {
        PacketBuilder { packet_type, payload_type, error: None, sequence: None, job_id: None }
    }

    pub fn packet_type(&mut self, packet_type: PacketType) -> (r: &mut PacketBuilder)
        requires
            old(self).wf(),
        ensures
            r.wf(),
            r.spec_packet_type() == packet_type,
            r.spec_payload_type() == old(self).spec_payload_type(),
            r.spec_error() == old(self).spec_error(),
            r.spec_sequence() == old(self).spec_sequence(),
            r.spec_job_id() == old(self).spec_job_id(),
            *final(self) == *final(r),
    {
        self.packet_type = packet_type;
        self
    }

    pub fn payload_type(&mut self, payload_type: PayloadType) -> (r: &mut PacketBuilder)
        requires
            old(self).wf(),
        ensures
            r.wf(),
            r.spec_packet_type() == old(self).spec_packet_type(),
            r.spec_payload_type() == payload_type,
            r.spec_error() == old(self).spec_error(),
            r.spec_sequence() == old(self).spec_sequence(),
            r.spec_job_id() == old(self).spec_job_id(),
            *final(self) == *final(r),
    {
        self.payload_type = payload_type;
        self
    }

    pub fn error(&mut self, error: u8) -> (r: &mut PacketBuilder)
        requires
            old(self).wf(),
        ensures
            r.wf(),
            r.spec_packet_type() == old(self).spec_packet_type(),
            r.spec_payload_type() == old(self).spec_payload_type(),
            r.spec_error() == error,
            r.spec_sequence() == old(self).spec_sequence(),
            r.spec_job_id() == old(self).spec_job_id(),
            *final(self) == *final(r),
    {
        self.error = Some(error);
        self
    }

    pub fn sequence(&mut self, sequence: u16) -> (r: &mut PacketBuilder)
        requires
            old(self).wf(),
        ensures
            r.wf(),
            r.spec_packet_type() == old(self).spec_packet_type(),
            r.spec_payload_type() == old(self).spec_payload_type(),
            r.spec_error() == old(self).spec_error(),
            r.spec_sequence() == sequence,
            r.spec_job_id() == old(self).spec_job_id(),
            *final(self) == *final(r),
    {
        self.sequence = Some(sequence);
        self
    }

    /// Sets the job id; 0 stands for "no job".
    pub fn job_id(&mut self, job_id: u16) -> (r: &mut PacketBuilder)
        requires
            old(self).wf(),
        ensures
            r.wf(),
            r.spec_packet_type() == old(self).spec_packet_type(),
            r.spec_payload_type() == old(self).spec_payload_type(),
            r.spec_error() == old(self).spec_error(),
            r.spec_sequence() == old(self).spec_sequence(),
            r.spec_job_id() == (if job_id == 0 {
                None
            } else {
                Some(job_id)
            }),
            *final(self) == *final(r),
    {
        self.job_id = if job_id == 0 {
            None
        } else {
            Some(job_id)
        };
        self
    }

    /// The header that `build` puts in front of a payload of `size` bytes.
    pub open spec fn spec_header_for(&self, size: nat) -> Header {
        Header {
            packet_type: self.spec_packet_type(),
            payload_type: self.spec_payload_type(),
            error: self.spec_error(),
            sequence: self.spec_sequence(),
            job_id: self.spec_job_id(),
            payload_size: size as u32,
        }
    }

    /// Builds the packet; its declared payload size is what the payload
    /// serializes to.
    pub fn build<T: Serialize>(&self, payload: T) -> (r: Packet<T>)
        requires
            self.wf(),
            payload.spec_serialize().len() <= u32::MAX,
        ensures
            r.spec_header() == self.spec_header_for(payload.spec_serialize().len()),
            r.spec_header().wf(),
            r.spec_header().payload_size == payload.spec_serialize().len(),
            r.spec_payload() == payload,
    {
        let size = payload.size();
        let header = Header {
            packet_type: self.packet_type,
            payload_type: self.payload_type,
            error: match self.error {
                Some(e) => e,
                None => 0,
            },
            sequence: match self.sequence {
                Some(s) => s,
                None => 0,
            },
            job_id: self.job_id,
            payload_size: size as u32,
        };
        Packet { header, payload }
    }
}

/// A packet whose header is decoded and whose payload is still raw bytes, so
/// that a caller can look at the header before choosing a payload parser.
#[derive(Debug, Clone)]
pub struct PacketHeaderOnly<'buf> {
    header: Header,
    payload: &'buf [u8],
}

/// What parsing a whole datagram into a header and its payload bytes yields.
pub open spec fn spec_parse_header_only(buf: Seq<u8>) -> Result<(Header, Seq<u8>), ParseError> {
    if buf.len() < 16 {
        Err(ParseError::UnexpectedEnd { expected: 16, actual: buf.len() as usize })
    } else {
        match parse_header(buf.subrange(0, 16)) {
            Err(e) => Err(ParseError::InvalidFormat(e)),
            Ok(h) => if buf.len() < 16 + h.payload_size {
                Err(
                    ParseError::UnexpectedEnd {
                        expected: shifted(16, h.payload_size as usize),
                        actual: buf.len() as usize,
                    },
                )
            } else {
                Ok((h, buf.subrange(16, 16 + h.payload_size)))
            },
        }
    }
}

impl<'buf> PacketHeaderOnly<'buf> {
    pub closed spec fn spec_header(&self) -> Header {
        self.header
    }

    pub closed spec fn spec_payload_bytes(&self) -> Seq<u8> {
        self.payload@
    }

    /// Checks the magic, decodes the header and takes the declared number of
    /// payload bytes; bytes after them are ignored.
    pub fn parse(buffer: &'buf [u8]) -> (r: Result<PacketHeaderOnly<'buf>, ParseError>)
        ensures
            match spec_parse_header_only(buffer@) {
                Ok((h, p)) => r matches Ok(packet) && packet.spec_header() == h
                    && packet.spec_payload_bytes() == p,
                Err(e) => r == Err::<PacketHeaderOnly<'buf>, ParseError>(e),
            },
    {
        let (header, offset) = match Header::deserialize(buffer) {
            Ok(parsed) => parsed,
            Err(e) => {
                return Err(e);
            },
        };
        assert(offset == 16);
        let payload_size = header.payload_size as usize;
        if payload_size > buffer.len() - offset {
            return Err(
                ParseError::UnexpectedEnd {
                    expected: crate::serdes::shift_by(offset, payload_size),
                    actual: buffer.len(),
                },
            );
        }
        let payload = &buffer[offset..offset + payload_size];
        assert(payload@ =~= buffer@.subrange(16, 16 + header.payload_size));
        Ok(PacketHeaderOnly { header, payload })
    }

    pub fn packet_type(&self) -> (r: PacketType)
        ensures
            r == self.spec_header().packet_type,
    {
        self.header.packet_type
    }

    pub fn payload_type(&self) -> (r: PayloadType)
        ensures
            r == self.spec_header().payload_type,
    {
        self.header.payload_type
    }

    pub fn error(&self) -> (r: u8)
        ensures
            r == self.spec_header().error,
    {
        self.header.error
    }

    pub fn sequence(&self) -> (r: u16)
        ensures
            r == self.spec_header().sequence,
    {
        self.header.sequence
    }

    pub fn job_id(&self) -> (r: Option<u16>)
        ensures
            r == self.spec_header().job_id,
    {
        self.header.job_id
    }

    pub fn payload_size(&self) -> (r: u32)
        ensures
            r == self.spec_header().payload_size,
    {
        self.header.payload_size
    }

    /// The payload bytes, not yet decoded.
    pub fn payload_bytes(&self) -> (r: &'buf [u8])
        ensures
            r@ == self.spec_payload_bytes(),
    {
        self.payload
    }
}

impl<T: Deserialize> Packet<T> {
    /// Decodes the payload bytes of `packet` as a `T`, keeping its header.
    /// Payload errors are located within the whole datagram, after the header.
    pub fn try_from_header_only(packet: PacketHeaderOnly) -> (r: Result<Packet<T>, ParseError>)
        ensures
            match T::spec_deserialize(packet.spec_payload_bytes()) {
                Ok((v, _)) => r matches Ok(p) && p.spec_header() == packet.spec_header()
                    && p.spec_payload() == v,
                Err(e) => r == Err::<Packet<T>, ParseError>(e.spec_offset_by(16)),
            },
    {
        match T::deserialize(packet.payload) {
            Ok((payload, _)) => Ok(Packet { header: packet.header, payload }),
            Err(e) => Err(e.offset_by(HEADER_SIZE)),
        }
    }
}

} // verus!

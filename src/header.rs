//! The 16-byte BJNP frame header.
//!
//! Layout, all integers big-endian:
//! `magic[0..4]`, `packet_type[4]`, `payload_type[5]`, `error[6]`,
//! reserved `[7]`, `sequence[8..10]`, `job_id[10..12]`, `payload_size[12..16]`.
use crate::serdes::{
    read_u16_be, read_u32_be, spec_deserialize_sized, u16_at, u16_be_bytes, u32_at,
    u32_be_bytes, write_u16_be, write_u32_be, lemma_u16_be_round_trip, lemma_u32_be_round_trip,
    deserialize_sized, Deserialize, FormatError, ParseError, Serialize, SizedDeserialize,
};
use core::ops::Range;
use vstd::prelude::*;

verus! {

pub const HEADER_SIZE: usize = 16;

/// The magic bytes `"BJNP"` that open every frame.
pub open spec fn magic() -> Seq<u8> {
    seq![0x42u8, 0x4au8, 0x4eu8, 0x50u8]
}

#[derive(Debug, Clone, Copy, PartialEq, Eq, Structural)]
pub enum PacketType {
    PrinterCommand,
    ScannerCommand,
    PrinterResponse,
    ScannerResponse,
}

impl PacketType {
    pub open spec fn spec_to_u8(self) -> u8 {
        match self {
            PacketType::PrinterCommand => 0x01,
            PacketType::ScannerCommand => 0x02,
            PacketType::PrinterResponse => 0x81,
            PacketType::ScannerResponse => 0x82,
        }
    }

    pub open spec fn spec_from_u8(value: u8) -> Option<PacketType> {
        if value == 0x01 {
            Some(PacketType::PrinterCommand)
        } else if value == 0x02 {
            Some(PacketType::ScannerCommand)
        } else if value == 0x81 {
            Some(PacketType::PrinterResponse)
        } else if value == 0x82 {
            Some(PacketType::ScannerResponse)
        } else {
            None
        }
    }

    pub fn to_u8(&self) -> (r: u8)
        ensures
            r == self.spec_to_u8(),
    {
        match self {
            PacketType::PrinterCommand => 0x01,
            PacketType::ScannerCommand => 0x02,
            PacketType::PrinterResponse => 0x81,
            PacketType::ScannerResponse => 0x82,
        }
    }

    /// Decodes the byte; an unknown one is an `InvalidByte` at offset 0.
    pub fn try_from_u8(value: u8) -> (r: Result<PacketType, FormatError>)
        ensures
            match Self::spec_from_u8(value) {
                Some(t) => r == Ok::<PacketType, FormatError>(t),
                None => r == Err::<PacketType, FormatError>(
                    FormatError::InvalidByte { byte: value, offset: 0, message: "unknown packet type" },
                ),
            },
    {
        if value == 0x01 {
            Ok(PacketType::PrinterCommand)
        } else if value == 0x02 {
            Ok(PacketType::ScannerCommand)
        } else if value == 0x81 {
            Ok(PacketType::PrinterResponse)
        } else if value == 0x82 {
            Ok(PacketType::ScannerResponse)
        } else {
            Err(FormatError::InvalidByte { byte: value, offset: 0, message: "unknown packet type" })
        }
    }

    pub fn name(&self) -> &'static str {
        match self {
            PacketType::PrinterCommand => "printer cmd",
            PacketType::ScannerCommand => "scanner cmd",
            PacketType::PrinterResponse => "printer res",
            PacketType::ScannerResponse => "scanner res",
        }
    }

    pub proof fn lemma_round_trip(self)
        ensures
            Self::spec_from_u8(self.spec_to_u8()) == Some(self),
    {
    }
}

#[derive(Debug, Clone, Copy, PartialEq, Eq, Structural)]
pub enum PayloadType {
    Discover,
    StartScan,
    JobDetails,
    Close,
    Read,
    Write,
    GetId,
    Poll,
}

impl PayloadType {
    pub open spec fn spec_to_u8(self) -> u8 {
        match self {
            PayloadType::Discover => 0x01,
            PayloadType::StartScan => 0x02,
            PayloadType::JobDetails => 0x10,
            PayloadType::Close => 0x11,
            PayloadType::Read => 0x20,
            PayloadType::Write => 0x21,
            PayloadType::GetId => 0x30,
            PayloadType::Poll => 0x32,
        }
    }

    pub open spec fn spec_from_u8(value: u8) -> Option<PayloadType> {
        if value == 0x01 {
            Some(PayloadType::Discover)
        } else if value == 0x02 {
            Some(PayloadType::StartScan)
        } else if value == 0x10 {
            Some(PayloadType::JobDetails)
        } else if value == 0x11 {
            Some(PayloadType::Close)
        } else if value == 0x20 {
            Some(PayloadType::Read)
        } else if value == 0x21 {
            Some(PayloadType::Write)
        } else if value == 0x30 {
            Some(PayloadType::GetId)
        } else if value == 0x32 {
            Some(PayloadType::Poll)
        } else {
            None
        }
    }

    pub fn to_u8(&self) -> (r: u8)
        ensures
            r == self.spec_to_u8(),
    {
        match self {
            PayloadType::Discover => 0x01,
            PayloadType::StartScan => 0x02,
            PayloadType::JobDetails => 0x10,
            PayloadType::Close => 0x11,
            PayloadType::Read => 0x20,
            PayloadType::Write => 0x21,
            PayloadType::GetId => 0x30,
            PayloadType::Poll => 0x32,
        }
    }

    /// Decodes the byte; an unknown one is an `InvalidByte` at offset 0.
    pub fn try_from_u8(value: u8) -> (r: Result<PayloadType, FormatError>)
        ensures
            match Self::spec_from_u8(value) {
                Some(t) => r == Ok::<PayloadType, FormatError>(t),
                None => r == Err::<PayloadType, FormatError>(
                    FormatError::InvalidByte { byte: value, offset: 0, message: "unknown payload type" },
                ),
            },
    {
        if value == 0x01 {
            Ok(PayloadType::Discover)
        } else if value == 0x02 {
            Ok(PayloadType::StartScan)
        } else if value == 0x10 {
            Ok(PayloadType::JobDetails)
        } else if value == 0x11 {
            Ok(PayloadType::Close)
        } else if value == 0x20 {
            Ok(PayloadType::Read)
        } else if value == 0x21 {
            Ok(PayloadType::Write)
        } else if value == 0x30 {
            Ok(PayloadType::GetId)
        } else if value == 0x32 {
            Ok(PayloadType::Poll)
        } else {
            Err(FormatError::InvalidByte { byte: value, offset: 0, message: "unknown payload type" })
        }
    }

    pub fn name(&self) -> &'static str {
        match self {
            PayloadType::Discover => "discover",
            PayloadType::StartScan => "start scan",
            PayloadType::JobDetails => "job details",
            PayloadType::Close => "close",
            PayloadType::Read => "read",
            PayloadType::Write => "write",
            PayloadType::GetId => "get identity",
            PayloadType::Poll => "poll",
        }
    }

    pub proof fn lemma_round_trip(self)
        ensures
            Self::spec_from_u8(self.spec_to_u8()) == Some(self),
    {
    }
}

/// The decoded header. `job_id` is `None` for "no job"; a present job id is
/// never 0.
#[derive(Debug, Clone, Copy, PartialEq, Eq, Structural)]
pub struct Header {
    pub packet_type: PacketType,
    pub payload_type: PayloadType,
    pub error: u8,
    pub sequence: u16,
    pub job_id: Option<u16>,
    pub payload_size: u32,
}

impl Header {
    pub open spec fn wf(self) -> bool {
        self.job_id != Some(0u16)
    }

    pub open spec fn spec_job_id_raw(self) -> u16 {
        match self.job_id {
            Some(j) => j,
            None => 0,
        }
    }
}

/// The 16 bytes of a header; the reserved byte is 0.
pub open spec fn header_bytes(h: Header) -> Seq<u8> {
    magic() + seq![h.packet_type.spec_to_u8(), h.payload_type.spec_to_u8(), h.error, 0u8]
        + u16_be_bytes(h.sequence) + u16_be_bytes(h.spec_job_id_raw()) + u32_be_bytes(
        h.payload_size,
    )
}

/// What 16 header bytes decode to. The magic is checked first, then the
/// packet type at offset 4, then the payload type at offset 5; the reserved
/// byte is ignored.
pub open spec fn parse_header(b: Seq<u8>) -> Result<Header, FormatError> {
    if b.subrange(0, 4) != magic() {
        Err(FormatError::InvalidSlice {
            span: Range { start: 0, end: 4 },
            message: "magic bytes is not b'BJNP'",
        })
    } else {
        match PacketType::spec_from_u8(b[4]) {
            None => Err(
                FormatError::InvalidByte { byte: b[4], offset: 4, message: "unknown packet type" },
            ),
            Some(packet_type) => match PayloadType::spec_from_u8(b[5]) {
                None => Err(
                    FormatError::InvalidByte {
                        byte: b[5],
                        offset: 5,
                        message: "unknown payload type",
                    },
                ),
                Some(payload_type) => Ok(
                    Header {
                        packet_type,
                        payload_type,
                        error: b[6],
                        sequence: u16_at(b, 8),
                        job_id: if u16_at(b, 10) == 0 {
                            None
                        } else {
                            Some(u16_at(b, 10))
                        },
                        payload_size: u32_at(b, 12),
                    },
                ),
            },
        }
    }
}

impl Serialize for Header {
    open spec fn spec_serialize(&self) -> Seq<u8> {
        header_bytes(*self)
    }

    fn serialize(&self, writer: &mut Vec<u8>) {
        let ghost start = writer@;
        writer.push(0x42u8);
        writer.push(0x4au8);
        writer.push(0x4eu8);
        writer.push(0x50u8);
        writer.push(self.packet_type.to_u8());
        writer.push(self.payload_type.to_u8());
        writer.push(self.error);
        writer.push(0u8);
        write_u16_be(writer, self.sequence);
        let job_id: u16 = match self.job_id {
            Some(j) => j,
            None => 0,
        };
        write_u16_be(writer, job_id);
        write_u32_be(writer, self.payload_size);
        assert(writer@ =~= start + header_bytes(*self));
    }

    fn size(&self) -> (n: usize) {
        HEADER_SIZE
    }
}

impl SizedDeserialize for Header {
    open spec fn spec_size() -> usize {
        HEADER_SIZE
    }

    open spec fn spec_deserialize_exact(buf: Seq<u8>) -> Result<Header, FormatError> {
        parse_header(buf)
    }

    fn size_exact() -> (n: usize) {
        HEADER_SIZE
    }

    fn deserialize_exact(buffer: &[u8]) -> (r: Result<Header, FormatError>) {
        let ghost b = buffer@.subrange(0, 16);
        assert(forall|i: int| 0 <= i < 16 ==> b[i] == buffer@[i]);
        if !(buffer[0] == 0x42u8 && buffer[1] == 0x4au8 && buffer[2] == 0x4eu8 && buffer[3]
            == 0x50u8) {
            assert(b.subrange(0, 4) != magic()) by {
                if b.subrange(0, 4) == magic() {
                    assert(b.subrange(0, 4)[0] == magic()[0]);
                    assert(b.subrange(0, 4)[1] == magic()[1]);
                    assert(b.subrange(0, 4)[2] == magic()[2]);
                    assert(b.subrange(0, 4)[3] == magic()[3]);
                }
            }
            return Err(
                FormatError::InvalidSlice {
                    span: Range { start: 0, end: 4 },
                    message: "magic bytes is not b'BJNP'",
                },
            );
        }
        assert(b.subrange(0, 4) =~= magic());
        let packet_type = match PacketType::try_from_u8(buffer[4]) {
            Ok(t) => t,
            Err(_) => {
                return Err(
                    FormatError::InvalidByte {
                        byte: buffer[4],
                        offset: 4,
                        message: "unknown packet type",
                    },
                );
            },
        };
        let payload_type = match PayloadType::try_from_u8(buffer[5]) {
            Ok(t) => t,
            Err(_) => {
                return Err(
                    FormatError::InvalidByte {
                        byte: buffer[5],
                        offset: 5,
                        message: "unknown payload type",
                    },
                );
            },
        };
        let sequence = read_u16_be(buffer, 8);
        let raw_job_id = read_u16_be(buffer, 10);
        let payload_size = read_u32_be(buffer, 12);
        assert(u16_at(b, 8) == u16_at(buffer@, 8));
        assert(u16_at(b, 10) == u16_at(buffer@, 10));
        assert(u32_at(b, 12) == u32_at(buffer@, 12));
        Ok(
            Header {
                packet_type,
                payload_type,
                error: buffer[6],
                sequence,
                job_id: if raw_job_id == 0 {
                    None
                } else {
                    Some(raw_job_id)
                },
                payload_size,
            },
        )
    }
}

impl Deserialize for Header {
    open spec fn spec_deserialize(buf: Seq<u8>) -> Result<(Header, usize), ParseError> {
        spec_deserialize_sized::<Header>(buf)
    }

    fn deserialize(buffer: &[u8]) -> (r: Result<(Header, usize), ParseError>) {
        deserialize_sized::<Header>(buffer)
    }
}

/// Decoding the bytes of a well-formed header gives the header back.
pub proof fn lemma_header_round_trip(h: Header)
    requires
        h.wf(),
    ensures
        header_bytes(h).len() == 16,
        parse_header(header_bytes(h)) == Ok::<Header, FormatError>(h),
{
    let b = header_bytes(h);
    lemma_u16_be_round_trip(h.sequence);
    lemma_u16_be_round_trip(h.spec_job_id_raw());
    lemma_u32_be_round_trip(h.payload_size);
    h.packet_type.lemma_round_trip();
    h.payload_type.lemma_round_trip();
    assert(b.subrange(0, 4) =~= magic());
    assert(u16_at(b, 8) == u16_at(u16_be_bytes(h.sequence), 0));
    assert(u16_at(b, 10) == u16_at(u16_be_bytes(h.spec_job_id_raw()), 0));
    assert(u32_at(b, 12) == u32_at(u32_be_bytes(h.payload_size), 0));
}

} // verus!

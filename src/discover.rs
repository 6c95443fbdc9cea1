//! The response to a discover command: a MAC address and an IP address.
//!
//! Wire form: a fixed preamble `00 01 08 00`, the MAC length (6 or 8), the IP
//! length (4 or 16), the MAC bytes, then the IP bytes.
use crate::serdes::{
    deserialize_sized, spec_deserialize_sized, write_bytes, Deserialize, FormatError,
    OffsetError, ParseError, Serialize, SizedDeserialize,
};
use vstd::prelude::*;
use vstd::string::StringExecFns;

verus! {

/// A 48-bit extended unique identifier.
#[derive(Debug, Clone, Copy, PartialEq, Eq)]
pub struct Eui48(pub [u8; 6]);

/// A 64-bit extended unique identifier.
#[derive(Debug, Clone, Copy, PartialEq, Eq)]
pub struct Eui64(pub [u8; 8]);

impl Eui48 {
    pub open spec fn spec_octets(&self) -> Seq<u8> {
        self.0@
    }

    pub fn from_octets(octets: [u8; 6]) -> (r: Eui48)
        ensures
            r.spec_octets() == octets@,
    {
        Eui48(octets)
    }

    pub fn octets(&self) -> (r: [u8; 6])
        ensures
            r@ == self.spec_octets(),
    {
        self.0
    }
}

impl Eui64 {
    pub open spec fn spec_octets(&self) -> Seq<u8> {
        self.0@
    }

    pub fn from_octets(octets: [u8; 8]) -> (r: Eui64)
        ensures
            r.spec_octets() == octets@,
    {
        Eui64(octets)
    }

    pub fn octets(&self) -> (r: [u8; 8])
        ensures
            r@ == self.spec_octets(),
    {
        self.0
    }
}

impl Serialize for Eui48 {
    open spec fn spec_serialize(&self) -> Seq<u8> {
        self.0@
    }

    fn serialize(&self, writer: &mut Vec<u8>) {
        write_bytes(writer, self.0.as_slice());
    }

    fn size(&self) -> (n: usize) {
        6
    }
}

impl SizedDeserialize for Eui48 {
    open spec fn spec_size() -> usize {
        6
    }

    open spec fn spec_deserialize_exact(buf: Seq<u8>) -> Result<Eui48, FormatError> {
        Ok(Eui48(spec_array6(buf)))
    }

    fn size_exact() -> (n: usize) {
        6
    }

    fn deserialize_exact(buffer: &[u8]) -> (r: Result<Eui48, FormatError>) {
        let a = [buffer[0], buffer[1], buffer[2], buffer[3], buffer[4], buffer[5]];
        assert(a@ =~= buffer@.subrange(0, 6));
        proof {
            lemma_array6_view(a, buffer@.subrange(0, 6));
        }
        Ok(Eui48(a))
    }
}

impl Deserialize for Eui48 {
    open spec fn spec_deserialize(buf: Seq<u8>) -> Result<(Eui48, usize), ParseError> {
        spec_deserialize_sized::<Eui48>(buf)
    }

    fn deserialize(buffer: &[u8]) -> (r: Result<(Eui48, usize), ParseError>) {
        deserialize_sized::<Eui48>(buffer)
    }
}

impl Serialize for Eui64 {
    open spec fn spec_serialize(&self) -> Seq<u8> {
        self.0@
    }

    fn serialize(&self, writer: &mut Vec<u8>) {
        write_bytes(writer, self.0.as_slice());
    }

    fn size(&self) -> (n: usize) {
        8
    }
}

impl SizedDeserialize for Eui64 {
    open spec fn spec_size() -> usize {
        8
    }

    open spec fn spec_deserialize_exact(buf: Seq<u8>) -> Result<Eui64, FormatError> {
        Ok(Eui64(spec_array8(buf)))
    }

    fn size_exact() -> (n: usize) {
        8
    }

    fn deserialize_exact(buffer: &[u8]) -> (r: Result<Eui64, FormatError>) {
        let a = [
            buffer[0],
            buffer[1],
            buffer[2],
            buffer[3],
            buffer[4],
            buffer[5],
            buffer[6],
            buffer[7],
        ];
        assert(a@ =~= buffer@.subrange(0, 8));
        proof {
            lemma_array8_view(a, buffer@.subrange(0, 8));
        }
        Ok(Eui64(a))
    }
}

impl Deserialize for Eui64 {
    open spec fn spec_deserialize(buf: Seq<u8>) -> Result<(Eui64, usize), ParseError> {
        spec_deserialize_sized::<Eui64>(buf)
    }

    fn deserialize(buffer: &[u8]) -> (r: Result<(Eui64, usize), ParseError>) {
        deserialize_sized::<Eui64>(buffer)
    }
}

/// The array whose elements are the first 6 of `s`.
pub open spec fn spec_array6(s: Seq<u8>) -> [u8; 6] {
    choose|a: [u8; 6]| a@ == s.subrange(0, 6)
}

/// The array whose elements are the first 8 of `s`.
pub open spec fn spec_array8(s: Seq<u8>) -> [u8; 8] {
    choose|a: [u8; 8]| a@ == s.subrange(0, 8)
}

/// The array whose elements are the first 4 of `s`.
pub open spec fn spec_array4(s: Seq<u8>) -> [u8; 4] {
    choose|a: [u8; 4]| a@ == s.subrange(0, 4)
}

/// The array whose elements are the first 16 of `s`.
pub open spec fn spec_array16(s: Seq<u8>) -> [u8; 16] {
    choose|a: [u8; 16]| a@ == s.subrange(0, 16)
}

proof fn lemma_array6_view(a: [u8; 6], s: Seq<u8>)
    requires
        a@ == s,
        s.len() == 6,
    ensures
        spec_array6(s) == a,
{
    assert(s.subrange(0, 6) =~= s);
    let c = spec_array6(s);
    assert(c@ == s);
    assert(c =~= a);
}

proof fn lemma_array8_view(a: [u8; 8], s: Seq<u8>)
    requires
        a@ == s,
        s.len() == 8,
    ensures
        spec_array8(s) == a,
{
    assert(s.subrange(0, 8) =~= s);
    let c = spec_array8(s);
    assert(c@ == s);
    assert(c =~= a);
}

proof fn lemma_array4_view(a: [u8; 4], s: Seq<u8>)
    requires
        a@ == s,
        s.len() == 4,
    ensures
        spec_array4(s) == a,
{
    assert(s.subrange(0, 4) =~= s);
    let c = spec_array4(s);
    assert(c@ == s);
    assert(c =~= a);
}

proof fn lemma_array16_view(a: [u8; 16], s: Seq<u8>)
    requires
        a@ == s,
        s.len() == 16,
    ensures
        spec_array16(s) == a,
{
    assert(s.subrange(0, 16) =~= s);
    let c = spec_array16(s);
    assert(c@ == s);
    assert(c =~= a);
}

#[derive(Debug, Clone, Copy, PartialEq, Eq)]
pub enum MacAddr {
    Eui48(Eui48),
    Eui64(Eui64),
}

impl Serialize for MacAddr {
    open spec fn spec_serialize(&self) -> Seq<u8> {
        match self {
            MacAddr::Eui48(addr) => addr.spec_serialize(),
            MacAddr::Eui64(addr) => addr.spec_serialize(),
        }
    }

    fn serialize(&self, writer: &mut Vec<u8>) {
        match self {
            MacAddr::Eui48(addr) => addr.serialize(writer),
            MacAddr::Eui64(addr) => addr.serialize(writer),
        }
    }

    fn size(&self) -> (n: usize) {
        match self {
            MacAddr::Eui48(addr) => addr.size(),
            MacAddr::Eui64(addr) => addr.size(),
        }
    }
}

/// An IP address in network byte order: 4 bytes for IPv4, 16 for IPv6.
#[derive(Debug, Clone, Copy, PartialEq, Eq)]
pub enum IpAddr {
    V4([u8; 4]),
    V6([u8; 16]),
}

impl Serialize for IpAddr {
    open spec fn spec_serialize(&self) -> Seq<u8> {
        match self {
            IpAddr::V4(a) => a@,
            IpAddr::V6(a) => a@,
        }
    }

    fn serialize(&self, writer: &mut Vec<u8>) {
        match self {
            IpAddr::V4(a) => write_bytes(writer, a.as_slice()),
            IpAddr::V6(a) => write_bytes(writer, a.as_slice()),
        }
    }

    fn size(&self) -> (n: usize) {
        match self {
            IpAddr::V4(_) => 4,
            IpAddr::V6(_) => 16,
        }
    }
}

#[derive(Debug, Clone)]
pub struct Response {
    pub mac_addr: MacAddr,
    pub ip_addr: IpAddr,
}

/// The preamble that opens a discover response.
pub open spec fn discover_preamble() -> Seq<u8> {
    seq![0x00u8, 0x01u8, 0x08u8, 0x00u8]
}

/// What a buffer decodes to as a discover response: the two lengths are
/// read from offsets 4 and 5 (the preamble is not checked), the MAC is
/// decoded before the IP length is looked at, and each address is parsed
/// after the bytes in front of it.
pub open spec fn spec_parse_discover(buf: Seq<u8>) -> Result<(Response, usize), ParseError> {
    if buf.len() < 6 {
        Err(ParseError::UnexpectedEnd { expected: 6, actual: buf.len() as usize })
    } else {
        let mac_len = buf[4];
        let ip_len = buf[5];
        if mac_len != 6 && mac_len != 8 {
            Err(
                ParseError::InvalidFormat(
                    FormatError::InvalidByte {
                        byte: mac_len,
                        offset: 4,
                        message: "invalid MAC address size, can only be 6 or 8",
                    },
                ),
            )
        } else if buf.len() < 6 + mac_len {
            Err(
                ParseError::UnexpectedEnd {
                    expected: (6 + mac_len) as usize,
                    actual: (buf.len() - 6) as usize,
                },
            )
        } else {
            let mac = if mac_len == 6 {
                MacAddr::Eui48(Eui48(spec_array6(buf.subrange(6, 12))))
            } else {
                MacAddr::Eui64(Eui64(spec_array8(buf.subrange(6, 14))))
            };
            let at = 6 + mac_len;
            if ip_len != 4 && ip_len != 16 {
                Err(
                    ParseError::InvalidFormat(
                        FormatError::InvalidByte {
                            byte: ip_len,
                            offset: 5,
                            message: "invalid IP address size, can only be 4 or 16",
                        },
                    ),
                )
            } else if buf.len() < at + ip_len {
                Err(
                    ParseError::UnexpectedEnd {
                        expected: (at + ip_len) as usize,
                        actual: (buf.len() - at) as usize,
                    },
                )
            } else {
                let ip = if ip_len == 4 {
                    IpAddr::V4(spec_array4(buf.subrange(at, at + 4)))
                } else {
                    IpAddr::V6(spec_array16(buf.subrange(at, at + 16)))
                };
                Ok((Response { mac_addr: mac, ip_addr: ip }, (at + ip_len) as usize))
            }
        }
    }
}

impl Response {
    pub open spec fn spec_mac_addr(&self) -> MacAddr {
        self.mac_addr
    }

    pub open spec fn spec_ip_addr(&self) -> IpAddr {
        self.ip_addr
    }

    pub fn new(mac_addr: MacAddr, ip_addr: IpAddr) -> (r: Response)
        ensures
            r.spec_mac_addr() == mac_addr,
            r.spec_ip_addr() == ip_addr,
    {
        Response { mac_addr, ip_addr }
    }

    pub fn mac_addr(&self) -> (r: &MacAddr)
        ensures
            *r == self.spec_mac_addr(),
    {
        &self.mac_addr
    }

    pub fn ip_addr(&self) -> (r: &IpAddr)
        ensures
            *r == self.spec_ip_addr(),
    {
        &self.ip_addr
    }
}

impl Serialize for Response {
    open spec fn spec_serialize(&self) -> Seq<u8> {
        discover_preamble() + seq![
            self.mac_addr.spec_serialize().len() as u8,
            self.ip_addr.spec_serialize().len() as u8,
        ] + self.mac_addr.spec_serialize() + self.ip_addr.spec_serialize()
    }

    fn serialize(&self, writer: &mut Vec<u8>) {
        let ghost start = writer@;
        writer.push(0x00u8);
        writer.push(0x01u8);
        writer.push(0x08u8);
        writer.push(0x00u8);
        writer.push(self.mac_addr.size() as u8);
        writer.push(self.ip_addr.size() as u8);
        self.mac_addr.serialize(writer);
        self.ip_addr.serialize(writer);
        assert(writer@ =~= start + self.spec_serialize());
    }

    fn size(&self) -> (n: usize) {
        6 + self.mac_addr.size() + self.ip_addr.size()
    }
}

impl Deserialize for Response {
    open spec fn spec_deserialize(buf: Seq<u8>) -> Result<(Response, usize), ParseError> {
        spec_parse_discover(buf)
    }

    fn deserialize(buffer: &[u8]) -> (r: Result<(Response, usize), ParseError>) {
        if buffer.len() < 6 {
            return Err(ParseError::UnexpectedEnd { expected: 6, actual: buffer.len() });
        }
        let mac_len = buffer[4];
        let ip_len = buffer[5];
        let size: usize = 6;
        let rest = &buffer[size..buffer.len()];
        assert(rest@ =~= buffer@.subrange(6, buffer@.len() as int));
        let (mac_addr, next) = if mac_len == 6 {
            match Eui48::deserialize(rest) {
                Ok((addr, n)) => {
                    assert(rest@.subrange(0, 6) =~= buffer@.subrange(6, 12));
                    (MacAddr::Eui48(addr), n)
                },
                Err(e) => {
                    return Err(e.offset_by(size));
                },
            }
        } else if mac_len == 8 {
            match Eui64::deserialize(rest) {
                Ok((addr, n)) => {
                    assert(rest@.subrange(0, 8) =~= buffer@.subrange(6, 14));
                    (MacAddr::Eui64(addr), n)
                },
                Err(e) => {
                    return Err(e.offset_by(size));
                },
            }
        } else {
            return Err(
                ParseError::InvalidFormat(
                    FormatError::InvalidByte {
                        byte: mac_len,
                        offset: 4,
                        message: "invalid MAC address size, can only be 6 or 8",
                    },
                ),
            );
        };
        let at = size + next;
        let rest = &buffer[at..buffer.len()];
        assert(rest@ =~= buffer@.subrange(at as int, buffer@.len() as int));
        let (ip_addr, next) = if ip_len == 4 {
            if rest.len() < 4 {
                return Err(ParseError::UnexpectedEnd { expected: at + 4, actual: rest.len() });
            }
            let a = [rest[0], rest[1], rest[2], rest[3]];
            assert(a@ =~= buffer@.subrange(at as int, at + 4));
            proof {
                lemma_array4_view(a, buffer@.subrange(at as int, at + 4));
            }
            (IpAddr::V4(a), 4usize)
        } else if ip_len == 16 {
            if rest.len() < 16 {
                return Err(ParseError::UnexpectedEnd { expected: at + 16, actual: rest.len() });
            }
            let a = [
                rest[0],
                rest[1],
                rest[2],
                rest[3],
                rest[4],
                rest[5],
                rest[6],
                rest[7],
                rest[8],
                rest[9],
                rest[10],
                rest[11],
                rest[12],
                rest[13],
                rest[14],
                rest[15],
            ];
            assert(a@ =~= buffer@.subrange(at as int, at + 16));
            proof {
                lemma_array16_view(a, buffer@.subrange(at as int, at + 16));
            }
            (IpAddr::V6(a), 16usize)
        } else {
            return Err(
                ParseError::InvalidFormat(
                    FormatError::InvalidByte {
                        byte: ip_len,
                        offset: 5,
                        message: "invalid IP address size, can only be 4 or 16",
                    },
                ),
            );
        };
        Ok((Response { mac_addr, ip_addr }, at + next))
    }
}

/// Decoding the encoding of a discover response gives it back, with every
/// byte consumed.
pub proof fn lemma_discover_round_trip(r: Response)
    ensures
        spec_parse_discover(r.spec_serialize()) == Ok::<(Response, usize), ParseError>(
            (r, r.spec_serialize().len() as usize),
        ),
{
    let b = r.spec_serialize();
    match r.mac_addr {
        MacAddr::Eui48(a) => {
            assert(b.subrange(6, 12) =~= a.0@);
            lemma_array6_view(a.0, a.0@);
        },
        MacAddr::Eui64(a) => {
            assert(b.subrange(6, 14) =~= a.0@);
            lemma_array8_view(a.0, a.0@);
        },
    }
    let at: int = 6 + r.mac_addr.spec_serialize().len() as int;
    match r.ip_addr {
        IpAddr::V4(a) => {
            assert(b.subrange(at, at + 4) =~= a@);
            lemma_array4_view(a, a@);
        },
        IpAddr::V6(a) => {
            assert(b.subrange(at, at + 16) =~= a@);
            lemma_array16_view(a, a@);
        },
    }
}


/// The lowercase hexadecimal digit of `n`, which is below 16.
pub open spec fn hex_digit(n: int) -> char {
    if n < 10 {
        ((0x30 + n) as u8) as char
    } else {
        ((0x61 + n - 10) as u8) as char
    }
}

pub open spec fn hex_octet(b: u8) -> Seq<char> {
    seq![hex_digit(b as int / 16), hex_digit(b as int % 16)]
}

/// The octets in lowercase hexadecimal, two digits each, separated by `:`.
pub open spec fn hex_colon_text(octets: Seq<u8>) -> Seq<char>
    decreases octets.len(),
{
    if octets.len() == 0 {
        Seq::empty()
    } else if octets.len() == 1 {
        hex_octet(octets[0])
    } else {
        hex_colon_text(octets.drop_last()) + seq![':'] + hex_octet(octets.last())
    }
}

fn hex_digit_str(n: u8) -> (r: &'static str)
    requires
        n < 16,
    ensures
        r@ == seq![hex_digit(n as int)],
{
    if n == 0 {
        proof {
            reveal_strlit("0");
        }
        "0"
    } else if n == 1 {
        proof {
            reveal_strlit("1");
        }
        "1"
    } else if n == 2 {
        proof {
            reveal_strlit("2");
        }
        "2"
    } else if n == 3 {
        proof {
            reveal_strlit("3");
        }
        "3"
    } else if n == 4 {
        proof {
            reveal_strlit("4");
        }
        "4"
    } else if n == 5 {
        proof {
            reveal_strlit("5");
        }
        "5"
    } else if n == 6 {
        proof {
            reveal_strlit("6");
        }
        "6"
    } else if n == 7 {
        proof {
            reveal_strlit("7");
        }
        "7"
    } else if n == 8 {
        proof {
            reveal_strlit("8");
        }
        "8"
    } else if n == 9 {
        proof {
            reveal_strlit("9");
        }
        "9"
    } else if n == 10 {
        proof {
            reveal_strlit("a");
        }
        "a"
    } else if n == 11 {
        proof {
            reveal_strlit("b");
        }
        "b"
    } else if n == 12 {
        proof {
            reveal_strlit("c");
        }
        "c"
    } else if n == 13 {
        proof {
            reveal_strlit("d");
        }
        "d"
    } else if n == 14 {
        proof {
            reveal_strlit("e");
        }
        "e"
    } else if n == 15 {
        proof {
            reveal_strlit("f");
        }
        "f"
    } else {
        proof {
            reveal_strlit("f");
        }
        "f"
    }
}

fn hex_colon(octets: &[u8]) -> (r: String)
    ensures
        r@ == hex_colon_text(octets@),
{
    let mut out = String::new();
    let mut i: usize = 0;
    while i < octets.len()
        invariant
            i <= octets@.len(),
            out@ == hex_colon_text(octets@.subrange(0, i as int)),
        decreases octets@.len() - i,
    {
        if i > 0 {
            proof {
                reveal_strlit(":");
            }
            out.append(":");
        }
        let b = octets[i];
        out.append(hex_digit_str(b / 16));
        out.append(hex_digit_str(b % 16));
        proof {
            let next = octets@.subrange(0, i + 1);
            assert(next.drop_last() =~= octets@.subrange(0, i as int));
            if i == 0 {
                assert(octets@.subrange(0, 0).len() == 0);
            }
        }
        assert(out@ =~= hex_colon_text(octets@.subrange(0, i + 1)));
        i = i + 1;
    }
    assert(octets@.subrange(0, octets@.len() as int) =~= octets@);
    out
}

impl MacAddr {
    pub open spec fn spec_octets(&self) -> Seq<u8> {
        match self {
            MacAddr::Eui48(a) => a.0@,
            MacAddr::Eui64(a) => a.0@,
        }
    }

    /// The address as colon-separated lowercase hexadecimal octets.
    pub fn to_text(&self) -> (r: String)
        ensures
            r@ == hex_colon_text(self.spec_octets()),
    {
        match self {
            MacAddr::Eui48(a) => hex_colon(a.0.as_slice()),
            MacAddr::Eui64(a) => hex_colon(a.0.as_slice()),
        }
    }
}

} // verus!

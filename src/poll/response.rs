//! The response to a poll command, and the scan-button interrupt descriptor
//! it may carry.
//!
//! Response layout (36 bytes, big-endian): `status[0..4]`,
//! `session_id[4..8]`, a fixed `00 00 00 14` at `[8..12]` that is not checked,
//! `action_id[12..16]`, then the 20-byte interrupt descriptor at `[16..36]`.
use crate::serdes::{
    deserialize_sized, read_u32_be, spec_deserialize_sized, u32_at, write_zeros, zeros,
    Deserialize, FormatError, OffsetError, ParseError, Serialize, SizedDeserialize,
};
use vstd::prelude::*;

verus! {

#[derive(Debug, Clone, Copy, PartialEq, Eq, Structural)]
#[allow(non_camel_case_types)]
pub enum ColorMode {
    Color,
    Mono,
}

impl ColorMode {

    pub open spec fn spec_to_u8(self) -> u8 {
        match self {
            ColorMode::Color => 0x01,
            ColorMode::Mono => 0x02,
        }
    }


    pub open spec fn spec_from_u8(value: u8) -> Option<ColorMode> {
        if value == 0x01 {
            Some(ColorMode::Color)
        } else if value == 0x02 {
            Some(ColorMode::Mono)
        } else {
            None
        }
    }


    pub fn to_u8(&self) -> (r: u8)
        ensures
            r == self.spec_to_u8(),
    {
        match self {
            ColorMode::Color => 0x01,
            ColorMode::Mono => 0x02,
        }
    }


    pub fn from_u8(value: u8) -> (r: Option<ColorMode>)
        ensures
            r == Self::spec_from_u8(value),
    {
        if value == 0x01 {
            Some(ColorMode::Color)
        } else if value == 0x02 {
            Some(ColorMode::Mono)
        } else {
            None
        }
    }


    pub fn name(&self) -> &'static str {
        match self {
            ColorMode::Color => "color",
            ColorMode::Mono => "mono",
        }
    }


    pub proof fn lemma_round_trip(self)
        ensures
            Self::spec_from_u8(self.spec_to_u8()) == Some(self),
    {
    }
}

#[derive(Debug, Clone, Copy, PartialEq, Eq, Structural)]
#[allow(non_camel_case_types)]
pub enum Size {
    A4,
    Letter,
    _10x15,
    _13x18,
    Auto,
}

impl Size {

    pub open spec fn spec_to_u8(self) -> u8 {
        match self {
            Size::A4 => 0x01,
            Size::Letter => 0x02,
            Size::_10x15 => 0x08,
            Size::_13x18 => 0x09,
            Size::Auto => 0x0b,
        }
    }


    pub open spec fn spec_from_u8(value: u8) -> Option<Size> {
        if value == 0x01 {
            Some(Size::A4)
        } else if value == 0x02 {
            Some(Size::Letter)
        } else if value == 0x08 {
            Some(Size::_10x15)
        } else if value == 0x09 {
            Some(Size::_13x18)
        } else if value == 0x0b {
            Some(Size::Auto)
        } else {
            None
        }
    }


    pub fn to_u8(&self) -> (r: u8)
        ensures
            r == self.spec_to_u8(),
    {
        match self {
            Size::A4 => 0x01,
            Size::Letter => 0x02,
            Size::_10x15 => 0x08,
            Size::_13x18 => 0x09,
            Size::Auto => 0x0b,
        }
    }


    pub fn from_u8(value: u8) -> (r: Option<Size>)
        ensures
            r == Self::spec_from_u8(value),
    {
        if value == 0x01 {
            Some(Size::A4)
        } else if value == 0x02 {
            Some(Size::Letter)
        } else if value == 0x08 {
            Some(Size::_10x15)
        } else if value == 0x09 {
            Some(Size::_13x18)
        } else if value == 0x0b {
            Some(Size::Auto)
        } else {
            None
        }
    }


    pub fn name(&self) -> &'static str {
        match self {
            Size::A4 => "A4",
            Size::Letter => "Letter",
            Size::_10x15 => "10x15",
            Size::_13x18 => "13x18",
            Size::Auto => "Auto",
        }
    }


    pub proof fn lemma_round_trip(self)
        ensures
            Self::spec_from_u8(self.spec_to_u8()) == Some(self),
    {
    }
}

#[derive(Debug, Clone, Copy, PartialEq, Eq, Structural)]
#[allow(non_camel_case_types)]
pub enum Format {
    Jpeg,
    Tiff,
    Pdf,
    KompaktPdf,
}

impl Format {

    pub open spec fn spec_to_u8(self) -> u8 {
        match self {
            Format::Jpeg => 0x01,
            Format::Tiff => 0x02,
            Format::Pdf => 0x03,
            Format::KompaktPdf => 0x04,
        }
    }


    pub open spec fn spec_from_u8(value: u8) -> Option<Format> {
        if value == 0x01 {
            Some(Format::Jpeg)
        } else if value == 0x02 {
            Some(Format::Tiff)
        } else if value == 0x03 {
            Some(Format::Pdf)
        } else if value == 0x04 {
            Some(Format::KompaktPdf)
        } else {
            None
        }
    }


    pub fn to_u8(&self) -> (r: u8)
        ensures
            r == self.spec_to_u8(),
    {
        match self {
            Format::Jpeg => 0x01,
            Format::Tiff => 0x02,
            Format::Pdf => 0x03,
            Format::KompaktPdf => 0x04,
        }
    }


    pub fn from_u8(value: u8) -> (r: Option<Format>)
        ensures
            r == Self::spec_from_u8(value),
    {
        if value == 0x01 {
            Some(Format::Jpeg)
        } else if value == 0x02 {
            Some(Format::Tiff)
        } else if value == 0x03 {
            Some(Format::Pdf)
        } else if value == 0x04 {
            Some(Format::KompaktPdf)
        } else {
            None
        }
    }


    pub fn name(&self) -> &'static str {
        match self {
            Format::Jpeg => "JPEG",
            Format::Tiff => "TIFF",
            Format::Pdf => "PDF",
            Format::KompaktPdf => "Kompakt-PDF",
        }
    }


    pub proof fn lemma_round_trip(self)
        ensures
            Self::spec_from_u8(self.spec_to_u8()) == Some(self),
    {
    }
}

#[derive(Debug, Clone, Copy, PartialEq, Eq, Structural)]
#[allow(non_camel_case_types)]
pub enum DPI {
    _75,
    _150,
    _300,
    _600,
}

impl DPI {

    pub open spec fn spec_to_u8(self) -> u8 {
        match self {
            DPI::_75 => 0x01,
            DPI::_150 => 0x02,
            DPI::_300 => 0x03,
            DPI::_600 => 0x04,
        }
    }


    pub open spec fn spec_from_u8(value: u8) -> Option<DPI> {
        if value == 0x01 {
            Some(DPI::_75)
        } else if value == 0x02 {
            Some(DPI::_150)
        } else if value == 0x03 {
            Some(DPI::_300)
        } else if value == 0x04 {
            Some(DPI::_600)
        } else {
            None
        }
    }


    pub fn to_u8(&self) -> (r: u8)
        ensures
            r == self.spec_to_u8(),
    {
        match self {
            DPI::_75 => 0x01,
            DPI::_150 => 0x02,
            DPI::_300 => 0x03,
            DPI::_600 => 0x04,
        }
    }


    pub fn from_u8(value: u8) -> (r: Option<DPI>)
        ensures
            r == Self::spec_from_u8(value),
    {
        if value == 0x01 {
            Some(DPI::_75)
        } else if value == 0x02 {
            Some(DPI::_150)
        } else if value == 0x03 {
            Some(DPI::_300)
        } else if value == 0x04 {
            Some(DPI::_600)
        } else {
            None
        }
    }


    pub fn name(&self) -> &'static str {
        match self {
            DPI::_75 => "75",
            DPI::_150 => "150",
            DPI::_300 => "300",
            DPI::_600 => "600",
        }
    }


    pub proof fn lemma_round_trip(self)
        ensures
            Self::spec_from_u8(self.spec_to_u8()) == Some(self),
    {
    }
}

#[derive(Debug, Clone, Copy, PartialEq, Eq, Structural)]
#[allow(non_camel_case_types)]
pub enum Source {
    Flatbed,
    AutoDocumentFeeder,
}

impl Source {

    pub open spec fn spec_to_u8(self) -> u8 {
        match self {
            Source::Flatbed => 0x01,
            Source::AutoDocumentFeeder => 0x02,
        }
    }


    pub open spec fn spec_from_u8(value: u8) -> Option<Source> {
        if value == 0x01 {
            Some(Source::Flatbed)
        } else if value == 0x02 {
            Some(Source::AutoDocumentFeeder)
        } else {
            None
        }
    }


    pub fn to_u8(&self) -> (r: u8)
        ensures
            r == self.spec_to_u8(),
    {
        match self {
            Source::Flatbed => 0x01,
            Source::AutoDocumentFeeder => 0x02,
        }
    }


    pub fn from_u8(value: u8) -> (r: Option<Source>)
        ensures
            r == Self::spec_from_u8(value),
    {
        if value == 0x01 {
            Some(Source::Flatbed)
        } else if value == 0x02 {
            Some(Source::AutoDocumentFeeder)
        } else {
            None
        }
    }


    pub fn name(&self) -> &'static str {
        match self {
            Source::Flatbed => "flatbed",
            Source::AutoDocumentFeeder => "feeder",
        }
    }


    pub proof fn lemma_round_trip(self)
        ensures
            Self::spec_from_u8(self.spec_to_u8()) == Some(self),
    {
    }
}

#[derive(Debug, Clone, Copy, PartialEq, Eq, Structural)]
#[allow(non_camel_case_types)]
pub enum FeederType {
    Simplex,
    Duplex,
}

impl FeederType {

    pub open spec fn spec_to_u8(self) -> u8 {
        match self {
            FeederType::Simplex => 0x01,
            FeederType::Duplex => 0x02,
        }
    }


    pub open spec fn spec_from_u8(value: u8) -> Option<FeederType> {
        if value == 0x01 {
            Some(FeederType::Simplex)
        } else if value == 0x02 {
            Some(FeederType::Duplex)
        } else {
            None
        }
    }


    pub fn to_u8(&self) -> (r: u8)
        ensures
            r == self.spec_to_u8(),
    {
        match self {
            FeederType::Simplex => 0x01,
            FeederType::Duplex => 0x02,
        }
    }


    pub fn from_u8(value: u8) -> (r: Option<FeederType>)
        ensures
            r == Self::spec_from_u8(value),
    {
        if value == 0x01 {
            Some(FeederType::Simplex)
        } else if value == 0x02 {
            Some(FeederType::Duplex)
        } else {
            None
        }
    }


    pub fn name(&self) -> &'static str {
        match self {
            FeederType::Simplex => "simplex",
            FeederType::Duplex => "duplex",
        }
    }


    pub proof fn lemma_round_trip(self)
        ensures
            Self::spec_from_u8(self.spec_to_u8()) == Some(self),
    {
    }
}

#[derive(Debug, Clone, Copy, PartialEq, Eq, Structural)]
#[allow(non_camel_case_types)]
pub enum FeederOrientation {
    Portrait,
    Landscape,
}

impl FeederOrientation {

    pub open spec fn spec_to_u8(self) -> u8 {
        match self {
            FeederOrientation::Portrait => 0x01,
            FeederOrientation::Landscape => 0x02,
        }
    }


    pub open spec fn spec_from_u8(value: u8) -> Option<FeederOrientation> {
        if value == 0x01 {
            Some(FeederOrientation::Portrait)
        } else if value == 0x02 {
            Some(FeederOrientation::Landscape)
        } else {
            None
        }
    }


    pub fn to_u8(&self) -> (r: u8)
        ensures
            r == self.spec_to_u8(),
    {
        match self {
            FeederOrientation::Portrait => 0x01,
            FeederOrientation::Landscape => 0x02,
        }
    }


    pub fn from_u8(value: u8) -> (r: Option<FeederOrientation>)
        ensures
            r == Self::spec_from_u8(value),
    {
        if value == 0x01 {
            Some(FeederOrientation::Portrait)
        } else if value == 0x02 {
            Some(FeederOrientation::Landscape)
        } else {
            None
        }
    }


    pub fn name(&self) -> &'static str {
        match self {
            FeederOrientation::Portrait => "portrait",
            FeederOrientation::Landscape => "landscape",
        }
    }


    pub proof fn lemma_round_trip(self)
        ensures
            Self::spec_from_u8(self.spec_to_u8()) == Some(self),
    {
    }
}

impl DPI {
    pub open spec fn spec_dpi_value(self) -> u32 {
        match self {
            DPI::_75 => 75,
            DPI::_150 => 150,
            DPI::_300 => 300,
            DPI::_600 => 600,
        }
    }

    /// The resolution in dots per inch.
    pub fn dpi_value(&self) -> (r: u32)
        ensures
            r == self.spec_dpi_value(),
    {
        match self {
            DPI::_75 => 75,
            DPI::_150 => 150,
            DPI::_300 => 300,
            DPI::_600 => 600,
        }
    }
}

pub const INTERRUPT_SIZE: usize = 20;

/// The scan settings chosen on the device when its scan button was pressed.
///
/// Descriptor layout (20 bytes): 7 reserved, `color_mode[7]`, `source[8]`,
/// `feeder_type[9]`, `size[10]`, `format[11]`, `dpi[12]`, 3 reserved,
/// `feeder_orientation[16]`, 3 reserved. A feeder byte of 0 means absent.
#[derive(Debug, Clone, Copy, PartialEq, Eq, Structural)]
pub struct Interrupt {
    pub color_mode: ColorMode,
    pub size: Size,
    pub format: Format,
    pub dpi: DPI,
    pub source: Source,
    pub feeder_type: Option<FeederType>,
    pub feeder_orientation: Option<FeederOrientation>,
}

impl Interrupt {
    pub fn color_mode(&self) -> (r: ColorMode)
        ensures
            r == self.color_mode,
    {
        self.color_mode
    }

    pub fn size(&self) -> (r: Size)
        ensures
            r == self.size,
    {
        self.size
    }

    pub fn format(&self) -> (r: Format)
        ensures
            r == self.format,
    {
        self.format
    }

    pub fn dpi(&self) -> (r: DPI)
        ensures
            r == self.dpi,
    {
        self.dpi
    }

    pub fn source(&self) -> (r: Source)
        ensures
            r == self.source,
    {
        self.source
    }

    pub fn feeder_type(&self) -> (r: Option<FeederType>)
        ensures
            r == self.feeder_type,
    {
        self.feeder_type
    }

    pub fn feeder_orientation(&self) -> (r: Option<FeederOrientation>)
        ensures
            r == self.feeder_orientation,
    {
        self.feeder_orientation
    }
}

pub open spec fn feeder_type_byte(f: Option<FeederType>) -> u8 {
    match f {
        Some(t) => t.spec_to_u8(),
        None => 0,
    }
}

pub open spec fn feeder_orientation_byte(f: Option<FeederOrientation>) -> u8 {
    match f {
        Some(o) => o.spec_to_u8(),
        None => 0,
    }
}

/// The 20 descriptor bytes of an interrupt; reserved bytes are 0.
pub open spec fn interrupt_bytes(i: Interrupt) -> Seq<u8> {
    zeros(7) + seq![
        i.color_mode.spec_to_u8(),
        i.source.spec_to_u8(),
        feeder_type_byte(i.feeder_type),
        i.size.spec_to_u8(),
        i.format.spec_to_u8(),
        i.dpi.spec_to_u8(),
    ] + zeros(3) + seq![feeder_orientation_byte(i.feeder_orientation)] + zeros(3)
}

pub open spec fn invalid_byte(b: Seq<u8>, offset: usize, message: &'static str) -> FormatError {
    FormatError::InvalidByte { byte: b[offset as int], offset, message }
}

/// What 20 descriptor bytes decode to. The fields are checked in this order:
/// feeder type, feeder orientation, color mode, source, size, format, dpi;
/// the first unknown byte is reported at its own offset.
pub open spec fn parse_interrupt(b: Seq<u8>) -> Result<Interrupt, FormatError> {
    if b[9] != 0 && FeederType::spec_from_u8(b[9]) is None {
        Err(invalid_byte(b, 9, "unknown feeder type"))
    } else if b[16] != 0 && FeederOrientation::spec_from_u8(b[16]) is None {
        Err(invalid_byte(b, 16, "unknown feeder orientation"))
    } else if ColorMode::spec_from_u8(b[7]) is None {
        Err(invalid_byte(b, 7, "unknown color mode"))
    } else if Source::spec_from_u8(b[8]) is None {
        Err(invalid_byte(b, 8, "unknown source"))
    } else if Size::spec_from_u8(b[10]) is None {
        Err(invalid_byte(b, 10, "unknown page size"))
    } else if Format::spec_from_u8(b[11]) is None {
        Err(invalid_byte(b, 11, "unknown format"))
    } else if DPI::spec_from_u8(b[12]) is None {
        Err(invalid_byte(b, 12, "unknown DPI"))
    } else {
        Ok(
            Interrupt {
                color_mode: ColorMode::spec_from_u8(b[7])->Some_0,
                size: Size::spec_from_u8(b[10])->Some_0,
                format: Format::spec_from_u8(b[11])->Some_0,
                dpi: DPI::spec_from_u8(b[12])->Some_0,
                source: Source::spec_from_u8(b[8])->Some_0,
                feeder_type: if b[9] == 0 {
                    None
                } else {
                    FeederType::spec_from_u8(b[9])
                },
                feeder_orientation: if b[16] == 0 {
                    None
                } else {
                    FeederOrientation::spec_from_u8(b[16])
                },
            },
        )
    }
}

fn invalid_at(buffer: &[u8], offset: usize, message: &'static str) -> (r: FormatError)
    requires
        offset < buffer@.len(),
    ensures
        r == invalid_byte(buffer@, offset, message),
{
    FormatError::InvalidByte { byte: buffer[offset], offset, message }
}

impl Serialize for Interrupt {
    open spec fn spec_serialize(&self) -> Seq<u8> {
        interrupt_bytes(*self)
    }

    fn serialize(&self, writer: &mut Vec<u8>) {
        let ghost start = writer@;
        write_zeros(writer, 7);
        writer.push(self.color_mode.to_u8());
        writer.push(self.source.to_u8());
        writer.push(
            match self.feeder_type {
                Some(t) => t.to_u8(),
                None => 0,
            },
        );
        writer.push(self.size.to_u8());
        writer.push(self.format.to_u8());
        writer.push(self.dpi.to_u8());
        write_zeros(writer, 3);
        writer.push(
            match self.feeder_orientation {
                Some(o) => o.to_u8(),
                None => 0,
            },
        );
        write_zeros(writer, 3);
        assert(writer@ =~= start + interrupt_bytes(*self));
    }

    fn size(&self) -> (n: usize) {
        INTERRUPT_SIZE
    }
}

impl SizedDeserialize for Interrupt {
    open spec fn spec_size() -> usize {
        INTERRUPT_SIZE
    }

    open spec fn spec_deserialize_exact(buf: Seq<u8>) -> Result<Interrupt, FormatError> {
        parse_interrupt(buf)
    }

    fn size_exact() -> (n: usize) {
        INTERRUPT_SIZE
    }

    fn deserialize_exact(buffer: &[u8]) -> (r: Result<Interrupt, FormatError>) {
        let ghost b = buffer@.subrange(0, 20);
        assert(forall|i: int| 0 <= i < 20 ==> b[i] == buffer@[i]);
        let feeder_type = if buffer[9] != 0 {
            match FeederType::from_u8(buffer[9]) {
                Some(t) => Some(t),
                None => {
                    return Err(invalid_at(buffer, 9, "unknown feeder type"));
                },
            }
        } else {
            None
        };
        let feeder_orientation = if buffer[16] != 0 {
            match FeederOrientation::from_u8(buffer[16]) {
                Some(o) => Some(o),
                None => {
                    return Err(invalid_at(buffer, 16, "unknown feeder orientation"));
                },
            }
        } else {
            None
        };
        let color_mode = match ColorMode::from_u8(buffer[7]) {
            Some(c) => c,
            None => {
                return Err(invalid_at(buffer, 7, "unknown color mode"));
            },
        };
        let source = match Source::from_u8(buffer[8]) {
            Some(s) => s,
            None => {
                return Err(invalid_at(buffer, 8, "unknown source"));
            },
        };
        let size = match Size::from_u8(buffer[10]) {
            Some(s) => s,
            None => {
                return Err(invalid_at(buffer, 10, "unknown page size"));
            },
        };
        let format = match Format::from_u8(buffer[11]) {
            Some(f) => f,
            None => {
                return Err(invalid_at(buffer, 11, "unknown format"));
            },
        };
        let dpi = match DPI::from_u8(buffer[12]) {
            Some(d) => d,
            None => {
                return Err(invalid_at(buffer, 12, "unknown DPI"));
            },
        };
        Ok(Interrupt { color_mode, size, format, dpi, source, feeder_type, feeder_orientation })
    }
}

impl Deserialize for Interrupt {
    open spec fn spec_deserialize(buf: Seq<u8>) -> Result<(Interrupt, usize), ParseError> {
        spec_deserialize_sized::<Interrupt>(buf)
    }

    fn deserialize(buffer: &[u8]) -> (r: Result<(Interrupt, usize), ParseError>) {
        deserialize_sized::<Interrupt>(buffer)
    }
}

/// Decoding the bytes of an interrupt gives it back.
pub proof fn lemma_interrupt_round_trip(i: Interrupt)
    ensures
        interrupt_bytes(i).len() == 20,
        parse_interrupt(interrupt_bytes(i)) == Ok::<Interrupt, FormatError>(i),
{
    i.color_mode.lemma_round_trip();
    i.size.lemma_round_trip();
    i.format.lemma_round_trip();
    i.dpi.lemma_round_trip();
    i.source.lemma_round_trip();
    match i.feeder_type {
        Some(t) => t.lemma_round_trip(),
        None => {},
    }
    match i.feeder_orientation {
        Some(o) => o.lemma_round_trip(),
        None => {},
    }
    let b = interrupt_bytes(i);
    assert(b[7] == i.color_mode.spec_to_u8());
    assert(b[9] == feeder_type_byte(i.feeder_type));
    assert(b[16] == feeder_orientation_byte(i.feeder_orientation));
}

pub const RESPONSE_SIZE: usize = 36;

/// A decoded poll response. When bit `0x8000` of `status` is set the scanner
/// reports an interrupt: `action_id` and `interrupt` are present and
/// `session_id` is absent; otherwise only `session_id` is present.
#[derive(Debug, Clone, Copy, PartialEq, Eq, Structural)]
pub struct Response {
    pub status: u32,
    pub session_id: Option<u32>,
    pub action_id: Option<u32>,
    pub interrupt: Option<Interrupt>,
}

pub open spec fn is_interrupt_status(status: u32) -> bool {
    status & 0x8000u32 != 0
}

/// What 36 response bytes decode to.
pub open spec fn parse_poll_response(b: Seq<u8>) -> Result<Response, FormatError> {
    let status = u32_at(b, 0);
    if is_interrupt_status(status) {
        match parse_interrupt(b.subrange(16, 36)) {
            Ok(i) => Ok(
                Response {
                    status,
                    session_id: None,
                    action_id: Some(u32_at(b, 12)),
                    interrupt: Some(i),
                },
            ),
            Err(e) => Err(e.spec_offset_by(16)),
        }
    } else {
        Ok(Response { status, session_id: Some(u32_at(b, 4)), action_id: None, interrupt: None })
    }
}

impl Response {
    pub fn status(&self) -> (r: u32)
        ensures
            r == self.status,
    {
        self.status
    }

    pub fn session_id(&self) -> (r: Option<u32>)
        ensures
            r == self.session_id,
    {
        self.session_id
    }

    pub fn action_id(&self) -> (r: Option<u32>)
        ensures
            r == self.action_id,
    {
        self.action_id
    }

    pub fn interrupt(&self) -> (r: Option<&Interrupt>)
        ensures
            match self.interrupt {
                Some(i) => r == Some(&i),
                None => r is None,
            },
    {
        match &self.interrupt {
            Some(i) => Some(i),
            None => None,
        }
    }
}

impl SizedDeserialize for Response {
    open spec fn spec_size() -> usize {
        RESPONSE_SIZE
    }

    open spec fn spec_deserialize_exact(buf: Seq<u8>) -> Result<Response, FormatError> {
        parse_poll_response(buf)
    }

    fn size_exact() -> (n: usize) {
        RESPONSE_SIZE
    }

    fn deserialize_exact(buffer: &[u8]) -> (r: Result<Response, FormatError>) {
        let ghost b = buffer@.subrange(0, 36);
        let status = read_u32_be(buffer, 0);
        assert(u32_at(b, 0) == u32_at(buffer@, 0));
        if status & 0x8000u32 != 0 {
            let action_id = read_u32_be(buffer, 12);
            assert(u32_at(b, 12) == u32_at(buffer@, 12));
            let descriptor = &buffer[16..36];
            assert(descriptor@ =~= b.subrange(16, 36));
            assert(descriptor@.subrange(0, 20) =~= descriptor@);
            match Interrupt::deserialize_exact(descriptor) {
                Ok(interrupt) => Ok(
                    Response {
                        status,
                        session_id: None,
                        action_id: Some(action_id),
                        interrupt: Some(interrupt),
                    },
                ),
                Err(e) => Err(e.offset_by(16)),
            }
        } else {
            let session_id = read_u32_be(buffer, 4);
            assert(u32_at(b, 4) == u32_at(buffer@, 4));
            Ok(Response { status, session_id: Some(session_id), action_id: None, interrupt: None })
        }
    }
}

impl Deserialize for Response {
    open spec fn spec_deserialize(buf: Seq<u8>) -> Result<(Response, usize), ParseError> {
        spec_deserialize_sized::<Response>(buf)
    }

    fn deserialize(buffer: &[u8]) -> (r: Result<(Response, usize), ParseError>) {
        deserialize_sized::<Response>(buffer)
    }
}

} // verus!

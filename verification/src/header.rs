//! The fixed 18-byte header and its codec.
//!
//! | offset | field              | width | encoding          |
//! |--------|--------------------|-------|-------------------|
//! | 0      | `id_length`        | 1     | raw               |
//! | 1      | `color_map_type`   | 1     | raw               |
//! | 2      | `image_type_code`  | 1     | raw               |
//! | 3      | `color_map_origin` | 2     | little-endian     |
//! | 5      | `color_map_length` | 2     | little-endian     |
//! | 7      | `color_map_depth`  | 1     | raw               |
//! | 8      | `x_origin`         | 2     | little-endian     |
//! | 10     | `y_origin`         | 2     | little-endian     |
//! | 12     | `width`            | 2     | little-endian     |
//! | 14     | `height`           | 2     | little-endian     |
//! | 16     | `bits_per_pixel`   | 1     | raw               |
//! | 17     | `image_descriptor` | 1     | raw               |
//!
//! The codec moves bytes and nothing else: it accepts any field values. The
//! constraints of the uncompressed truecolor profile are a separate check,
//! [`Header::check_profile`], which callers run when they want it.
use vstd::prelude::*;
use crate::error::FormatError;

verus! {

/// Number of bytes a header takes on the wire.
pub const HEADER_LEN: usize = 18;

/// The header as a typed record.
#[derive(Clone, Copy, Debug, PartialEq, Eq, Structural)]
pub struct Header {
    pub id_length: u8,
    pub color_map_type: u8,
    pub image_type_code: u8,
    pub color_map_origin: u16,
    pub color_map_length: u16,
    pub color_map_depth: u8,
    pub x_origin: u16,
    pub y_origin: u16,
    pub width: u16,
    pub height: u16,
    pub bits_per_pixel: u8,
    pub image_descriptor: u8,
}

/// The 16-bit value whose little-endian bytes are `low`, `high`.
pub open spec fn le_u16(low: u8, high: u8) -> u16 {
    (low as int + 256 * (high as int)) as u16
}

/// First byte of the little-endian form of `value`.
pub open spec fn low_byte(value: u16) -> u8 {
    (value as int % 256) as u8
}

/// Second byte of the little-endian form of `value`.
pub open spec fn high_byte(value: u16) -> u8 {
    (value as int / 256) as u8
}

impl Header {
    /// The 18 bytes of the header on the wire.
    pub open spec fn to_bytes(self) -> Seq<u8> {
        seq![
            self.id_length,
            self.color_map_type,
            self.image_type_code,
            low_byte(self.color_map_origin),
            high_byte(self.color_map_origin),
            low_byte(self.color_map_length),
            high_byte(self.color_map_length),
            self.color_map_depth,
            low_byte(self.x_origin),
            high_byte(self.x_origin),
            low_byte(self.y_origin),
            high_byte(self.y_origin),
            low_byte(self.width),
            high_byte(self.width),
            low_byte(self.height),
            high_byte(self.height),
            self.bits_per_pixel,
            self.image_descriptor,
        ]
    }

    /// The header that the first 18 bytes of `bytes` spell out.
    pub open spec fn from_bytes(bytes: Seq<u8>) -> Header
        recommends
            bytes.len() >= 18,
    {
        Header {
            id_length: bytes[0],
            color_map_type: bytes[1],
            image_type_code: bytes[2],
            color_map_origin: le_u16(bytes[3], bytes[4]),
            color_map_length: le_u16(bytes[5], bytes[6]),
            color_map_depth: bytes[7],
            x_origin: le_u16(bytes[8], bytes[9]),
            y_origin: le_u16(bytes[10], bytes[11]),
            width: le_u16(bytes[12], bytes[13]),
            height: le_u16(bytes[14], bytes[15]),
            bits_per_pixel: bytes[16],
            image_descriptor: bytes[17],
        }
    }

    /// What decoding `bytes` yields: the header and the offset at which the
    /// rest of the buffer starts, or `Truncated` when 18 bytes are not there.
    pub open spec fn parse(bytes: Seq<u8>) -> Result<(Header, usize), FormatError> {
        if bytes.len() < 18 {
            Err(FormatError::Truncated)
        } else {
            Ok((Header::from_bytes(bytes), 18usize))
        }
    }

    /// Whether the header meets every constraint of the uncompressed
    /// truecolor profile: no colour map, image type 2, 24 bits per pixel and
    /// a non-empty raster.
    pub open spec fn in_profile(self) -> bool {
        &&& self.color_map_type == 0
        &&& self.image_type_code == 2
        &&& self.color_map_origin == 0
        &&& self.color_map_length == 0
        &&& self.color_map_depth == 0
        &&& self.width > 0
        &&& self.height > 0
        &&& self.bits_per_pixel == 24
    }

    /// Number of pixels that the dimensions announce.
    pub open spec fn pixel_count(self) -> nat {
        (self.width as nat) * (self.height as nat)
    }

    /// Reads a header from the front of `bytes`.
    ///
    /// Returns the header together with the offset of the first byte after
    /// it. Fails with `Truncated` exactly when fewer than 18 bytes are given.
    pub fn decode(bytes: &[u8]) -> (r: Result<(Header, usize), FormatError>)
        ensures
            r == Header::parse(bytes@),
    {
        if bytes.len() < HEADER_LEN {
            return Err(FormatError::Truncated);
        }
        let header = Header {
            id_length: bytes[0],
            color_map_type: bytes[1],
            image_type_code: bytes[2],
            color_map_origin: read_le_u16(bytes[3], bytes[4]),
            color_map_length: read_le_u16(bytes[5], bytes[6]),
            color_map_depth: bytes[7],
            x_origin: read_le_u16(bytes[8], bytes[9]),
            y_origin: read_le_u16(bytes[10], bytes[11]),
            width: read_le_u16(bytes[12], bytes[13]),
            height: read_le_u16(bytes[14], bytes[15]),
            bits_per_pixel: bytes[16],
            image_descriptor: bytes[17],
        };
        Ok((header, HEADER_LEN))
    }

    /// Writes the header as its 18 bytes.
    pub fn encode(&self) -> (bytes: Vec<u8>)
        ensures
            bytes@ == self.to_bytes(),
    {
        let mut bytes: Vec<u8> = Vec::with_capacity(HEADER_LEN);
        bytes.push(self.id_length);
        bytes.push(self.color_map_type);
        bytes.push(self.image_type_code);
        write_le_u16(&mut bytes, self.color_map_origin);
        write_le_u16(&mut bytes, self.color_map_length);
        bytes.push(self.color_map_depth);
        write_le_u16(&mut bytes, self.x_origin);
        write_le_u16(&mut bytes, self.y_origin);
        write_le_u16(&mut bytes, self.width);
        write_le_u16(&mut bytes, self.height);
        bytes.push(self.bits_per_pixel);
        bytes.push(self.image_descriptor);
        assert(bytes@ =~= self.to_bytes());
        bytes
    }

    /// Checks the header against the uncompressed truecolor profile.
    ///
    /// Fails with `Malformed` exactly when some constraint of the profile is
    /// not met.
    pub fn check_profile(&self) -> (r: Result<(), FormatError>)
        ensures
            r == (if self.in_profile() {
                Ok::<(), FormatError>(())
            } else {
                Err::<(), FormatError>(FormatError::Malformed)
            }),
    {
        if self.color_map_type == 0 && self.image_type_code == 2 && self.color_map_origin == 0
            && self.color_map_length == 0 && self.color_map_depth == 0 && self.width > 0
            && self.height > 0 && self.bits_per_pixel == 24 {
            Ok(())
        } else {
            Err(FormatError::Malformed)
        }
    }
}

/// Joins two little-endian bytes into the value they encode.
fn read_le_u16(low: u8, high: u8) -> (value: u16)
    ensures
        value == le_u16(low, high),
{
    low as u16 + 256 * (high as u16)
}

/// Appends the two little-endian bytes of `value`.
fn write_le_u16(bytes: &mut Vec<u8>, value: u16)
    ensures
        final(bytes)@ == old(bytes)@.push(low_byte(value)).push(high_byte(value)),
{
    bytes.push((value % 256) as u8);
    bytes.push((value / 256) as u8);
}

/// Splitting a 16-bit value into its little-endian bytes and joining them
/// again gives the value back, and the other way round.
pub proof fn lemma_le_u16_round_trip(value: u16, low: u8, high: u8)
    ensures
        le_u16(low_byte(value), high_byte(value)) == value,
        low_byte(le_u16(low, high)) == low,
        high_byte(le_u16(low, high)) == high,
{
}

/// A header always takes exactly 18 bytes.
pub proof fn lemma_header_len(header: Header)
    ensures
        header.to_bytes().len() == 18,
{
}

/// Decoding what `encode` wrote gives the same header back and consumes the
/// 18 bytes, whatever follows them in the buffer.
pub proof fn lemma_header_round_trip(header: Header, rest: Seq<u8>)
    ensures
        Header::parse(header.to_bytes() + rest) == Ok::<(Header, usize), FormatError>(
            (header, 18usize),
        ),
        Header::parse(header.to_bytes()) == Ok::<(Header, usize), FormatError>((header, 18usize)),
{
    let bytes = header.to_bytes();
    lemma_le_u16_round_trip(header.color_map_origin, 0, 0);
    lemma_le_u16_round_trip(header.color_map_length, 0, 0);
    lemma_le_u16_round_trip(header.x_origin, 0, 0);
    lemma_le_u16_round_trip(header.y_origin, 0, 0);
    lemma_le_u16_round_trip(header.width, 0, 0);
    lemma_le_u16_round_trip(header.height, 0, 0);
    lemma_read_prefix(bytes, rest);
    assert(Header::from_bytes(bytes) == header);
}

/// Only the first 18 bytes of a buffer take part in reading a header.
pub proof fn lemma_read_prefix(bytes: Seq<u8>, rest: Seq<u8>)
    requires
        bytes.len() >= 18,
    ensures
        Header::from_bytes(bytes + rest) == Header::from_bytes(bytes),
{
    let joined = bytes + rest;
    assert forall|i: int| 0 <= i < 18 implies joined[i] == bytes[i] by {}
}

/// Encoding what was read from a buffer reproduces its first 18 bytes.
pub proof fn lemma_header_bytes_round_trip(bytes: Seq<u8>)
    requires
        bytes.len() >= 18,
    ensures
        Header::from_bytes(bytes).to_bytes() == bytes.subrange(0, 18),
{
    lemma_le_u16_round_trip(0, bytes[3], bytes[4]);
    lemma_le_u16_round_trip(0, bytes[5], bytes[6]);
    lemma_le_u16_round_trip(0, bytes[8], bytes[9]);
    lemma_le_u16_round_trip(0, bytes[10], bytes[11]);
    lemma_le_u16_round_trip(0, bytes[12], bytes[13]);
    lemma_le_u16_round_trip(0, bytes[14], bytes[15]);
    assert(Header::from_bytes(bytes).to_bytes() =~= bytes.subrange(0, 18));
}

} // verus!

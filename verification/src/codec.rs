//! The image codec: the header followed by the pixel region.
//!
//! The pixel region holds `width * height` pixels of three bytes each, row by
//! row in stored order. Within a pixel the bytes are blue, green, red.
use vstd::prelude::*;
use crate::error::FormatError;
use crate::header::{lemma_header_bytes_round_trip, lemma_header_round_trip, Header, HEADER_LEN};
use crate::image::{lemma_pixel_count_bound, model_of, ImageModel, RgbImage};
use crate::pixel::Pixel;

verus! {

/// The byte at position `k` (0, 1 or 2) of a pixel on the wire.
pub open spec fn wire_byte(pixel: Pixel, k: int) -> u8 {
    if k == 0 {
        pixel.blue
    } else if k == 1 {
        pixel.green
    } else {
        pixel.red
    }
}

/// The pixel whose three wire bytes start at `offset` in `bytes`.
pub open spec fn pixel_at(bytes: Seq<u8>, offset: int) -> Pixel {
    Pixel { red: bytes[offset + 2], green: bytes[offset + 1], blue: bytes[offset] }
}

/// The pixel region for `pixels`: three bytes per pixel.
pub open spec fn pixel_bytes(pixels: Seq<Pixel>) -> Seq<u8> {
    Seq::new(3 * pixels.len(), |i: int| wire_byte(pixels[i / 3], i % 3))
}

/// The `count` pixels that follow the header in `bytes`.
pub open spec fn parse_pixels(bytes: Seq<u8>, count: nat) -> Seq<Pixel> {
    Seq::new(count, |i: int| pixel_at(bytes, 18 + 3 * i))
}

/// The whole image on the wire.
pub open spec fn image_bytes(image: ImageModel) -> Seq<u8> {
    image.header.to_bytes() + pixel_bytes(image.pixels)
}

/// Number of bytes that an image with this header takes on the wire.
pub open spec fn encoded_len(header: Header) -> nat {
    18 + 3 * header.pixel_count()
}

/// What decoding `bytes` yields.
///
/// * `Truncated` when the header is not all there;
/// * `Malformed` when the header announces a zero width or height;
/// * `Truncated` when the pixel region is shorter than the header announces;
/// * the image otherwise. Bytes after the pixel region are ignored.
pub open spec fn parse_image(bytes: Seq<u8>) -> Result<ImageModel, FormatError> {
    if bytes.len() < 18 {
        Err(FormatError::Truncated)
    } else {
        let header = Header::from_bytes(bytes);
        if header.width == 0 || header.height == 0 {
            Err(FormatError::Malformed)
        } else if bytes.len() < encoded_len(header) {
            Err(FormatError::Truncated)
        } else {
            Ok(ImageModel { header, pixels: parse_pixels(bytes, header.pixel_count()) })
        }
    }
}

/// Decodes an image from `raw`.
///
/// Succeeds exactly when `raw` holds a whole header with a non-zero width and
/// height and at least `18 + 3 * width * height` bytes; see [`parse_image`]
/// for which error is reported otherwise.
pub fn get_rgb_image_data(raw: &[u8]) -> (r: Result<RgbImage, FormatError>)
    ensures
        model_of(r) == parse_image(raw@),
        r matches Ok(image) ==> image@.valid(),
{
    let header = match Header::decode(raw) {
        Ok((header, _)) => header,
        Err(e) => {
            return Err(e);
        },
    };
    if header.width == 0 || header.height == 0 {
        return Err(FormatError::Malformed);
    }
    proof {
        lemma_pixel_count_bound(header);
    }
    let expected: u64 = (header.width as u64) * (header.height as u64);
    if (raw.len() as u64) < 18 + 3 * expected {
        return Err(FormatError::Truncated);
    }
    let count: usize = expected as usize;
    let mut pixel_data: Vec<Pixel> = Vec::with_capacity(count);
    let mut i: usize = 0;
    while i < count
        invariant
            i <= count,
            18 + 3 * count <= raw.len(),
            pixel_data@ == parse_pixels(raw@, i as nat),
        decreases count - i,
    {
        let offset: usize = HEADER_LEN + 3 * i;
        let pixel = Pixel { red: raw[offset + 2], green: raw[offset + 1], blue: raw[offset] };
        pixel_data.push(pixel);
        i += 1;
        assert(pixel_data@ =~= parse_pixels(raw@, i as nat));
    }
    Ok(RgbImage::from_parts(header, pixel_data))
}

/// Encodes an image: the 18 header bytes, then every pixel as blue, green,
/// red. The result is always `18 + 3 * width * height` bytes long.
pub fn generate_rgb_image_bytes(rgb_image: RgbImage) -> (bytes: Vec<u8>)
    ensures
        bytes@ == image_bytes(rgb_image@),
        bytes@.len() == encoded_len(rgb_image@.header),
{
    let mut bytes: Vec<u8> = rgb_image.header().encode();
    let pixels = rgb_image.pixels();
    let mut i: usize = 0;
    while i < pixels.len()
        invariant
            i <= pixels.len(),
            pixels@ == rgb_image@.pixels,
            bytes@ == rgb_image@.header.to_bytes() + pixel_bytes(pixels@.take(i as int)),
        decreases pixels.len() - i,
    {
        let pixel = pixels[i];
        bytes.push(pixel.blue);
        bytes.push(pixel.green);
        bytes.push(pixel.red);
        i += 1;
        proof {
            lemma_pixel_bytes_push(pixels@.take(i - 1), pixel);
            assert(pixels@.take(i - 1).push(pixel) =~= pixels@.take(i as int));
            assert(bytes@ =~= rgb_image@.header.to_bytes() + pixel_bytes(pixels@.take(i as int)));
        }
    }
    assert(pixels@.take(i as int) =~= pixels@);
    bytes
}

/// One more pixel adds its three wire bytes at the end of the pixel region.
pub proof fn lemma_pixel_bytes_push(pixels: Seq<Pixel>, pixel: Pixel)
    ensures
        pixel_bytes(pixels.push(pixel)) == pixel_bytes(pixels).push(pixel.blue).push(
            pixel.green,
        ).push(pixel.red),
{
    let longer = pixel_bytes(pixels.push(pixel));
    let pushed = pixel_bytes(pixels).push(pixel.blue).push(pixel.green).push(pixel.red);
    assert(longer.len() == pushed.len());
    assert forall|i: int| 0 <= i < longer.len() implies longer[i] == pushed[i] by {
        if i < 3 * pixels.len() {
            assert(pixels.push(pixel)[i / 3] == pixels[i / 3]);
        } else {
            assert(i / 3 == pixels.len());
        }
    }
    assert(longer =~= pushed);
}

/// A valid image takes exactly `18 + 3 * width * height` bytes.
pub proof fn lemma_image_bytes_len(image: ImageModel)
    requires
        image.valid(),
    ensures
        image_bytes(image).len() == encoded_len(image.header),
        image_bytes(image).len() == 18 + 3 * (image.header.width * image.header.height),
{
    lemma_pixel_count_bound(image.header);
}

/// Round trip, image first: decoding the encoding of a valid image gives the
/// image back, header and pixels alike, whatever bytes follow it.
pub proof fn lemma_decode_encode(image: ImageModel, rest: Seq<u8>)
    requires
        image.valid(),
    ensures
        parse_image(image_bytes(image)) == Ok::<ImageModel, FormatError>(image),
        parse_image(image_bytes(image) + rest) == Ok::<ImageModel, FormatError>(image),
{
    lemma_decode_encode_padded(image, Seq::empty());
    assert(image_bytes(image) + Seq::<u8>::empty() =~= image_bytes(image));
    lemma_decode_encode_padded(image, rest);
}

proof fn lemma_decode_encode_padded(image: ImageModel, rest: Seq<u8>)
    requires
        image.valid(),
    ensures
        parse_image(image_bytes(image) + rest) == Ok::<ImageModel, FormatError>(image),
{
    let head = image.header.to_bytes();
    let body = pixel_bytes(image.pixels);
    let bytes = image_bytes(image) + rest;
    assert(bytes =~= head + (body + rest));
    lemma_header_round_trip(image.header, body + rest);
    assert(Header::from_bytes(bytes) == image.header);
    let count = image.header.pixel_count();
    let parsed = parse_pixels(bytes, count);
    assert forall|i: int| 0 <= i < count implies parsed[i] == image.pixels[i] by {
        let at = 18 + 3 * i;
        assert(bytes[at] == body[3 * i]);
        assert(bytes[at + 1] == body[3 * i + 1]);
        assert(bytes[at + 2] == body[3 * i + 2]);
        assert((3 * i) / 3 == i && (3 * i + 1) / 3 == i && (3 * i + 2) / 3 == i);
    }
    assert(parsed =~= image.pixels);
}

/// Round trip, bytes first: encoding what was decoded from a buffer
/// reproduces the buffer up to the end of the pixel region, which is the
/// whole buffer when nothing follows the pixels.
pub proof fn lemma_encode_decode(bytes: Seq<u8>)
    requires
        parse_image(bytes) is Ok,
    ensures
        parse_image(bytes)->Ok_0.valid(),
        image_bytes(parse_image(bytes)->Ok_0) == bytes.subrange(
            0,
            encoded_len(Header::from_bytes(bytes)) as int,
        ),
        bytes.len() == encoded_len(Header::from_bytes(bytes)) ==> image_bytes(
            parse_image(bytes)->Ok_0,
        ) == bytes,
{
    let image = parse_image(bytes)->Ok_0;
    let total = encoded_len(image.header) as int;
    lemma_header_bytes_round_trip(bytes);
    let encoded = image_bytes(image);
    let prefix = bytes.subrange(0, total);
    assert(encoded.len() == prefix.len());
    assert forall|i: int| 0 <= i < encoded.len() implies encoded[i] == prefix[i] by {
        if i < 18 {
            assert(image.header.to_bytes()[i] == bytes.subrange(0, 18)[i]);
        } else {
            let k = i - 18;
            assert(encoded[i] == pixel_bytes(image.pixels)[k]);
            assert(k == 3 * (k / 3) + k % 3);
        }
    }
    assert(encoded =~= prefix);
    if bytes.len() == total {
        assert(prefix =~= bytes);
    }
}

} // verus!

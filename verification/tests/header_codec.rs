use tga_blend::error::FormatError;
use tga_blend::header::{Header, HEADER_LEN};

fn sample_header() -> Header {
    Header {
        id_length: 7,
        color_map_type: 0,
        image_type_code: 2,
        color_map_origin: 0x0102,
        color_map_length: 0x0304,
        color_map_depth: 5,
        x_origin: 0x1234,
        y_origin: 0xABCD,
        width: 512,
        height: 3,
        bits_per_pixel: 24,
        image_descriptor: 0x20,
    }
}

fn profile_header(width: u16, height: u16) -> Header {
    Header {
        id_length: 0,
        color_map_type: 0,
        image_type_code: 2,
        color_map_origin: 0,
        color_map_length: 0,
        color_map_depth: 0,
        x_origin: 0,
        y_origin: 0,
        width,
        height,
        bits_per_pixel: 24,
        image_descriptor: 0,
    }
}

#[test]
fn header_encodes_to_eighteen_bytes_little_endian() {
    let bytes = sample_header().encode();
    assert_eq!(bytes.len(), 18);
    assert_eq!(HEADER_LEN, 18);
    assert_eq!(
        bytes,
        vec![
            7, 0, 2, 0x02, 0x01, 0x04, 0x03, 5, 0x34, 0x12, 0xCD, 0xAB, 0x00, 0x02, 3, 0, 24,
            0x20
        ]
    );
}

#[test]
fn header_decodes_fields_at_their_offsets() {
    let bytes = [
        1u8, 2, 3, 4, 5, 6, 7, 8, 9, 10, 11, 12, 13, 14, 15, 16, 17, 18, 99, 98,
    ];
    let (header, offset) = Header::decode(&bytes).unwrap();
    assert_eq!(offset, 18);
    assert_eq!(header.id_length, 1);
    assert_eq!(header.color_map_type, 2);
    assert_eq!(header.image_type_code, 3);
    assert_eq!(header.color_map_origin, 4 + 5 * 256);
    assert_eq!(header.color_map_length, 6 + 7 * 256);
    assert_eq!(header.color_map_depth, 8);
    assert_eq!(header.x_origin, 9 + 10 * 256);
    assert_eq!(header.y_origin, 11 + 12 * 256);
    assert_eq!(header.width, 13 + 14 * 256);
    assert_eq!(header.height, 15 + 16 * 256);
    assert_eq!(header.bits_per_pixel, 17);
    assert_eq!(header.image_descriptor, 18);
}

#[test]
fn header_round_trip() {
    let header = sample_header();
    assert_eq!(Header::decode(&header.encode()), Ok((header, 18)));
    let extreme = Header {
        id_length: 255,
        color_map_type: 255,
        image_type_code: 255,
        color_map_origin: 65535,
        color_map_length: 65535,
        color_map_depth: 255,
        x_origin: 65535,
        y_origin: 0,
        width: 255,
        height: 256,
        bits_per_pixel: 255,
        image_descriptor: 255,
    };
    assert_eq!(Header::decode(&extreme.encode()), Ok((extreme, 18)));
}

#[test]
fn header_bytes_round_trip() {
    let bytes: Vec<u8> = (100u8..118).collect();
    let (header, _) = Header::decode(&bytes).unwrap();
    assert_eq!(header.encode(), bytes);
}

#[test]
fn header_decode_needs_eighteen_bytes() {
    assert_eq!(Header::decode(&[]), Err(FormatError::Truncated));
    assert_eq!(Header::decode(&[0u8; 17]), Err(FormatError::Truncated));
    assert!(Header::decode(&[0u8; 18]).is_ok());
}

#[test]
fn header_decode_accepts_any_field_values() {
    // Neither the zero size nor the odd depth is the codec's business.
    let (header, _) = Header::decode(&[0u8; 18]).unwrap();
    assert_eq!(header.width, 0);
    assert_eq!(header.bits_per_pixel, 0);
}

#[test]
fn profile_check_accepts_truecolor() {
    assert_eq!(profile_header(4, 2).check_profile(), Ok(()));
    let mut with_metadata = profile_header(1, 1);
    with_metadata.id_length = 9;
    with_metadata.x_origin = 3;
    with_metadata.y_origin = 4;
    with_metadata.image_descriptor = 0x20;
    assert_eq!(with_metadata.check_profile(), Ok(()));
}

#[test]
fn profile_check_rejects_each_violation() {
    let good = profile_header(4, 2);
    let mut h = good;
    h.color_map_type = 1;
    assert_eq!(h.check_profile(), Err(FormatError::Malformed));
    let mut h = good;
    h.image_type_code = 10;
    assert_eq!(h.check_profile(), Err(FormatError::Malformed));
    let mut h = good;
    h.color_map_origin = 1;
    assert_eq!(h.check_profile(), Err(FormatError::Malformed));
    let mut h = good;
    h.color_map_length = 1;
    assert_eq!(h.check_profile(), Err(FormatError::Malformed));
    let mut h = good;
    h.color_map_depth = 8;
    assert_eq!(h.check_profile(), Err(FormatError::Malformed));
    let mut h = good;
    h.width = 0;
    assert_eq!(h.check_profile(), Err(FormatError::Malformed));
    let mut h = good;
    h.height = 0;
    assert_eq!(h.check_profile(), Err(FormatError::Malformed));
    let mut h = good;
    h.bits_per_pixel = 32;
    assert_eq!(h.check_profile(), Err(FormatError::Malformed));
}

use tga_blend::adjust::Multiplier;
use tga_blend::blend::BlendMode;
use tga_blend::compositor::{apply, blend, multiply, overlay, screen, subtract, Operator};
use tga_blend::error::CompositeError;
use tga_blend::header::Header;
use tga_blend::image::RgbImage;
use tga_blend::pixel::{Channel, Pixel};

fn header(width: u16, height: u16) -> Header {
    Header {
        id_length: 0,
        color_map_type: 0,
        image_type_code: 2,
        color_map_origin: 0,
        color_map_length: 0,
        color_map_depth: 0,
        x_origin: 0,
        y_origin: 0,
        width,
        height,
        bits_per_pixel: 24,
        image_descriptor: 0,
    }
}

fn px(red: u8, green: u8, blue: u8) -> Pixel {
    Pixel { red, green, blue }
}

fn image(width: u16, height: u16, pixels: Vec<Pixel>) -> RgbImage {
    RgbImage::new(header(width, height), pixels).unwrap()
}

fn filled(width: u16, height: u16, pixel: Pixel) -> RgbImage {
    image(width, height, vec![pixel; width as usize * height as usize])
}

fn gradient(width: u16, height: u16) -> RgbImage {
    let count = width as usize * height as usize;
    let pixels = (0..count)
        .map(|i| px((i * 7 % 256) as u8, (i * 13 % 256) as u8, (255 - i % 256) as u8))
        .collect();
    image(width, height, pixels)
}

#[test]
fn multiply_with_white_is_identity() {
    let picture = gradient(5, 4);
    let white = filled(5, 4, px(255, 255, 255));
    assert_eq!(multiply(&picture, &white), Ok(picture.clone()));
    assert_eq!(multiply(&white, &picture).unwrap().pixels(), picture.pixels());
}

#[test]
fn screen_with_black_is_identity() {
    let picture = gradient(3, 6);
    let black = filled(3, 6, px(0, 0, 0));
    assert_eq!(screen(&picture, &black), Ok(picture.clone()));
    assert_eq!(screen(&black, &picture).unwrap().pixels(), picture.pixels());
}

#[test]
fn add_saturates_red() {
    let a = filled(1, 1, px(200, 0, 0));
    let b = filled(1, 1, px(100, 0, 0));
    let sum = tga_blend::compositor::add(&a, &b).unwrap();
    assert_eq!(sum.pixels()[0].red, 255);
    assert_eq!(sum.pixels(), &[px(255, 0, 0)]);
}

#[test]
fn subtract_floors_at_zero() {
    let top = filled(1, 1, px(200, 10, 0));
    let bottom = filled(1, 1, px(100, 30, 5));
    let difference = subtract(&top, &bottom).unwrap();
    assert_eq!(difference.pixels()[0].red, 0);
    assert_eq!(difference.pixels(), &[px(0, 20, 5)]);
}

#[test]
fn multiply_example_value() {
    let a = filled(2, 1, px(200, 128, 0));
    let b = filled(2, 1, px(200, 128, 255));
    assert_eq!(multiply(&a, &b).unwrap().pixels(), &[px(157, 64, 0), px(157, 64, 0)]);
}

#[test]
fn overlay_follows_bottom_layer() {
    let top = image(2, 1, vec![px(1, 1, 200), px(128, 255, 100)]);
    let bottom = image(2, 1, vec![px(127, 128, 100), px(1, 127, 200)]);
    assert_eq!(
        overlay(&top, &bottom).unwrap().pixels(),
        &[px(1, 2, 157), px(1, 254, 188)]
    );
}

#[test]
fn blend_works_position_by_position() {
    let top = image(2, 2, vec![px(10, 0, 0), px(20, 0, 0), px(30, 0, 0), px(40, 0, 0)]);
    let bottom = image(2, 2, vec![px(1, 0, 0), px(2, 0, 0), px(3, 0, 0), px(4, 0, 0)]);
    let sum = blend(BlendMode::Add, &top, &bottom).unwrap();
    assert_eq!(sum.pixels(), &[px(11, 0, 0), px(22, 0, 0), px(33, 0, 0), px(44, 0, 0)]);
}

#[test]
fn differing_width_is_a_dimension_mismatch() {
    let a = filled(2, 3, px(1, 1, 1));
    let b = filled(3, 2, px(1, 1, 1));
    for mode in [
        BlendMode::Multiply,
        BlendMode::Screen,
        BlendMode::Overlay,
        BlendMode::Subtract,
        BlendMode::Add,
    ] {
        assert_eq!(blend(mode, &a, &b), Err(CompositeError::DimensionMismatch));
    }
    assert_eq!(multiply(&a, &b), Err(CompositeError::DimensionMismatch));
    assert_eq!(screen(&a, &b), Err(CompositeError::DimensionMismatch));
    assert_eq!(overlay(&a, &b), Err(CompositeError::DimensionMismatch));
    assert_eq!(subtract(&a, &b), Err(CompositeError::DimensionMismatch));
    assert_eq!(tga_blend::compositor::add(&a, &b), Err(CompositeError::DimensionMismatch));
}

#[test]
fn differing_height_is_a_dimension_mismatch() {
    let a = filled(2, 3, px(1, 1, 1));
    let b = filled(2, 4, px(1, 1, 1));
    assert_eq!(multiply(&a, &b), Err(CompositeError::DimensionMismatch));
    assert_eq!(multiply(&b, &a), Err(CompositeError::DimensionMismatch));
}

#[test]
fn same_count_but_other_shape_is_a_mismatch() {
    let a = filled(2, 6, px(1, 1, 1));
    let b = filled(3, 4, px(1, 1, 1));
    assert_eq!(screen(&a, &b), Err(CompositeError::DimensionMismatch));
}

#[test]
fn operands_are_left_untouched() {
    let a = gradient(2, 3);
    let b = filled(3, 2, px(9, 9, 9));
    let a_before = a.clone();
    let b_before = b.clone();
    assert!(multiply(&a, &b).is_err());
    assert_eq!(a, a_before);
    assert_eq!(b, b_before);
    let c = filled(2, 3, px(9, 9, 9));
    assert!(multiply(&a, &c).is_ok());
    assert_eq!(a, a_before);
}

#[test]
fn result_takes_header_of_top_layer() {
    let mut top_header = header(1, 1);
    top_header.id_length = 3;
    top_header.x_origin = 11;
    let mut bottom_header = header(1, 1);
    bottom_header.id_length = 9;
    bottom_header.image_descriptor = 0x20;
    let top = RgbImage::new(top_header, vec![px(1, 2, 3)]).unwrap();
    let bottom = RgbImage::new(bottom_header, vec![px(4, 5, 6)]).unwrap();
    assert_eq!(*multiply(&top, &bottom).unwrap().header(), top_header);
    assert_eq!(*subtract(&top, &bottom).unwrap().header(), top_header);
    assert_eq!(*subtract(&bottom, &top).unwrap().header(), bottom_header);
}

#[test]
fn apply_blend_needs_two_matching_layers() {
    let a = filled(1, 1, px(200, 0, 0));
    let b = filled(1, 1, px(100, 0, 0));
    let wide = filled(2, 1, px(100, 0, 0));
    let op = Operator::Blend(BlendMode::Add);
    assert_eq!(apply(op, &a, Some(&b)).unwrap().pixels(), &[px(255, 0, 0)]);
    assert_eq!(apply(op, &a, Some(&wide)), Err(CompositeError::DimensionMismatch));
    assert_eq!(apply(op, &a, None), Err(CompositeError::DimensionMismatch));
}

#[test]
fn apply_adjust_reads_one_layer() {
    let a = filled(1, 1, px(10, 20, 30));
    let b = filled(1, 1, px(0, 0, 0));
    let wide = filled(2, 1, px(0, 0, 0));
    let op = Operator::Adjust {
        channel: Channel::Green,
        multiplier: Multiplier::whole(3),
        offsets: (1, 0, -5),
    };
    assert_eq!(apply(op, &a, None).unwrap().pixels(), &[px(11, 60, 25)]);
    assert_eq!(apply(op, &a, Some(&b)).unwrap().pixels(), &[px(11, 60, 25)]);
    assert_eq!(apply(op, &a, Some(&wide)), Err(CompositeError::DimensionMismatch));
}

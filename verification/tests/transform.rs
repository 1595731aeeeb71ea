use tga_blend::error::CompositeError;
use tga_blend::header::Header;
use tga_blend::image::RgbImage;
use tga_blend::pixel::{Channel, Pixel};
use tga_blend::transform::{beside, channel_as_gray, merge_channels, reverse, stack};

fn header(width: u16, height: u16) -> Header {
    Header {
        id_length: 0,
        color_map_type: 0,
        image_type_code: 2,
        color_map_origin: 0,
        color_map_length: 0,
        color_map_depth: 0,
        x_origin: 0,
        y_origin: 0,
        width,
        height,
        bits_per_pixel: 24,
        image_descriptor: 0,
    }
}

fn px(red: u8, green: u8, blue: u8) -> Pixel {
    Pixel { red, green, blue }
}

fn gray(v: u8) -> Pixel {
    px(v, v, v)
}

fn image(width: u16, height: u16, pixels: Vec<Pixel>) -> RgbImage {
    RgbImage::new(header(width, height), pixels).unwrap()
}

fn grays(width: u16, height: u16, values: &[u8]) -> RgbImage {
    image(width, height, values.iter().map(|v| gray(*v)).collect())
}

#[test]
fn channel_as_gray_copies_one_channel() {
    let picture = image(2, 1, vec![px(1, 2, 3), px(4, 5, 6)]);
    assert_eq!(channel_as_gray(&picture, Channel::Red).pixels(), &[gray(1), gray(4)]);
    assert_eq!(channel_as_gray(&picture, Channel::Green).pixels(), &[gray(2), gray(5)]);
    assert_eq!(channel_as_gray(&picture, Channel::Blue).pixels(), &[gray(3), gray(6)]);
    assert_eq!(*channel_as_gray(&picture, Channel::Blue).header(), header(2, 1));
}

#[test]
fn reverse_turns_pixel_order_around() {
    let picture = grays(3, 2, &[1, 2, 3, 4, 5, 6]);
    let turned = reverse(&picture);
    assert_eq!(turned, grays(3, 2, &[6, 5, 4, 3, 2, 1]));
    assert_eq!(reverse(&turned), picture);
}

#[test]
fn merge_takes_one_channel_from_each() {
    let r = image(1, 2, vec![px(1, 2, 3), px(4, 5, 6)]);
    let g = image(1, 2, vec![px(11, 12, 13), px(14, 15, 16)]);
    let b = image(1, 2, vec![px(21, 22, 23), px(24, 25, 26)]);
    assert_eq!(
        merge_channels(&r, &g, &b).unwrap().pixels(),
        &[px(1, 12, 23), px(4, 15, 26)]
    );
    assert_eq!(merge_channels(&r, &r, &r), Ok(r.clone()));
}

#[test]
fn merge_needs_one_shape() {
    let a = grays(1, 2, &[1, 2]);
    let b = grays(2, 1, &[1, 2]);
    assert_eq!(merge_channels(&a, &a, &b), Err(CompositeError::DimensionMismatch));
    assert_eq!(merge_channels(&a, &b, &a), Err(CompositeError::DimensionMismatch));
    assert_eq!(merge_channels(&b, &a, &a), Err(CompositeError::DimensionMismatch));
}

#[test]
fn beside_joins_row_by_row() {
    let left = grays(2, 2, &[1, 2, 3, 4]);
    let right = grays(3, 2, &[10, 20, 30, 40, 50, 60]);
    assert_eq!(
        beside(&left, &right),
        Ok(grays(5, 2, &[1, 2, 10, 20, 30, 3, 4, 40, 50, 60]))
    );
    assert_eq!(
        beside(&right, &left),
        Ok(grays(5, 2, &[10, 20, 30, 1, 2, 40, 50, 60, 3, 4]))
    );
}

#[test]
fn beside_needs_one_height() {
    let a = grays(2, 1, &[1, 2]);
    let b = grays(1, 2, &[1, 2]);
    assert_eq!(beside(&a, &b), Err(CompositeError::DimensionMismatch));
}

#[test]
fn beside_stops_at_sixteen_bits() {
    let wide = grays(32768, 1, &vec![0u8; 32768]);
    let narrow = grays(32767, 1, &vec![0u8; 32767]);
    assert_eq!(beside(&wide, &wide), Err(CompositeError::Oversized));
    let widest = beside(&wide, &narrow).unwrap();
    assert_eq!(widest.width(), 65535);
    assert_eq!(widest.height(), 1);
    assert_eq!(widest.pixels().len(), 65535);
}

#[test]
fn stack_appends_rows() {
    let upper = grays(2, 1, &[1, 2]);
    let lower = grays(2, 2, &[3, 4, 5, 6]);
    assert_eq!(stack(&upper, &lower), Ok(grays(2, 3, &[1, 2, 3, 4, 5, 6])));
    assert_eq!(stack(&lower, &upper), Ok(grays(2, 3, &[3, 4, 5, 6, 1, 2])));
}

#[test]
fn stack_needs_one_width() {
    let a = grays(2, 1, &[1, 2]);
    let b = grays(1, 2, &[1, 2]);
    assert_eq!(stack(&a, &b), Err(CompositeError::DimensionMismatch));
}

#[test]
fn stack_stops_at_sixteen_bits() {
    let tall = grays(1, 32768, &vec![0u8; 32768]);
    let short = grays(1, 32767, &vec![0u8; 32767]);
    assert_eq!(stack(&tall, &tall), Err(CompositeError::Oversized));
    assert_eq!(stack(&tall, &short).unwrap().height(), 65535);
}

#[test]
fn four_images_as_a_grid() {
    let a = grays(2, 2, &[1, 2, 3, 4]);
    let b = grays(2, 2, &[5, 6, 7, 8]);
    let c = grays(2, 2, &[9, 10, 11, 12]);
    let d = grays(2, 2, &[13, 14, 15, 16]);
    let grid = stack(&beside(&a, &b).unwrap(), &beside(&c, &d).unwrap()).unwrap();
    assert_eq!(
        grid,
        grays(4, 4, &[1, 2, 5, 6, 3, 4, 7, 8, 9, 10, 13, 14, 11, 12, 15, 16])
    );
}

#[test]
fn result_takes_header_of_first_operand() {
    let mut first = header(1, 1);
    first.id_length = 5;
    let left = RgbImage::new(first, vec![gray(1)]).unwrap();
    let right = grays(1, 1, &[2]);
    assert_eq!(beside(&left, &right).unwrap().header().id_length, 5);
    assert_eq!(beside(&right, &left).unwrap().header().id_length, 0);
    assert_eq!(stack(&left, &right).unwrap().header().id_length, 5);
    assert_eq!(merge_channels(&left, &right, &right).unwrap().header().id_length, 5);
}

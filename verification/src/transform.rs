//! Rearrangements of pixels and channels: no arithmetic on channel values,
//! only moving them about.
use vstd::prelude::*;
use vstd::arithmetic::div_mod::lemma_fundamental_div_mod_converse;
use crate::error::CompositeError;
use crate::header::Header;
use crate::image::{lemma_pixel_count_bound, model_of, ImageModel, RgbImage};
use crate::pixel::{Channel, Pixel};

verus! {

/// The grey pixel whose three channels all hold the selected channel of
/// `pixel`.
pub open spec fn gray_pixel(pixel: Pixel, channel: Channel) -> Pixel {
    Pixel {
        red: pixel.channel(channel),
        green: pixel.channel(channel),
        blue: pixel.channel(channel),
    }
}

/// One channel of an image shown as a grey image with the same header.
pub open spec fn gray_model(image: ImageModel, channel: Channel) -> ImageModel {
    ImageModel {
        header: image.header,
        pixels: Seq::new(image.pixels.len(), |i: int| gray_pixel(image.pixels[i], channel)),
    }
}

/// The image with its pixels in reverse order: a half turn.
pub open spec fn reverse_model(image: ImageModel) -> ImageModel {
    ImageModel { header: image.header, pixels: image.pixels.reverse() }
}

/// What merging yields: red from `red`, green from `green`, blue from `blue`,
/// under the header of `red`; `DimensionMismatch` unless all three have one
/// shape.
pub open spec fn merge_model(red: ImageModel, green: ImageModel, blue: ImageModel) -> Result<
    ImageModel,
    CompositeError,
> {
    if red.same_shape(green) && red.same_shape(blue) {
        Ok(
            ImageModel {
                header: red.header,
                pixels: Seq::new(
                    red.pixels.len(),
                    |i: int|
                        Pixel {
                            red: red.pixels[i].red,
                            green: green.pixels[i].green,
                            blue: blue.pixels[i].blue,
                        },
                ),
            },
        )
    } else {
        Err(CompositeError::DimensionMismatch)
    }
}

/// `header` with another width and height.
pub open spec fn resized(header: Header, width: u16, height: u16) -> Header {
    Header { width, height, ..header }
}

/// The pixel in column `x` of row `y`, rows counted in stored order.
pub open spec fn pixel_in(image: ImageModel, x: int, y: int) -> Pixel {
    image.pixels[y * image.header.width + x]
}

/// The pixel at position `k` of `left` and `right` set side by side: rows
/// are as wide as both together, and each row holds the row of `left`
/// followed by the row of `right`.
pub open spec fn beside_cell(left: ImageModel, right: ImageModel, k: int) -> Pixel {
    let wide = left.header.width + right.header.width;
    let x = k % wide;
    let y = k / wide;
    if x < left.header.width {
        pixel_in(left, x, y)
    } else {
        pixel_in(right, x - left.header.width, y)
    }
}

/// What setting `right` beside `left` yields: `DimensionMismatch` when the
/// heights differ, else `Oversized` when the widths add up to more than
/// 65535, else an image of the common height and the joint width under the
/// header of `left`.
pub open spec fn beside_model(left: ImageModel, right: ImageModel) -> Result<
    ImageModel,
    CompositeError,
> {
    let wide = left.header.width + right.header.width;
    if left.header.height != right.header.height {
        Err(CompositeError::DimensionMismatch)
    } else if wide > 65535 {
        Err(CompositeError::Oversized)
    } else {
        Ok(
            ImageModel {
                header: resized(left.header, wide as u16, left.header.height),
                pixels: Seq::new(
                    (wide * left.header.height) as nat,
                    |k: int| beside_cell(left, right, k),
                ),
            },
        )
    }
}

/// What putting `lower` after `upper` yields: `DimensionMismatch` when the
/// widths differ, else `Oversized` when the heights add up to more than
/// 65535, else an image of the common width whose rows are those of `upper`
/// followed by those of `lower`, under the header of `upper`.
pub open spec fn stack_model(upper: ImageModel, lower: ImageModel) -> Result<
    ImageModel,
    CompositeError,
> {
    let high = upper.header.height + lower.header.height;
    if upper.header.width != lower.header.width {
        Err(CompositeError::DimensionMismatch)
    } else if high > 65535 {
        Err(CompositeError::Oversized)
    } else {
        Ok(
            ImageModel {
                header: resized(upper.header, upper.header.width, high as u16),
                pixels: upper.pixels + lower.pixels,
            },
        )
    }
}

/// Shows one channel of `image` as a grey image.
pub fn channel_as_gray(image: &RgbImage, channel: Channel) -> (gray: RgbImage)
    ensures
        gray@ == gray_model(image@, channel),
        gray@.valid(),
{
    let pixels = image.pixels();
    let mut pixel_data: Vec<Pixel> = Vec::with_capacity(pixels.len());
    let mut i: usize = 0;
    while i < pixels.len()
        invariant
            i <= pixels.len(),
            pixels@ == image@.pixels,
            pixel_data@.len() == i,
            forall|j: int|
                0 <= j < i ==> pixel_data@[j] == gray_pixel(#[trigger] pixels@[j], channel),
        decreases pixels.len() - i,
    {
        let value = pixels[i].get(channel);
        pixel_data.push(Pixel { red: value, green: value, blue: value });
        i += 1;
    }
    assert(pixel_data@ =~= gray_model(image@, channel).pixels);
    RgbImage::from_parts(*image.header(), pixel_data)
}

/// Turns `image` by a half turn: the last pixel comes first.
pub fn reverse(image: &RgbImage) -> (turned: RgbImage)
    ensures
        turned@ == reverse_model(image@),
        turned@.valid(),
{
    let pixels = image.pixels();
    let count = pixels.len();
    let mut pixel_data: Vec<Pixel> = Vec::with_capacity(count);
    let mut i: usize = 0;
    while i < count
        invariant
            i <= count,
            count == pixels.len(),
            pixels@ == image@.pixels,
            pixel_data@.len() == i,
            forall|j: int| 0 <= j < i ==> pixel_data@[j] == pixels@[count - 1 - j],
        decreases count - i,
    {
        pixel_data.push(pixels[count - 1 - i]);
        i += 1;
    }
    assert(pixel_data@ =~= image@.pixels.reverse());
    RgbImage::from_parts(*image.header(), pixel_data)
}

/// Builds an image from the red channel of `red`, the green channel of
/// `green` and the blue channel of `blue`.
///
/// Fails with `DimensionMismatch` exactly when the three do not all have the
/// same width and height.
pub fn merge_channels(red: &RgbImage, green: &RgbImage, blue: &RgbImage) -> (r: Result<
    RgbImage,
    CompositeError,
>)
    ensures
        model_of(r) == merge_model(red@, green@, blue@),
        r matches Ok(image) ==> image@.valid(),
{
    if red.width() != green.width() || red.height() != green.height() || red.width()
        != blue.width() || red.height() != blue.height() {
        return Err(CompositeError::DimensionMismatch);
    }
    let reds = red.pixels();
    let greens = green.pixels();
    let blues = blue.pixels();
    let mut pixel_data: Vec<Pixel> = Vec::with_capacity(reds.len());
    let mut i: usize = 0;
    while i < reds.len()
        invariant
            i <= reds.len(),
            reds.len() == greens.len(),
            reds.len() == blues.len(),
            reds@ == red@.pixels,
            greens@ == green@.pixels,
            blues@ == blue@.pixels,
            pixel_data@.len() == i,
            forall|j: int|
                0 <= j < i ==> #[trigger] pixel_data@[j] == (Pixel {
                    red: reds@[j].red,
                    green: greens@[j].green,
                    blue: blues@[j].blue,
                }),
        decreases reds.len() - i,
    {
        pixel_data.push(Pixel { red: reds[i].red, green: greens[i].green, blue: blues[i].blue });
        i += 1;
    }
    assert(pixel_data@ =~= merge_model(red@, green@, blue@)->Ok_0.pixels);
    Ok(RgbImage::from_parts(*red.header(), pixel_data))
}

/// Sets `right` beside `left`: every row of the result is a row of `left`
/// followed by the same row of `right`.
///
/// Fails with `DimensionMismatch` exactly when the heights differ, and
/// otherwise with `Oversized` exactly when the joint width exceeds 65535.
pub fn beside(left: &RgbImage, right: &RgbImage) -> (r: Result<RgbImage, CompositeError>)
    ensures
        model_of(r) == beside_model(left@, right@),
        r matches Ok(image) ==> image@.valid(),
{
    if left.height() != right.height() {
        return Err(CompositeError::DimensionMismatch);
    }
    if left.width() > 65535 - right.width() {
        return Err(CompositeError::Oversized);
    }
    let w1: usize = left.width() as usize;
    let w2: usize = right.width() as usize;
    let h: usize = left.height() as usize;
    let lefts = left.pixels();
    let rights = right.pixels();
    let ghost wide = w1 as int + w2 as int;
    proof {
        lemma_pixel_count_bound(left@.header);
        lemma_pixel_count_bound(right@.header);
    }
    let mut pixel_data: Vec<Pixel> = Vec::new();
    let mut y: usize = 0;
    while y < h
        invariant
            y <= h,
            w1 == left@.header.width,
            w2 == right@.header.width,
            h == left@.header.height,
            wide == w1 + w2,
            w1 > 0,
            lefts@ == left@.pixels,
            rights@ == right@.pixels,
            lefts.len() == w1 * h,
            rights.len() == w2 * h,
            pixel_data@.len() == y * wide,
            forall|k: int|
                0 <= k < pixel_data@.len() ==> #[trigger] pixel_data@[k] == beside_cell(
                    left@,
                    right@,
                    k,
                ),
        decreases h - y,
    {
        proof {
            lemma_row_within(y as int, w1 as int, h as int);
            lemma_row_within(y as int, w2 as int, h as int);
        }
        let ghost row_start = pixel_data@.len() as int;
        let base: usize = y * w1;
        let mut x: usize = 0;
        while x < w1
            invariant
                x <= w1,
                y < h,
                base == y * w1,
                base + w1 <= lefts.len(),
                lefts@ == left@.pixels,
                w1 == left@.header.width,
                w2 == right@.header.width,
                wide == w1 + w2,
                row_start == y * wide,
                pixel_data@.len() == row_start + x,
                forall|k: int|
                    0 <= k < pixel_data@.len() ==> #[trigger] pixel_data@[k] == beside_cell(
                        left@,
                        right@,
                        k,
                    ),
            decreases w1 - x,
        {
            proof {
                lemma_fundamental_div_mod_converse(row_start + x, wide, y as int, x as int);
            }
            pixel_data.push(lefts[base + x]);
            x += 1;
        }
        let base: usize = y * w2;
        let mut x: usize = 0;
        while x < w2
            invariant
                x <= w2,
                y < h,
                base == y * w2,
                base + w2 <= rights.len(),
                rights@ == right@.pixels,
                w1 == left@.header.width,
                w2 == right@.header.width,
                wide == w1 + w2,
                row_start == y * wide,
                pixel_data@.len() == row_start + w1 + x,
                forall|k: int|
                    0 <= k < pixel_data@.len() ==> #[trigger] pixel_data@[k] == beside_cell(
                        left@,
                        right@,
                        k,
                    ),
            decreases w2 - x,
        {
            proof {
                lemma_fundamental_div_mod_converse(
                    row_start + w1 + x,
                    wide,
                    y as int,
                    w1 + x,
                );
            }
            pixel_data.push(rights[base + x]);
            x += 1;
        }
        proof {
            assert((y + 1) * wide == y * wide + wide) by (nonlinear_arith);
        }
        y += 1;
    }
    let mut header = *left.header();
    header.width = (w1 + w2) as u16;
    proof {
        assert(wide * (h as int) == (h as int) * wide) by (nonlinear_arith);
        assert(header == resized(left@.header, wide as u16, left@.header.height));
        lemma_pixel_count_bound(header);
        assert(pixel_data@ =~= beside_model(left@, right@)->Ok_0.pixels);
    }
    Ok(RgbImage::from_parts(header, pixel_data))
}

/// Puts `lower` after `upper`: the rows of `upper`, then the rows of `lower`.
///
/// Fails with `DimensionMismatch` exactly when the widths differ, and
/// otherwise with `Oversized` exactly when the joint height exceeds 65535.
pub fn stack(upper: &RgbImage, lower: &RgbImage) -> (r: Result<RgbImage, CompositeError>)
    ensures
        model_of(r) == stack_model(upper@, lower@),
        r matches Ok(image) ==> image@.valid(),
{
    if upper.width() != lower.width() {
        return Err(CompositeError::DimensionMismatch);
    }
    if upper.height() > 65535 - lower.height() {
        return Err(CompositeError::Oversized);
    }
    let uppers = upper.pixels();
    let lowers = lower.pixels();
    let mut pixel_data: Vec<Pixel> = Vec::new();
    let mut i: usize = 0;
    while i < uppers.len()
        invariant
            i <= uppers.len(),
            pixel_data@ == uppers@.take(i as int),
        decreases uppers.len() - i,
    {
        pixel_data.push(uppers[i]);
        i += 1;
        assert(pixel_data@ =~= uppers@.take(i as int));
    }
    let mut i: usize = 0;
    while i < lowers.len()
        invariant
            i <= lowers.len(),
            pixel_data@ == uppers@ + lowers@.take(i as int),
        decreases lowers.len() - i,
    {
        pixel_data.push(lowers[i]);
        i += 1;
        assert(pixel_data@ =~= uppers@ + lowers@.take(i as int));
    }
    let mut header = *upper.header();
    header.height = upper.height() + lower.height();
    proof {
        let w = upper@.header.width as int;
        let h1 = upper@.header.height as int;
        let h2 = lower@.header.height as int;
        lemma_pixel_count_bound(upper@.header);
        lemma_pixel_count_bound(lower@.header);
        lemma_pixel_count_bound(header);
        assert(w * (h1 + h2) == w * h1 + w * h2) by (nonlinear_arith);
        assert(pixel_data@ =~= upper@.pixels + lower@.pixels);
    }
    Ok(RgbImage::from_parts(header, pixel_data))
}

/// Row `y` of an image of `h` rows of `w` pixels lies inside its `w * h`
/// pixels.
proof fn lemma_row_within(y: int, w: int, h: int)
    requires
        0 <= y < h,
        0 <= w,
    ensures
        0 <= y * w,
        y * w + w <= w * h,
{
    assert(0 <= y * w && y * w + w <= w * h) by (nonlinear_arith)
        requires
            0 <= y < h,
            0 <= w,
    ;
}

/// Two half turns bring every pixel back to its place.
pub proof fn lemma_reverse_twice(image: ImageModel)
    ensures
        reverse_model(reverse_model(image)) == image,
{
    assert(image.pixels.reverse().reverse() =~= image.pixels);
}

/// Merging the three channels of one image gives that image.
pub proof fn lemma_merge_same(image: ImageModel)
    ensures
        merge_model(image, image, image) == Ok::<ImageModel, CompositeError>(image),
{
    assert(merge_model(image, image, image)->Ok_0.pixels =~= image.pixels);
}

/// A grey image shows the same grey whichever of its channels is taken.
pub proof fn lemma_gray_again(image: ImageModel, channel: Channel, other: Channel)
    ensures
        gray_model(gray_model(image, channel), other) == gray_model(image, channel),
{
    assert(gray_model(gray_model(image, channel), other).pixels =~= gray_model(
        image,
        channel,
    ).pixels);
}

/// In two images set side by side, the pixel in column `x` of row `y` is the
/// pixel of `left` there while `x` is inside `left`, and beyond that the
/// pixel of `right` in column `x - width of left`.
pub proof fn lemma_beside_pixel(left: ImageModel, right: ImageModel, x: int, y: int)
    requires
        left.valid(),
        right.valid(),
        beside_model(left, right) is Ok,
        0 <= x < left.header.width + right.header.width,
        0 <= y < left.header.height,
    ensures
        beside_model(left, right)->Ok_0.valid(),
        pixel_in(beside_model(left, right)->Ok_0, x, y) == if x < left.header.width {
            pixel_in(left, x, y)
        } else {
            pixel_in(right, x - left.header.width, y)
        },
{
    let joined = beside_model(left, right)->Ok_0;
    let wide = left.header.width + right.header.width;
    let high = left.header.height as int;
    lemma_pixel_count_bound(joined.header);
    assert(wide * high == high * wide) by (nonlinear_arith);
    lemma_row_within(y, wide, high);
    lemma_fundamental_div_mod_converse(y * wide + x, wide, y, x);
}

} // verus!

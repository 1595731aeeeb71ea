//! Level adjustment: scale one channel, then shift all three.
//!
//! The selected channel of every pixel is first replaced by its value times a
//! multiplier, rounded halves up and clamped to `0..=255`. Then each of the
//! three channels receives its own additive offset and is clamped again. The
//! offsets apply to all channels, whichever one was scaled, so that a single
//! call can scale one channel while tinting the whole pixel.
//!
//! The multiplier is an exact fraction, so that results do not depend on how
//! a machine rounds.
use vstd::prelude::*;
use crate::blend::{clamp_channel, round_div_255};
use crate::image::{ImageModel, RgbImage};
use crate::pixel::{Channel, Pixel};

verus! {

/// A fraction `numerator / denominator` with a positive denominator.
pub struct Ratio {
    pub numerator: int,
    pub denominator: int,
}

/// The factor by which a channel is scaled: a fraction whose denominator is
/// never zero.
#[derive(Clone, Copy, Debug)]
pub struct Multiplier {
    numerator: i32,
    denominator: u32,
}

impl View for Multiplier {
    type V = Ratio;

    closed spec fn view(&self) -> Ratio {
        Ratio { numerator: self.numerator as int, denominator: self.denominator as int }
    }
}

impl Multiplier {
    #[verifier::type_invariant]
    spec fn well_formed(self) -> bool {
        self.denominator > 0
    }

    /// The fraction `numerator / denominator`, or nothing when the
    /// denominator is zero.
    pub fn new(numerator: i32, denominator: u32) -> (r: Option<Multiplier>)
        ensures
            r is None <==> denominator == 0,
            r matches Some(m) ==> m@ == (Ratio {
                numerator: numerator as int,
                denominator: denominator as int,
            }),
    {
        if denominator == 0 {
            None
        } else {
            Some(Multiplier { numerator, denominator })
        }
    }

    /// The whole number `factor`.
    pub fn whole(factor: i32) -> (m: Multiplier)
        ensures
            m@ == (Ratio { numerator: factor as int, denominator: 1 }),
    {
        Multiplier { numerator: factor, denominator: 1 }
    }

    /// The numerator of the fraction.
    pub fn numerator(&self) -> (n: i32)
        ensures
            n == self@.numerator,
    {
        self.numerator
    }

    /// The denominator of the fraction; never zero.
    pub fn denominator(&self) -> (d: u32)
        ensures
            d == self@.denominator,
            d > 0,
    {
        proof {
            use_type_invariant(self);
        }
        self.denominator
    }
}

/// `n / d` rounded to the nearest integer, halves up: `floor(n / d + 1/2)`.
pub open spec fn round_half_up(n: int, d: int) -> int
    recommends
        d > 0,
{
    (2 * n + d) / (2 * d)
}

/// A channel value times the multiplier, rounded and clamped.
pub open spec fn scale_channel(value: int, multiplier: Ratio) -> int
    recommends
        multiplier.denominator > 0,
{
    clamp_channel(round_half_up(value * multiplier.numerator, multiplier.denominator))
}

/// A channel value plus an offset, clamped.
pub open spec fn shift_channel(value: int, offset: int) -> int {
    clamp_channel(value + offset)
}

/// One channel of the adjusted pixel: scaled if it is the selected one, then
/// shifted in any case.
pub open spec fn adjust_channel(value: int, selected: bool, multiplier: Ratio, offset: int) -> int {
    shift_channel(
        if selected {
            scale_channel(value, multiplier)
        } else {
            value
        },
        offset,
    )
}

/// The adjusted pixel. The offsets are those of red, green and blue, in that
/// order.
pub open spec fn adjust_pixel(
    pixel: Pixel,
    channel: Channel,
    multiplier: Ratio,
    offsets: (i32, i32, i32),
) -> Pixel {
    Pixel {
        red: adjust_channel(
            pixel.red as int,
            channel == Channel::Red,
            multiplier,
            offsets.0 as int,
        ) as u8,
        green: adjust_channel(
            pixel.green as int,
            channel == Channel::Green,
            multiplier,
            offsets.1 as int,
        ) as u8,
        blue: adjust_channel(
            pixel.blue as int,
            channel == Channel::Blue,
            multiplier,
            offsets.2 as int,
        ) as u8,
    }
}

/// The adjusted image: same header, every pixel adjusted on its own.
pub open spec fn adjust_model(
    image: ImageModel,
    channel: Channel,
    multiplier: Ratio,
    offsets: (i32, i32, i32),
) -> ImageModel {
    ImageModel {
        header: image.header,
        pixels: Seq::new(
            image.pixels.len(),
            |i: int| adjust_pixel(image.pixels[i], channel, multiplier, offsets),
        ),
    }
}

/// Scales one channel value.
pub fn scale(value: u8, multiplier: Multiplier) -> (c: u8)
    ensures
        c == scale_channel(value as int, multiplier@),
{
    proof {
        use_type_invariant(multiplier);
    }
    let ghost v = value as int;
    let ghost n = multiplier.numerator as int;
    let ghost d = multiplier.denominator as int;
    if multiplier.numerator <= 0 {
        proof {
            assert(v * n <= 0) by (nonlinear_arith)
                requires
                    v >= 0,
                    n <= 0,
            ;
            lemma_round_half_up_sign(v * n, d);
        }
        0
    } else {
        proof {
            assert(0 <= v * n <= 255 * 0x7fff_ffff) by (nonlinear_arith)
                requires
                    0 <= v <= 255,
                    0 < n <= 0x7fff_ffff,
            ;
            lemma_round_half_up_sign(v * n, d);
        }
        let product: u64 = (value as u64) * (multiplier.numerator as u64);
        let denominator: u64 = multiplier.denominator as u64;
        let rounded: u64 = (2 * product + denominator) / (2 * denominator);
        if rounded > 255 {
            255
        } else {
            rounded as u8
        }
    }
}

/// Shifts one channel value.
pub fn shift(value: u8, offset: i32) -> (c: u8)
    ensures
        c == shift_channel(value as int, offset as int),
{
    let sum: i64 = value as i64 + offset as i64;
    if sum < 0 {
        0
    } else if sum > 255 {
        255
    } else {
        sum as u8
    }
}

/// Adjusts one pixel.
pub fn adjust_pixels(
    pixel: &Pixel,
    channel: Channel,
    multiplier: Multiplier,
    offsets: (i32, i32, i32),
) -> (p: Pixel)
    ensures
        p == adjust_pixel(*pixel, channel, multiplier@, offsets),
{
    let red = match channel {
        Channel::Red => scale(pixel.red, multiplier),
        _ => pixel.red,
    };
    let green = match channel {
        Channel::Green => scale(pixel.green, multiplier),
        _ => pixel.green,
    };
    let blue = match channel {
        Channel::Blue => scale(pixel.blue, multiplier),
        _ => pixel.blue,
    };
    Pixel {
        red: shift(red, offsets.0),
        green: shift(green, offsets.1),
        blue: shift(blue, offsets.2),
    }
}

/// Adjusts every pixel of `image`. The result has the header of `image`;
/// `image` itself is left as it was.
pub fn adjust(
    image: &RgbImage,
    channel: Channel,
    multiplier: Multiplier,
    offsets: (i32, i32, i32),
) -> (adjusted: RgbImage)
    ensures
        adjusted@ == adjust_model(image@, channel, multiplier@, offsets),
        adjusted@.valid(),
{
    let pixels = image.pixels();
    let mut pixel_data: Vec<Pixel> = Vec::with_capacity(pixels.len());
    let mut i: usize = 0;
    while i < pixels.len()
        invariant
            i <= pixels.len(),
            pixels@ == image@.pixels,
            pixel_data@.len() == i,
            forall|j: int|
                0 <= j < i ==> pixel_data@[j] == adjust_pixel(
                    #[trigger] pixels@[j],
                    channel,
                    multiplier@,
                    offsets,
                ),
        decreases pixels.len() - i,
    {
        pixel_data.push(adjust_pixels(&pixels[i], channel, multiplier, offsets));
        i += 1;
    }
    assert(pixel_data@ =~= adjust_model(image@, channel, multiplier@, offsets).pixels);
    RgbImage::from_parts(*image.header(), pixel_data)
}

/// The rounded quotient has the sign of the numerator: it is at most 0 for a
/// numerator that is at most 0, and at least 0 otherwise.
pub proof fn lemma_round_half_up_sign(n: int, d: int)
    requires
        d > 0,
    ensures
        n <= 0 ==> round_half_up(n, d) <= 0,
        n >= 0 ==> round_half_up(n, d) >= 0,
{
    let x = 2 * n + d;
    let y = 2 * d;
    assert(n <= 0 ==> x / y <= 0) by (nonlinear_arith)
        requires
            x == 2 * n + d,
            y == 2 * d,
            d > 0,
    ;
    assert(n >= 0 ==> x / y >= 0) by (nonlinear_arith)
        requires
            x == 2 * n + d,
            y == 2 * d,
            d > 0,
    ;
}

/// A quotient that is a whole number is left alone by the rounding:
/// `q * d / d` rounds to `q`.
pub proof fn lemma_round_half_up_exact(q: int, d: int)
    requires
        d > 0,
    ensures
        round_half_up(q * d, d) == q,
{
    assert(2 * (q * d) + d == q * (2 * d) + d) by (nonlinear_arith);
    vstd::arithmetic::div_mod::lemma_fundamental_div_mod_converse(
        2 * (q * d) + d,
        2 * d,
        q,
        d,
    );
}

/// Every adjusted channel lies in `0..=255`, whatever the multiplier and the
/// offset.
pub proof fn lemma_adjust_channel_in_range(
    value: int,
    selected: bool,
    multiplier: Ratio,
    offset: int,
)
    ensures
        0 <= adjust_channel(value, selected, multiplier, offset) <= 255,
        0 <= scale_channel(value, multiplier) <= 255,
        0 <= shift_channel(value, offset) <= 255,
{
}

/// Each channel of an adjusted pixel is the adjusted value of that channel;
/// nothing is lost when the value is stored in a byte.
pub proof fn lemma_adjust_pixel_channels(
    pixel: Pixel,
    channel: Channel,
    multiplier: Ratio,
    offsets: (i32, i32, i32),
)
    ensures
        adjust_pixel(pixel, channel, multiplier, offsets).red == adjust_channel(
            pixel.red as int,
            channel == Channel::Red,
            multiplier,
            offsets.0 as int,
        ),
        adjust_pixel(pixel, channel, multiplier, offsets).green == adjust_channel(
            pixel.green as int,
            channel == Channel::Green,
            multiplier,
            offsets.1 as int,
        ),
        adjust_pixel(pixel, channel, multiplier, offsets).blue == adjust_channel(
            pixel.blue as int,
            channel == Channel::Blue,
            multiplier,
            offsets.2 as int,
        ),
{
}

/// A whole multiplier needs no rounding: the channel is the clamped product.
pub proof fn lemma_scale_by_whole(value: int, factor: int)
    ensures
        scale_channel(value, Ratio { numerator: factor, denominator: 1 }) == clamp_channel(
            value * factor,
        ),
{
    lemma_round_half_up_exact(value * factor, 1);
}

/// A multiplier of zero empties the channel it scales.
pub proof fn lemma_scale_by_zero(value: int, multiplier: Ratio)
    requires
        multiplier.numerator == 0,
        multiplier.denominator > 0,
    ensures
        scale_channel(value, multiplier) == 0,
{
    assert(value * multiplier.numerator == 0) by (nonlinear_arith)
        requires
            multiplier.numerator == 0,
    ;
    lemma_round_half_up_sign(0, multiplier.denominator);
}

/// A multiplier equal to one leaves a channel value as it is.
pub proof fn lemma_scale_by_one(value: int, multiplier: Ratio)
    requires
        0 <= value <= 255,
        multiplier.numerator == multiplier.denominator,
        multiplier.denominator > 0,
    ensures
        scale_channel(value, multiplier) == value,
{
    lemma_round_half_up_exact(value, multiplier.denominator);
}

/// With a multiplier of zero and no offsets, the selected channel of a pixel
/// becomes 0 and the other two keep their values.
pub proof fn lemma_adjust_pixel_clears_channel(pixel: Pixel, channel: Channel, multiplier: Ratio)
    requires
        multiplier.numerator == 0,
        multiplier.denominator > 0,
    ensures
        adjust_pixel(pixel, channel, multiplier, (0i32, 0i32, 0i32)).channel(channel) == 0,
        forall|other: Channel|
            other != channel ==> #[trigger] adjust_pixel(
                pixel,
                channel,
                multiplier,
                (0i32, 0i32, 0i32),
            ).channel(other) == pixel.channel(other),
{
    lemma_scale_by_zero(pixel.red as int, multiplier);
    lemma_scale_by_zero(pixel.green as int, multiplier);
    lemma_scale_by_zero(pixel.blue as int, multiplier);
}

/// With a multiplier of zero and no offsets, the selected channel of every
/// pixel becomes 0; the other channels, the header and the number of pixels
/// stay as they are.
pub proof fn lemma_adjust_clears_channel(image: ImageModel, channel: Channel, multiplier: Ratio)
    requires
        multiplier.numerator == 0,
        multiplier.denominator > 0,
    ensures
        ({
            let cleared = adjust_model(image, channel, multiplier, (0i32, 0i32, 0i32));
            &&& cleared.header == image.header
            &&& cleared.pixels.len() == image.pixels.len()
            &&& forall|i: int|
                0 <= i < image.pixels.len() ==> (#[trigger] cleared.pixels[i]).channel(channel)
                    == 0
            &&& forall|i: int, other: Channel|
                0 <= i < image.pixels.len() && other != channel ==> #[trigger] cleared.pixels[i].channel(
                    other,
                ) == image.pixels[i].channel(other)
        }),
{
    let cleared = adjust_model(image, channel, multiplier, (0i32, 0i32, 0i32));
    assert forall|i: int| 0 <= i < image.pixels.len() implies {
        &&& (#[trigger] cleared.pixels[i]).channel(channel) == 0
        &&& forall|other: Channel|
            other != channel ==> #[trigger] cleared.pixels[i].channel(other)
                == image.pixels[i].channel(other)
    } by {
        lemma_adjust_pixel_clears_channel(image.pixels[i], channel, multiplier);
    }
}

/// With a multiplier equal to one and no offsets, the image is unchanged.
pub proof fn lemma_adjust_identity(image: ImageModel, channel: Channel, multiplier: Ratio)
    requires
        multiplier.numerator == multiplier.denominator,
        multiplier.denominator > 0,
    ensures
        adjust_model(image, channel, multiplier, (0i32, 0i32, 0i32)) == image,
{
    let adjusted = adjust_model(image, channel, multiplier, (0i32, 0i32, 0i32));
    assert forall|i: int| 0 <= i < image.pixels.len() implies adjusted.pixels[i]
        == image.pixels[i] by {
        let pixel = image.pixels[i];
        lemma_scale_by_one(pixel.red as int, multiplier);
        lemma_scale_by_one(pixel.green as int, multiplier);
        lemma_scale_by_one(pixel.blue as int, multiplier);
    }
    assert(adjusted.pixels =~= image.pixels);
}

/// An adjusted image is as valid as the one it was made from.
pub proof fn lemma_adjust_keeps_shape(
    image: ImageModel,
    channel: Channel,
    multiplier: Ratio,
    offsets: (i32, i32, i32),
)
    requires
        image.valid(),
    ensures
        adjust_model(image, channel, multiplier, offsets).valid(),
        adjust_model(image, channel, multiplier, offsets).same_shape(image),
{
}

/// Rounding by a denominator of 255 is the rounding that the blend operators
/// use.
pub proof fn lemma_round_half_up_255(n: int)
    ensures
        round_half_up(n, 255) == round_div_255(n),
{
}

} // verus!

//! Blend operators on single channels and on pixels.
//!
//! Every operator combines two same-position channel values, named `top` and
//! `bottom`, into one value in `0..=255`. A channel value `v` stands for the
//! fraction `v / 255`; a fractional result is rounded to the nearest integer,
//! halves up, and then clamped.
use vstd::prelude::*;
use crate::pixel::{Channel, Pixel};

verus! {

/// The catalogue of blend operators.
#[derive(Clone, Copy, Debug, PartialEq, Eq, Structural)]
pub enum BlendMode {
    Multiply,
    Screen,
    Overlay,
    Subtract,
    Add,
}

/// `x` limited to the range of a channel.
pub open spec fn clamp_channel(x: int) -> int {
    if x < 0 {
        0
    } else if x > 255 {
        255
    } else {
        x
    }
}

/// `n / 255` rounded to the nearest integer, halves up: `floor(n / 255 + 1/2)`.
pub open spec fn round_div_255(n: int) -> int {
    (2 * n + 255) / 510
}

/// Multiply: the product of the two fractions.
pub open spec fn multiply_channel(top: int, bottom: int) -> int {
    clamp_channel(round_div_255(top * bottom))
}

/// Screen: the complement of the product of the complements.
pub open spec fn screen_channel(top: int, bottom: int) -> int {
    clamp_channel(255 - round_div_255((255 - top) * (255 - bottom)))
}

/// Add: the sum, saturating at 255.
pub open spec fn add_channel(top: int, bottom: int) -> int {
    clamp_channel(top + bottom)
}

/// Subtract: `bottom` less `top`, never below 0. `bottom` is the minuend.
pub open spec fn subtract_channel(top: int, bottom: int) -> int {
    clamp_channel(bottom - top)
}

/// Overlay: twice the product where `bottom` is dark, the complement of twice
/// the product of the complements where it is light.
///
/// The dark branch covers `bottom < 128`, the light branch `128..=255`.
pub open spec fn overlay_channel(top: int, bottom: int) -> int {
    if bottom < 128 {
        clamp_channel(round_div_255(2 * (top * bottom)))
    } else {
        clamp_channel(round_div_255(255 * 255 - 2 * ((255 - top) * (255 - bottom))))
    }
}

/// The channel value that `mode` gives for `top` over `bottom`.
pub open spec fn blend_channel(mode: BlendMode, top: int, bottom: int) -> int {
    match mode {
        BlendMode::Multiply => multiply_channel(top, bottom),
        BlendMode::Screen => screen_channel(top, bottom),
        BlendMode::Overlay => overlay_channel(top, bottom),
        BlendMode::Subtract => subtract_channel(top, bottom),
        BlendMode::Add => add_channel(top, bottom),
    }
}

/// The pixel that `mode` gives for `top` over `bottom`: each channel is
/// combined on its own.
pub open spec fn blend_pixel(mode: BlendMode, top: Pixel, bottom: Pixel) -> Pixel {
    Pixel {
        red: blend_channel(mode, top.red as int, bottom.red as int) as u8,
        green: blend_channel(mode, top.green as int, bottom.green as int) as u8,
        blue: blend_channel(mode, top.blue as int, bottom.blue as int) as u8,
    }
}

/// The product of a channel value and a factor of at most `limit` is at most
/// `255 * limit`.
proof fn lemma_product_bound(a: int, b: int, limit: int)
    requires
        0 <= a <= 255,
        0 <= b <= limit,
    ensures
        0 <= a * b <= 255 * limit,
{
    assert(0 <= a * b <= 255 * limit) by (nonlinear_arith)
        requires
            0 <= a <= 255,
            0 <= b <= limit,
    ;
}

/// Rounds `n / 255` to the nearest integer, halves up.
fn rounded_quotient(n: u32) -> (q: u32)
    requires
        n <= 2 * 255 * 255,
    ensures
        q == round_div_255(n as int),
        q <= 510,
{
    (2 * n + 255) / 510
}

/// Limits a value to the range of a channel.
fn clamped(x: u32) -> (c: u8)
    ensures
        c == clamp_channel(x as int),
{
    if x > 255 {
        255
    } else {
        x as u8
    }
}

/// Multiply on one channel.
pub fn multiply_channels(top: u8, bottom: u8) -> (c: u8)
    ensures
        c == multiply_channel(top as int, bottom as int),
{
    proof {
        lemma_product_bound(top as int, bottom as int, 255);
    }
    let product: u32 = (top as u32) * (bottom as u32);
    clamped(rounded_quotient(product))
}

/// Screen on one channel.
pub fn screen_channels(top: u8, bottom: u8) -> (c: u8)
    ensures
        c == screen_channel(top as int, bottom as int),
{
    proof {
        lemma_product_bound(255 - top, 255 - bottom, 255);
    }
    let product: u32 = ((255 - top) as u32) * ((255 - bottom) as u32);
    let darkness: u32 = rounded_quotient(product);
    clamped(255 - darkness)
}

/// Add on one channel.
pub fn add_channels(top: u8, bottom: u8) -> (c: u8)
    ensures
        c == add_channel(top as int, bottom as int),
{
    clamped(top as u32 + bottom as u32)
}

/// Subtract on one channel: `bottom` less `top`.
pub fn subtract_channels(top: u8, bottom: u8) -> (c: u8)
    ensures
        c == subtract_channel(top as int, bottom as int),
{
    if top <= bottom {
        bottom - top
    } else {
        0
    }
}

/// Overlay on one channel.
pub fn overlay_channels(top: u8, bottom: u8) -> (c: u8)
    ensures
        c == overlay_channel(top as int, bottom as int),
{
    if bottom < 128 {
        proof {
            lemma_product_bound(top as int, bottom as int, 127);
        }
        let product: u32 = (top as u32) * (bottom as u32);
        clamped(rounded_quotient(2 * product))
    } else {
        proof {
            lemma_product_bound(255 - top, 255 - bottom, 127);
        }
        let product: u32 = ((255 - top) as u32) * ((255 - bottom) as u32);
        clamped(rounded_quotient(255 * 255 - 2 * product))
    }
}

/// Applies `mode` to one channel.
pub fn blend_channels(mode: BlendMode, top: u8, bottom: u8) -> (c: u8)
    ensures
        c == blend_channel(mode, top as int, bottom as int),
{
    match mode {
        BlendMode::Multiply => multiply_channels(top, bottom),
        BlendMode::Screen => screen_channels(top, bottom),
        BlendMode::Overlay => overlay_channels(top, bottom),
        BlendMode::Subtract => subtract_channels(top, bottom),
        BlendMode::Add => add_channels(top, bottom),
    }
}

/// Applies `mode` to two pixels, channel by channel.
pub fn blend_pixels(mode: BlendMode, top: &Pixel, bottom: &Pixel) -> (p: Pixel)
    ensures
        p == blend_pixel(mode, *top, *bottom),
{
    Pixel {
        red: blend_channels(mode, top.red, bottom.red),
        green: blend_channels(mode, top.green, bottom.green),
        blue: blend_channels(mode, top.blue, bottom.blue),
    }
}

/// Overlay of pixel `a` on top of pixel `b`.
pub fn overlay_pixels(a: &Pixel, b: &Pixel) -> (p: Pixel)
    ensures
        p == blend_pixel(BlendMode::Overlay, *a, *b),
{
    Pixel {
        red: overlay_channels(a.red, b.red),
        green: overlay_channels(a.green, b.green),
        blue: overlay_channels(a.blue, b.blue),
    }
}

/// Every operator yields a channel value in `0..=255`, whatever it is given.
pub proof fn lemma_blend_channel_in_range(mode: BlendMode, top: int, bottom: int)
    ensures
        0 <= blend_channel(mode, top, bottom) <= 255,
{
}

/// Each channel of a blended pixel is the operator's value for that channel
/// of the two pixels; nothing is lost when the value is stored in a byte.
pub proof fn lemma_blend_pixel_channels(mode: BlendMode, top: Pixel, bottom: Pixel)
    ensures
        forall|channel: Channel| #[trigger]
            blend_pixel(mode, top, bottom).channel(channel) == blend_channel(
                mode,
                top.channel(channel) as int,
                bottom.channel(channel) as int,
            ),
{
    lemma_blend_channel_in_range(mode, top.red as int, bottom.red as int);
    lemma_blend_channel_in_range(mode, top.green as int, bottom.green as int);
    lemma_blend_channel_in_range(mode, top.blue as int, bottom.blue as int);
}

/// Screen is multiply seen through the complement: screening two values is
/// complementing the product of their complements.
pub proof fn lemma_screen_is_dual(top: int, bottom: int)
    requires
        0 <= top <= 255,
        0 <= bottom <= 255,
    ensures
        screen_channel(top, bottom) == 255 - multiply_channel(255 - top, 255 - bottom),
{
    lemma_clamp_is_idle(top, bottom);
    lemma_clamp_is_idle(255 - top, 255 - bottom);
}

/// `round_div_255(n)` is the one integer `q` for which `255 * q` lies within
/// 127 of `n`: the nearest integer to `n / 255`. No `n` is halfway between two
/// candidates, 255 being odd.
pub proof fn lemma_round_div_255_nearest(n: int, q: int)
    ensures
        round_div_255(n) == q <==> 255 * q - 127 <= n <= 255 * q + 127,
{
}

/// Rounding the complement equals complementing the rounded value: since no
/// quotient by 255 falls on a half, it does not matter on which side of the
/// subtraction the rounding is done.
pub proof fn lemma_round_div_255_complement(n: int)
    ensures
        round_div_255(255 * 255 - n) == 255 - round_div_255(n),
{
    let m = 2 * n + 255;
    let q = m / 510;
    let r = m % 510;
    assert(m == 510 * q + r && 0 <= r < 510);
    assert(r == 2 * (n - 255 * q) + 255);
    assert(r != 0);
    assert(2 * (255 * 255 - n) + 255 == 510 * (255 - q) + (510 - r));
}

/// On channel values the clamp of multiply, screen and overlay has nothing
/// left to do: their rounded formulas are in range by themselves.
pub proof fn lemma_clamp_is_idle(top: int, bottom: int)
    requires
        0 <= top <= 255,
        0 <= bottom <= 255,
    ensures
        multiply_channel(top, bottom) == round_div_255(top * bottom),
        screen_channel(top, bottom) == 255 - round_div_255((255 - top) * (255 - bottom)),
        bottom < 128 ==> overlay_channel(top, bottom) == round_div_255(2 * (top * bottom)),
        bottom >= 128 ==> overlay_channel(top, bottom) == 255 - round_div_255(
            2 * ((255 - top) * (255 - bottom)),
        ),
{
    lemma_product_bound(top, bottom, 255);
    lemma_product_bound(255 - top, 255 - bottom, 255);
    if bottom < 128 {
        lemma_product_bound(top, bottom, 127);
    } else {
        lemma_product_bound(255 - top, 255 - bottom, 127);
        lemma_round_div_255_complement(2 * ((255 - top) * (255 - bottom)));
    }
}

/// Multiply, screen and add do not depend on which operand is on top.
pub proof fn lemma_commutative(top: int, bottom: int)
    ensures
        multiply_channel(top, bottom) == multiply_channel(bottom, top),
        screen_channel(top, bottom) == screen_channel(bottom, top),
        add_channel(top, bottom) == add_channel(bottom, top),
{
    assert(top * bottom == bottom * top) by (nonlinear_arith);
    assert((255 - top) * (255 - bottom) == (255 - bottom) * (255 - top)) by (nonlinear_arith);
}

/// Multiplying by a full channel changes nothing.
pub proof fn lemma_multiply_by_full(value: int)
    requires
        0 <= value <= 255,
    ensures
        multiply_channel(value, 255) == value,
        multiply_channel(255, value) == value,
{
}

/// Screening with an empty channel changes nothing.
pub proof fn lemma_screen_with_empty(value: int)
    requires
        0 <= value <= 255,
    ensures
        screen_channel(value, 0) == value,
        screen_channel(0, value) == value,
{
}

/// Multiplying a pixel by white, on either side, gives the pixel back.
pub proof fn lemma_multiply_pixel_by_white(p: Pixel)
    ensures
        blend_pixel(BlendMode::Multiply, p, Pixel { red: 255, green: 255, blue: 255 }) == p,
        blend_pixel(BlendMode::Multiply, Pixel { red: 255, green: 255, blue: 255 }, p) == p,
{
    lemma_multiply_by_full(p.red as int);
    lemma_multiply_by_full(p.green as int);
    lemma_multiply_by_full(p.blue as int);
}

/// Screening a pixel with black, on either side, gives the pixel back.
pub proof fn lemma_screen_pixel_with_black(p: Pixel)
    ensures
        blend_pixel(BlendMode::Screen, p, Pixel { red: 0, green: 0, blue: 0 }) == p,
        blend_pixel(BlendMode::Screen, Pixel { red: 0, green: 0, blue: 0 }, p) == p,
{
    lemma_screen_with_empty(p.red as int);
    lemma_screen_with_empty(p.green as int);
    lemma_screen_with_empty(p.blue as int);
}

} // verus!

//! The compositor: operators applied to whole images.
//!
//! An operator takes one or two images and returns a new one; the operands
//! are only read. The result carries the header of the first operand, the
//! top layer, even where the second one has other metadata. Two operands
//! must agree in width and in height.
use vstd::prelude::*;
use crate::adjust::{adjust, adjust_model, Multiplier};
use crate::blend::{
    blend_pixel, blend_pixels, lemma_commutative, lemma_multiply_pixel_by_white,
    lemma_screen_pixel_with_black, BlendMode,
};
use crate::error::CompositeError;
use crate::image::{model_of, ImageModel, RgbImage};
use crate::pixel::{Channel, Pixel};

verus! {

/// What the compositor can be asked to do.
#[derive(Clone, Copy, Debug)]
pub enum Operator {
    /// Combine the top layer with a bottom layer.
    Blend(BlendMode),
    /// Adjust the levels of a single layer.
    Adjust { channel: Channel, multiplier: Multiplier, offsets: (i32, i32, i32) },
}

/// The pixels of `top` blended over those of `bottom`, position by position.
pub open spec fn blend_pixel_seq(mode: BlendMode, top: Seq<Pixel>, bottom: Seq<Pixel>) -> Seq<
    Pixel,
> {
    Seq::new(top.len(), |i: int| blend_pixel(mode, top[i], bottom[i]))
}

/// What blending `top` over `bottom` yields: `DimensionMismatch` when the two
/// differ in width or height, else the header of `top` with the blended
/// pixels.
pub open spec fn blend_model(mode: BlendMode, top: ImageModel, bottom: ImageModel) -> Result<
    ImageModel,
    CompositeError,
> {
    if top.same_shape(bottom) {
        Ok(
            ImageModel {
                header: top.header,
                pixels: blend_pixel_seq(mode, top.pixels, bottom.pixels),
            },
        )
    } else {
        Err(CompositeError::DimensionMismatch)
    }
}

/// What applying `op` yields.
///
/// Whenever a second operand is given it must have the shape of the first,
/// also for an operator that reads only one. A blend without a second
/// operand has no shape to agree with and is a `DimensionMismatch` too.
pub open spec fn apply_model(op: Operator, top: ImageModel, bottom: Option<ImageModel>) -> Result<
    ImageModel,
    CompositeError,
> {
    match (op, bottom) {
        (Operator::Blend(mode), Some(layer)) => blend_model(mode, top, layer),
        (Operator::Blend(_), None) => Err(CompositeError::DimensionMismatch),
        (Operator::Adjust { channel, multiplier, offsets }, Some(layer)) => {
            if top.same_shape(layer) {
                Ok(adjust_model(top, channel, multiplier@, offsets))
            } else {
                Err(CompositeError::DimensionMismatch)
            }
        },
        (Operator::Adjust { channel, multiplier, offsets }, None) => Ok(
            adjust_model(top, channel, multiplier@, offsets),
        ),
    }
}

/// The model of an optional image.
pub open spec fn optional_model(image: Option<&RgbImage>) -> Option<ImageModel> {
    match image {
        Some(layer) => Some(layer@),
        None => None,
    }
}

/// Blends `top` over `bottom` with the given operator.
///
/// Fails with `DimensionMismatch` exactly when the two images differ in
/// width or in height.
pub fn blend(mode: BlendMode, top: &RgbImage, bottom: &RgbImage) -> (r: Result<
    RgbImage,
    CompositeError,
>)
    ensures
        model_of(r) == blend_model(mode, top@, bottom@),
        r is Err <==> !top@.same_shape(bottom@),
        r matches Ok(image) ==> image@.valid(),
{
    if top.width() != bottom.width() || top.height() != bottom.height() {
        return Err(CompositeError::DimensionMismatch);
    }
    let upper = top.pixels();
    let lower = bottom.pixels();
    let mut pixel_data: Vec<Pixel> = Vec::with_capacity(upper.len());
    let mut i: usize = 0;
    while i < upper.len()
        invariant
            i <= upper.len(),
            upper.len() == lower.len(),
            upper@ == top@.pixels,
            lower@ == bottom@.pixels,
            pixel_data@.len() == i,
            forall|j: int|
                0 <= j < i ==> pixel_data@[j] == blend_pixel(mode, #[trigger] upper@[j], lower@[j]),
        decreases upper.len() - i,
    {
        pixel_data.push(blend_pixels(mode, &upper[i], &lower[i]));
        i += 1;
    }
    assert(pixel_data@ =~= blend_pixel_seq(mode, top@.pixels, bottom@.pixels));
    Ok(RgbImage::from_parts(*top.header(), pixel_data))
}

/// Multiply: `a` over `b`.
pub fn multiply(a: &RgbImage, b: &RgbImage) -> (r: Result<RgbImage, CompositeError>)
    ensures
        model_of(r) == blend_model(BlendMode::Multiply, a@, b@),
        r matches Ok(image) ==> image@.valid(),
{
    blend(BlendMode::Multiply, a, b)
}

/// Subtract: `top` is taken away from `bottom`.
pub fn subtract(top: &RgbImage, bottom: &RgbImage) -> (r: Result<RgbImage, CompositeError>)
    ensures
        model_of(r) == blend_model(BlendMode::Subtract, top@, bottom@),
        r matches Ok(image) ==> image@.valid(),
{
    blend(BlendMode::Subtract, top, bottom)
}

/// Screen: `a` over `b`.
pub fn screen(a: &RgbImage, b: &RgbImage) -> (r: Result<RgbImage, CompositeError>)
    ensures
        model_of(r) == blend_model(BlendMode::Screen, a@, b@),
        r matches Ok(image) ==> image@.valid(),
{
    blend(BlendMode::Screen, a, b)
}

/// Overlay: `a` over `b`; `b` decides between the dark and the light branch.
pub fn overlay(a: &RgbImage, b: &RgbImage) -> (r: Result<RgbImage, CompositeError>)
    ensures
        model_of(r) == blend_model(BlendMode::Overlay, a@, b@),
        r matches Ok(image) ==> image@.valid(),
{
    blend(BlendMode::Overlay, a, b)
}

/// Add: `a` over `b`, saturating.
pub fn add(a: &RgbImage, b: &RgbImage) -> (r: Result<RgbImage, CompositeError>)
    ensures
        model_of(r) == blend_model(BlendMode::Add, a@, b@),
        r matches Ok(image) ==> image@.valid(),
{
    blend(BlendMode::Add, a, b)
}

/// Applies `op` to `top` and, where there is one, `bottom`.
///
/// Fails with `DimensionMismatch` exactly when `bottom` is given and differs
/// from `top` in width or height, or when a blend is asked for without a
/// `bottom`.
pub fn apply(op: Operator, top: &RgbImage, bottom: Option<&RgbImage>) -> (r: Result<
    RgbImage,
    CompositeError,
>)
    ensures
        model_of(r) == apply_model(op, top@, optional_model(bottom)),
        r matches Ok(image) ==> image@.valid(),
{
    match bottom {
        Some(layer) => {
            if top.width() != layer.width() || top.height() != layer.height() {
                return Err(CompositeError::DimensionMismatch);
            }
            match op {
                Operator::Blend(mode) => blend(mode, top, layer),
                Operator::Adjust { channel, multiplier, offsets } => Ok(
                    adjust(top, channel, multiplier, offsets),
                ),
            }
        },
        None => match op {
            Operator::Blend(_) => Err(CompositeError::DimensionMismatch),
            Operator::Adjust { channel, multiplier, offsets } => Ok(
                adjust(top, channel, multiplier, offsets),
            ),
        },
    }
}

/// Whether every pixel of `pixels` is `pixel`.
pub open spec fn filled_with(pixels: Seq<Pixel>, pixel: Pixel) -> bool {
    forall|i: int| 0 <= i < pixels.len() ==> pixels[i] == pixel
}

/// Blending fails exactly when the shapes differ, whatever the operator; in
/// particular it fails whenever the widths differ.
pub proof fn lemma_blend_fails_on_mismatch(mode: BlendMode, top: ImageModel, bottom: ImageModel)
    ensures
        blend_model(mode, top, bottom) is Err <==> !top.same_shape(bottom),
        top.header.width != bottom.header.width ==> blend_model(mode, top, bottom) == Err::<
            ImageModel,
            CompositeError,
        >(CompositeError::DimensionMismatch),
        top.header.height != bottom.header.height ==> blend_model(mode, top, bottom) == Err::<
            ImageModel,
            CompositeError,
        >(CompositeError::DimensionMismatch),
{
}

/// A second operand of another shape makes every operator fail, also one
/// that would not read it.
pub proof fn lemma_apply_fails_on_mismatch(op: Operator, top: ImageModel, bottom: ImageModel)
    requires
        !top.same_shape(bottom),
    ensures
        apply_model(op, top, Some(bottom)) == Err::<ImageModel, CompositeError>(
            CompositeError::DimensionMismatch,
        ),
{
}

/// The blend of two valid images of one shape is a valid image of that shape
/// with the header of the top layer.
pub proof fn lemma_blend_keeps_shape(mode: BlendMode, top: ImageModel, bottom: ImageModel)
    requires
        top.valid(),
        top.same_shape(bottom),
    ensures
        blend_model(mode, top, bottom) is Ok,
        blend_model(mode, top, bottom)->Ok_0.header == top.header,
        blend_model(mode, top, bottom)->Ok_0.valid(),
{
}

/// Multiply identity: an image multiplied with an all-white image of its
/// shape, on either side, keeps its pixels; with the white layer below, the
/// result is the image itself.
pub proof fn lemma_multiply_identity(image: ImageModel, white: ImageModel)
    requires
        image.valid(),
        white.valid(),
        image.same_shape(white),
        filled_with(white.pixels, Pixel { red: 255, green: 255, blue: 255 }),
    ensures
        blend_model(BlendMode::Multiply, image, white) == Ok::<ImageModel, CompositeError>(image),
        blend_model(BlendMode::Multiply, white, image)->Ok_0.pixels == image.pixels,
{
    let below = blend_pixel_seq(BlendMode::Multiply, image.pixels, white.pixels);
    let above = blend_pixel_seq(BlendMode::Multiply, white.pixels, image.pixels);
    assert forall|i: int| 0 <= i < image.pixels.len() implies below[i] == image.pixels[i]
        && above[i] == image.pixels[i] by {
        lemma_multiply_pixel_by_white(image.pixels[i]);
    }
    assert(below =~= image.pixels);
    assert(above =~= image.pixels);
}

/// Screen identity: an image screened with an all-black image of its shape,
/// on either side, keeps its pixels; with the black layer below, the result
/// is the image itself.
pub proof fn lemma_screen_identity(image: ImageModel, black: ImageModel)
    requires
        image.valid(),
        black.valid(),
        image.same_shape(black),
        filled_with(black.pixels, Pixel { red: 0, green: 0, blue: 0 }),
    ensures
        blend_model(BlendMode::Screen, image, black) == Ok::<ImageModel, CompositeError>(image),
        blend_model(BlendMode::Screen, black, image)->Ok_0.pixels == image.pixels,
{
    let below = blend_pixel_seq(BlendMode::Screen, image.pixels, black.pixels);
    let above = blend_pixel_seq(BlendMode::Screen, black.pixels, image.pixels);
    assert forall|i: int| 0 <= i < image.pixels.len() implies below[i] == image.pixels[i]
        && above[i] == image.pixels[i] by {
        lemma_screen_pixel_with_black(image.pixels[i]);
    }
    assert(below =~= image.pixels);
    assert(above =~= image.pixels);
}

/// Multiply, screen and add give the same pixels whichever layer is on top;
/// only the header follows the top layer.
pub proof fn lemma_blend_commutes(mode: BlendMode, a: ImageModel, b: ImageModel)
    requires
        a.valid(),
        b.valid(),
        a.same_shape(b),
        mode == BlendMode::Multiply || mode == BlendMode::Screen || mode == BlendMode::Add,
    ensures
        blend_model(mode, a, b)->Ok_0.pixels == blend_model(mode, b, a)->Ok_0.pixels,
{
    let forth = blend_pixel_seq(mode, a.pixels, b.pixels);
    let back = blend_pixel_seq(mode, b.pixels, a.pixels);
    assert forall|i: int| 0 <= i < a.pixels.len() implies forth[i] == back[i] by {
        let p = a.pixels[i];
        let q = b.pixels[i];
        lemma_commutative(p.red as int, q.red as int);
        lemma_commutative(p.green as int, q.green as int);
        lemma_commutative(p.blue as int, q.blue as int);
    }
    assert(forth =~= back);
}

} // verus!

//! The in-memory raster and its mathematical model.
use vstd::prelude::*;
use crate::error::FormatError;
use crate::header::Header;
use crate::pixel::Pixel;

verus! {

/// What an image is, mathematically: a header and the row-major sequence of
/// its pixels, the first being the top-left one of the stored orientation.
pub struct ImageModel {
    pub header: Header,
    pub pixels: Seq<Pixel>,
}

impl ImageModel {
    /// The raster is non-empty and holds exactly `width * height` pixels.
    pub open spec fn valid(self) -> bool {
        &&& self.header.width > 0
        &&& self.header.height > 0
        &&& self.pixels.len() == self.header.pixel_count()
    }

    /// Both images have the same width and the same height.
    pub open spec fn same_shape(self, other: ImageModel) -> bool {
        self.header.width == other.header.width && self.header.height == other.header.height
    }
}

/// A raster image: a header and its pixels.
///
/// Every value of this type is valid in the sense of [`ImageModel::valid`]:
/// the only ways to obtain one are [`RgbImage::new`], the decoder and the
/// operators, and none of them hands out anything else. An image is never
/// changed once it exists; operators return new images.
#[derive(Debug, PartialEq, Eq)]
pub struct RgbImage {
    header: Header,
    pixel_data: Vec<Pixel>,
}

impl View for RgbImage {
    type V = ImageModel;

    closed spec fn view(&self) -> ImageModel {
        ImageModel { header: self.header, pixels: self.pixel_data@ }
    }
}

impl Clone for RgbImage {
    /// An independent copy with the same header and pixels.
    fn clone(&self) -> (copy: Self)
        ensures
            copy@ == self@,
    {
        proof {
            use_type_invariant(self);
        }
        let pixel_data = self.pixel_data.clone();
        assert(pixel_data@ =~= self.pixel_data@);
        RgbImage { header: self.header, pixel_data }
    }
}

impl RgbImage {
    #[verifier::type_invariant]
    spec fn well_formed(self) -> bool {
        self@.valid()
    }

    /// Builds an image from a header and its pixels.
    ///
    /// Fails with `Malformed` exactly when the width or the height is zero or
    /// the number of pixels is not `width * height`.
    pub fn new(header: Header, pixel_data: Vec<Pixel>) -> (r: Result<RgbImage, FormatError>)
        ensures
            match r {
                Ok(image) => image@ == (ImageModel { header, pixels: pixel_data@ })
                    && image@.valid(),
                Err(e) => e == FormatError::Malformed && !(ImageModel {
                    header,
                    pixels: pixel_data@,
                }).valid(),
            },
    {
        if header.width == 0 || header.height == 0 {
            return Err(FormatError::Malformed);
        }
        proof {
            lemma_pixel_count_bound(header);
        }
        let expected: u64 = (header.width as u64) * (header.height as u64);
        if pixel_data.len() as u64 != expected {
            return Err(FormatError::Malformed);
        }
        Ok(RgbImage { header, pixel_data })
    }

    /// Puts together an image whose parts are already known to fit.
    pub(crate) fn from_parts(header: Header, pixel_data: Vec<Pixel>) -> (image: RgbImage)
        requires
            (ImageModel { header, pixels: pixel_data@ }).valid(),
        ensures
            image@ == (ImageModel { header, pixels: pixel_data@ }),
    {
        RgbImage { header, pixel_data }
    }

    /// The header.
    pub fn header(&self) -> (header: &Header)
        ensures
            *header == self@.header,
            self@.valid(),
    {
        proof {
            use_type_invariant(self);
        }
        &self.header
    }

    /// Width in pixels; never zero.
    pub fn width(&self) -> (width: u16)
        ensures
            width == self@.header.width,
            width > 0,
    {
        proof {
            use_type_invariant(self);
        }
        self.header.width
    }

    /// Height in pixels; never zero.
    pub fn height(&self) -> (height: u16)
        ensures
            height == self@.header.height,
            height > 0,
    {
        proof {
            use_type_invariant(self);
        }
        self.header.height
    }

    /// The pixels, row by row.
    pub fn pixels(&self) -> (pixels: &[Pixel])
        ensures
            pixels@ == self@.pixels,
            self@.valid(),
    {
        proof {
            use_type_invariant(self);
        }
        self.pixel_data.as_slice()
    }
}

/// The model of the image inside a result; errors pass through unchanged.
pub open spec fn model_of<E>(r: Result<RgbImage, E>) -> Result<ImageModel, E> {
    match r {
        Ok(image) => Ok(image@),
        Err(e) => Err(e),
    }
}

/// The number of pixels that a header announces fits in 32 bits.
pub proof fn lemma_pixel_count_bound(header: Header)
    ensures
        header.pixel_count() == (header.width as int) * (header.height as int),
        header.pixel_count() <= 65535 * 65535,
        header.width > 0 && header.height > 0 ==> header.pixel_count() > 0,
{
    let w = header.width as int;
    let h = header.height as int;
    assert(0 <= w * h <= 65535 * 65535) by (nonlinear_arith)
        requires
            0 <= w <= 65535,
            0 <= h <= 65535,
    ;
    assert(w > 0 && h > 0 ==> w * h > 0) by (nonlinear_arith);
}

} // verus!

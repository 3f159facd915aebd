//! One decoded source image and the operations that derive new images from it.
use vstd::prelude::*;

use crate::backend::lanczos3_resampled;
use crate::color::{gray, grayscale};
use crate::convolve::{convolved, noise_reduction, smoothing_weights};
use crate::equalize::{equalize, equalized};
use crate::geometry::{is_quarter_turn, resize, resize_fits, rotate, rotated};
use crate::raster::{ImageError, PixelBuffer, RasterView};

verus! {

/// The model of an operation's outcome: the produced raster, or the error.
pub open spec fn outcome(r: Result<PixelBuffer, ImageError>) -> Result<RasterView, ImageError> {
    match r {
        Ok(b) => Ok(b@),
        Err(e) => Err(e),
    }
}

pub open spec fn has_pixels(v: RasterView) -> bool {
    v.width > 0 && v.height > 0
}

/// What scaling `v` to `new_width` x `new_height` yields.
pub open spec fn scale_outcome(v: RasterView, new_width: u32, new_height: u32) -> Result<RasterView, ImageError> {
    if !has_pixels(v) {
        Err(ImageError::EmptyImage)
    } else if new_width == 0 || new_height == 0 || !resize_fits(v.width, new_width as nat, new_height as nat) {
        Err(ImageError::InvalidDimension)
    } else {
        Ok(
            RasterView {
                width: new_width as nat,
                height: new_height as nat,
                bytes: lanczos3_resampled(v.bytes, v.width, v.height, new_width as nat, new_height as nat),
            },
        )
    }
}

/// What rotating `v` by `degrees` yields.
pub open spec fn rotate_outcome(v: RasterView, degrees: u32) -> Result<RasterView, ImageError> {
    if !has_pixels(v) {
        Err(ImageError::EmptyImage)
    } else if !is_quarter_turn(degrees) {
        Err(ImageError::InvalidArgument)
    } else {
        Ok(rotated(v, degrees))
    }
}

/// What a pixel-wise operation yields: `Ok(f)` unless `v` has no pixels.
pub open spec fn unless_empty(v: RasterView, f: RasterView) -> Result<RasterView, ImageError> {
    if !has_pixels(v) {
        Err(ImageError::EmptyImage)
    } else {
        Ok(f)
    }
}

/// A source image, named by where it was read from, with the operations that
/// derive new images from it. The source is never modified.
pub struct ImageOps {
    location: String,
    image: PixelBuffer,
}

impl ImageOps {
    /// The source image's model.
    pub closed spec fn source(&self) -> RasterView {
        self.image@
    }

    pub closed spec fn location_view(&self) -> Seq<char> {
        self.location@
    }

    /// Holds `image`, decoded from `location`.
    pub fn new(location: String, image: PixelBuffer) -> (r: ImageOps)
        requires
            image.wf(),
        ensures
            r.source() == image@,
            r.location_view() == location@,
            r.source().wf(),
    {
        ImageOps { location, image }
    }

    pub fn location(&self) -> (r: &String)
        ensures
            r@ == self.location_view(),
    {
        &self.location
    }

    pub fn image(&self) -> (r: &PixelBuffer)
        ensures
            r@ == self.source(),
    {
        &self.image
    }

    /// The source resampled to `new_width` x `new_height` (Lanczos, radius 3).
    pub fn scale(&self, new_width: u32, new_height: u32) -> (r: Result<PixelBuffer, ImageError>)
        requires
            self.source().wf(),
        ensures
            outcome(r) == scale_outcome(self.source(), new_width, new_height),
            r.is_ok() ==> r.unwrap().wf(),
    {
        resize(&self.image, new_width, new_height)
    }

    /// The source with each pixel's luma in its colour channels, alpha kept.
    pub fn gray_scale(&self) -> (r: Result<PixelBuffer, ImageError>)
        requires
            self.source().wf(),
        ensures
            outcome(r) == unless_empty(self.source(), gray(self.source())),
            r.is_ok() ==> r.unwrap().wf(),
    {
        grayscale(&self.image)
    }

    /// The source turned clockwise by `rotation` degrees: 0, 90, 180 or 270.
    pub fn rotate(&self, rotation: u32) -> (r: Result<PixelBuffer, ImageError>)
        requires
            self.source().wf(),
        ensures
            outcome(r) == rotate_outcome(self.source(), rotation),
            r.is_ok() ==> r.unwrap().wf(),
    {
        rotate(&self.image, rotation)
    }

    /// The source smoothed with the kernel `1 2 1 / 2 4 2 / 1 2 1`.
    pub fn noise_reduction(&self) -> (r: Result<PixelBuffer, ImageError>)
        requires
            self.source().wf(),
        ensures
            outcome(r) == unless_empty(self.source(), convolved(self.source(), smoothing_weights())),
            r.is_ok() ==> r.unwrap().wf(),
    {
        noise_reduction(&self.image)
    }

    /// The source's luma histogram equalized, as an opaque gray image.
    pub fn histo_equilizer(&self) -> (r: Result<PixelBuffer, ImageError>)
        requires
            self.source().wf(),
        ensures
            outcome(r) == unless_empty(self.source(), equalized(self.source())),
            r.is_ok() ==> r.unwrap().wf(),
    {
        equalize(&self.image)
    }
}

} // verus!

//! Calls into the `image` crate for rotation, resampling and luma.
use vstd::prelude::*;

use crate::color::luma;
use crate::geometry::{resize_fits, rot180, rot270, rot90};
use crate::raster::RasterView;

verus! {

/// The bytes of an RGBA image of `width` x `height` pixels resampled by
/// `image::imageops::resize` with `FilterType::Lanczos3` to `new_width` x
/// `new_height`.
pub uninterp spec fn lanczos3_resampled(
    bytes: Seq<u8>,
    width: nat,
    height: nat,
    new_width: nat,
    new_height: nat,
) -> Seq<u8>;

/// Relies on `image::imageops::rotate90`: the output is `height` wide and
/// `width` high, and the pixel at `(x, y)` lands at `(height - 1 - y, x)`.
#[verifier::external_body]
pub(crate) fn rotate90_bytes(width: u32, height: u32, data: &Vec<u8>) -> (r: Vec<u8>)
    requires
        data@.len() == width * height * 4,
    ensures
        r@ == rot90(RasterView { width: width as nat, height: height as nat, bytes: data@ }).bytes,
{
    let img = image::RgbaImage::from_raw(width, height, data.clone()).unwrap();
    image::imageops::rotate90(&img).into_raw()
}

/// Relies on `image::imageops::rotate180`: same size, the pixel at `(x, y)`
/// lands at `(width - 1 - x, height - 1 - y)`.
#[verifier::external_body]
pub(crate) fn rotate180_bytes(width: u32, height: u32, data: &Vec<u8>) -> (r: Vec<u8>)
    requires
        data@.len() == width * height * 4,
    ensures
        r@ == rot180(RasterView { width: width as nat, height: height as nat, bytes: data@ }).bytes,
{
    let img = image::RgbaImage::from_raw(width, height, data.clone()).unwrap();
    image::imageops::rotate180(&img).into_raw()
}

/// Relies on `image::imageops::rotate270`: the output is `height` wide and
/// `width` high, and the pixel at `(x, y)` lands at `(y, width - 1 - x)`.
#[verifier::external_body]
pub(crate) fn rotate270_bytes(width: u32, height: u32, data: &Vec<u8>) -> (r: Vec<u8>)
    requires
        data@.len() == width * height * 4,
    ensures
        r@ == rot270(RasterView { width: width as nat, height: height as nat, bytes: data@ }).bytes,
{
    let img = image::RgbaImage::from_raw(width, height, data.clone()).unwrap();
    image::imageops::rotate270(&img).into_raw()
}

/// Relies on `image::imageops::resize` with `FilterType::Lanczos3`: the result
/// has `new_width` x `new_height` pixels, and is a plain copy when the size
/// does not change. Both sizes are non-empty, so neither of its sampling
/// passes meets its empty-input assertion.
#[verifier::external_body]
pub(crate) fn resize_lanczos3(width: u32, height: u32, data: &Vec<u8>, new_width: u32, new_height: u32) -> (r: Vec<u8>)
    requires
        data@.len() == width * height * 4,
        width > 0,
        height > 0,
        new_width > 0,
        new_height > 0,
        resize_fits(width as nat, new_width as nat, new_height as nat),
    ensures
        r@ == lanczos3_resampled(data@, width as nat, height as nat, new_width as nat, new_height as nat),
        r@.len() == new_width * new_height * 4,
        (new_width == width && new_height == height) ==> r@ == data@,
{
    let img = image::RgbaImage::from_raw(width, height, data.clone()).unwrap();
    image::imageops::resize(&img, new_width, new_height, image::imageops::FilterType::Lanczos3).into_raw()
}

/// Relies on `image::imageops::grayscale` on an RGBA image: one byte per
/// pixel, `(2126 * r + 7152 * g + 722 * b) / 10000` in integers.
#[verifier::external_body]
pub(crate) fn luma_bytes(width: u32, height: u32, data: &Vec<u8>) -> (r: Vec<u8>)
    requires
        data@.len() == width * height * 4,
    ensures
        r@.len() == width * height,
        forall|p: int|
            0 <= p < width * height ==> #[trigger] r@[p] == luma(data@[4 * p], data@[4 * p + 1], data@[4 * p + 2]),
{
    let img = image::RgbaImage::from_raw(width, height, data.clone()).unwrap();
    image::imageops::grayscale(&img).into_raw()
}

} // verus!

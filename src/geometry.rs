//! Quarter-turn rotation and Lanczos resampling.
use vstd::prelude::*;

use crate::backend::{lanczos3_resampled, resize_lanczos3, rotate180_bytes, rotate270_bytes, rotate90_bytes};
use crate::raster::{lemma_index_in_bounds, lemma_raster_ext, raster_from_fn, ImageError, PixelBuffer, RasterView};

verus! {

/// Largest byte size of a buffer that resampling allocates.
pub const MAX_BUFFER_BYTES: u64 = 0x7fff_ffff;

/// The raster turned a quarter turn clockwise: `(x, y)` moves to `(height - 1 - y, x)`.
pub open spec fn rot90(v: RasterView) -> RasterView {
    raster_from_fn(v.height, v.width, |x: int, y: int, c: int| v.at(y, v.height - 1 - x, c))
}

/// The raster turned half a turn: `(x, y)` moves to `(width - 1 - x, height - 1 - y)`.
pub open spec fn rot180(v: RasterView) -> RasterView {
    raster_from_fn(v.width, v.height, |x: int, y: int, c: int| v.at(v.width - 1 - x, v.height - 1 - y, c))
}

/// The raster turned three quarter turns clockwise: `(x, y)` moves to `(y, width - 1 - x)`.
pub open spec fn rot270(v: RasterView) -> RasterView {
    raster_from_fn(v.height, v.width, |x: int, y: int, c: int| v.at(v.width - 1 - y, x, c))
}

/// The angles, in degrees, that `rotate` accepts.
pub open spec fn is_quarter_turn(degrees: u32) -> bool {
    degrees == 0 || degrees == 90 || degrees == 180 || degrees == 270
}

/// The raster turned clockwise by `degrees`, one of 0, 90, 180 and 270.
pub open spec fn rotated(v: RasterView, degrees: u32) -> RasterView {
    if degrees == 90 {
        rot90(v)
    } else if degrees == 180 {
        rot180(v)
    } else if degrees == 270 {
        rot270(v)
    } else {
        v
    }
}

pub proof fn lemma_rot90_at(v: RasterView, x: int, y: int, c: int)
    requires
        0 <= x < v.height,
        0 <= y < v.width,
        0 <= c < 4,
    ensures
        rot90(v).wf(),
        rot90(v).at(x, y, c) == v.at(y, v.height - 1 - x, c),
{
    lemma_index_in_bounds(v.height as int, v.width as int, x, y, c);
}

pub proof fn lemma_rot180_at(v: RasterView, x: int, y: int, c: int)
    requires
        0 <= x < v.width,
        0 <= y < v.height,
        0 <= c < 4,
    ensures
        rot180(v).wf(),
        rot180(v).at(x, y, c) == v.at(v.width - 1 - x, v.height - 1 - y, c),
{
    lemma_index_in_bounds(v.width as int, v.height as int, x, y, c);
}

/// Two quarter turns make a half turn.
pub proof fn lemma_rot90_twice(v: RasterView)
    requires
        v.wf(),
    ensures
        rot90(rot90(v)) == rot180(v),
{
    let u = rot90(v);
    let a = rot90(u);
    let b = rot180(v);
    if v.width > 0 && v.height > 0 {
        lemma_rot90_at(v, 0, 0, 0);
        lemma_rot90_at(u, 0, 0, 0);
        lemma_rot180_at(v, 0, 0, 0);
    }
    assert forall|x: int, y: int, c: int|
        0 <= x < a.width && 0 <= y < a.height && 0 <= c < 4 implies #[trigger] a.at(x, y, c) == b.at(x, y, c) by {
        lemma_rot90_at(u, x, y, c);
        lemma_rot90_at(v, y, v.width - 1 - x, c);
        lemma_rot180_at(v, x, y, c);
    }
    lemma_raster_ext(a, b);
}

/// Two half turns give back the raster.
pub proof fn lemma_rot180_twice(v: RasterView)
    requires
        v.wf(),
    ensures
        rot180(rot180(v)) == v,
{
    let u = rot180(v);
    let a = rot180(u);
    assert forall|x: int, y: int, c: int|
        0 <= x < a.width && 0 <= y < a.height && 0 <= c < 4 implies #[trigger] a.at(x, y, c) == v.at(x, y, c) by {
        lemma_rot180_at(u, x, y, c);
        lemma_rot180_at(v, v.width - 1 - x, v.height - 1 - y, c);
    }
    lemma_raster_ext(a, v);
}

/// Four quarter turns give back the same raster, dimensions and every
/// channel of every pixel.
pub proof fn lemma_four_quarter_turns(v: RasterView)
    requires
        v.wf(),
    ensures
        rot90(rot90(rot90(rot90(v)))) == v,
{
    lemma_rot90_twice(v);
    lemma_rot90_twice(rot90(rot90(v)));
    lemma_rot180_twice(v);
}

/// A half turn keeps the width and the height; a quarter turn either way swaps them.
pub proof fn lemma_rotation_dims(v: RasterView)
    ensures
        rotated(v, 180).width == v.width && rotated(v, 180).height == v.height,
        rotated(v, 90).width == v.height && rotated(v, 90).height == v.width,
        rotated(v, 270).width == v.height && rotated(v, 270).height == v.width,
{
}

/// Turns the image clockwise by `degrees`. Angles other than 0, 90, 180 and
/// 270 are refused with `InvalidArgument`; an image without pixels with
/// `EmptyImage`.
pub fn rotate(buf: &PixelBuffer, degrees: u32) -> (r: Result<PixelBuffer, ImageError>)
    requires
        buf.wf(),
    ensures
        (buf@.width == 0 || buf@.height == 0) ==> r == Err::<PixelBuffer, ImageError>(ImageError::EmptyImage),
        (buf@.width > 0 && buf@.height > 0 && !is_quarter_turn(degrees)) ==> r == Err::<PixelBuffer, ImageError>(
            ImageError::InvalidArgument,
        ),
        (buf@.width > 0 && buf@.height > 0 && is_quarter_turn(degrees)) ==> r.is_ok() && r.unwrap().wf()
            && r.unwrap()@ == rotated(buf@, degrees),
{
    if buf.is_empty() {
        return Err(ImageError::EmptyImage);
    }
    let w = buf.width();
    let h = buf.height();
    if degrees == 0 {
        Ok(buf.duplicate())
    } else if degrees == 90 {
        let data = rotate90_bytes(w, h, buf.data());
        let out = PixelBuffer::from_parts(h, w, data);
        proof {
            lemma_rot90_at(buf@, 0, 0, 0);
        }
        Ok(out)
    } else if degrees == 180 {
        let data = rotate180_bytes(w, h, buf.data());
        let out = PixelBuffer::from_parts(w, h, data);
        proof {
            lemma_rot180_at(buf@, 0, 0, 0);
        }
        Ok(out)
    } else if degrees == 270 {
        let data = rotate270_bytes(w, h, buf.data());
        let out = PixelBuffer::from_parts(h, w, data);
        proof {
            assert(rot270(buf@).wf());
        }
        Ok(out)
    } else {
        Err(ImageError::InvalidArgument)
    }
}

/// Whether resampling to `new_width` x `new_height` stays within the
/// allocation bound, for its final buffer and for the intermediate one of
/// `width` x `new_height` four-channel 32-bit samples.
pub open spec fn resize_fits(width: nat, new_width: nat, new_height: nat) -> bool {
    new_width * new_height * 4 <= MAX_BUFFER_BYTES && width * new_height * 16 <= MAX_BUFFER_BYTES
}

/// Resamples the image to `new_width` x `new_height` with a Lanczos filter of
/// radius 3.
pub fn resize(buf: &PixelBuffer, new_width: u32, new_height: u32) -> (r: Result<PixelBuffer, ImageError>)
    requires
        buf.wf(),
    ensures
        (buf@.width == 0 || buf@.height == 0) ==> r == Err::<PixelBuffer, ImageError>(ImageError::EmptyImage),
        (buf@.width > 0 && buf@.height > 0 && (new_width == 0 || new_height == 0 || !resize_fits(
            buf@.width,
            new_width as nat,
            new_height as nat,
        ))) ==> r == Err::<PixelBuffer, ImageError>(ImageError::InvalidDimension),
        (buf@.width > 0 && buf@.height > 0 && new_width > 0 && new_height > 0 && resize_fits(
            buf@.width,
            new_width as nat,
            new_height as nat,
        )) ==> r.is_ok() && r.unwrap().wf() && r.unwrap()@ == (RasterView {
            width: new_width as nat,
            height: new_height as nat,
            bytes: lanczos3_resampled(buf@.bytes, buf@.width, buf@.height, new_width as nat, new_height as nat),
        }),
        r.is_ok() && new_width == buf@.width && new_height == buf@.height ==> r.unwrap()@ == buf@,
{
    if buf.is_empty() {
        return Err(ImageError::EmptyImage);
    }
    if new_width == 0 || new_height == 0 {
        return Err(ImageError::InvalidDimension);
    }
    let w = buf.width();
    let h = buf.height();
    assert((new_width as u128) * (new_height as u128) <= 0xffff_ffffu128 * 0xffff_ffffu128) by (nonlinear_arith)
        requires new_width <= 0xffff_ffffu32, new_height <= 0xffff_ffffu32;
    assert((w as u128) * (new_height as u128) <= 0xffff_ffffu128 * 0xffff_ffffu128) by (nonlinear_arith)
        requires w <= 0xffff_ffffu32, new_height <= 0xffff_ffffu32;
    let out_bytes: u128 = (new_width as u128) * (new_height as u128) * 4;
    let tmp_bytes: u128 = (w as u128) * (new_height as u128) * 16;
    if out_bytes > MAX_BUFFER_BYTES as u128 || tmp_bytes > MAX_BUFFER_BYTES as u128 {
        return Err(ImageError::InvalidDimension);
    }
    let data = resize_lanczos3(w, h, buf.data(), new_width, new_height);
    Ok(PixelBuffer::from_parts(new_width, new_height, data))
}

} // verus!

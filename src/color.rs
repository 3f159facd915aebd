//! Luma projection.
use vstd::prelude::*;

use crate::backend::luma_bytes;
use crate::raster::{ImageError, PixelBuffer, RasterView};

verus! {

/// Perceptual brightness of an sRGB colour, with the Rec. 709 weights
/// 0.2126, 0.7152 and 0.0722 in integer arithmetic.
pub open spec fn luma(r: u8, g: u8, b: u8) -> u8 {
    ((2126 * r + 7152 * g + 722 * b) / 10000) as u8
}

/// Luma of pixel `p` (counted row-major) of an RGBA byte sequence.
pub open spec fn luma_at(bytes: Seq<u8>, p: int) -> u8 {
    luma(bytes[4 * p], bytes[4 * p + 1], bytes[4 * p + 2])
}

/// The raster with each pixel's luma in its three colour channels and its
/// alpha kept.
pub open spec fn gray(v: RasterView) -> RasterView {
    RasterView {
        width: v.width,
        height: v.height,
        bytes: Seq::new(
            v.bytes.len(),
            |i: int| if i % 4 == 3 { v.bytes[i] } else { luma_at(v.bytes, i / 4) },
        ),
    }
}

/// A gray level is its own luma.
pub proof fn lemma_luma_of_gray(l: u8)
    ensures
        luma(l, l, l) == l,
{
}

/// Converting to grayscale a second time changes nothing.
pub proof fn lemma_gray_idempotent(v: RasterView)
    requires
        v.wf(),
    ensures
        gray(gray(v)) == gray(v),
{
    let g = gray(v);
    assert forall|i: int| 0 <= i < g.bytes.len() implies gray(g).bytes[i] == g.bytes[i] by {
        if i % 4 != 3 {
            let p = i / 4;
            assert(4 * p + 3 < v.bytes.len());
            assert((4 * p) / 4 == p && (4 * p + 1) / 4 == p && (4 * p + 2) / 4 == p);
            assert((4 * p) % 4 == 0 && (4 * p + 1) % 4 == 1 && (4 * p + 2) % 4 == 2);
            lemma_luma_of_gray(luma_at(v.bytes, p));
        }
    }
    assert(gray(g).bytes =~= g.bytes);
}

/// Writes each pixel's luma into its red, green and blue channels and keeps
/// its alpha.
pub fn grayscale(buf: &PixelBuffer) -> (r: Result<PixelBuffer, ImageError>)
    requires
        buf.wf(),
    ensures
        (buf@.width == 0 || buf@.height == 0) ==> r == Err::<PixelBuffer, ImageError>(ImageError::EmptyImage),
        (buf@.width > 0 && buf@.height > 0) ==> r.is_ok() && r.unwrap().wf() && r.unwrap()@ == gray(buf@),
{
    if buf.is_empty() {
        return Err(ImageError::EmptyImage);
    }
    let data = buf.data();
    let lumas = luma_bytes(buf.width(), buf.height(), data);
    let n = data.len();
    let mut out: Vec<u8> = Vec::with_capacity(n);
    let mut i: usize = 0;
    while i < n
        invariant
            n == data@.len(),
            data@ == buf@.bytes,
            data@.len() == buf@.width * buf@.height * 4,
            lumas@.len() == buf@.width * buf@.height,
            forall|p: int|
                0 <= p < buf@.width * buf@.height ==> #[trigger] lumas@[p] == luma_at(data@, p),
            0 <= i <= n,
            gray(buf@).bytes.len() == n,
            out@.len() == i,
            forall|j: int| 0 <= j < i ==> out@[j] == gray(buf@).bytes[j],
        decreases n - i,
    {
        assert(i / 4 < buf@.width * buf@.height);
        if i % 4 == 3 {
            out.push(data[i]);
        } else {
            out.push(lumas[i / 4]);
        }
        i = i + 1;
    }
    assert(out@ =~= gray(buf@).bytes);
    Ok(PixelBuffer::from_parts(buf.width(), buf.height(), out))
}

} // verus!

//! 3x3 convolution with edge replication, and the smoothing filter built on it.
use vstd::prelude::*;

use crate::raster::{lemma_index_decompose, lemma_index_in_bounds, lemma_raster_ext, raster_from_fn, ImageError, PixelBuffer, RasterView};

verus! {

/// Sum of the first `n` weights of a kernel.
pub open spec fn weight_sum(k: Seq<i32>, n: nat) -> int
    decreases n,
{
    if n == 0 {
        0
    } else {
        weight_sum(k, (n - 1) as nat) + k[n - 1]
    }
}

/// What a kernel's weighted sums are divided by: the sum of its weights, or 1
/// where that sum is zero.
pub open spec fn divisor(k: Seq<i32>) -> int {
    if weight_sum(k, 9) == 0 {
        1
    } else {
        weight_sum(k, 9)
    }
}

/// The nearest valid coordinate to `z` on an axis of length `n`.
pub open spec fn clamp_coord(z: int, n: int) -> int {
    if z < 0 {
        0
    } else if z >= n {
        n - 1
    } else {
        z
    }
}

/// Weight `t` of the kernel (row-major over the 3x3 neighbourhood) times the
/// neighbour it covers, edges replicated.
pub open spec fn tap(v: RasterView, k: Seq<i32>, x: int, y: int, c: int, t: int) -> int {
    k[t] * v.at(
        clamp_coord(x + t % 3 - 1, v.width as int),
        clamp_coord(y + t / 3 - 1, v.height as int),
        c,
    ) as int
}

/// The first `n` taps of the kernel at `(x, y)`, channel `c`, added up.
pub open spec fn tap_sum(v: RasterView, k: Seq<i32>, x: int, y: int, c: int, n: nat) -> int
    decreases n,
{
    if n == 0 {
        0
    } else {
        tap_sum(v, k, x, y, c, (n - 1) as nat) + tap(v, k, x, y, c, n - 1)
    }
}

/// `t / s` rounded toward zero and clamped to `0..=255`.
pub open spec fn scaled_channel(t: int, s: int) -> u8 {
    if (t > 0 && s > 0) || (t < 0 && s < 0) {
        let q = if t > 0 { t / s } else { (-t) / (-s) };
        if q > 255 {
            255
        } else {
            q as u8
        }
    } else {
        0
    }
}

/// The raster convolved with `k`: each colour channel is the weighted sum of
/// its 3x3 neighbourhood divided by `divisor(k)`, and alpha is kept.
pub open spec fn convolved(v: RasterView, k: Seq<i32>) -> RasterView {
    raster_from_fn(
        v.width,
        v.height,
        |x: int, y: int, c: int|
            if c == 3 {
                v.at(x, y, 3)
            } else {
                scaled_channel(tap_sum(v, k, x, y, c, 9), divisor(k))
            },
    )
}

/// Every pixel of the raster has the same four channels.
pub open spec fn is_uniform(v: RasterView) -> bool {
    forall|x: int, y: int, c: int|
        0 <= x < v.width && 0 <= y < v.height && 0 <= c < 4 ==> #[trigger] v.at(x, y, c) == v.at(0, 0, c)
}

/// The nine weights `1 2 1 / 2 4 2 / 1 2 1` of the smoothing filter.
pub open spec fn smoothing_weights() -> Seq<i32> {
    seq![1i32, 2, 1, 2, 4, 2, 1, 2, 1]
}

pub proof fn lemma_convolved_at(v: RasterView, k: Seq<i32>, x: int, y: int, c: int)
    requires
        0 <= x < v.width,
        0 <= y < v.height,
        0 <= c < 4,
    ensures
        convolved(v, k).wf(),
        convolved(v, k).at(x, y, c) == if c == 3 {
            v.at(x, y, 3)
        } else {
            scaled_channel(tap_sum(v, k, x, y, c, 9), divisor(k))
        },
{
    lemma_index_in_bounds(v.width as int, v.height as int, x, y, c);
}

proof fn lemma_uniform_tap_sum(v: RasterView, k: Seq<i32>, x: int, y: int, c: int, n: nat)
    requires
        is_uniform(v),
        v.width > 0,
        v.height > 0,
        0 <= c < 4,
    ensures
        tap_sum(v, k, x, y, c, n) == weight_sum(k, n) * v.at(0, 0, c),
    decreases n,
{
    if n > 0 {
        lemma_uniform_tap_sum(v, k, x, y, c, (n - 1) as nat);
        let t = n - 1;
        let cx = clamp_coord(x + t % 3 - 1, v.width as int);
        let cy = clamp_coord(y + t / 3 - 1, v.height as int);
        assert(v.at(cx, cy, c) == v.at(0, 0, c));
        assert(weight_sum(k, (n - 1) as nat) * v.at(0, 0, c) + k[t] * v.at(0, 0, c) == weight_sum(k, n) * v.at(
            0,
            0,
            c,
        )) by (nonlinear_arith)
            requires weight_sum(k, n) == weight_sum(k, (n - 1) as nat) + k[t];
    }
}

proof fn lemma_scaled_constant(val: int, s: int)
    requires
        0 <= val <= 255,
        s != 0,
    ensures
        scaled_channel(val * s, s) == val,
{
    if val > 0 {
        if s > 0 {
            vstd::arithmetic::div_mod::lemma_div_by_multiple(val, s);
            assert(val * s > 0) by (nonlinear_arith) requires val > 0, s > 0;
        } else {
            assert(-(val * s) == val * (-s)) by (nonlinear_arith);
            assert(val * s < 0) by (nonlinear_arith) requires val > 0, s < 0;
            vstd::arithmetic::div_mod::lemma_div_by_multiple(val, -s);
        }
    } else {
        assert(val * s == 0) by (nonlinear_arith) requires val == 0;
    }
}

/// Convolving an image whose pixels are all alike, with any kernel whose
/// weights do not sum to zero, gives back the same image: edge replication
/// leaves no artifacts at the borders.
pub proof fn lemma_uniform_unchanged(v: RasterView, k: Seq<i32>)
    requires
        v.wf(),
        is_uniform(v),
        k.len() == 9,
        weight_sum(k, 9) != 0,
    ensures
        convolved(v, k) == v,
{
    let r = convolved(v, k);
    if v.width > 0 && v.height > 0 {
        lemma_convolved_at(v, k, 0, 0, 0);
        assert forall|x: int, y: int, c: int|
            0 <= x < r.width && 0 <= y < r.height && 0 <= c < 4 implies #[trigger] r.at(x, y, c) == v.at(x, y, c) by {
            lemma_convolved_at(v, k, x, y, c);
            if c != 3 {
                lemma_uniform_tap_sum(v, k, x, y, c, 9);
                lemma_scaled_constant(v.at(0, 0, c) as int, weight_sum(k, 9));
                assert(weight_sum(k, 9) * v.at(0, 0, c) == v.at(0, 0, c) * weight_sum(k, 9)) by (nonlinear_arith);
            }
        }
        lemma_raster_ext(r, v);
    } else {
        assert(r.bytes =~= v.bytes) by {
            assert(v.width * v.height == 0) by (nonlinear_arith) requires v.width == 0 || v.height == 0;
        }
    }
}

/// The nearest valid index to `z + dz - 1` on an axis of length `n`.
fn clamp_neighbor(z: usize, dz: usize, n: usize) -> (r: usize)
    requires
        z < n,
        dz < 3,
    ensures
        r == clamp_coord(z + dz - 1, n as int),
{
    if dz == 0 {
        if z == 0 {
            0
        } else {
            z - 1
        }
    } else if dz == 1 {
        z
    } else if z + 1 >= n {
        n - 1
    } else {
        z + 1
    }
}

/// `t / s` rounded toward zero and clamped to `0..=255`.
fn scale_channel(t: i64, s: i64) -> (r: u8)
    requires
        -0x4000_0000_0000_0000 <= t <= 0x4000_0000_0000_0000,
        -0x4000_0000_0000_0000 <= s <= 0x4000_0000_0000_0000,
    ensures
        r == scaled_channel(t as int, s as int),
{
    if (t > 0 && s > 0) || (t < 0 && s < 0) {
        let q: i64 = if t > 0 { t / s } else { (-t) / (-s) };
        if q > 255 {
            255
        } else {
            q as u8
        }
    } else {
        0
    }
}

/// Sum of a kernel's nine weights.
fn kernel_weight_sum(kernel: &[i32; 9]) -> (s: i64)
    ensures
        s == weight_sum(kernel@, 9),
        -9 * 0x8000_0000 <= s <= 9 * 0x8000_0000,
{
    let mut s: i64 = 0;
    let mut t: usize = 0;
    while t < 9
        invariant
            t <= 9,
            s == weight_sum(kernel@, t as nat),
            -(t as int) * 0x8000_0000 <= s <= (t as int) * 0x8000_0000,
        decreases 9 - t,
    {
        s = s + kernel[t] as i64;
        t = t + 1;
    }
    s
}

/// Convolves the colour channels with a 3x3 kernel, given row-major, and keeps
/// alpha. Each weighted sum is divided by the sum of the weights (by 1 where
/// they sum to zero), rounded toward zero and clamped to `0..=255`; neighbours
/// beyond an edge take the value of the nearest pixel inside it.
pub fn apply3x3(buf: &PixelBuffer, kernel: &[i32; 9]) -> (r: Result<PixelBuffer, ImageError>)
    requires
        buf.wf(),
    ensures
        (buf@.width == 0 || buf@.height == 0) ==> r == Err::<PixelBuffer, ImageError>(ImageError::EmptyImage),
        (buf@.width > 0 && buf@.height > 0) ==> r.is_ok() && r.unwrap().wf() && r.unwrap()@ == convolved(buf@, kernel@),
{
    if buf.is_empty() {
        return Err(ImageError::EmptyImage);
    }
    let w = buf.width() as usize;
    let h = buf.height() as usize;
    let ghost v = buf@;
    let data = buf.data();
    let s = kernel_weight_sum(kernel);
    let d: i64 = if s == 0 { 1 } else { s };
    let n = data.len();
    let mut out: Vec<u8> = Vec::with_capacity(n);
    let mut i: usize = 0;
    while i < n
        invariant
            n == data@.len(),
            data@ == v.bytes,
            v.wf(),
            w == v.width,
            h == v.height,
            w > 0,
            h > 0,
            w <= 0xffff_ffff,
            h <= 0xffff_ffff,
            d == divisor(kernel@),
            -9 * 0x8000_0000 <= d <= 9 * 0x8000_0000,
            0 <= i <= n,
            convolved(v, kernel@).bytes.len() == n,
            out@.len() == i,
            forall|j: int| 0 <= j < i ==> out@[j] == convolved(v, kernel@).bytes[j],
        decreases n - i,
    {
        proof {
            lemma_index_decompose(w as int, h as int, i as int);
        }
        let p = i / 4;
        let x = p % w;
        let y = p / w;
        let c = i % 4;
        if c == 3 {
            proof {
                lemma_index_in_bounds(w as int, h as int, x as int, y as int, 3);
            }
            out.push(data[i]);
        } else {
            let mut acc: i64 = 0;
            let mut t: usize = 0;
            while t < 9
                invariant
                    n == data@.len(),
                    data@ == v.bytes,
                    v.wf(),
                    w == v.width,
                    h == v.height,
                    w <= 0xffff_ffff,
                    h <= 0xffff_ffff,
                    x < w,
                    y < h,
                    c < 3,
                    t <= 9,
                    acc == tap_sum(v, kernel@, x as int, y as int, c as int, t as nat),
                    -(t as int) * 0x80_0000_0000 <= acc <= (t as int) * 0x80_0000_0000,
                decreases 9 - t,
            {
                let cx = clamp_neighbor(x, t % 3, w);
                let cy = clamp_neighbor(y, t / 3, h);
                proof {
                    lemma_index_in_bounds(w as int, h as int, cx as int, cy as int, c as int);
                    assert(cy * w + cx < w * h) by (nonlinear_arith) requires cx < w, cy < h;
                }
                let px = data[(cy * w + cx) * 4 + c];
                let k = kernel[t];
                proof {
                    assert(-0x80_0000_0000 <= (k as int) * (px as int) <= 0x80_0000_0000) by (nonlinear_arith)
                        requires -0x8000_0000 <= k < 0x8000_0000, 0 <= px <= 255;
                }
                let term: i64 = (k as i64) * (px as i64);
                acc = acc + term;
                t = t + 1;
            }
            out.push(scale_channel(acc, d));
        }
        i = i + 1;
    }
    assert(out@ =~= convolved(v, kernel@).bytes);
    Ok(PixelBuffer::from_parts(buf.width(), buf.height(), out))
}

/// The smoothing kernel `1 2 1 / 2 4 2 / 1 2 1`, whose weights sum to 16.
pub fn smoothing_kernel() -> (k: [i32; 9])
    ensures
        k@ == smoothing_weights(),
{
    let k: [i32; 9] = [1, 2, 1, 2, 4, 2, 1, 2, 1];
    assert(k@ =~= smoothing_weights());
    k
}

/// Reduces noise by convolving with the smoothing kernel.
pub fn noise_reduction(buf: &PixelBuffer) -> (r: Result<PixelBuffer, ImageError>)
    requires
        buf.wf(),
    ensures
        (buf@.width == 0 || buf@.height == 0) ==> r == Err::<PixelBuffer, ImageError>(ImageError::EmptyImage),
        (buf@.width > 0 && buf@.height > 0) ==> r.is_ok() && r.unwrap().wf() && r.unwrap()@ == convolved(buf@, smoothing_weights()),
{
    let k = smoothing_kernel();
    apply3x3(buf, &k)
}

} // verus!

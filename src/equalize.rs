//! Global contrast normalization by histogram equalization of luma.
use vstd::prelude::*;

use crate::backend::luma_bytes;
use crate::color::luma_at;
use crate::raster::{ImageError, PixelBuffer, RasterView};

verus! {

/// How many entries of `s` equal `v`.
pub open spec fn count_eq(s: Seq<u8>, v: int) -> nat
    decreases s.len(),
{
    if s.len() == 0 {
        0
    } else {
        count_eq(s.drop_last(), v) + if s.last() == v { 1nat } else { 0nat }
    }
}

/// How many entries of `s` are at most `v`: the cumulative histogram at `v`.
pub open spec fn count_le(s: Seq<u8>, v: int) -> nat
    decreases s.len(),
{
    if s.len() == 0 {
        0
    } else {
        count_le(s.drop_last(), v) + if s.last() <= v { 1nat } else { 0nat }
    }
}

/// `cum * 255 / total`, rounded half up; the level itself when there is
/// nothing to count.
pub open spec fn scaled_level(cum: nat, total: nat, level: int) -> int {
    if total == 0 {
        level
    } else {
        ((cum * 255 + total / 2) / total) as int
    }
}

/// The level that equalization gives to luma `level` in an image whose lumas are `s`.
pub open spec fn equalized_level(s: Seq<u8>, level: int) -> u8 {
    scaled_level(count_le(s, level), s.len(), level) as u8
}

/// The lumas of the pixels of an RGBA byte sequence, row-major.
pub open spec fn luma_plane(bytes: Seq<u8>) -> Seq<u8> {
    Seq::new(bytes.len() / 4, |p: int| luma_at(bytes, p))
}

/// The equalized raster: each pixel's colour channels hold the equalized
/// level of its luma, and its alpha is opaque.
pub open spec fn equalized(v: RasterView) -> RasterView {
    RasterView {
        width: v.width,
        height: v.height,
        bytes: Seq::new(
            v.bytes.len(),
            |i: int|
                if i % 4 == 3 {
                    255u8
                } else {
                    equalized_level(luma_plane(v.bytes), luma_at(v.bytes, i / 4) as int)
                },
        ),
    }
}

pub proof fn lemma_count_le_step(s: Seq<u8>, v: int)
    ensures
        count_le(s, v) == count_le(s, v - 1) + count_eq(s, v),
    decreases s.len(),
{
    if s.len() > 0 {
        lemma_count_le_step(s.drop_last(), v);
    }
}

pub proof fn lemma_count_le_bounds(s: Seq<u8>, v: int)
    ensures
        count_le(s, v) <= s.len(),
        v < 0 ==> count_le(s, v) == 0,
        v >= 255 ==> count_le(s, v) == s.len(),
    decreases s.len(),
{
    if s.len() > 0 {
        lemma_count_le_bounds(s.drop_last(), v);
    }
}

pub proof fn lemma_count_le_monotonic(s: Seq<u8>, a: int, b: int)
    requires
        a <= b,
    ensures
        count_le(s, a) <= count_le(s, b),
    decreases s.len(),
{
    if s.len() > 0 {
        lemma_count_le_monotonic(s.drop_last(), a, b);
    }
}

pub proof fn lemma_scaled_level_bounds(cum: nat, total: nat)
    requires
        cum <= total,
        total > 0,
    ensures
        0 <= scaled_level(cum, total, 0) <= 255,
{
    let t = total as int;
    assert(cum * 255 + t / 2 < 256 * t) by (nonlinear_arith)
        requires cum <= t, t > 0, t / 2 < t;
    vstd::arithmetic::div_mod::lemma_div_is_ordered(cum * 255 + t / 2, 256 * t - 1, t);
    vstd::arithmetic::div_mod::lemma_div_is_ordered(0, cum * 255 + t / 2, t);
    assert((256 * t - 1) / t <= 255) by {
        vstd::arithmetic::div_mod::lemma_fundamental_div_mod(256 * t - 1, t);
        vstd::arithmetic::div_mod::lemma_mod_pos_bound(256 * t - 1, t);
        assert(t * ((256 * t - 1) / t) <= 256 * t - 1);
        if (256 * t - 1) / t > 255 {
            vstd::arithmetic::mul::lemma_mul_inequality(256, (256 * t - 1) / t, t);
            assert(false);
        }
    }
}

/// The equalization table never decreases: a brighter luma never maps to a
/// darker level than a dimmer one.
pub proof fn lemma_equalized_level_monotonic(s: Seq<u8>, a: int, b: int)
    requires
        0 <= a <= b < 256,
    ensures
        equalized_level(s, a) <= equalized_level(s, b),
{
    if s.len() == 0 {
        return;
    }
    lemma_count_le_monotonic(s, a, b);
    lemma_count_le_bounds(s, a);
    lemma_count_le_bounds(s, b);
    let t = s.len() as int;
    lemma_scaled_level_bounds(count_le(s, a), s.len());
    lemma_scaled_level_bounds(count_le(s, b), s.len());
    assert(count_le(s, a) * 255 <= count_le(s, b) * 255) by (nonlinear_arith)
        requires count_le(s, a) <= count_le(s, b);
    vstd::arithmetic::div_mod::lemma_div_is_ordered(
        count_le(s, a) * 255 + t / 2,
        count_le(s, b) * 255 + t / 2,
        t,
    );
}

/// Number of pixels of each luma: entry `v` counts the entries of `lumas`
/// equal to `v`.
pub fn histogram(lumas: &Vec<u8>) -> (h: Vec<usize>)
    ensures
        h@.len() == 256,
        forall|v: int| 0 <= v < 256 ==> #[trigger] h@[v] == count_eq(lumas@, v),
{
    let mut h: Vec<usize> = Vec::with_capacity(256);
    let mut v: usize = 0;
    while v < 256
        invariant
            v <= 256,
            h@.len() == v,
            forall|u: int| 0 <= u < v ==> #[trigger] h@[u] == 0,
        decreases 256 - v,
    {
        h.push(0);
        v = v + 1;
    }
    let n = lumas.len();
    let mut p: usize = 0;
    while p < n
        invariant
            n == lumas@.len(),
            p <= n,
            h@.len() == 256,
            forall|u: int| 0 <= u < 256 ==> #[trigger] h@[u] == count_eq(lumas@.take(p as int), u),
            forall|u: int| 0 <= u < 256 ==> #[trigger] h@[u] <= p,
        decreases n - p,
    {
        let l = lumas[p] as usize;
        assert(lumas@.take(p as int + 1).drop_last() =~= lumas@.take(p as int));
        h.set(l, h[l] + 1);
        p = p + 1;
    }
    assert(lumas@.take(n as int) =~= lumas@);
    h
}

/// The cumulative histogram: entry `v` counts the entries of `lumas` that are
/// at most `v`.
pub fn cumulative_histogram(lumas: &Vec<u8>) -> (cum: Vec<usize>)
    ensures
        cum@.len() == 256,
        forall|v: int| 0 <= v < 256 ==> #[trigger] cum@[v] == count_le(lumas@, v),
{
    let h = histogram(lumas);
    let mut cum: Vec<usize> = Vec::with_capacity(256);
    let mut sum: usize = 0;
    let n = lumas.len();
    let mut v: usize = 0;
    proof {
        lemma_count_le_bounds(lumas@, -1);
    }
    while v < 256
        invariant
            v <= 256,
            n == lumas@.len(),
            h@.len() == 256,
            forall|u: int| 0 <= u < 256 ==> #[trigger] h@[u] == count_eq(lumas@, u),
            cum@.len() == v,
            sum == count_le(lumas@, v - 1),
            forall|u: int| 0 <= u < v ==> #[trigger] cum@[u] == count_le(lumas@, u),
        decreases 256 - v,
    {
        proof {
            lemma_count_le_step(lumas@, v as int);
            lemma_count_le_bounds(lumas@, v as int);
        }
        sum = sum + h[v];
        cum.push(sum);
        v = v + 1;
    }
    cum
}

/// The equalization table of an image whose lumas are `lumas`: entry `v` is
/// `round(cum[v] * 255 / cum[255])`, or `v` itself when `lumas` is empty. A
/// luma that is the only one present maps to 255.
pub fn equalization_table(lumas: &Vec<u8>) -> (norm: Vec<u8>)
    ensures
        norm@.len() == 256,
        forall|v: int| 0 <= v < 256 ==> #[trigger] norm@[v] == equalized_level(lumas@, v),
        forall|a: int, b: int| 0 <= a <= b < 256 ==> #[trigger] norm@[a] <= #[trigger] norm@[b],
{
    let cum = cumulative_histogram(lumas);
    let total: usize = lumas.len();
    let mut norm: Vec<u8> = Vec::with_capacity(256);
    let mut v: usize = 0;
    while v < 256
        invariant
            v <= 256,
            total == lumas@.len(),
            cum@.len() == 256,
            forall|u: int| 0 <= u < 256 ==> #[trigger] cum@[u] == count_le(lumas@, u),
            norm@.len() == v,
            forall|u: int| 0 <= u < v ==> #[trigger] norm@[u] == equalized_level(lumas@, u),
        decreases 256 - v,
    {
        if total == 0 {
            norm.push(v as u8);
        } else {
            let c = cum[v];
            proof {
                lemma_count_le_bounds(lumas@, v as int);
                lemma_scaled_level_bounds(c as nat, total as nat);
                assert(c * 255 <= 0xffff_ffff_ffff_ffffu128 * 255) by (nonlinear_arith)
                    requires c <= 0xffff_ffff_ffff_ffffu128;
            }
            let level: u128 = ((c as u128) * 255 + (total / 2) as u128) / (total as u128);
            norm.push(level as u8);
        }
        v = v + 1;
    }
    assert forall|a: int, b: int| 0 <= a <= b < 256 implies #[trigger] norm@[a] <= #[trigger] norm@[b] by {
        lemma_equalized_level_monotonic(lumas@, a, b);
    }
    norm
}

/// Equalizes the luma histogram: every pixel's colour channels get the
/// equalization table's level for its luma, and its alpha becomes opaque.
pub fn equalize(buf: &PixelBuffer) -> (r: Result<PixelBuffer, ImageError>)
    requires
        buf.wf(),
    ensures
        (buf@.width == 0 || buf@.height == 0) ==> r == Err::<PixelBuffer, ImageError>(ImageError::EmptyImage),
        (buf@.width > 0 && buf@.height > 0) ==> r.is_ok() && r.unwrap().wf() && r.unwrap()@ == equalized(buf@),
{
    if buf.is_empty() {
        return Err(ImageError::EmptyImage);
    }
    let data = buf.data();
    let lumas = luma_bytes(buf.width(), buf.height(), data);
    assert(lumas@ =~= luma_plane(data@));
    let norm = equalization_table(&lumas);
    let n = data.len();
    let mut out: Vec<u8> = Vec::with_capacity(n);
    let mut i: usize = 0;
    while i < n
        invariant
            n == data@.len(),
            data@ == buf@.bytes,
            data@.len() == buf@.width * buf@.height * 4,
            lumas@ == luma_plane(data@),
            lumas@.len() == buf@.width * buf@.height,
            norm@.len() == 256,
            forall|v: int| 0 <= v < 256 ==> #[trigger] norm@[v] == equalized_level(lumas@, v),
            0 <= i <= n,
            equalized(buf@).bytes.len() == n,
            out@.len() == i,
            forall|j: int| 0 <= j < i ==> out@[j] == equalized(buf@).bytes[j],
        decreases n - i,
    {
        assert(i / 4 < buf@.width * buf@.height);
        if i % 4 == 3 {
            out.push(255);
        } else {
            let l = lumas[i / 4];
            out.push(norm[l as usize]);
        }
        i = i + 1;
    }
    assert(out@ =~= equalized(buf@).bytes);
    Ok(PixelBuffer::from_parts(buf.width(), buf.height(), out))
}

} // verus!

//! The pixel buffer shared by every operation, and its mathematical model.
use vstd::prelude::*;

verus! {

/// Number of 8-bit channels per pixel (R, G, B, A).
pub const CHANNELS: u32 = 4;

/// The mathematical model of a pixel buffer.
pub ghost struct RasterView {
    pub width: nat,
    pub height: nat,
    pub bytes: Seq<u8>,
}

/// Position of channel `c` of pixel `(x, y)` in a row-major RGBA buffer.
pub open spec fn byte_index(width: int, x: int, y: int, c: int) -> int {
    (y * width + x) * 4 + c
}

impl RasterView {
    pub open spec fn wf(self) -> bool {
        self.bytes.len() == self.width * self.height * 4
    }

    /// Channel `c` of the pixel at column `x`, row `y`.
    pub open spec fn at(self, x: int, y: int, c: int) -> u8 {
        self.bytes[byte_index(self.width as int, x, y, c)]
    }

    pub open spec fn same_dims(self, other: RasterView) -> bool {
        self.width == other.width && self.height == other.height
    }
}

/// The raster of the given size whose channel `c` at `(x, y)` is `f(x, y, c)`.
pub open spec fn raster_from_fn(width: nat, height: nat, f: spec_fn(int, int, int) -> u8) -> RasterView {
    RasterView {
        width,
        height,
        bytes: Seq::new(
            width * height * 4,
            |i: int| f((i / 4) % (width as int), (i / 4) / (width as int), i % 4),
        ),
    }
}

pub proof fn lemma_index_in_bounds(width: int, height: int, x: int, y: int, c: int)
    requires
        0 <= x < width,
        0 <= y < height,
        0 <= c < 4,
    ensures
        0 <= byte_index(width, x, y, c) < width * height * 4,
        byte_index(width, x, y, c) / 4 == y * width + x,
        byte_index(width, x, y, c) % 4 == c,
        (y * width + x) % width == x,
        (y * width + x) / width == y,
{
    let p = y * width + x;
    assert(0 <= p < width * height) by (nonlinear_arith)
        requires 0 <= x < width, 0 <= y < height, p == y * width + x;
    vstd::arithmetic::div_mod::lemma_fundamental_div_mod_converse(p * 4 + c, 4, p, c);
    vstd::arithmetic::div_mod::lemma_fundamental_div_mod_converse(p, width, y, x);
    assert(p * 4 + c < width * height * 4) by (nonlinear_arith)
        requires p < width * height, c < 4;
}

/// Every byte position of a raster is the position of one channel of one pixel.
pub proof fn lemma_index_decompose(width: int, height: int, i: int)
    requires
        0 <= width,
        0 <= height,
        0 <= i < width * height * 4,
    ensures
        width > 0,
        0 <= (i / 4) % width < width,
        0 <= (i / 4) / width < height,
        0 <= i % 4 < 4,
        i == byte_index(width, (i / 4) % width, (i / 4) / width, i % 4),
{
    assert(width > 0) by (nonlinear_arith)
        requires 0 <= i < width * height * 4, 0 <= width, 0 <= height;
    let p = i / 4;
    vstd::arithmetic::div_mod::lemma_fundamental_div_mod(i, 4);
    vstd::arithmetic::div_mod::lemma_fundamental_div_mod(p, width);
    assert(p < width * height);
    vstd::arithmetic::div_mod::lemma_div_pos_is_pos(p, width);
    vstd::arithmetic::div_mod::lemma_mod_pos_bound(p, width);
    assert(p / width < height) by (nonlinear_arith)
        requires p < width * height, p == width * (p / width) + p % width, p % width >= 0, width > 0;
    assert(((p / width) * width + p % width) * 4 + i % 4 == i) by (nonlinear_arith)
        requires p == width * (p / width) + p % width, i == 4 * p + i % 4;
}

/// Two well-formed rasters of one size that agree on every channel of every
/// pixel are equal.
pub proof fn lemma_raster_ext(a: RasterView, b: RasterView)
    requires
        a.wf(),
        b.wf(),
        a.same_dims(b),
        forall|x: int, y: int, c: int|
            0 <= x < a.width && 0 <= y < a.height && 0 <= c < 4 ==> #[trigger] a.at(x, y, c) == b.at(x, y, c),
    ensures
        a == b,
{
    assert forall|i: int| 0 <= i < a.bytes.len() implies a.bytes[i] == b.bytes[i] by {
        lemma_index_decompose(a.width as int, a.height as int, i);
        let x = (i / 4) % (a.width as int);
        let y = (i / 4) / (a.width as int);
        assert(a.at(x, y, i % 4) == b.at(x, y, i % 4));
    }
    assert(a.bytes =~= b.bytes);
}

/// A row-major RGBA image: `width * height` pixels of four 8-bit channels.
pub struct PixelBuffer {
    width: u32,
    height: u32,
    data: Vec<u8>,
}

impl View for PixelBuffer {
    type V = RasterView;

    closed spec fn view(&self) -> RasterView {
        RasterView { width: self.width as nat, height: self.height as nat, bytes: self.data@ }
    }
}

/// Errors reported by the image operations.
#[derive(Debug, Clone, Copy, PartialEq, Eq, Structural)]
pub enum ImageError {
    /// The source could not be decoded into an image.
    DecodeError,
    /// The source could not be read.
    NotFound,
    /// A requested size is zero, or too large to allocate.
    InvalidDimension,
    /// The image has no pixels.
    EmptyImage,
    /// A parameter is outside the set of accepted values.
    InvalidArgument,
}

impl PixelBuffer {
    pub open spec fn wf(&self) -> bool {
        self@.wf()
    }

    /// Wraps raw RGBA bytes; fails unless there are exactly four per pixel.
    pub fn new(width: u32, height: u32, data: Vec<u8>) -> (r: Result<PixelBuffer, ImageError>)
        ensures
            (width as int) * (height as int) * 4 == data@.len() <==> r.is_ok(),
            r.is_ok() ==> r.unwrap().wf() && r.unwrap()@ == (RasterView {
                width: width as nat,
                height: height as nat,
                bytes: data@,
            }),
            r.is_err() ==> r == Err::<PixelBuffer, ImageError>(ImageError::InvalidDimension),
    {
        assert((width as u128) * (height as u128) <= 0xffff_ffffu128 * 0xffff_ffffu128) by (nonlinear_arith)
            requires width <= 0xffff_ffffu32, height <= 0xffff_ffffu32;
        let n: u128 = (width as u128) * (height as u128) * 4;
        if n == data.len() as u128 {
            Ok(PixelBuffer { width, height, data })
        } else {
            Err(ImageError::InvalidDimension)
        }
    }

    pub fn width(&self) -> (r: u32)
        ensures
            r == self@.width,
    {
        self.width
    }

    pub fn height(&self) -> (r: u32)
        ensures
            r == self@.height,
    {
        self.height
    }

    /// Channels per pixel: always four.
    pub fn channels(&self) -> (r: u32)
        ensures
            r == 4,
    {
        CHANNELS
    }

    /// The pixel bytes, row-major, four per pixel.
    pub fn data(&self) -> (r: &Vec<u8>)
        ensures
            r@ == self@.bytes,
    {
        &self.data
    }

    pub fn into_data(self) -> (r: Vec<u8>)
        ensures
            r@ == self@.bytes,
    {
        self.data
    }

    /// Whether the image has no pixels.
    pub fn is_empty(&self) -> (r: bool)
        ensures
            r == (self@.width == 0 || self@.height == 0),
    {
        self.width == 0 || self.height == 0
    }

    /// Builds a buffer from parts already known to agree.
    pub(crate) fn from_parts(width: u32, height: u32, data: Vec<u8>) -> (r: PixelBuffer)
        ensures
            r@ == (RasterView { width: width as nat, height: height as nat, bytes: data@ }),
    {
        PixelBuffer { width, height, data }
    }

    /// A copy of this buffer.
    pub fn duplicate(&self) -> (r: PixelBuffer)
        ensures
            r@ == self@,
    {
        PixelBuffer { width: self.width, height: self.height, data: self.data.clone() }
    }
}

} // verus!

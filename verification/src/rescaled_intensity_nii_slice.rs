//! One slice of a rescaled volume: a plane of fractions between 0 and 1.

use vstd::prelude::*;

use crate::intensity::{level_values, unit_fractions};
use crate::raster::{raw_rgb, Picture, Raster, Rgb};

verus! {

/// What a slice is: `height` rows of `width` levels each, row after row, over
/// a common span. The rows run along the volume's first axis, the columns
/// along its second.
pub struct Plane {
    pub levels: Seq<u64>,
    pub span: u64,
    pub width: nat,
    pub height: nat,
}

impl Plane {
    /// The level in a row and a column of the plane.
    pub open spec fn at(self, row: int, col: int) -> u64 {
        self.levels[row * self.width + col]
    }
}

/// A slice of a rescaled volume, every intensity between 0 and 1.
#[derive(Debug)]
pub struct RescaledIntensityNiiSlice {
    slice: Vec<u64>,
    span: u64,
    width: usize,
    height: usize,
}

impl View for RescaledIntensityNiiSlice {
    type V = Plane;

    closed spec fn view(&self) -> Plane {
        Plane {
            levels: self.slice@,
            span: self.span,
            width: self.width as nat,
            height: self.height as nat,
        }
    }
}

/// The byte that stands for the fraction `level / span`: 255 times the
/// fraction, rounded to the nearest whole number, a half rounded up.
pub open spec fn quantized(level: int, span: int) -> int {
    (2 * 255 * level + span) / (2 * span)
}

/// The grey pixel of a byte: the same value in all three channels.
pub open spec fn gray(byte: int) -> Rgb {
    Rgb { r: byte as u8, g: byte as u8, b: byte as u8 }
}

impl Plane {
    /// The plane as a raster of grey pixels, rows and columns as they are.
    pub open spec fn ubyte_rgb(self) -> Picture {
        Picture {
            pixels: Seq::new(
                self.levels.len(),
                |i: int| gray(quantized(self.levels[i] as int, self.span as int)),
            ),
            width: self.width,
            height: self.height,
        }
    }
}

/// The byte of a fraction between 0 and 1 is the whole number nearest to
/// 255 times the fraction, and so lies between 0 and 255.
pub proof fn lemma_quantized_is_nearest(level: int, span: int)
    requires
        span >= 1,
        0 <= level <= span,
    ensures
        0 <= quantized(level, span) <= 255,
        2 * 255 * level - span < 2 * span * quantized(level, span) <= 2 * 255 * level + span,
{
    let n = 2 * 255 * level + span;
    let d = 2 * span;
    vstd::arithmetic::div_mod::lemma_fundamental_div_mod(n, d);
    vstd::arithmetic::div_mod::lemma_mod_bound(n, d);
    let q = n / d;
    assert(0 <= q <= 255) by (nonlinear_arith)
        requires
            n == d * q + n % d,
            0 <= n % d < d,
            d == 2 * span,
            n == 2 * 255 * level + span,
            span >= 1,
            0 <= level <= span,
    ;
    assert(d * q == 2 * span * q) by (nonlinear_arith)
        requires
            d == 2 * span,
    ;
}

/// The fraction 0 becomes the byte 0, and the fraction 1 the byte 255.
pub proof fn lemma_quantized_ends(span: int)
    requires
        span >= 1,
    ensures
        quantized(0, span) == 0,
        quantized(span, span) == 255,
{
    lemma_quantized_is_nearest(0, span);
    lemma_quantized_is_nearest(span, span);
    let low = quantized(0, span);
    let high = quantized(span, span);
    assert(low == 0) by (nonlinear_arith)
        requires
            span >= 1,
            0 <= low <= 255,
            2 * span * low <= span,
    ;
    assert(high == 255) by (nonlinear_arith)
        requires
            span >= 1,
            0 <= high <= 255,
            2 * 255 * span - span < 2 * span * high,
    ;
}

/// A plane that is 0 everywhere becomes a raster that is black everywhere,
/// and a plane that is 1 everywhere one that is white everywhere.
pub proof fn lemma_uniform_plane(plane: Plane)
    requires
        plane.span >= 1,
    ensures
        (forall|i: int| 0 <= i < plane.levels.len() ==> plane.levels[i] == 0) ==> forall|i: int|
            0 <= i < plane.levels.len() ==> #[trigger] plane.ubyte_rgb().pixels[i] == (Rgb {
                r: 0,
                g: 0,
                b: 0,
            }),
        (forall|i: int| 0 <= i < plane.levels.len() ==> plane.levels[i] == plane.span)
            ==> forall|i: int|
            0 <= i < plane.levels.len() ==> #[trigger] plane.ubyte_rgb().pixels[i] == (Rgb {
                r: 255,
                g: 255,
                b: 255,
            }),
{
    lemma_quantized_ends(plane.span as int);
}

/// The byte that stands for the fraction `level / span`.
pub fn quantize(level: u64, span: u64) -> (byte: u8)
    requires
        span >= 1,
        level <= span,
    ensures
        byte == quantized(level as int, span as int),
{
    proof {
        lemma_quantized_is_nearest(level as int, span as int);
    }
    let n: u128 = 2 * 255 * (level as u128) + (span as u128);
    let d: u128 = 2 * (span as u128);
    (n / d) as u8
}

/// Makes a raster of a plane: every fraction becomes a byte, and the byte
/// fills the three channels of its pixel. Rows and columns stay as they are.
pub fn gray2ubyte_rgb(slice: &RescaledIntensityNiiSlice) -> (r: Raster)
    ensures
        r.wf(),
        r@ == slice@.ubyte_rgb(),
{
    proof {
        use_type_invariant(slice);
    }
    let mut pixels: Vec<Rgb> = Vec::new();
    let mut i: usize = 0;
    while i < slice.slice.len()
        invariant
            i <= slice.slice@.len(),
            unit_fractions(level_values(slice.slice@), slice.span as int),
            pixels@.len() == i,
            forall|j: int|
                0 <= j < i ==> #[trigger] pixels@[j] == gray(
                    quantized(slice.slice@[j] as int, slice.span as int),
                ),
        decreases slice.slice@.len() - i,
    {
        assert(level_values(slice.slice@)[i as int] == slice.slice@[i as int]);
        let byte: u8 = quantize(slice.slice[i], slice.span);
        pixels.push(Rgb { r: byte, g: byte, b: byte });
        i += 1;
    }
    assert(pixels@ =~= slice@.ubyte_rgb().pixels);
    Raster::new(pixels, slice.width, slice.height)
}

impl RescaledIntensityNiiSlice {
    /// The levels fill the plane, and none is above the span.
    #[verifier::type_invariant]
    pub open spec fn wf(&self) -> bool {
        &&& self@.levels.len() == self@.width * self@.height
        &&& unit_fractions(level_values(self@.levels), self@.span as int)
    }

    /// A plane of `height` rows and `width` columns from its levels, row
    /// after row, and their span.
    pub(crate) fn new(nii_slice: Vec<u64>, span: u64, width: usize, height: usize) -> (r: Self)
        requires
            nii_slice@.len() == width * height,
            unit_fractions(level_values(nii_slice@), span as int),
        ensures
            r.wf(),
            r@.levels == nii_slice@,
            r@.span == span,
            r@.width == width,
            r@.height == height,
    {
        RescaledIntensityNiiSlice { slice: nii_slice, span, width, height }
    }

    /// The levels of the plane, row after row.
    pub fn levels(&self) -> (levels: &Vec<u64>)
        ensures
            levels@ == self@.levels,
    {
        &self.slice
    }

    /// The span that the levels are fractions of.
    pub fn span(&self) -> (span: u64)
        ensures
            span == self@.span,
    {
        self.span
    }

    /// How many columns the plane has.
    pub fn width(&self) -> (w: usize)
        ensures
            w == self@.width,
    {
        self.width
    }

    /// How many rows the plane has.
    pub fn height(&self) -> (h: usize)
        ensures
            h == self@.height,
    {
        self.height
    }

    /// The slice as the raster that is stored for it: grey pixels, turned a
    /// quarter clockwise and then mirrored left to right. Row `y` and column
    /// `x` of the raster show row `x` and column `y` of the plane.
    pub fn as_rgb_image(&self) -> (r: Raster)
        ensures
            r.wf(),
            r@ == self@.ubyte_rgb().rotated().mirrored(),
            r@ == self@.ubyte_rgb().transposed(),
    {
        gray2ubyte_rgb(self).rotate_and_mirror()
    }

    /// The bytes of the raster that is stored for the slice, row after row,
    /// three for each pixel.
    pub fn as_raw_rgb_image_buffer(&self) -> (raw: Vec<u8>)
        ensures
            raw@ == raw_rgb(self@.ubyte_rgb().transposed().pixels),
    {
        self.as_rgb_image().into_raw()
    }
}

} // verus!

//! Rasters of 8-bit RGB pixels, and the two moves that bring a slice into
//! viewing position: a quarter turn clockwise, then a mirroring left to
//! right.

use vstd::arithmetic::div_mod::lemma_fundamental_div_mod_converse;
use vstd::prelude::*;

use crate::error_ty::{ErrorTy, Failure};

verus! {

/// One pixel: red, green and blue, eight bits each.
#[derive(Debug, Clone, Copy, PartialEq, Eq)]
pub struct Rgb {
    pub r: u8,
    pub g: u8,
    pub b: u8,
}

impl Rgb {
    /// One of the three channels: red is channel 0, green 1, blue 2.
    pub open spec fn channel(self, c: int) -> u8 {
        if c == 0 {
            self.r
        } else if c == 1 {
            self.g
        } else {
            self.b
        }
    }
}

/// The bytes of a row of pixels, three for each: red, green, blue.
pub open spec fn raw_rgb(pixels: Seq<Rgb>) -> Seq<u8> {
    Seq::new(3 * pixels.len(), |i: int| pixels[i / 3].channel(i % 3))
}

/// The bytes of a row of opaque pixels, four for each: red, green, blue and
/// an alpha of 255.
pub open spec fn raw_rgba(pixels: Seq<Rgb>) -> Seq<u8> {
    Seq::new(
        4 * pixels.len(),
        |i: int|
            if i % 4 == 3 {
                255u8
            } else {
                pixels[i / 4].channel(i % 4)
            },
    )
}

/// RGB bytes with an alpha of 255 put behind every three of them.
pub open spec fn with_alpha(rgb: Seq<u8>) -> Seq<u8> {
    Seq::new(
        (rgb.len() / 3 * 4) as nat,
        |i: int|
            if i % 4 == 3 {
                255u8
            } else {
                rgb[i / 4 * 3 + i % 4]
            },
    )
}

/// Whether a raster of this size can be handed to an image buffer: width
/// and height fit 32 bits, and four bytes per pixel fit the machine.
pub open spec fn fits_image_buffer(width: nat, height: nat) -> bool {
    &&& width <= u32::MAX
    &&& height <= u32::MAX
    &&& 4 * (width * height) <= usize::MAX
}

/// `image::DynamicImage::to_rgba8` and `ImageBuffer::into_raw`, on the 8-bit
/// RGB image that `ImageBuffer::from_raw` makes of the bytes: every pixel
/// keeps its three bytes and gets an alpha of 255 behind them. The outside
/// code panics where four bytes per pixel do not fit the machine, which
/// `requires` leaves out.
#[verifier::external_body]
fn to_rgba8(width: u32, height: u32, rgb: Vec<u8>) -> (rgba: Vec<u8>)
    requires
        rgb@.len() == 3 * (width * height),
        4 * (width * height) <= usize::MAX,
    ensures
        rgba@ == with_alpha(rgb@),
{
    match image::RgbImage::from_raw(width, height, rgb) {
        Some(buffer) => image::DynamicImage::ImageRgb8(buffer).to_rgba8().into_raw(),
        None => Vec::new(),
    }
}

/// Putting an alpha behind the bytes of RGB pixels gives the bytes of the
/// same pixels as opaque ones.
pub proof fn lemma_with_alpha_of_raw_rgb(pixels: Seq<Rgb>)
    ensures
        with_alpha(raw_rgb(pixels)) == raw_rgba(pixels),
{
}

/// What a raster is: `height` rows of `width` pixels each, row after row,
/// the top row first.
pub struct Picture {
    pub pixels: Seq<Rgb>,
    pub width: nat,
    pub height: nat,
}

impl Picture {
    /// The pixels fill the rows and columns.
    pub open spec fn wf(self) -> bool {
        self.pixels.len() == self.width * self.height
    }

    /// The pixel in a row and a column.
    pub open spec fn at(self, row: int, col: int) -> Rgb {
        self.pixels[row * self.width + col]
    }

    /// The picture turned a quarter clockwise: its top row is the left
    /// column of `self`, read from the bottom up.
    pub open spec fn rotated(self) -> Picture {
        Picture {
            pixels: Seq::new(
                self.width * self.height,
                |i: int| self.at(self.height - 1 - i % (self.height as int), i / (self.height as int)),
            ),
            width: self.height,
            height: self.width,
        }
    }

    /// The picture mirrored left to right.
    pub open spec fn mirrored(self) -> Picture {
        Picture {
            pixels: Seq::new(
                self.width * self.height,
                |i: int| self.at(i / (self.width as int), self.width - 1 - i % (self.width as int)),
            ),
            width: self.width,
            height: self.height,
        }
    }

    /// The picture with rows and columns exchanged.
    pub open spec fn transposed(self) -> Picture {
        Picture {
            pixels: Seq::new(
                self.width * self.height,
                |i: int| self.at(i % (self.height as int), i / (self.height as int)),
            ),
            width: self.height,
            height: self.width,
        }
    }
}

/// The position of the cell in a row and a column lies within the rows and
/// columns, and gives the row and the column back.
pub proof fn lemma_cell(width: int, height: int, row: int, col: int)
    requires
        0 <= row < height,
        0 <= col < width,
    ensures
        0 <= row * width <= row * width + col < width * height,
        (row * width + col) / width == row,
        (row * width + col) % width == col,
{
    assert(0 <= row * width <= row * width + col < width * height) by (nonlinear_arith)
        requires
            0 <= row < height,
            0 <= col < width,
    ;
    lemma_fundamental_div_mod_converse(row * width + col, width, row, col);
}

/// Every position within the rows and columns is that of one cell.
pub proof fn lemma_cell_of_position(width: int, height: int, i: int)
    requires
        0 <= i < width * height,
        0 <= width,
        0 <= height,
    ensures
        0 <= i / width < height,
        0 <= i % width < width,
        i == (i / width) * width + i % width,
{
    assert(width > 0) by (nonlinear_arith)
        requires
            0 <= i < width * height,
            0 <= width,
    ;
    vstd::arithmetic::div_mod::lemma_fundamental_div_mod(i, width);
    vstd::arithmetic::div_mod::lemma_mod_bound(i, width);
    let q = i / width;
    assert(0 <= q < height) by (nonlinear_arith)
        requires
            0 <= i < width * height,
            i == width * q + i % width,
            0 <= i % width < width,
            width > 0,
    ;
    assert(width * q == q * width) by (nonlinear_arith);
}

/// The pixel that a quarter turn clockwise brings into a row and a column.
pub proof fn lemma_rotated_at(p: Picture, row: int, col: int)
    requires
        p.wf(),
        0 <= row < p.width,
        0 <= col < p.height,
    ensures
        p.rotated().at(row, col) == p.at(p.height - 1 - col, row),
{
    lemma_cell(p.height as int, p.width as int, row, col);
}

/// The pixel that mirroring brings into a row and a column.
pub proof fn lemma_mirrored_at(p: Picture, row: int, col: int)
    requires
        p.wf(),
        0 <= row < p.height,
        0 <= col < p.width,
    ensures
        p.mirrored().at(row, col) == p.at(row, p.width - 1 - col),
{
    lemma_cell(p.width as int, p.height as int, row, col);
}

/// The pixel that exchanging rows and columns brings into a row and a column.
pub proof fn lemma_transposed_at(p: Picture, row: int, col: int)
    requires
        p.wf(),
        0 <= row < p.width,
        0 <= col < p.height,
    ensures
        p.transposed().at(row, col) == p.at(col, row),
{
    lemma_cell(p.height as int, p.width as int, row, col);
}

/// A quarter turn clockwise followed by a mirroring left to right is the
/// same as exchanging rows and columns.
pub proof fn lemma_rotate_then_mirror_is_transpose(p: Picture)
    requires
        p.wf(),
    ensures
        p.rotated().mirrored() == p.transposed(),
{
    let turned = p.rotated();
    let both = turned.mirrored();
    let swapped = p.transposed();
    assert(p.height * p.width == p.width * p.height) by (nonlinear_arith);
    assert forall|i: int| 0 <= i < both.pixels.len() implies both.pixels[i] == swapped.pixels[i] by {
        lemma_cell_of_position(p.height as int, p.width as int, i);
        let row = i / (p.height as int);
        let col = i % (p.height as int);
        lemma_rotated_at(p, row, p.height - 1 - col);
    }
    assert(both.pixels =~= swapped.pixels);
}

/// An 8-bit RGB raster.
#[derive(Debug)]
pub struct Raster {
    pixels: Vec<Rgb>,
    width: usize,
    height: usize,
}

impl View for Raster {
    type V = Picture;

    closed spec fn view(&self) -> Picture {
        Picture { pixels: self.pixels@, width: self.width as nat, height: self.height as nat }
    }
}

impl Raster {
    /// The pixels fill the rows and columns.
    #[verifier::type_invariant]
    pub open spec fn wf(&self) -> bool {
        self@.wf()
    }

    /// A raster of `height` rows and `width` columns from its pixels, row
    /// after row.
    pub(crate) fn new(pixels: Vec<Rgb>, width: usize, height: usize) -> (r: Self)
        requires
            pixels@.len() == width * height,
        ensures
            r.wf(),
            r@.pixels == pixels@,
            r@.width == width,
            r@.height == height,
    {
        Raster { pixels, width, height }
    }

    /// A raster of `height` rows and `width` columns from its pixels, row
    /// after row; nothing where the pixels do not fill the rows and columns.
    pub fn from_pixels(pixels: Vec<Rgb>, width: usize, height: usize) -> (r: Option<Self>)
        ensures
            r is Some <==> pixels@.len() == width * height,
            r matches Some(raster) ==> {
                &&& raster.wf()
                &&& raster@ == (Picture {
                    pixels: pixels@,
                    width: width as nat,
                    height: height as nat,
                })
            },
    {
        let len: usize = pixels.len();
        let filled: bool = match width.checked_mul(height) {
            Some(n) => n == len,
            None => false,
        };
        if filled {
            Some(Raster { pixels, width, height })
        } else {
            None
        }
    }

    /// How many columns the raster has.
    pub fn width(&self) -> (w: usize)
        ensures
            w == self@.width,
    {
        self.width
    }

    /// How many rows the raster has.
    pub fn height(&self) -> (h: usize)
        ensures
            h == self@.height,
    {
        self.height
    }

    /// The pixel in a row and a column.
    pub fn pixel(&self, row: usize, col: usize) -> (p: Rgb)
        requires
            row < self@.height,
            col < self@.width,
        ensures
            p == self@.at(row as int, col as int),
    {
        proof {
            use_type_invariant(self);
            lemma_cell(self.width as int, self.height as int, row as int, col as int);
            assert(self.pixels@.len() == self.pixels.len());
        }
        self.pixels[row * self.width + col]
    }

    /// Turns the raster a quarter clockwise.
    pub fn rotate90(&self) -> (r: Raster)
        ensures
            r.wf(),
            r@ == self@.rotated(),
    {
        proof {
            use_type_invariant(self);
        }
        let width: usize = self.height;
        let height: usize = self.width;
        let ghost goal = self@.rotated();
        assert(self.pixels@.len() == self.pixels.len());
        let mut pixels: Vec<Rgb> = Vec::new();
        let mut row: usize = 0;
        while row < height
            invariant
                row <= height,
                width == self.height,
                height == self.width,
                self@.wf(),
                self.pixels@.len() <= usize::MAX,
                goal == self@.rotated(),
                pixels@.len() == row * width,
                forall|i: int| 0 <= i < pixels@.len() ==> #[trigger] pixels@[i] == goal.pixels[i],
            decreases height - row,
        {
            let mut col: usize = 0;
            while col < width
                invariant
                    row < height,
                    col <= width,
                    width == self.height,
                    height == self.width,
                    self@.wf(),
                    self.pixels@.len() <= usize::MAX,
                    goal == self@.rotated(),
                    pixels@.len() == row * width + col,
                    forall|i: int| 0 <= i < pixels@.len() ==> #[trigger] pixels@[i] == goal.pixels[i],
                decreases width - col,
            {
                proof {
                    lemma_cell(width as int, height as int, row as int, col as int);
                    lemma_cell(
                        self.width as int,
                        self.height as int,
                        self.height - 1 - col,
                        row as int,
                    );
                    assert(width * height == self.width * self.height) by (nonlinear_arith)
                        requires
                            width == self.height,
                            height == self.width,
                    ;
                }
                let from: usize = (self.height - 1 - col) * self.width + row;
                pixels.push(self.pixels[from]);
                col += 1;
            }
            row += 1;
            assert(row * width == (row - 1) * width + width) by (nonlinear_arith);
        }
        assert(pixels@.len() == width * height) by (nonlinear_arith)
            requires
                pixels@.len() == row * width,
                row == height,
        ;
        assert(width * height == self.width * self.height) by (nonlinear_arith)
            requires
                width == self.height,
                height == self.width,
        ;
        assert(pixels@ =~= goal.pixels);
        Raster { pixels, width, height }
    }

    /// Mirrors the raster left to right.
    pub fn mirror(&self) -> (r: Raster)
        ensures
            r.wf(),
            r@ == self@.mirrored(),
    {
        proof {
            use_type_invariant(self);
        }
        let width: usize = self.width;
        let height: usize = self.height;
        let ghost goal = self@.mirrored();
        assert(self.pixels@.len() == self.pixels.len());
        let mut pixels: Vec<Rgb> = Vec::new();
        let mut row: usize = 0;
        while row < height
            invariant
                row <= height,
                width == self.width,
                height == self.height,
                self@.wf(),
                self.pixels@.len() <= usize::MAX,
                goal == self@.mirrored(),
                pixels@.len() == row * width,
                forall|i: int| 0 <= i < pixels@.len() ==> #[trigger] pixels@[i] == goal.pixels[i],
            decreases height - row,
        {
            let mut col: usize = 0;
            while col < width
                invariant
                    row < height,
                    col <= width,
                    width == self.width,
                    height == self.height,
                    self@.wf(),
                    self.pixels@.len() <= usize::MAX,
                    goal == self@.mirrored(),
                    pixels@.len() == row * width + col,
                    forall|i: int| 0 <= i < pixels@.len() ==> #[trigger] pixels@[i] == goal.pixels[i],
                decreases width - col,
            {
                proof {
                    lemma_cell(width as int, height as int, row as int, col as int);
                    lemma_cell(width as int, height as int, row as int, width - 1 - col);
                }
                let from: usize = row * width + (width - 1 - col);
                pixels.push(self.pixels[from]);
                col += 1;
            }
            row += 1;
            assert(row * width == (row - 1) * width + width) by (nonlinear_arith);
        }
        assert(pixels@.len() == width * height) by (nonlinear_arith)
            requires
                pixels@.len() == row * width,
                row == height,
        ;
        assert(pixels@ =~= goal.pixels);
        Raster { pixels, width, height }
    }

    /// Brings the raster into viewing position: a quarter turn clockwise,
    /// then a mirroring left to right. The raster that comes out has rows and
    /// columns exchanged.
    pub fn rotate_and_mirror(&self) -> (r: Raster)
        ensures
            r.wf(),
            r@ == self@.rotated().mirrored(),
            r@ == self@.transposed(),
    {
        proof {
            use_type_invariant(self);
            lemma_rotate_then_mirror_is_transpose(self@);
        }
        self.rotate90().mirror()
    }

    /// The bytes of the raster, row after row, three for each pixel.
    pub fn into_raw(self) -> (raw: Vec<u8>)
        ensures
            raw@ == raw_rgb(self@.pixels),
    {
        let mut raw: Vec<u8> = Vec::new();
        let mut i: usize = 0;
        while i < self.pixels.len()
            invariant
                i <= self.pixels@.len(),
                raw@.len() == 3 * i,
                forall|j: int|
                    0 <= j < raw@.len() ==> #[trigger] raw@[j] == self.pixels@[j / 3].channel(j % 3),
            decreases self.pixels@.len() - i,
        {
            let pixel: Rgb = self.pixels[i];
            raw.push(pixel.r);
            raw.push(pixel.g);
            raw.push(pixel.b);
            i += 1;
        }
        raw
    }

    /// The bytes of the raster as opaque pixels, row after row, four for
    /// each pixel. A raster too large for an image buffer is an error.
    pub fn into_raw_rgba(self) -> (r: Result<Vec<u8>, ErrorTy>)
        ensures
            match r {
                Ok(raw) => {
                    &&& fits_image_buffer(self@.width, self@.height)
                    &&& raw@ == raw_rgba(self@.pixels)
                },
                Err(e) => {
                    &&& !fits_image_buffer(self@.width, self@.height)
                    &&& e@ == Failure::ImageTooLarge(self@.width as usize, self@.height as usize)
                },
            },
    {
        proof {
            use_type_invariant(&self);
            lemma_with_alpha_of_raw_rgb(self@.pixels);
        }
        let width: usize = self.width;
        let height: usize = self.height;
        let fits: bool = width <= u32::MAX as usize && height <= u32::MAX as usize
            && self.pixels.len().checked_mul(4).is_some();
        if !fits {
            return Err(ErrorTy::ImageTooLarge(width, height));
        }
        let rgb = self.into_raw();
        Ok(to_rgba8(width as u32, height as u32, rgb))
    }
}

} // verus!

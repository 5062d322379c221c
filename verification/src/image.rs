//! The pixel buffer and its row-major geometry.

use crate::pixel::Pixel;
use vstd::arithmetic::div_mod::{lemma_fundamental_div_mod, lemma_fundamental_div_mod_converse};
use vstd::prelude::*;

verus! {

/// One of the three colour channels of a pixel.
#[derive(Clone, Copy, Debug, PartialEq, Eq, Structural)]
pub enum Channel {
    Red,
    Green,
    Blue,
}

impl Pixel {
    /// The value this pixel holds in channel `channel`.
    pub open spec fn channel(self, channel: Channel) -> u8 {
        match channel {
            Channel::Red => self.red,
            Channel::Green => self.green,
            Channel::Blue => self.blue,
        }
    }
}

/// The mathematical content of an image: its dimensions and its pixels in
/// row-major order, so that the pixel in row `r` and column `c` sits at
/// position `r * width + c`.
pub struct Raster {
    pub width: nat,
    pub height: nat,
    pub pixels: Seq<Pixel>,
}

impl Raster {
    /// The buffer holds exactly one pixel per coordinate.
    pub open spec fn wf(self) -> bool {
        self.pixels.len() == self.width * self.height
    }

    /// Whether `(row, col)` names a pixel of the image.
    pub open spec fn contains(self, row: int, col: int) -> bool {
        0 <= row < self.height && 0 <= col < self.width
    }

    /// The buffer position of the pixel in row `row` and column `col`.
    pub open spec fn index_of(self, row: int, col: int) -> int {
        row * self.width + col
    }

    /// The row of buffer position `i`.
    pub open spec fn row_of(self, i: int) -> int {
        i / (self.width as int)
    }

    /// The column of buffer position `i`.
    pub open spec fn col_of(self, i: int) -> int {
        i % (self.width as int)
    }

    /// The pixel in row `row` and column `col`.
    pub open spec fn at(self, row: int, col: int) -> Pixel {
        self.pixels[self.index_of(row, col)]
    }

    /// Whether position `i` lies in the buffer and at least `margin` pixels
    /// away from each of the four edges.
    pub open spec fn is_interior(self, i: int, margin: int) -> bool {
        &&& 0 <= i < self.pixels.len()
        &&& margin <= self.row_of(i)
        &&& self.row_of(i) + margin < self.height
        &&& margin <= self.col_of(i)
        &&& self.col_of(i) + margin < self.width
    }

    /// The image of the same dimensions whose pixel at each position `i` is
    /// `pixel_at(i)`.
    pub open spec fn remap(self, pixel_at: spec_fn(int) -> Pixel) -> Raster {
        Raster { pixels: Seq::new(self.pixels.len(), pixel_at), ..self }
    }

    /// The 3x3 block of channel `channel` centred on position `i`, rows from
    /// top to bottom and, within a row, columns from left to right.
    pub open spec fn window(self, i: int, channel: Channel) -> Seq<Seq<u8>> {
        Seq::new(
            3,
            |a: int|
                Seq::new(
                    3,
                    |b: int|
                        self.at(self.row_of(i) - 1 + a, self.col_of(i) - 1 + b).channel(channel),
                ),
        )
    }
}

/// Every coordinate inside the image maps to a position inside the buffer,
/// and the position maps back to the same coordinate.
pub proof fn lemma_index_of_roundtrip(v: Raster, row: int, col: int)
    requires
        v.wf(),
        v.contains(row, col),
    ensures
        0 <= v.index_of(row, col) < v.pixels.len(),
        v.row_of(v.index_of(row, col)) == row,
        v.col_of(v.index_of(row, col)) == col,
{
    let w = v.width as int;
    let h = v.height as int;
    assert(row * w + col < w * h) by (nonlinear_arith)
        requires
            0 <= row < h,
            0 <= col < w,
    ;
    assert(0 <= row * w + col) by (nonlinear_arith)
        requires
            0 <= row,
            0 <= col,
            0 <= w,
    ;
    assert(w * row + col == row * w + col) by (nonlinear_arith);
    lemma_fundamental_div_mod_converse(row * w + col, w, row, col);
}

/// Every position inside the buffer maps to a coordinate inside the image,
/// and the coordinate maps back to the same position.
pub proof fn lemma_coordinates_roundtrip(v: Raster, i: int)
    requires
        v.wf(),
        0 <= i < v.pixels.len(),
    ensures
        v.contains(v.row_of(i), v.col_of(i)),
        v.index_of(v.row_of(i), v.col_of(i)) == i,
{
    let w = v.width as int;
    let h = v.height as int;
    assert(w > 0) by (nonlinear_arith)
        requires
            0 <= i < w * h,
            0 <= w,
    ;
    lemma_fundamental_div_mod(i, w);
    let row = i / w;
    let col = i % w;
    assert(w * row == row * w) by (nonlinear_arith);
    assert(0 <= row < h) by (nonlinear_arith)
        requires
            0 <= i < w * h,
            i == row * w + col,
            0 <= col < w,
    ;
}

/// Moving `rows` down and `cols` to the right from position `i`, while
/// staying inside the image, moves `rows * width + cols` positions along the
/// buffer.
pub proof fn lemma_offset_index(v: Raster, i: int, rows: int, cols: int)
    requires
        v.wf(),
        0 <= i < v.pixels.len(),
        v.contains(v.row_of(i) + rows, v.col_of(i) + cols),
    ensures
        v.index_of(v.row_of(i) + rows, v.col_of(i) + cols) == i + rows * v.width + cols,
        0 <= i + rows * v.width + cols < v.pixels.len(),
{
    let w = v.width as int;
    let row = v.row_of(i);
    let col = v.col_of(i);
    lemma_coordinates_roundtrip(v, i);
    lemma_index_of_roundtrip(v, row + rows, col + cols);
    assert((row + rows) * w == row * w + rows * w) by (nonlinear_arith);
}

/// A 3x3 block of samples of one channel, rows from top to bottom.
pub type Neighbourhood = [[u8; 3]; 3];

/// A rectangular buffer of pixels in row-major order. The buffer always holds
/// `width * height` pixels; filters rewrite pixel values and never resize it.
/// An image of zero width or zero height holds no pixel.
pub struct Image {
    width: u32,
    height: u32,
    pixels: Vec<Pixel>,
}

impl View for Image {
    type V = Raster;

    closed spec fn view(&self) -> Raster {
        Raster { width: self.width as nat, height: self.height as nat, pixels: self.pixels@ }
    }
}

impl Image {
    #[verifier::type_invariant]
    spec fn well_formed(self) -> bool {
        self@.wf()
    }

    /// The dimensions of an image fit in 32 bits each.
    pub proof fn lemma_dimensions_bounded(&self)
        ensures
            self@.width <= u32::MAX,
            self@.height <= u32::MAX,
    {
    }

    /// Takes `pixels` as the row-major buffer of a `width` by `height` image.
    /// Refuses the buffer when its length is not `width * height`.
    pub fn from_raw(pixels: Vec<Pixel>, width: u32, height: u32) -> (image: Option<Image>)
        ensures
            image is Some <==> pixels@.len() == width * height,
            image matches Some(img) ==> img@ == (Raster {
                width: width as nat,
                height: height as nat,
                pixels: pixels@,
            }),
    {
        assert(width * height <= u64::MAX) by (nonlinear_arith)
            requires
                width <= u32::MAX,
                height <= u32::MAX,
        ;
        if pixels.len() as u64 == width as u64 * height as u64 {
            Some(Image { width, height, pixels })
        } else {
            None
        }
    }

    /// Gives the buffer back.
    pub fn into_raw(self) -> (pixels: Vec<Pixel>)
        ensures
            pixels@ == self@.pixels,
            self@.wf(),
    {
        proof {
            use_type_invariant(&self);
        }
        self.pixels
    }

    /// Copies the image, so that a filter can read the values that it is
    /// about to overwrite.
    pub fn snapshot(&self) -> (copy: Image)
        ensures
            copy@ == self@,
    {
        proof {
            use_type_invariant(self);
        }
        let pixels: Vec<Pixel> = self.pixels.clone();
        assert(pixels@ =~= self.pixels@);
        Image { width: self.width, height: self.height, pixels }
    }

    /// The number of columns.
    pub fn width(&self) -> (width: u32)
        ensures
            width == self@.width,
    {
        self.width
    }

    /// The number of rows.
    pub fn height(&self) -> (height: u32)
        ensures
            height == self@.height,
    {
        self.height
    }

    /// The pixels in row-major order.
    pub fn pixels(&self) -> (pixels: &[Pixel])
        ensures
            pixels@ == self@.pixels,
            self@.wf(),
    {
        proof {
            use_type_invariant(self);
        }
        self.pixels.as_slice()
    }

    /// The number of pixels in the buffer.
    pub fn len(&self) -> (len: usize)
        ensures
            len == self@.pixels.len(),
            self@.wf(),
    {
        proof {
            use_type_invariant(self);
        }
        self.pixels.len()
    }

    /// The pixel at buffer position `i`.
    pub fn get(&self, i: usize) -> (pixel: Pixel)
        requires
            i < self@.pixels.len(),
        ensures
            pixel == self@.pixels[i as int],
    {
        self.pixels[i]
    }

    /// Overwrites the pixel at buffer position `i`.
    pub fn set(&mut self, i: usize, pixel: Pixel)
        requires
            i < old(self)@.pixels.len(),
        ensures
            final(self)@ == (Raster {
                pixels: old(self)@.pixels.update(i as int, pixel),
                ..old(self)@
            }),
            final(self)@.wf(),
    {
        proof {
            use_type_invariant(&*self);
        }
        self.pixels[i] = pixel;
    }

    /// Splits buffer position `i` into its row and column.
    pub fn index_to_row_col(&self, i: usize) -> (coordinates: (usize, usize))
        requires
            i < self@.pixels.len(),
        ensures
            coordinates.0 == self@.row_of(i as int),
            coordinates.1 == self@.col_of(i as int),
            self@.contains(coordinates.0 as int, coordinates.1 as int),
    {
        proof {
            use_type_invariant(self);
            lemma_coordinates_roundtrip(self@, i as int);
        }
        let width: usize = self.width as usize;
        (i / width, i % width)
    }

    /// The buffer position of the pixel in row `row` and column `col`.
    pub fn row_col_to_index(&self, row: usize, col: usize) -> (i: usize)
        requires
            self@.contains(row as int, col as int),
        ensures
            i == self@.index_of(row as int, col as int),
            i < self@.pixels.len(),
    {
        proof {
            use_type_invariant(self);
            lemma_index_of_roundtrip(self@, row as int, col as int);
            assert(0 <= row * self.width) by (nonlinear_arith);
            assert(self.pixels@.len() == self.pixels.len());
        }
        row * (self.width as usize) + col
    }

    /// For a position at least one pixel away from every edge, the 3x3 blocks
    /// of red, green and blue samples centred on it.
    pub fn get_neighbour_colours(&self, i: usize) -> (blocks: (
        Neighbourhood,
        Neighbourhood,
        Neighbourhood,
    ))
        requires
            self@.is_interior(i as int, 1),
        ensures
            blocks.0.deep_view() == self@.window(i as int, Channel::Red),
            blocks.1.deep_view() == self@.window(i as int, Channel::Green),
            blocks.2.deep_view() == self@.window(i as int, Channel::Blue),
    {
        let (row, col) = self.index_to_row_col(i);
        let p00 = self.pixels[self.row_col_to_index(row - 1, col - 1)];
        let p01 = self.pixels[self.row_col_to_index(row - 1, col)];
        let p02 = self.pixels[self.row_col_to_index(row - 1, col + 1)];
        let p10 = self.pixels[self.row_col_to_index(row, col - 1)];
        let p11 = self.pixels[self.row_col_to_index(row, col)];
        let p12 = self.pixels[self.row_col_to_index(row, col + 1)];
        let p20 = self.pixels[self.row_col_to_index(row + 1, col - 1)];
        let p21 = self.pixels[self.row_col_to_index(row + 1, col)];
        let p22 = self.pixels[self.row_col_to_index(row + 1, col + 1)];
        let reds: Neighbourhood = [
            [p00.red, p01.red, p02.red],
            [p10.red, p11.red, p12.red],
            [p20.red, p21.red, p22.red],
        ];
        let greens: Neighbourhood = [
            [p00.green, p01.green, p02.green],
            [p10.green, p11.green, p12.green],
            [p20.green, p21.green, p22.green],
        ];
        let blues: Neighbourhood = [
            [p00.blue, p01.blue, p02.blue],
            [p10.blue, p11.blue, p12.blue],
            [p20.blue, p21.blue, p22.blue],
        ];
        assert(reds.deep_view() =~~= self@.window(i as int, Channel::Red));
        assert(greens.deep_view() =~~= self@.window(i as int, Channel::Green));
        assert(blues.deep_view() =~~= self@.window(i as int, Channel::Blue));
        (reds, greens, blues)
    }
}

} // verus!

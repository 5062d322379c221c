//! Edge detection: the image is reduced to gray and every pixel away from the
//! border is replaced by the strength of the intensity gradient around it.
//!
//! Gradients are always taken from the red samples the image held when the
//! filter was called, never from values the filter has already written.
//! Pixels too close to an edge for the kernel to fit keep their gray value.

use crate::image::{lemma_offset_index, Image, Raster};
use crate::magnitude::{gradient_magnitude, magnitude};
use crate::pixel::Pixel;
use crate::kernel::weights;
use crate::sobel::{
    is_size_code, response, sobel_x, sobel_y, MAX_KERNEL_SIZE, SOBEL_3X3_X, SOBEL_3X3_Y,
    SOBEL_5X5_X, SOBEL_5X5_Y, SOBEL_7X7_X, SOBEL_7X7_Y,
};
use crate::tonal::grayscale;
use vstd::prelude::*;

verus! {

impl Raster {
    /// The horizontal intensity difference across position `i`: the right
    /// hand neighbours minus the left hand ones, the middle row counted twice.
    pub open spec fn horizontal_gradient(self, i: int) -> int {
        let row = self.row_of(i);
        let col = self.col_of(i);
        self.at(row - 1, col + 1).red - self.at(row - 1, col - 1).red - 2 * self.at(
            row,
            col - 1,
        ).red + 2 * self.at(row, col + 1).red - self.at(row + 1, col - 1).red + self.at(
            row + 1,
            col + 1,
        ).red
    }

    /// The vertical intensity difference across position `i`: the neighbours
    /// below minus the ones above, the middle column counted twice.
    pub open spec fn vertical_gradient(self, i: int) -> int {
        let row = self.row_of(i);
        let col = self.col_of(i);
        -self.at(row - 1, col - 1).red - 2 * self.at(row - 1, col).red - self.at(
            row - 1,
            col + 1,
        ).red + self.at(row + 1, col - 1).red + 2 * self.at(row + 1, col).red + self.at(
            row + 1,
            col + 1,
        ).red
    }

    /// The edge image under the fixed kernels of size 3.
    pub open spec fn edges(self) -> Raster {
        self.remap(
            |i: int|
                if self.is_interior(i, 1) {
                    Pixel::gray(
                        gradient_magnitude(
                            self.horizontal_gradient(i),
                            self.vertical_gradient(i),
                        ) as u8,
                    )
                } else {
                    self.pixels[i].grayscaled()
                },
        )
    }

    /// The edge image under an arbitrary pair of square kernels of one odd
    /// size: pixels at least half a kernel away from every edge take the
    /// magnitude of the two responses, all others their gray value.
    pub open spec fn gradient_edges(self, kernel_x: Seq<Seq<int>>, kernel_y: Seq<Seq<int>>) -> Raster {
        let margin = kernel_x.len() / 2;
        self.remap(
            |i: int|
                if self.is_interior(i, margin as int) {
                    Pixel::gray(
                        gradient_magnitude(self.response(kernel_x, i), self.response(kernel_y, i)) as u8,
                    )
                } else {
                    self.pixels[i].grayscaled()
                },
        )
    }

    /// The edge image under the kernel pair that `size_code` selects; the
    /// image itself where `size_code` selects none.
    pub open spec fn sobel_edges(self, size_code: u8) -> Raster {
        if is_size_code(size_code) {
            self.gradient_edges(sobel_x(size_code), sobel_y(size_code))
        } else {
            self
        }
    }
}

/// Detects edges with the fixed kernels of size 3.
pub fn edge_detection(image: &mut Image)
    ensures
        final(image)@ == old(image)@.edges(),
{
    let source: Image = image.snapshot();
    grayscale(image);
    let ghost v = source@;
    let n: usize = source.len();
    let width: usize = source.width() as usize;
    let height: usize = source.height() as usize;
    let mut i: usize = 0;
    while i < n
        invariant
            i <= n,
            v == source@,
            v == old(image)@,
            v.wf(),
            n == v.pixels.len(),
            width == v.width,
            height == v.height,
            image@.width == v.width,
            image@.height == v.height,
            image@.pixels.len() == n,
            forall|k: int| 0 <= k < i ==> image@.pixels[k] == v.edges().pixels[k],
            forall|k: int| i <= k < n ==> image@.pixels[k] == v.pixels[k].grayscaled(),
        decreases n - i,
    {
        let (row, column) = source.index_to_row_col(i);
        let on_border: bool = row == 0 || row == height - 1 || column == 0 || column == width - 1;
        if !on_border {
            proof {
                lemma_offset_index(v, i as int, -1, -1);
                lemma_offset_index(v, i as int, -1, 0);
                lemma_offset_index(v, i as int, -1, 1);
                lemma_offset_index(v, i as int, 0, -1);
                lemma_offset_index(v, i as int, 0, 1);
                lemma_offset_index(v, i as int, 1, -1);
                lemma_offset_index(v, i as int, 1, 0);
                lemma_offset_index(v, i as int, 1, 1);
            }
            let mut sum_x: i32 = source.get(i - width + 1).red as i32;
            sum_x += -(source.get(i - width - 1).red as i32);
            sum_x += -2 * (source.get(i - 1).red as i32);
            sum_x += 2 * (source.get(i + 1).red as i32);
            sum_x += -(source.get(i + width - 1).red as i32);
            sum_x += source.get(i + width + 1).red as i32;

            let mut sum_y: i32 = -1 * (source.get(i - width - 1).red as i32);
            sum_y += -2 * (source.get(i - width).red as i32);
            sum_y += -(source.get(i - width + 1).red as i32);
            sum_y += source.get(i + width - 1).red as i32;
            sum_y += 2 * (source.get(i + width).red as i32);
            sum_y += source.get(i + width + 1).red as i32;

            assert(sum_x == v.horizontal_gradient(i as int));
            assert(sum_y == v.vertical_gradient(i as int));
            let mut pixel: Pixel = image.get(i);
            pixel.set_gray(magnitude(sum_x as i64, sum_y as i64));
            image.set(i, pixel);
        }
        i = i + 1;
    }
    assert(image@.pixels =~= v.edges().pixels);
}

/// Detects edges with a pair of square kernels of one odd size `N`: the
/// image turns gray, and every pixel at least `N / 2` pixels away from each
/// edge takes the magnitude of the two kernel responses around it.
pub fn gradient_filter<const N: usize>(
    image: &mut Image,
    kernel_x: &[[i32; N]; N],
    kernel_y: &[[i32; N]; N],
)
    requires
        N % 2 == 1,
        N <= MAX_KERNEL_SIZE,
    ensures
        final(image)@ == old(image)@.gradient_edges(weights(*kernel_x), weights(*kernel_y)),
{
    let source: Image = image.snapshot();
    grayscale(image);
    let ghost v = source@;
    let ghost wx = weights(*kernel_x);
    let ghost wy = weights(*kernel_y);
    let margin: usize = N / 2;
    let n: usize = source.len();
    let width: usize = source.width() as usize;
    let height: usize = source.height() as usize;
    let mut i: usize = 0;
    while i < n
        invariant
            i <= n,
            N % 2 == 1,
            N <= MAX_KERNEL_SIZE,
            margin == N / 2,
            v == source@,
            v == old(image)@,
            v.wf(),
            wx == weights(*kernel_x),
            wy == weights(*kernel_y),
            n == v.pixels.len(),
            width == v.width,
            height == v.height,
            image@.width == v.width,
            image@.height == v.height,
            image@.pixels.len() == n,
            forall|k: int| 0 <= k < i ==> image@.pixels[k] == v.gradient_edges(wx, wy).pixels[k],
            forall|k: int| i <= k < n ==> image@.pixels[k] == v.pixels[k].grayscaled(),
        decreases n - i,
    {
        let (row, column) = source.index_to_row_col(i);
        let near_edge: bool = row < margin || row > height - (margin + 1) || column < margin
            || column > width - (margin + 1);
        if !near_edge {
            let sum_x: i64 = response(&source, kernel_x, i);
            let sum_y: i64 = response(&source, kernel_y, i);
            let mut pixel: Pixel = image.get(i);
            pixel.set_gray(magnitude(sum_x, sum_y));
            image.set(i, pixel);
        }
        i = i + 1;
    }
    assert(image@.pixels =~= v.gradient_edges(wx, wy).pixels);
}

/// Detects edges with the kernel pair that `num` selects: 1 for size 3, 2 for
/// size 5, 3 for size 7. Any other `num` leaves the image untouched.
pub fn edge(image: &mut Image, num: u8)
    ensures
        final(image)@ == old(image)@.sobel_edges(num),
        !is_size_code(num) ==> final(image)@ == old(image)@,
{
    if num == 1 {
        gradient_filter::<3>(image, &SOBEL_3X3_X, &SOBEL_3X3_Y);
    } else if num == 2 {
        gradient_filter::<5>(image, &SOBEL_5X5_X, &SOBEL_5X5_Y);
    } else if num == 3 {
        gradient_filter::<7>(image, &SOBEL_7X7_X, &SOBEL_7X7_Y);
    }
}

/// The response of a kernel of size 3, written out term by term.
proof fn lemma_response_of_size_three(v: Raster, kernel: Seq<Seq<int>>, i: int)
    requires
        kernel.len() == 3,
        forall|j: int| 0 <= j < 3 ==> (#[trigger] kernel[j]).len() == 3,
    ensures
        v.response(kernel, i) == {
            let row = v.row_of(i);
            let col = v.col_of(i);
            kernel[0][0] * v.at(row - 1, col - 1).red + kernel[0][1] * v.at(row - 1, col).red
                + kernel[0][2] * v.at(row - 1, col + 1).red + kernel[1][0] * v.at(
                row,
                col - 1,
            ).red + kernel[1][1] * v.at(row, col).red + kernel[1][2] * v.at(row, col + 1).red
                + kernel[2][0] * v.at(row + 1, col - 1).red + kernel[2][1] * v.at(
                row + 1,
                col,
            ).red + kernel[2][2] * v.at(row + 1, col + 1).red
        },
{
    let top = v.row_of(i) - 1;
    let left = v.col_of(i) - 1;
    assert forall|j: int| 0 <= j < 3 implies v.row_response(#[trigger] kernel[j], top + j, left, 3)
        == kernel[j][0] * v.at(top + j, left).red + kernel[j][1] * v.at(top + j, left + 1).red
        + kernel[j][2] * v.at(top + j, left + 2).red by {
        reveal_with_fuel(Raster::row_response, 4);
    }
    assert(v.block_response(kernel, top, left, 3) == v.row_response(kernel[0], top, left, 3)
        + v.row_response(kernel[1], top + 1, left, 3) + v.row_response(
        kernel[2],
        top + 2,
        left,
        3,
    )) by {
        reveal_with_fuel(Raster::block_response, 4);
    }
}

/// The filter with the fixed kernels and the filter under size code 1 give
/// the same image, whatever the input.
pub proof fn lemma_edges_is_sobel_of_size_code_one(v: Raster)
    ensures
        v.edges() == v.sobel_edges(1),
{
    let kx = sobel_x(1);
    let ky = sobel_y(1);
    assert(kx.len() / 2 == 1 && ky.len() / 2 == 1);
    assert(kx[0] =~= seq![-1, 0, 1] && kx[1] =~= seq![-2, 0, 2] && kx[2] =~= seq![-1, 0, 1]);
    assert(ky[0] =~= seq![-1, -2, -1] && ky[1] =~= seq![0, 0, 0] && ky[2] =~= seq![1, 2, 1]);
    assert forall|i: int| 0 <= i < v.pixels.len() implies v.edges().pixels[i] == v.gradient_edges(
        kx,
        ky,
    ).pixels[i] by {
        lemma_response_of_size_three(v, kx, i);
        lemma_response_of_size_three(v, ky, i);
        assert(v.response(kx, i) == v.horizontal_gradient(i));
        assert(v.response(ky, i) == v.vertical_gradient(i));
    }
    assert(v.edges().pixels =~= v.gradient_edges(kx, ky).pixels);
}

} // verus!

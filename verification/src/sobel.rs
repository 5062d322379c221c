//! Derivative kernels for edge detection and the response of a kernel to the
//! intensities around a pixel.

use crate::image::{Image, Raster};
use crate::kernel::{weigh, weights};
use vstd::prelude::*;

verus! {

/// Horizontal derivative kernel of size 3.
pub const SOBEL_3X3_X: [[i32; 3]; 3] = [[-1, 0, 1], [-2, 0, 2], [-1, 0, 1]];

/// Vertical derivative kernel of size 3.
pub const SOBEL_3X3_Y: [[i32; 3]; 3] = [[-1, -2, -1], [0, 0, 0], [1, 2, 1]];

/// Horizontal derivative kernel of size 5.
pub const SOBEL_5X5_X: [[i32; 5]; 5] = [
    [-1, -2, 0, 2, 1],
    [-4, -10, 0, 10, 4],
    [-7, -17, 0, 17, 7],
    [-4, -10, 0, 10, 4],
    [-1, -2, 0, 2, 1],
];

/// Vertical derivative kernel of size 5.
pub const SOBEL_5X5_Y: [[i32; 5]; 5] = [
    [-1, -4, -7, -4, -1],
    [-2, -10, -17, -10, -2],
    [0, 0, 0, 0, 0],
    [2, 10, 17, 10, 2],
    [1, 4, 7, 4, 1],
];

/// Horizontal derivative kernel of size 7.
pub const SOBEL_7X7_X: [[i32; 7]; 7] = [
    [-1, -3, -3, 0, 3, 3, 1],
    [-4, -11, -13, 0, 13, 11, 4],
    [-9, -26, -30, 0, 30, 26, 9],
    [-13, -34, -40, 0, 40, 34, 13],
    [-9, -26, -30, 0, 30, 26, 9],
    [-4, -11, -13, 0, 13, 11, 4],
    [-1, -3, -3, 0, 3, 3, 1],
];

/// Vertical derivative kernel of size 7.
pub const SOBEL_7X7_Y: [[i32; 7]; 7] = [
    [-1, -4, -9, -13, -9, -4, -1],
    [-3, -11, -26, -34, -26, -11, -3],
    [-3, -13, -30, -40, -30, -13, -3],
    [0, 0, 0, 0, 0, 0, 0],
    [3, 13, 30, 40, 30, 13, 3],
    [3, 11, 26, 34, 26, 11, 3],
    [1, 4, 9, 13, 9, 4, 1],
];

/// Whether `size_code` selects a kernel pair: 1 selects the pair of size 3,
/// 2 the pair of size 5 and 3 the pair of size 7.
pub open spec fn is_size_code(size_code: u8) -> bool {
    1 <= size_code <= 3
}

/// The horizontal derivative kernel that `size_code` selects.
pub open spec fn sobel_x(size_code: u8) -> Seq<Seq<int>> {
    if size_code == 1 {
        weights(SOBEL_3X3_X)
    } else if size_code == 2 {
        weights(SOBEL_5X5_X)
    } else {
        weights(SOBEL_7X7_X)
    }
}

/// The vertical derivative kernel that `size_code` selects.
pub open spec fn sobel_y(size_code: u8) -> Seq<Seq<int>> {
    if size_code == 1 {
        weights(SOBEL_3X3_Y)
    } else if size_code == 2 {
        weights(SOBEL_5X5_Y)
    } else {
        weights(SOBEL_7X7_Y)
    }
}

impl Raster {
    /// The weighted sum of the red samples of `n` consecutive pixels of row
    /// `row`, starting at column `left`, under the first `n` entries of
    /// `row_weights`.
    pub open spec fn row_response(self, row_weights: Seq<int>, row: int, left: int, n: nat) -> int
        decreases n,
    {
        if n == 0 {
            0
        } else {
            self.row_response(row_weights, row, left, (n - 1) as nat) + row_weights[n - 1]
                * self.at(row, left + n - 1).red
        }
    }

    /// The weighted sum of the red samples of the block whose top left corner
    /// is `(top, left)`, under the first `n` rows of `kernel`.
    pub open spec fn block_response(self, kernel: Seq<Seq<int>>, top: int, left: int, n: nat) -> int
        decreases n,
    {
        if n == 0 {
            0
        } else {
            self.block_response(kernel, top, left, (n - 1) as nat) + self.row_response(
                kernel[n - 1],
                top + n - 1,
                left,
                kernel[n - 1].len(),
            )
        }
    }

    /// The response of `kernel` centred on position `i`: the sum, over every
    /// kernel entry, of the entry times the red sample lying under it.
    pub open spec fn response(self, kernel: Seq<Seq<int>>, i: int) -> int {
        let margin = kernel.len() / 2;
        self.block_response(
            kernel,
            self.row_of(i) - margin,
            self.col_of(i) - margin,
            kernel.len(),
        )
    }
}

/// The largest kernel size whose response is sure to fit in 64 bits.
pub const MAX_KERNEL_SIZE: usize = 4095;

/// The largest magnitude a sum of `n` terms can reach when each term is a
/// 32-bit weight times a channel sample.
pub open spec fn response_bound(n: int) -> int {
    n * 0x80_0000_0000
}

/// Computes the response of `kernel` centred on position `i` of `image`,
/// which must lie at least half a kernel away from every edge.
pub fn response<const N: usize>(image: &Image, kernel: &[[i32; N]; N], i: usize) -> (sum: i64)
    requires
        N % 2 == 1,
        N <= MAX_KERNEL_SIZE,
        image@.is_interior(i as int, N as int / 2),
    ensures
        sum == image@.response(weights(*kernel), i as int),
{
    let margin: usize = N / 2;
    let (row, col) = image.index_to_row_col(i);
    let top: usize = row - margin;
    let left: usize = col - margin;
    let ghost v = image@;
    let ghost k = weights(*kernel);
    proof {
        image.lemma_dimensions_bounded();
    }
    let mut sum: i64 = 0;
    let mut j: usize = 0;
    while j < N
        invariant
            j <= N,
            N <= MAX_KERNEL_SIZE,
            v == image@,
            k == weights(*kernel),
            top + N <= v.height <= u32::MAX,
            left + N <= v.width <= u32::MAX,
            sum == v.block_response(k, top as int, left as int, j as nat),
            -response_bound(MAX_KERNEL_SIZE * j) <= sum <= response_bound(MAX_KERNEL_SIZE * j),
        decreases N - j,
    {
        let mut row_sum: i64 = 0;
        let mut l: usize = 0;
        while l < N
            invariant
                j < N,
                l <= N,
                N <= MAX_KERNEL_SIZE,
                v == image@,
                k == weights(*kernel),
                top + N <= v.height <= u32::MAX,
                left + N <= v.width <= u32::MAX,
                row_sum == v.row_response(k[j as int], top + j, left as int, l as nat),
                -response_bound(l as int) <= row_sum <= response_bound(l as int),
            decreases N - l,
        {
            let at: usize = image.row_col_to_index(top + j, left + l);
            row_sum = row_sum + weigh(image.get(at).red, kernel[j][l]);
            l = l + 1;
        }
        sum = sum + row_sum;
        j = j + 1;
    }
    sum
}

} // verus!

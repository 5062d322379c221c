//! Convolution with a 3x3 kernel.
//!
//! Every pixel at least one pixel away from each edge is replaced, channel
//! by channel, by the value an evaluator gives for the 3x3 block of samples
//! around it. The blocks are always read from a copy of the image taken
//! before the first write, so no result depends on another. The one-pixel
//! border is left exactly as it was.

use crate::image::{lemma_coordinates_roundtrip, Channel, Image, Neighbourhood, Raster};
use crate::kernel::{weigh, weights};
use crate::pixel::Pixel;
use vstd::prelude::*;

verus! {

/// A 3x3 kernel of whole-number weights, rows from top to bottom. The weights
/// are applied as they stand: nothing normalises them.
pub type ConvolutionMatrix = [[i32; 3]; 3];

/// The sum of the nine samples, each times the kernel weight lying over it.
pub open spec fn weighted_sum(samples: Seq<Seq<u8>>, kernel: Seq<Seq<int>>) -> int {
    samples[0][0] * kernel[0][0] + samples[0][1] * kernel[0][1] + samples[0][2] * kernel[0][2]
        + samples[1][0] * kernel[1][0] + samples[1][1] * kernel[1][1] + samples[1][2]
        * kernel[1][2] + samples[2][0] * kernel[2][0] + samples[2][1] * kernel[2][1]
        + samples[2][2] * kernel[2][2]
}

/// Narrows a sum to a channel value: sums below 0 become 0 and sums above 255
/// become 255.
pub open spec fn saturate(sum: int) -> u8 {
    if sum < 0 {
        0
    } else if sum > 255 {
        255
    } else {
        sum as u8
    }
}

/// The sample that `kernel` yields on the block `samples`.
pub open spec fn convolved_sample(samples: Seq<Seq<u8>>, kernel: Seq<Seq<int>>) -> u8 {
    saturate(weighted_sum(samples, kernel))
}

/// The kernel that passes the centre sample through.
pub open spec fn identity_kernel() -> Seq<Seq<int>> {
    seq![seq![0, 0, 0], seq![0, 1, 0], seq![0, 0, 0]]
}

/// The kernel whose weights are all zero.
pub open spec fn zero_kernel() -> Seq<Seq<int>> {
    seq![seq![0, 0, 0], seq![0, 0, 0], seq![0, 0, 0]]
}

/// Whether `out` is a value that `evaluate` may return for a block holding
/// `samples`.
pub open spec fn evaluates_to<F: Fn(Neighbourhood) -> u8>(
    evaluate: F,
    samples: Seq<Seq<u8>>,
    out: u8,
) -> bool {
    exists|block: Neighbourhood|
        block.deep_view() == samples && #[trigger] evaluate.ensures((block,), out)
}

impl Raster {
    /// This image convolved with `kernel`.
    pub open spec fn convolved(self, kernel: Seq<Seq<int>>) -> Raster {
        self.remap(
            |i: int|
                if self.is_interior(i, 1) {
                    Pixel {
                        red: convolved_sample(self.window(i, Channel::Red), kernel),
                        green: convolved_sample(self.window(i, Channel::Green), kernel),
                        blue: convolved_sample(self.window(i, Channel::Blue), kernel),
                    }
                } else {
                    self.pixels[i]
                },
        )
    }
}

/// Applies `matrix` to one block of samples.
pub fn apply_convolution(neighbourhood: Neighbourhood, matrix: ConvolutionMatrix) -> (sample: u8)
    ensures
        sample == convolved_sample(neighbourhood.deep_view(), weights(matrix)),
{
    let sum: i64 = weigh(neighbourhood[0][0], matrix[0][0]) + weigh(
        neighbourhood[0][1],
        matrix[0][1],
    ) + weigh(neighbourhood[0][2], matrix[0][2]) + weigh(neighbourhood[1][0], matrix[1][0])
        + weigh(neighbourhood[1][1], matrix[1][1]) + weigh(neighbourhood[1][2], matrix[1][2])
        + weigh(neighbourhood[2][0], matrix[2][0]) + weigh(neighbourhood[2][1], matrix[2][1])
        + weigh(neighbourhood[2][2], matrix[2][2]);
    assert(sum == weighted_sum(neighbourhood.deep_view(), weights(matrix)));
    if sum < 0 {
        0
    } else if sum > 255 {
        255
    } else {
        sum as u8
    }
}

/// Convolves `image` with an evaluator of the caller's choice: each channel
/// of each pixel away from the border becomes what `evaluate` returns for the
/// block of that channel around the pixel, as the image held it on entry.
pub fn convolve_with<F: Fn(Neighbourhood) -> u8>(image: &mut Image, evaluate: F)
    requires
        forall|block: Neighbourhood| evaluate.requires((block,)),
    ensures
        final(image)@.width == old(image)@.width,
        final(image)@.height == old(image)@.height,
        final(image)@.pixels.len() == old(image)@.pixels.len(),
        forall|i: int|
            0 <= i < old(image)@.pixels.len() && !old(image)@.is_interior(i, 1)
                ==> #[trigger] final(image)@.pixels[i] == old(image)@.pixels[i],
        forall|i: int|
            old(image)@.is_interior(i, 1) ==> {
                let pixel = #[trigger] final(image)@.pixels[i];
                &&& evaluates_to(evaluate, old(image)@.window(i, Channel::Red), pixel.red)
                &&& evaluates_to(evaluate, old(image)@.window(i, Channel::Green), pixel.green)
                &&& evaluates_to(evaluate, old(image)@.window(i, Channel::Blue), pixel.blue)
            },
{
    let source: Image = image.snapshot();
    let ghost v = source@;
    let n: usize = image.len();
    let width: usize = image.width() as usize;
    let height: usize = image.height() as usize;
    let mut i: usize = 0;
    while i < n
        invariant
            i <= n,
            v == source@,
            v == old(image)@,
            v.wf(),
            n == v.pixels.len(),
            width == v.width,
            height == v.height,
            image@.width == v.width,
            image@.height == v.height,
            image@.pixels.len() == n,
            forall|block: Neighbourhood| evaluate.requires((block,)),
            forall|k: int|
                0 <= k < n && (k >= i || !v.is_interior(k, 1)) ==> #[trigger] image@.pixels[k]
                    == v.pixels[k],
            forall|k: int|
                0 <= k < i && v.is_interior(k, 1) ==> {
                    let pixel = #[trigger] image@.pixels[k];
                    &&& evaluates_to(evaluate, v.window(k, Channel::Red), pixel.red)
                    &&& evaluates_to(evaluate, v.window(k, Channel::Green), pixel.green)
                    &&& evaluates_to(evaluate, v.window(k, Channel::Blue), pixel.blue)
                },
        decreases n - i,
    {
        let (row, col) = image.index_to_row_col(i);
        if row > 0 && row < (height - 1) && col > 0 && col < (width - 1) {
            let (red_n, green_n, blue_n) = source.get_neighbour_colours(i);
            let red: u8 = evaluate(red_n);
            let green: u8 = evaluate(green_n);
            let blue: u8 = evaluate(blue_n);
            image.set(i, Pixel::rgb(red, green, blue));
        }
        i = i + 1;
    }
}

/// Convolves `image` with `matrix`.
pub fn convolution(image: &mut Image, matrix: ConvolutionMatrix)
    ensures
        final(image)@ == old(image)@.convolved(weights(matrix)),
{
    let evaluate = |block: Neighbourhood| -> (sample: u8)
        ensures
            sample == convolved_sample(block.deep_view(), weights(matrix)),
        { apply_convolution(block, matrix) };
    convolve_with(image, evaluate);
    proof {
        let v = old(image)@;
        let kernel = weights(matrix);
        assert forall|i: int| 0 <= i < v.pixels.len() implies image@.pixels[i] == v.convolved(
            kernel,
        ).pixels[i] by {
            if v.is_interior(i, 1) {
                let pixel = image@.pixels[i];
                assert(evaluates_to(evaluate, v.window(i, Channel::Red), pixel.red));
                assert(evaluates_to(evaluate, v.window(i, Channel::Green), pixel.green));
                assert(evaluates_to(evaluate, v.window(i, Channel::Blue), pixel.blue));
            }
        }
        assert(image@.pixels =~= v.convolved(kernel).pixels);
    }
}

/// Under the identity kernel a block yields its centre sample; under the
/// zero kernel it yields 0.
proof fn lemma_constant_kernels(samples: Seq<Seq<u8>>)
    ensures
        convolved_sample(samples, identity_kernel()) == samples[1][1],
        convolved_sample(samples, zero_kernel()) == 0,
{
    let one = identity_kernel();
    let zero = zero_kernel();
    assert(one[0] =~= seq![0, 0, 0] && one[1] =~= seq![0, 1, 0] && one[2] =~= seq![0, 0, 0]);
    assert(zero[0] =~= seq![0, 0, 0] && zero[1] =~= seq![0, 0, 0] && zero[2] =~= seq![0, 0, 0]);
}

/// Convolution with the identity kernel leaves every pixel as it was.
pub proof fn lemma_identity_kernel_changes_nothing(v: Raster)
    requires
        v.wf(),
    ensures
        v.convolved(identity_kernel()) == v,
{
    assert forall|i: int| 0 <= i < v.pixels.len() implies v.convolved(identity_kernel()).pixels[i]
        == v.pixels[i] by {
        lemma_coordinates_roundtrip(v, i);
        lemma_constant_kernels(v.window(i, Channel::Red));
        lemma_constant_kernels(v.window(i, Channel::Green));
        lemma_constant_kernels(v.window(i, Channel::Blue));
    }
    assert(v.convolved(identity_kernel()).pixels =~= v.pixels);
}

/// Convolution with the zero kernel turns every pixel away from the border
/// black and leaves the border as it was.
pub proof fn lemma_zero_kernel_blanks_interior(v: Raster)
    ensures
        v.convolved(zero_kernel()).width == v.width,
        v.convolved(zero_kernel()).height == v.height,
        v.convolved(zero_kernel()).pixels.len() == v.pixels.len(),
        forall|i: int|
            0 <= i < v.pixels.len() ==> #[trigger] v.convolved(zero_kernel()).pixels[i] == (
            if v.is_interior(i, 1) {
                Pixel { red: 0, green: 0, blue: 0 }
            } else {
                v.pixels[i]
            }),
{
    assert forall|i: int| 0 <= i < v.pixels.len() implies #[trigger] v.convolved(
        zero_kernel(),
    ).pixels[i] == (if v.is_interior(i, 1) {
        Pixel { red: 0, green: 0, blue: 0 }
    } else {
        v.pixels[i]
    }) by {
        lemma_constant_kernels(v.window(i, Channel::Red));
        lemma_constant_kernels(v.window(i, Channel::Green));
        lemma_constant_kernels(v.window(i, Channel::Blue));
    }
}

} // verus!

//! The filter selector and the single entry point that applies it.

use crate::convolution::{convolution, ConvolutionMatrix};
use crate::edge::{edge, edge_detection};
use crate::image::{Image, Raster};
use crate::kernel::weights;
use crate::mirror::{mirror_x, mirror_y};
use crate::sobel::is_size_code;
use crate::tonal::{grayscale, invert};
use vstd::prelude::*;

verus! {

/// The filters an image can undergo.
pub enum FilterType {
    /// Reflect the left half onto the right half.
    MirrorX,
    /// Reflect the top half onto the bottom half.
    MirrorY,
    /// Collapse every pixel to gray.
    Grayscale,
    /// Invert every channel of every pixel.
    Invert,
    /// Convolve with the given 3x3 kernel.
    Convolution(ConvolutionMatrix),
    /// Detect edges with the fixed kernels of size 3.
    EdgeDetection,
    /// Detect edges with the kernels selected by a size code: 1, 2 or 3 for
    /// size 3, 5 or 7. Any other code makes the filter do nothing.
    SobelFilter(u8),
}

impl Raster {
    /// The image that `filter` makes of this one.
    pub open spec fn filtered(self, filter: FilterType) -> Raster {
        match filter {
            FilterType::MirrorX => self.mirrored_x(),
            FilterType::MirrorY => self.mirrored_y(),
            FilterType::Grayscale => self.grayscaled(),
            FilterType::Invert => self.inverted(),
            FilterType::Convolution(matrix) => self.convolved(weights(matrix)),
            FilterType::EdgeDetection => self.edges(),
            FilterType::SobelFilter(size_code) => self.sobel_edges(size_code),
        }
    }
}

/// Buffers that filters can be applied to in place.
pub trait ImageFilterExt: View<V = Raster> {
    /// Rewrites the buffer as `filter` prescribes.
    fn filter(&mut self, filter: FilterType)
        ensures
            final(self)@ == old(self)@.filtered(filter),
    ;
}

impl ImageFilterExt for Image {
    /// Rewrites the image as `filter` prescribes. The dimensions never
    /// change, and a Sobel filter with an unknown size code changes nothing.
    fn filter(&mut self, filter: FilterType)
        ensures
            final(self)@.width == old(self)@.width,
            final(self)@.height == old(self)@.height,
            final(self)@.pixels.len() == old(self)@.pixels.len(),
            filter matches FilterType::SobelFilter(size_code) && !is_size_code(size_code)
                ==> final(self)@ == old(self)@,
    {
        match filter {
            FilterType::MirrorX => mirror_x(self),
            FilterType::MirrorY => mirror_y(self),
            FilterType::Grayscale => grayscale(self),
            FilterType::Invert => invert(self),
            FilterType::Convolution(matrix) => convolution(self, matrix),
            FilterType::EdgeDetection => edge_detection(self),
            FilterType::SobelFilter(num) => edge(self, num),
        }
    }
}

} // verus!

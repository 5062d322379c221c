//! Tonal filters: every pixel is rewritten from its own value alone.

use crate::image::{Image, Raster};
use crate::pixel::Pixel;
use vstd::prelude::*;

verus! {

impl Raster {
    /// This image with every pixel collapsed to gray.
    pub open spec fn grayscaled(self) -> Raster {
        self.remap(|i: int| self.pixels[i].grayscaled())
    }

    /// This image with every pixel inverted.
    pub open spec fn inverted(self) -> Raster {
        self.remap(|i: int| self.pixels[i].inverted())
    }

    /// Whether every pixel of the image is gray.
    pub open spec fn is_gray(self) -> bool {
        forall|i: int| 0 <= i < self.pixels.len() ==> (#[trigger] self.pixels[i]).is_gray()
    }
}

/// Collapses every pixel of `image` to gray.
pub fn grayscale(image: &mut Image)
    ensures
        final(image)@ == old(image)@.grayscaled(),
{
    let n: usize = image.len();
    let mut i: usize = 0;
    while i < n
        invariant
            i <= n,
            n == image@.pixels.len(),
            image@.width == old(image)@.width,
            image@.height == old(image)@.height,
            image@.pixels.len() == old(image)@.pixels.len(),
            forall|k: int| 0 <= k < i ==> image@.pixels[k] == old(image)@.pixels[k].grayscaled(),
            forall|k: int| i <= k < n ==> image@.pixels[k] == old(image)@.pixels[k],
        decreases n - i,
    {
        let mut pixel: Pixel = image.get(i);
        pixel.grayscale();
        image.set(i, pixel);
        i = i + 1;
    }
    assert(image@.pixels =~= old(image)@.grayscaled().pixels);
}

/// Inverts every pixel of `image`.
pub fn invert(image: &mut Image)
    ensures
        final(image)@ == old(image)@.inverted(),
{
    let n: usize = image.len();
    let mut i: usize = 0;
    while i < n
        invariant
            i <= n,
            n == image@.pixels.len(),
            image@.width == old(image)@.width,
            image@.height == old(image)@.height,
            image@.pixels.len() == old(image)@.pixels.len(),
            forall|k: int| 0 <= k < i ==> image@.pixels[k] == old(image)@.pixels[k].inverted(),
            forall|k: int| i <= k < n ==> image@.pixels[k] == old(image)@.pixels[k],
        decreases n - i,
    {
        let mut pixel: Pixel = image.get(i);
        pixel.invert();
        image.set(i, pixel);
        i = i + 1;
    }
    assert(image@.pixels =~= old(image)@.inverted().pixels);
}

/// Inverting an image twice gives the image back.
pub proof fn lemma_invert_is_involution(v: Raster)
    ensures
        v.inverted().inverted() == v,
{
    assert(v.inverted().inverted().pixels =~= v.pixels);
}

/// Converting to gray a second time changes nothing.
pub proof fn lemma_grayscale_is_idempotent(v: Raster)
    ensures
        v.grayscaled().grayscaled() == v.grayscaled(),
        v.grayscaled().is_gray(),
{
    assert(v.grayscaled().grayscaled().pixels =~= v.grayscaled().pixels);
}

/// On an image whose pixels are all gray, converting to gray and inverting
/// commute: either order gives the inverted image.
pub proof fn lemma_gray_image_commutes(v: Raster)
    requires
        v.is_gray(),
    ensures
        v.grayscaled().inverted() == v.inverted().grayscaled(),
        v.grayscaled().inverted() == v.inverted(),
{
    assert(v.grayscaled().pixels =~= v.pixels);
    assert(v.inverted().grayscaled().pixels =~= v.inverted().pixels);
}

/// Converting to gray and inverting commute on an image exactly when the
/// channels of every pixel sum to a multiple of three.
pub proof fn lemma_grayscale_invert_commute(v: Raster)
    ensures
        v.grayscaled().inverted() == v.inverted().grayscaled() <==> forall|i: int|
            0 <= i < v.pixels.len() ==> {
                let p = #[trigger] v.pixels[i];
                (p.red + p.green + p.blue) % 3 == 0
            },
{
    let a = v.grayscaled().inverted();
    let b = v.inverted().grayscaled();
    if a == b {
        assert forall|i: int| 0 <= i < v.pixels.len() implies {
            let p = #[trigger] v.pixels[i];
            (p.red + p.green + p.blue) % 3 == 0
        } by {
            assert(a.pixels[i] == b.pixels[i]);
            crate::pixel::lemma_grayscale_invert_commute(v.pixels[i]);
        }
    }
    if forall|i: int|
        0 <= i < v.pixels.len() ==> {
            let p = #[trigger] v.pixels[i];
            (p.red + p.green + p.blue) % 3 == 0
        } {
        assert forall|i: int| 0 <= i < v.pixels.len() implies a.pixels[i] == b.pixels[i] by {
            crate::pixel::lemma_grayscale_invert_commute(v.pixels[i]);
        }
        assert(a.pixels =~= b.pixels);
    }
}

} // verus!

//! Geometric filters: one half of the image is reflected onto the other.
//!
//! Both filters walk the buffer once, in ascending order. Every pixel they
//! write lies in the far half and every pixel they read in the near half, so
//! no pixel is read after it was written and no scratch copy is needed.

use crate::image::{lemma_coordinates_roundtrip, lemma_index_of_roundtrip, Image, Raster};
use crate::pixel::Pixel;
use vstd::prelude::*;

verus! {

impl Raster {
    /// Whether column `col` is overwritten when the left half is reflected
    /// onto the right: the last `width / 2` columns are. With an odd width the
    /// centre column is not among them.
    pub open spec fn in_right_half(self, col: int) -> bool {
        col >= self.width - self.width / 2
    }

    /// Whether row `row` is overwritten when the top half is reflected onto
    /// the bottom: the last `height / 2` rows are. With an odd height the
    /// centre row is not among them.
    pub open spec fn in_bottom_half(self, row: int) -> bool {
        row >= self.height - self.height / 2
    }

    /// The position whose pixel a left-to-right reflection copies to `i`.
    pub open spec fn mirror_x_source(self, i: int) -> int {
        self.index_of(self.row_of(i), self.width - 1 - self.col_of(i))
    }

    /// The position whose pixel a top-to-bottom reflection copies to `i`.
    pub open spec fn mirror_y_source(self, i: int) -> int {
        self.index_of(self.height - 1 - self.row_of(i), self.col_of(i))
    }

    /// This image with its left half reflected onto its right half: the pixel
    /// in column `c` of the right half becomes the one in column
    /// `width - 1 - c` of the same row, and the rest stays.
    pub open spec fn mirrored_x(self) -> Raster {
        self.remap(
            |i: int|
                if self.in_right_half(self.col_of(i)) {
                    self.pixels[self.mirror_x_source(i)]
                } else {
                    self.pixels[i]
                },
        )
    }

    /// This image with its top half reflected onto its bottom half: the pixel
    /// in row `r` of the bottom half becomes the one in row `height - 1 - r`
    /// of the same column, and the rest stays.
    pub open spec fn mirrored_y(self) -> Raster {
        self.remap(
            |i: int|
                if self.in_bottom_half(self.row_of(i)) {
                    self.pixels[self.mirror_y_source(i)]
                } else {
                    self.pixels[i]
                },
        )
    }
}

/// In the right half, the source of a reflection lies in the left half of
/// the same row, inside the buffer and before its target.
proof fn lemma_mirror_x_source(v: Raster, k: int)
    requires
        v.wf(),
        0 <= k < v.pixels.len(),
        v.in_right_half(v.col_of(k)),
    ensures
        0 <= v.mirror_x_source(k) < k,
        v.row_of(v.mirror_x_source(k)) == v.row_of(k),
        v.col_of(v.mirror_x_source(k)) == v.width - 1 - v.col_of(k),
        v.col_of(v.mirror_x_source(k)) < v.width / 2,
        !v.in_right_half(v.col_of(v.mirror_x_source(k))),
{
    lemma_coordinates_roundtrip(v, k);
    lemma_index_of_roundtrip(v, v.row_of(k), v.width - 1 - v.col_of(k));
}

/// In the bottom half, the source of a reflection lies in the top half of
/// the same column, inside the buffer and before its target.
proof fn lemma_mirror_y_source(v: Raster, k: int)
    requires
        v.wf(),
        0 <= k < v.pixels.len(),
        v.in_bottom_half(v.row_of(k)),
    ensures
        0 <= v.mirror_y_source(k) < k,
        v.row_of(v.mirror_y_source(k)) == v.height - 1 - v.row_of(k),
        v.col_of(v.mirror_y_source(k)) == v.col_of(k),
        v.row_of(v.mirror_y_source(k)) < v.height / 2,
        !v.in_bottom_half(v.row_of(v.mirror_y_source(k))),
{
    let w = v.width as int;
    let row = v.row_of(k);
    let source_row = v.height - 1 - row;
    lemma_coordinates_roundtrip(v, k);
    lemma_index_of_roundtrip(v, source_row, v.col_of(k));
    assert(source_row * w < row * w) by (nonlinear_arith)
        requires
            source_row < row,
            0 < w,
    ;
}

/// Reflects the left half of `image` onto its right half.
pub fn mirror_x(image: &mut Image)
    ensures
        final(image)@ == old(image)@.mirrored_x(),
{
    let ghost v = image@;
    let n: usize = image.len();
    let width: usize = image.width() as usize;
    let mid: usize = width / 2;
    let mut i: usize = 0;
    assert forall|k: int| 0 <= k < n && v.in_right_half(v.col_of(k)) implies 0
        <= v.mirror_x_source(k) by {
        lemma_mirror_x_source(v, k);
    }
    while i < n
        invariant
            i <= n,
            v == old(image)@,
            v.wf(),
            n == v.pixels.len(),
            width == v.width,
            mid == width / 2,
            image@.width == v.width,
            image@.height == v.height,
            image@.pixels.len() == n,
            forall|k: int|
                0 <= k < n ==> #[trigger] image@.pixels[k] == (if v.in_right_half(v.col_of(k))
                    && v.mirror_x_source(k) < i {
                    v.pixels[v.mirror_x_source(k)]
                } else {
                    v.pixels[k]
                }),
        decreases n - i,
    {
        let ghost before = image@;
        let (row, col) = image.index_to_row_col(i);
        if col < mid {
            let j: usize = image.row_col_to_index(row, width - 1 - col);
            let pixel: Pixel = image.get(i);
            image.set(j, pixel);
        }
        proof {
            lemma_coordinates_roundtrip(v, i as int);
            assert forall|k: int| 0 <= k < n implies #[trigger] image@.pixels[k] == (
            if v.in_right_half(v.col_of(k)) && v.mirror_x_source(k) < i + 1 {
                v.pixels[v.mirror_x_source(k)]
            } else {
                v.pixels[k]
            }) by {
                lemma_coordinates_roundtrip(v, k);
                assert(before.pixels[k] == (if v.in_right_half(v.col_of(k)) && v.mirror_x_source(k)
                    < i {
                    v.pixels[v.mirror_x_source(k)]
                } else {
                    v.pixels[k]
                }));
                if v.in_right_half(v.col_of(k)) {
                    lemma_mirror_x_source(v, k);
                }
                if col < mid {
                    lemma_index_of_roundtrip(v, row as int, width - 1 - col);
                }
            }
        }
        i = i + 1;
    }
    proof {
        assert forall|k: int| 0 <= k < n implies image@.pixels[k] == v.mirrored_x().pixels[k] by {
            if v.in_right_half(v.col_of(k)) {
                lemma_mirror_x_source(v, k);
            }
        }
        assert(image@.pixels =~= v.mirrored_x().pixels);
    }
}

/// Reflects the top half of `image` onto its bottom half.
pub fn mirror_y(image: &mut Image)
    ensures
        final(image)@ == old(image)@.mirrored_y(),
{
    let ghost v = image@;
    let n: usize = image.len();
    let height: usize = image.height() as usize;
    let mid: usize = height / 2;
    let mut i: usize = 0;
    assert forall|k: int| 0 <= k < n && v.in_bottom_half(v.row_of(k)) implies 0
        <= v.mirror_y_source(k) by {
        lemma_mirror_y_source(v, k);
    }
    while i < n
        invariant
            i <= n,
            v == old(image)@,
            v.wf(),
            n == v.pixels.len(),
            height == v.height,
            mid == height / 2,
            image@.width == v.width,
            image@.height == v.height,
            image@.pixels.len() == n,
            forall|k: int|
                0 <= k < n ==> #[trigger] image@.pixels[k] == (if v.in_bottom_half(v.row_of(k))
                    && v.mirror_y_source(k) < i {
                    v.pixels[v.mirror_y_source(k)]
                } else {
                    v.pixels[k]
                }),
        decreases n - i,
    {
        let ghost before = image@;
        let (row, col) = image.index_to_row_col(i);
        if row < mid {
            let j: usize = image.row_col_to_index(height - 1 - row, col);
            let pixel: Pixel = image.get(i);
            image.set(j, pixel);
        }
        proof {
            lemma_coordinates_roundtrip(v, i as int);
            assert forall|k: int| 0 <= k < n implies #[trigger] image@.pixels[k] == (
            if v.in_bottom_half(v.row_of(k)) && v.mirror_y_source(k) < i + 1 {
                v.pixels[v.mirror_y_source(k)]
            } else {
                v.pixels[k]
            }) by {
                lemma_coordinates_roundtrip(v, k);
                assert(before.pixels[k] == (if v.in_bottom_half(v.row_of(k)) && v.mirror_y_source(k)
                    < i {
                    v.pixels[v.mirror_y_source(k)]
                } else {
                    v.pixels[k]
                }));
                if v.in_bottom_half(v.row_of(k)) {
                    lemma_mirror_y_source(v, k);
                }
                if row < mid {
                    lemma_index_of_roundtrip(v, height - 1 - row, col as int);
                }
            }
        }
        i = i + 1;
    }
    proof {
        assert forall|k: int| 0 <= k < n implies image@.pixels[k] == v.mirrored_y().pixels[k] by {
            if v.in_bottom_half(v.row_of(k)) {
                lemma_mirror_y_source(v, k);
            }
        }
        assert(image@.pixels =~= v.mirrored_y().pixels);
    }
}

/// Reflecting left onto right a second time changes nothing: the first
/// reflection leaves the left half as it was, and the right half already
/// mirrors it.
pub proof fn lemma_mirror_x_is_idempotent(v: Raster)
    requires
        v.wf(),
    ensures
        v.mirrored_x().mirrored_x() == v.mirrored_x(),
{
    let once = v.mirrored_x();
    assert forall|i: int| 0 <= i < v.pixels.len() implies once.mirrored_x().pixels[i]
        == once.pixels[i] by {
        if v.in_right_half(v.col_of(i)) {
            lemma_mirror_x_source(v, i);
        }
    }
    assert(once.mirrored_x().pixels =~= once.pixels);
}

/// Reflecting top onto bottom a second time changes nothing.
pub proof fn lemma_mirror_y_is_idempotent(v: Raster)
    requires
        v.wf(),
    ensures
        v.mirrored_y().mirrored_y() == v.mirrored_y(),
{
    let once = v.mirrored_y();
    assert forall|i: int| 0 <= i < v.pixels.len() implies once.mirrored_y().pixels[i]
        == once.pixels[i] by {
        if v.in_bottom_half(v.row_of(i)) {
            lemma_mirror_y_source(v, i);
        }
    }
    assert(once.mirrored_y().pixels =~= once.pixels);
}

} // verus!

//! Gradient magnitude: the integer square root of a sum of two squares,
//! saturated to the range of a channel.

use vstd::prelude::*;

verus! {

/// Whether `root` is the integer square root of `n`: the largest natural
/// number whose square does not exceed `n`.
pub open spec fn is_floor_sqrt(n: int, root: int) -> bool {
    0 <= root && root * root <= n < (root + 1) * (root + 1)
}

/// The integer square root of `n`, for `n >= 0`.
pub open spec fn floor_sqrt(n: int) -> int {
    choose|root: int| is_floor_sqrt(n, root)
}

/// The strength of a gradient with components `sum_x` and `sum_y`: the square
/// root of `sum_x^2 + sum_y^2`, rounded down, and 255 where that exceeds 255.
pub open spec fn gradient_magnitude(sum_x: int, sum_y: int) -> int {
    let root = floor_sqrt(sum_x * sum_x + sum_y * sum_y);
    if root > 255 {
        255
    } else {
        root
    }
}

/// Every natural number has an integer square root.
pub proof fn lemma_floor_sqrt_exists(n: int)
    requires
        0 <= n,
    ensures
        is_floor_sqrt(n, floor_sqrt(n)),
    decreases n,
{
    if n == 0 {
        assert(is_floor_sqrt(0, 0));
    } else {
        lemma_floor_sqrt_exists(n - 1);
        let r = floor_sqrt(n - 1);
        if (r + 1) * (r + 1) <= n {
            assert(n < (r + 2) * (r + 2)) by (nonlinear_arith)
                requires
                    n - 1 < (r + 1) * (r + 1),
                    0 <= r,
            ;
            assert(is_floor_sqrt(n, r + 1));
        } else {
            assert(is_floor_sqrt(n, r));
        }
    }
}

/// The integer square root is unique.
pub proof fn lemma_floor_sqrt_unique(n: int, root: int)
    requires
        is_floor_sqrt(n, root),
    ensures
        floor_sqrt(n) == root,
{
    let other = floor_sqrt(n);
    assert(is_floor_sqrt(n, other));
    assert(other == root) by (nonlinear_arith)
        requires
            0 <= root,
            0 <= other,
            root * root <= n < (root + 1) * (root + 1),
            other * other <= n < (other + 1) * (other + 1),
    ;
}

/// A gradient whose squared length reaches `255^2` has magnitude 255.
pub proof fn lemma_magnitude_saturates(sum_x: int, sum_y: int)
    requires
        sum_x * sum_x + sum_y * sum_y >= 255 * 255,
    ensures
        gradient_magnitude(sum_x, sum_y) == 255,
{
    let n = sum_x * sum_x + sum_y * sum_y;
    lemma_floor_sqrt_exists(n);
    let r = floor_sqrt(n);
    assert(r >= 255) by (nonlinear_arith)
        requires
            0 <= r,
            255 * 255 <= n < (r + 1) * (r + 1),
    ;
}

/// Computes the magnitude of the gradient `(sum_x, sum_y)`.
pub fn magnitude(sum_x: i64, sum_y: i64) -> (strength: u8)
    ensures
        strength == gradient_magnitude(sum_x as int, sum_y as int),
{
    if sum_x <= -255 || sum_x >= 255 || sum_y <= -255 || sum_y >= 255 {
        proof {
            assert(sum_x * sum_x + sum_y * sum_y >= 255 * 255) by (nonlinear_arith)
                requires
                    sum_x <= -255 || sum_x >= 255 || sum_y <= -255 || sum_y >= 255,
            ;
            lemma_magnitude_saturates(sum_x as int, sum_y as int);
        }
        return 255;
    }
    assert(0 <= sum_x * sum_x <= 254 * 254 && 0 <= sum_y * sum_y <= 254 * 254)
        by (nonlinear_arith)
        requires
            -254 <= sum_x <= 254,
            -254 <= sum_y <= 254,
    ;
    let n: i64 = sum_x * sum_x + sum_y * sum_y;
    if n >= 255 * 255 {
        proof {
            lemma_magnitude_saturates(sum_x as int, sum_y as int);
        }
        return 255;
    }
    let mut low: i64 = 0;
    let mut high: i64 = 254;
    while low < high
        invariant
            0 <= low <= high <= 254,
            low * low <= n < (high + 1) * (high + 1),
        decreases high - low,
    {
        let mid: i64 = (low + high + 1) / 2;
        assert(0 <= mid * mid <= 254 * 254) by (nonlinear_arith)
            requires
                0 <= mid <= 254,
        ;
        if mid * mid <= n {
            low = mid;
        } else {
            high = mid - 1;
        }
    }
    proof {
        lemma_floor_sqrt_unique(n as int, low as int);
    }
    low as u8
}

} // verus!

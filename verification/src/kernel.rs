//! Square kernels of integer weights.

use vstd::prelude::*;

verus! {

/// The weights of a square kernel as a matrix of integers, rows from top to
/// bottom.
pub open spec fn weights<const N: usize>(kernel: [[i32; N]; N]) -> Seq<Seq<int>> {
    Seq::new(N as nat, |j: int| Seq::new(N as nat, |l: int| kernel[j][l] as int))
}

/// The product of a channel sample and a kernel weight.
pub fn weigh(sample: u8, weight: i32) -> (term: i64)
    ensures
        term == sample * weight,
        term == weight * sample,
        -0x80_0000_0000 <= term <= 0x80_0000_0000,
{
    assert(-0x80_0000_0000 <= sample * weight <= 0x80_0000_0000 && sample * weight == weight
        * sample) by (nonlinear_arith)
        requires
            0 <= sample <= 255,
            -0x8000_0000 <= weight <= 0x8000_0000,
    ;
    sample as i64 * weight as i64
}

} // verus!

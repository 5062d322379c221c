//! A sixteen-bit word read as a set of flags.

use vstd::prelude::*;

verus! {

/// Sixteen boolean flags packed into one word; flag `i` is bit `i` of the word.
pub struct BitFlags {
    num: u16,
}

impl View for BitFlags {
    type V = u16;

    closed spec fn view(&self) -> u16 {
        self.num
    }
}

/// Whether bit `i` of `word` is one. Positions past the top bit hold no flag.
pub open spec fn bit_is_set(word: u16, i: nat) -> bool {
    i <= 15 && (word >> (i as u16)) & 1 == 1
}

impl BitFlags {
    /// Wraps `num` as a flag word.
    pub fn new(num: u16) -> (flags: BitFlags)
        ensures
            flags@ == num,
    {
        BitFlags { num }
    }

    /// Reads flag `i`; any `i` above 15 reads as unset.
    pub fn get(&self, i: usize) -> (set: bool)
        ensures
            set == bit_is_set(self@, i as nat),
    {
        if i > 15 {
            return false;
        }
        (self.num >> i & 1) == 1
    }
}

} // verus!

//! A single-bit scalar and its bit-serialization.

use vstd::prelude::*;

verus! {

/// A boolean scalar value.
#[derive(Clone, Copy, PartialEq, Eq, Structural, Debug)]
pub struct Boolean {
    pub value: bool,
}

impl Boolean {
    /// Wraps a raw bit.
    pub fn new(value: bool) -> (r: Self)
        ensures
            r.value == value,
    {
        Boolean { value }
    }

    /// The wrapped bit.
    pub fn get(&self) -> (r: bool)
        ensures
            r == self.value,
    {
        self.value
    }

    /// Outputs `self` in a vector, least significant bit first.
    pub fn to_bits_le(&self) -> (r: Vec<bool>)
        ensures
            r@ == seq![self.value],
    {
        let mut bits: Vec<bool> = Vec::new();
        bits.push(self.value);
        proof {
            assert(bits@ =~= seq![self.value]);
        }
        bits
    }

    /// Outputs `self` in a vector, most significant bit first.
    pub fn to_bits_be(&self) -> (r: Vec<bool>)
        ensures
            r@ == seq![self.value],
    {
        let mut bits: Vec<bool> = Vec::new();
        bits.push(self.value);
        proof {
            assert(bits@ =~= seq![self.value]);
        }
        bits
    }

    /// The number of bits a boolean serializes to.
    pub fn size_in_bits() -> (r: usize)
        ensures
            r == 1,
    {
        1
    }
}

} // verus!

use vstd::prelude::*;

verus! {

/// A 160-bit account address, held as three big-endian words: `high` is the
/// first 4 bytes, `middle` the next 8 and `low` the last 8.
#[derive(Clone, Copy, PartialEq, Eq, Structural, Debug)]
pub struct Address {
    pub high: u32,
    pub middle: u64,
    pub low: u64,
}

impl Address {
    /// The address made of the three given words.
    pub fn new(high: u32, middle: u64, low: u64) -> (a: Address)
        ensures
            a == (Address { high, middle, low }),
    {
        Address { high, middle, low }
    }

    /// The address whose last 8 bytes hold `value` in big-endian order and
    /// whose other bytes are zero.
    pub fn from_low_u64_be(value: u64) -> (a: Address)
        ensures
            a == (Address { high: 0, middle: 0, low: value }),
    {
        Address { high: 0, middle: 0, low: value }
    }
}

} // verus!

use vstd::prelude::*;

verus! {

/// A 160-bit chain address, split into a 32-bit high part and a 128-bit low
/// part so the whole value is carried in plain machine integers.
#[derive(Clone, Copy, Debug, PartialEq, Eq, Structural)]
pub struct Address {
    pub hi: u32,
    pub lo: u128,
}

impl Address {
    /// The address as one mathematical integer.
    pub open spec fn value(self) -> int {
        self.hi * 0x100000000000000000000000000000000 + self.lo
    }

    /// The all-zero address; factory contracts return it to say "no pool".
    pub open spec fn is_zero_spec(self) -> bool {
        self.hi == 0 && self.lo == 0
    }

    pub fn new(hi: u32, lo: u128) -> (a: Address)
        ensures
            a.hi == hi,
            a.lo == lo,
    {
        Address { hi, lo }
    }

    pub fn zero() -> (a: Address)
        ensures
            a.is_zero_spec(),
    {
        Address { hi: 0, lo: 0 }
    }

    pub fn is_zero(&self) -> (r: bool)
        ensures
            r == self.is_zero_spec(),
    {
        self.hi == 0 && self.lo == 0
    }

    /// Strict numeric order.  Pool contracts sort their two tokens this way,
    /// so this decides which reserve slot belongs to which asset.
    pub fn lt(&self, other: &Address) -> (r: bool)
        ensures
            r == (self.value() < other.value()),
    {
        if self.hi < other.hi {
            true
        } else if self.hi == other.hi {
            self.lo < other.lo
        } else {
            false
        }
    }
}

} // verus!

use vstd::prelude::*;

verus! {

/// Bit pattern of the binary32 number 0.0.
pub const ZERO_BITS: u32 = 0;

/// Bit pattern of the binary32 number 1.0.
pub const ONE_BITS: u32 = 0x3f80_0000;

/// A 32-bit IEEE 754 number, held by its bit pattern.
///
/// The canvas arranges coordinates and colours; it never computes with them.
/// A scalar is therefore carried as the 32 bits of the number, and two
/// scalars are the same exactly when their bits are the same.
#[derive(Debug, Clone, Copy, PartialEq, Eq, Structural)]
pub struct Scalar {
    pub bits: u32,
}

impl Scalar {
    /// The scalar with the given bit pattern.
    pub fn from_bits(bits: u32) -> (s: Scalar)
        ensures
            s.bits == bits,
    {
        Scalar { bits }
    }

    /// The bit pattern of this scalar.
    pub fn to_bits(self) -> (bits: u32)
        ensures
            bits == self.bits,
    {
        self.bits
    }

    /// The number 0.0.
    pub open spec fn spec_zero() -> Scalar {
        Scalar { bits: ZERO_BITS }
    }

    /// The number 1.0.
    pub open spec fn spec_one() -> Scalar {
        Scalar { bits: ONE_BITS }
    }

    /// The number 0.0.
    #[verifier::when_used_as_spec(spec_zero)]
    pub fn zero() -> (s: Scalar)
        ensures
            s == Self::spec_zero(),
    {
        Scalar { bits: ZERO_BITS }
    }

    /// The number 1.0.
    #[verifier::when_used_as_spec(spec_one)]
    pub fn one() -> (s: Scalar)
        ensures
            s == Self::spec_one(),
    {
        Scalar { bits: ONE_BITS }
    }
}

} // verus!

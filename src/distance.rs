//! Parameters of the distance between events.
use crate::event::Bits;
use vstd::prelude::*;

verus! {

/// Euclidean distance between the momenta of two events, plus an extra
/// contribution proportional to the difference in transverse momentum
#[derive(Clone, Copy, Debug, PartialEq, Eq, Structural)]
pub struct EuclWithScaledPt {
    /// Weight of the transverse-momentum term (the τ parameter), as the bit
    /// pattern of a double
    pub pt_weight: Bits,
}

impl EuclWithScaledPt {
    /// Distance with the given transverse-momentum weight
    pub fn new(pt_weight: Bits) -> (d: Self)
        ensures
            d.pt_weight == pt_weight,
    {
        EuclWithScaledPt { pt_weight }
    }
}

impl Default for EuclWithScaledPt {
    /// Plain Euclidean distance: the transverse-momentum weight is zero
    /// (zero is the double whose bits are all zero)
    fn default() -> (d: Self)
        ensures
            d.pt_weight == 0,
    {
        EuclWithScaledPt { pt_weight: 0 }
    }
}

} // verus!

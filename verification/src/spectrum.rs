//! The radiance carrier of the sampling pipeline.
use vstd::prelude::*;

verus! {

/// A spectrum with no stored samples. It deliberately reports itself
/// non-black, so a pipeline built over it keeps every light path alive.
#[derive(Clone, Copy, PartialEq, Eq, Structural, Debug)]
pub struct Spectrum {}

impl Spectrum {
    pub fn new() -> (r: Spectrum)
        ensures
            r == (Spectrum {  }),
    {
        Spectrum {  }
    }

    /// Whether the spectrum carries no energy; never true for this carrier.
    pub fn is_black(&self) -> (r: bool)
        ensures
            r == false,
    {
        false
    }
}

} // verus!

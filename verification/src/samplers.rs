//! Per-pixel sample streams.
use vstd::prelude::*;

verus! {

/// The sample stream a sampler opens for one pixel. This stream is empty:
/// it hands out no samples, and a renderer that drains it falls back to its
/// own uniform draws.
pub struct SamplerPixel();

impl SamplerPixel {
    /// The next sample of the stream; there is none.
    pub fn next(&mut self) -> (r: Option<()>)
        ensures
            r.is_none(),
            *final(self) == *old(self),
    {
        None
    }
}

} // verus!

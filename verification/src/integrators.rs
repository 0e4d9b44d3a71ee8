//! Recursion control for integrators.
//!
//! The radiance values are floating-point work done by the renderer; what
//! is pinned down here is the estimator's decision structure: recursion
//! stops at a hard depth cutoff, never by chance, and each scatter outcome
//! maps to exactly one next step.
use vstd::prelude::*;

verus! {

/// The hard cutoff of the recursive radiance estimator: once a path has
/// reached `max_depth` bounces it contributes its emitted light only, and
/// the recursion ends deterministically. This is the estimator's sole
/// recursion guard.
pub fn depth_exhausted(depth: i32, max_depth: i32) -> (r: bool)
    ensures
        r == (depth >= max_depth),
{
    depth >= max_depth
}

/// What a material's scatter call reported, stripped to its shape: the
/// path was absorbed, continues along a deterministic specular ray, or
/// continues along a sampled direction whose density may have vanished.
#[derive(Clone, Copy, PartialEq, Eq, Structural, Debug)]
pub enum ScatterOutcome {
    Absorbed,
    Specular,
    Diffuse { pdf_vanishes: bool },
}

/// What the estimator does next with a path.
#[derive(Clone, Copy, PartialEq, Eq, Structural, Debug)]
pub enum PathStep {
    EmittedOnly,
    SpecularBounce,
    WeightedBounce,
}

/// The estimator's decision table, one rule per outcome and no chance
/// anywhere: a path past the depth cutoff, an absorbed path, and a diffuse
/// path whose sampling density vanished all end with their emitted light;
/// a specular path bounces with weight one (no density division); any
/// other diffuse path bounces with the density-ratio weight.
pub fn radiance_step(depth: i32, max_depth: i32, outcome: ScatterOutcome) -> (r: PathStep)
    ensures
        depth >= max_depth ==> r == PathStep::EmittedOnly,
        depth < max_depth ==> r == match outcome {
            ScatterOutcome::Absorbed => PathStep::EmittedOnly,
            ScatterOutcome::Specular => PathStep::SpecularBounce,
            ScatterOutcome::Diffuse { pdf_vanishes } => if pdf_vanishes {
                PathStep::EmittedOnly
            } else {
                PathStep::WeightedBounce
            },
        },
{
    if depth_exhausted(depth, max_depth) {
        return PathStep::EmittedOnly;
    }
    match outcome {
        ScatterOutcome::Absorbed => PathStep::EmittedOnly,
        ScatterOutcome::Specular => PathStep::SpecularBounce,
        ScatterOutcome::Diffuse { pdf_vanishes } => {
            if pdf_vanishes {
                PathStep::EmittedOnly
            } else {
                PathStep::WeightedBounce
            }
        },
    }
}

/// A Whitted-style integrator: direct lighting plus specular recursion
/// bounded by `max_depth`.
pub struct WhittedIntegrator {
    pub max_depth: i32,
}

impl WhittedIntegrator {
    pub fn new(max_depth: i32) -> (r: WhittedIntegrator)
        ensures
            r.max_depth == max_depth,
    {
        WhittedIntegrator { max_depth }
    }

    /// Whether a path at `depth` may spawn one more specular bounce: the
    /// same hard cutoff, asked one bounce ahead.
    pub fn recurse_specular(&self, depth: i32) -> (r: bool)
        requires
            depth < i32::MAX,
        ensures
            r == (depth + 1 < self.max_depth),
    {
        !depth_exhausted(depth + 1, self.max_depth)
    }
}

} // verus!

//! Core data structures and rules of a small Monte Carlo path tracer: the
//! film that collects rendered pixels, the integer bounds arithmetic behind
//! its tiles, the permutation tables that drive procedural noise, the
//! exact-arithmetic model of the intersection core, and the decision rules
//! of the recursive radiance estimator.
use vstd::prelude::*;

pub mod film;
pub mod hitable;
pub mod integrators;
pub mod math;
pub mod noise;
pub mod random;
pub mod samplers;
pub mod spectrum;

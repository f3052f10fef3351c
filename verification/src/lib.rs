//! A particle emission and simulation engine.
//!
//! The engine spawns particles from configurable emitters (a point, the
//! volume or surface of a cube, the volume or surface of a sphere),
//! advances them under constant gravity, and culls the ones whose energy
//! has run out.  All geometry is carried in fixed-point arithmetic: an
//! `i64` holds thousandths of a world unit (or of a second), so the whole
//! simulation step is exact integer arithmetic with proved bounds.
//!
//! Randomness is drawn from the process-wide `rand` generator through a
//! single trusted sampler; everything done with a sample afterwards is
//! verified for every value the sampler may return.

pub mod emitter;
pub mod manager;
pub mod math;
pub mod particle;
pub mod rng;
pub mod style;
pub mod system;

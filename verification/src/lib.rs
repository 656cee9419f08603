//! Gravitational trajectories in fixed-point arithmetic, with verified contracts.
//!
//! Massive bodies attract each other; massless probes move in their field,
//! in an inertial frame or in one that rotates. On top of the two
//! integrators stand a bisection for the first Lagrange point of two
//! co-rotating masses, a shooting search for periodic orbits about it, and
//! a tracer of the manifolds of such an orbit.
//!
//! Every quantity is a [`fixed::Fixed`], a number with 40 fractional bits in
//! a 64-bit integer, so that each function has an exact mathematical
//! statement of what it returns. Nothing here panics, wraps or saturates:
//! a quantity that leaves the range, a probe on top of a body, or a
//! configuration that describes no system ends the computation with a
//! [`error::TraceError`].
//!
//! - [`fixed`], [`vector`]: numbers and plane vectors.
//! - [`kernel`]: the field of point masses.
//! - [`trajectory`]: histories of snapshots.
//! - [`tracer`], [`bodies`]: the integrators.
//! - [`halo_orbits_compute`], [`halo_orbits`]: the Lagrange point, flights
//!   about it and the search for periodic orbits.
//! - [`manifolds_earth_moon`]: manifolds of a periodic orbit.
//! - [`leo_to_moon_compute`]: the probe that a body comes nearest to capturing.
//! - [`laws`], [`conservation`]: what holds of the above whatever the inputs.

pub mod bodies;
pub mod conservation;
pub mod error;
pub mod fixed;
pub mod halo_orbits;
pub mod halo_orbits_compute;
pub mod kernel;
pub mod laws;
pub mod leo_to_moon_compute;
pub mod manifolds_earth_moon;
pub mod tracer;
pub mod trajectory;
pub mod vector;

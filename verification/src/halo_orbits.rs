//! Probes about the first Lagrange point of two co-rotating masses.

use crate::error::TraceError;
use crate::fixed::Fixed;
use crate::halo_orbits_compute::{
    co_rotating, co_rotating_model_spec, co_rotating_options, co_rotating_spec, find_l1_x,
    find_l1_x_spec, L1_TOLERANCE_RAW,
};
use crate::kernel::{collect, lemma_collect_stops};
use crate::tracer::{
    ships_trajectory_spec, ships_velocities_spec, steps_spec, trace_ships_phase, whole_steps,
    NoInspection, PhaseHistory,
};
use crate::trajectory::{can_allocate, history_fits, Trajectory};
use crate::vector::Vec2;
use vstd::prelude::*;

verus! {

/// Time step of the simulations about the Lagrange point: `0.00005`.
pub open spec fn simulation_dt() -> Fixed {
    Fixed::fraction_spec(5, 100_000)
}

/// Position `i` moved by `l1` along the x axis, as a function of `i`.
pub open spec fn offset_of(positions: Seq<Vec2>, l1: Fixed) -> spec_fn(int) -> Result<Vec2, TraceError> {
    |i: int|
        match positions[i].x.add_spec(l1) {
            Some(x) => Ok(Vec2 { x, y: positions[i].y }),
            None => Err(TraceError::Overflow),
        }
}

/// The positions moved by `l1` along the x axis.
pub open spec fn offset_spec(positions: Seq<Vec2>, l1: Fixed) -> Result<Seq<Vec2>, TraceError> {
    collect(offset_of(positions, l1), positions.len())
}

/// The positions moved by `l1` along the x axis.
fn offset(positions: &Vec<Vec2>, l1: Fixed) -> (r: Result<Vec<Vec2>, TraceError>)
    ensures
        match r {
            Ok(v) => offset_spec(positions@, l1) == Ok::<Seq<Vec2>, TraceError>(v@),
            Err(e) => offset_spec(positions@, l1) == Err::<Seq<Vec2>, TraceError>(e),
        },
{
    let ghost f = offset_of(positions@, l1);
    let mut out: Vec<Vec2> = Vec::new();
    let mut i: usize = 0;
    while i < positions.len()
        invariant
            i <= positions.len(),
            f == offset_of(positions@, l1),
            collect(f, i as nat) == Ok::<Seq<Vec2>, TraceError>(out@),
        decreases positions.len() - i,
    {
        match positions[i].x.checked_add(l1) {
            Some(x) => {
                out.push(Vec2 { x, y: positions[i].y });
            },
            None => {
                proof {
                    lemma_collect_stops(f, (i + 1) as nat, positions@.len());
                }
                return Err(TraceError::Overflow);
            },
        }
        i += 1;
    }
    Ok(out)
}

/// The flight that [`simulate_ships`] traces, or why there is none.
pub open spec fn simulation_spec(
    total_time: Fixed,
    m1: Fixed,
    m2: Fixed,
    ship_positions: Seq<Vec2>,
    ship_velocities: Seq<Vec2>,
) -> Result<crate::tracer::ShipsModel<crate::halo_orbits_compute::RotatingFrame>, TraceError> {
    if m1.raw <= 0 || m2.raw <= 0 || total_time.raw < 0 || steps_spec(total_time, simulation_dt())
        > usize::MAX || !history_fits(steps_spec(total_time, simulation_dt()) as nat, 2) {
        Err(TraceError::InvalidConfiguration)
    } else {
        match (find_l1_x_spec(m1, m2, Fixed { raw: L1_TOLERANCE_RAW }), co_rotating_spec(m1, m2)) {
            (Ok(l1), Some(sys)) => match offset_spec(ship_positions, l1) {
                Ok(positions) => Ok(
                    co_rotating_model_spec(
                        sys,
                        positions,
                        ship_velocities,
                        simulation_dt(),
                        steps_spec(total_time, simulation_dt()) as nat,
                    ),
                ),
                Err(e) => Err(e),
            },
            (Err(e), _) => Err(e),
            (_, None) => Err(TraceError::Overflow),
        }
    }
}

/// Simulates probes about the first Lagrange point of masses `m1` and `m2`
/// for `total_time` and returns the histories of their positions and
/// velocities.
///
/// `ship_positions` are relative to the Lagrange point; `ship_velocities`
/// and all that is returned are in the co-rotating frame of the centre of
/// mass.
pub fn simulate_ships_phase(
    total_time: Fixed,
    m1: Fixed,
    m2: Fixed,
    ship_positions: &Vec<Vec2>,
    ship_velocities: &Vec<Vec2>,
) -> (r: Result<PhaseHistory, TraceError>)
    ensures
        match simulation_spec(total_time, m1, m2, ship_positions@, ship_velocities@) {
            Err(e) => r == Err::<PhaseHistory, TraceError>(e),
            Ok(model) => match r {
                Ok(h) => {
                    &&& ships_trajectory_spec(model) == Ok::<Seq<Seq<Vec2>>, TraceError>(
                        h.positions@,
                    )
                    &&& ships_velocities_spec(model) == Ok::<Seq<Seq<Vec2>>, TraceError>(
                        h.velocities@,
                    )
                },
                Err(e) => ships_trajectory_spec(model) == Err::<Seq<Seq<Vec2>>, TraceError>(e),
            },
        },
{
    if m1.raw <= 0 || m2.raw <= 0 {
        return Err(TraceError::InvalidConfiguration);
    }
    let dt = Fixed::fraction(5, 100_000);
    let time_steps = match whole_steps(total_time, dt) {
        Some(n) => n,
        None => { return Err(TraceError::InvalidConfiguration); },
    };
    if !can_allocate(time_steps, 2) {
        return Err(TraceError::InvalidConfiguration);
    }
    let l1 = match find_l1_x(m1, m2, Fixed::from_raw(L1_TOLERANCE_RAW)) {
        Ok(x) => x,
        Err(e) => { return Err(e); },
    };
    let sys = match co_rotating(m1, m2) {
        Some(v) => v,
        None => { return Err(TraceError::Overflow); },
    };
    let positions = match offset(ship_positions, l1) {
        Ok(v) => v,
        Err(e) => { return Err(e); },
    };
    let mut velocities: Vec<Vec2> = Vec::new();
    let mut i: usize = 0;
    while i < ship_velocities.len()
        invariant
            i <= ship_velocities.len(),
            velocities@.len() == i,
            forall|j: int| 0 <= j < i ==> velocities@[j] == ship_velocities@[j],
        decreases ship_velocities.len() - i,
    {
        velocities.push(ship_velocities[i]);
        i += 1;
    }
    assert(velocities@ =~= ship_velocities@);
    let opts = match co_rotating_options(&sys, positions, velocities, dt, time_steps) {
        Some(o) => o,
        None => { return Err(TraceError::InvalidConfiguration); },
    };
    let mut inspector = NoInspection;
    trace_ships_phase(&opts, &mut inspector)
}

/// Simulates probes about the first Lagrange point of masses `m1` and `m2`
/// for `total_time` and returns the history of their positions.
///
/// `ship_positions` are relative to the Lagrange point; `ship_velocities`
/// and the positions returned are in the co-rotating frame of the centre of
/// mass.
pub fn simulate_ships(
    total_time: Fixed,
    m1: Fixed,
    m2: Fixed,
    ship_positions: &Vec<Vec2>,
    ship_velocities: &Vec<Vec2>,
) -> (r: Result<Trajectory, TraceError>)
    ensures
        match simulation_spec(total_time, m1, m2, ship_positions@, ship_velocities@) {
            Err(e) => r == Err::<Trajectory, TraceError>(e),
            Ok(model) => match r {
                Ok(t) => ships_trajectory_spec(model) == Ok::<Seq<Seq<Vec2>>, TraceError>(t@),
                Err(e) => ships_trajectory_spec(model) == Err::<Seq<Seq<Vec2>>, TraceError>(e),
            },
        },
{
    match simulate_ships_phase(total_time, m1, m2, ship_positions, ship_velocities) {
        Ok(h) => Ok(h.positions),
        Err(e) => Err(e),
    }
}

} // verus!

//! Systems given body by body and traced for a duration.
//!
//! A run lasts as many whole time steps as its duration holds.

use crate::error::TraceError;
use crate::fixed::Fixed;
use crate::tracer::{
    ships_trajectory_spec, steps_spec, trace_planets, trace_ships, whole_steps, NoForce,
    PlanetsModel, ShipsModel, TracePlanets, planets_trajectory_spec,
};
use crate::trajectory::Trajectory;
use crate::vector::Vec2;
use vstd::prelude::*;

verus! {

/// A body that takes part in the gravitational field.
#[derive(Clone, Copy, Debug, PartialEq, Eq, Structural)]
pub struct Body {
    pub mass: Fixed,
    pub pos: Vec2,
    pub velocity: Vec2,
}

/// A system of mutually attracting bodies and the time for which to trace it.
pub struct TraceCelestialBodies {
    /// Gravitational constant.
    pub g: Fixed,
    /// The bodies in their initial state.
    pub bodies: Vec<Body>,
    pub time_step: Fixed,
    pub simulation_duration: Fixed,
}

/// The masses of the bodies.
pub open spec fn body_masses(bodies: Seq<Body>) -> Seq<Fixed> {
    Seq::new(bodies.len(), |i: int| bodies[i].mass)
}

/// The positions of the bodies.
pub open spec fn body_positions(bodies: Seq<Body>) -> Seq<Vec2> {
    Seq::new(bodies.len(), |i: int| bodies[i].pos)
}

/// The velocities of the bodies.
pub open spec fn body_velocities(bodies: Seq<Body>) -> Seq<Vec2> {
    Seq::new(bodies.len(), |i: int| bodies[i].velocity)
}

impl TraceCelestialBodies {
    /// The run of as many whole time steps as the duration holds, or why
    /// there is none: the time step is not positive, the duration is
    /// negative, or the number of steps is beyond counting.
    pub open spec fn model(&self) -> Result<PlanetsModel, TraceError> {
        if self.time_step.raw <= 0 || self.simulation_duration.raw < 0 || steps_spec(
            self.simulation_duration,
            self.time_step,
        ) > usize::MAX {
            Err(TraceError::InvalidConfiguration)
        } else {
            Ok(
                PlanetsModel {
                    g: self.g,
                    masses: body_masses(self.bodies@),
                    positions: body_positions(self.bodies@),
                    velocities: body_velocities(self.bodies@),
                    dt: self.time_step,
                    time_steps: steps_spec(self.simulation_duration, self.time_step) as nat,
                },
            )
        }
    }

    /// Traces the bodies for the duration and returns the history of their positions.
    pub fn run(self) -> (r: Result<Trajectory, TraceError>)
        ensures
            match self.model() {
                Err(e) => r == Err::<Trajectory, TraceError>(e),
                Ok(model) => match r {
                    Ok(t) => planets_trajectory_spec(model) == Ok::<Seq<Seq<Vec2>>, TraceError>(t@),
                    Err(e) => planets_trajectory_spec(model) == Err::<Seq<Seq<Vec2>>, TraceError>(
                        e,
                    ),
                },
            },
    {
        let time_steps = match whole_steps(self.simulation_duration, self.time_step) {
            Some(n) => n,
            None => { return Err(TraceError::InvalidConfiguration); },
        };
        let mut masses: Vec<Fixed> = Vec::new();
        let mut positions: Vec<Vec2> = Vec::new();
        let mut velocities: Vec<Vec2> = Vec::new();
        let mut i: usize = 0;
        while i < self.bodies.len()
            invariant
                i <= self.bodies@.len(),
                masses@.len() == i,
                positions@.len() == i,
                velocities@.len() == i,
                forall|j: int| 0 <= j < i ==> masses@[j] == self.bodies@[j].mass,
                forall|j: int| 0 <= j < i ==> positions@[j] == self.bodies@[j].pos,
                forall|j: int| 0 <= j < i ==> velocities@[j] == self.bodies@[j].velocity,
            decreases self.bodies@.len() - i,
        {
            masses.push(self.bodies[i].mass);
            positions.push(self.bodies[i].pos);
            velocities.push(self.bodies[i].velocity);
            i += 1;
        }
        let opts = TracePlanets {
            g: self.g,
            masses,
            positions,
            velocities,
            dt: self.time_step,
            time_steps,
        };
        proof {
            let model = self.model()->Ok_0;
            assert(opts@.masses =~= model.masses);
            assert(opts@.positions =~= model.positions);
            assert(opts@.velocities =~= model.velocities);
            assert(opts@ == model);
        }
        trace_planets(&opts)
    }
}

/// Probes among bodies whose positions at every tick are given, in an
/// inertial frame, and the time for which to trace them.
pub struct TraceShips {
    /// Gravitational constant.
    pub g: Fixed,
    /// The bodies; of each only the mass is read.
    pub bodies: Vec<Body>,
    /// Positions of the bodies, one snapshot per tick.
    pub positions_at_t: Trajectory,
    pub time_step: Fixed,
    pub simulation_duration: Fixed,
    pub ship_positions: Vec<Vec2>,
    pub ship_velocities: Vec<Vec2>,
}

impl TraceShips {
    /// The run of as many whole time steps as the duration holds, or why
    /// there is none: the time step is not positive, the duration is
    /// negative, or the number of steps is beyond counting.
    pub open spec fn model(&self) -> Result<ShipsModel<NoForce>, TraceError> {
        if self.time_step.raw <= 0 || self.simulation_duration.raw < 0 || steps_spec(
            self.simulation_duration,
            self.time_step,
        ) > usize::MAX {
            Err(TraceError::InvalidConfiguration)
        } else {
            Ok(
                ShipsModel {
                    g: self.g,
                    masses: body_masses(self.bodies@),
                    bodies: self.positions_at_t@,
                    body_width: self.positions_at_t.width(),
                    positions: self.ship_positions@,
                    velocities: self.ship_velocities@,
                    dt: self.time_step,
                    time_steps: steps_spec(self.simulation_duration, self.time_step) as nat,
                    force: NoForce,
                },
            )
        }
    }

    /// Traces the probes for the duration and returns the history of their positions.
    pub fn run(self) -> (r: Result<Trajectory, TraceError>)
        ensures
            match self.model() {
                Err(e) => r == Err::<Trajectory, TraceError>(e),
                Ok(model) => match r {
                    Ok(t) => ships_trajectory_spec(model) == Ok::<Seq<Seq<Vec2>>, TraceError>(t@),
                    Err(e) => ships_trajectory_spec(model) == Err::<Seq<Seq<Vec2>>, TraceError>(e),
                },
            },
    {
        let time_steps = match whole_steps(self.simulation_duration, self.time_step) {
            Some(n) => n,
            None => { return Err(TraceError::InvalidConfiguration); },
        };
        let mut masses: Vec<Fixed> = Vec::new();
        let mut i: usize = 0;
        while i < self.bodies.len()
            invariant
                i <= self.bodies@.len(),
                masses@.len() == i,
                forall|j: int| 0 <= j < i ==> masses@[j] == self.bodies@[j].mass,
            decreases self.bodies@.len() - i,
        {
            masses.push(self.bodies[i].mass);
            i += 1;
        }
        let ghost model = self.model()->Ok_0;
        let opts = crate::tracer::TraceShips {
            g: self.g,
            masses,
            mass_positions_at_t: self.positions_at_t,
            ship_positions: self.ship_positions,
            ship_velocities: self.ship_velocities,
            dt: self.time_step,
            time_steps,
            fictitious_force: NoForce,
        };
        proof {
            assert(opts@.masses =~= model.masses);
            assert(opts@ == model);
        }
        trace_ships(&opts)
    }
}

} // verus!

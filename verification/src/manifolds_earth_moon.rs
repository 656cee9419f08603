//! Invariant manifolds of a periodic orbit, outlined by perturbed probes.
//!
//! Sample points are taken at even spacing in time along the orbit. At each
//! of them four probes start from the orbit's position with its velocity
//! changed by a small amount along `+x`, `-x`, `+y` and `-y`. Flown forward
//! they outline the unstable manifold. Flown with their velocities and the
//! rotation of the frame reversed, which is the flight backward in time,
//! they outline the stable manifold.

use crate::error::TraceError;
use crate::fixed::Fixed;
use crate::halo_orbits_compute::{
    co_rotating_model_spec, co_rotating_options, CoRotating, RotatingFrame,
};
use crate::kernel::{collect, lemma_collect_stops};
use crate::tracer::{
    positions_of, ships_trajectory_spec, snapshot, trace_ships, velocities_of, velocity_snapshot,
    Particle, PhaseHistory, ShipsModel,
};
use crate::trajectory::{can_allocate, history_fits, Trajectory};
use crate::vector::Vec2;
use vstd::prelude::*;

verus! {

/// Number of perturbed probes at each sample point.
pub const PERTURBATIONS_PER_POINT: usize = 4;

/// State `i` of the history of probe `probe`, as a function of `i`.
pub open spec fn orbit_state_of(positions: Seq<Seq<Vec2>>, velocities: Seq<Seq<Vec2>>, probe: int) -> spec_fn(
    int,
) -> Result<Particle, TraceError> {
    |t: int|
        if t < velocities.len() && probe < positions[t].len() && probe < velocities[t].len() {
            Ok(Particle { position: positions[t][probe], velocity: velocities[t][probe] })
        } else {
            Err(TraceError::InvalidConfiguration)
        }
}

/// The states of probe `probe` at every tick of a history.
pub open spec fn orbit_spec(positions: Seq<Seq<Vec2>>, velocities: Seq<Seq<Vec2>>, probe: int) -> Result<
    Seq<Particle>,
    TraceError,
> {
    collect(orbit_state_of(positions, velocities, probe), positions.len())
}

/// The states of probe `probe` at every tick of a history.
pub fn extract_orbit(history: &PhaseHistory, probe: usize) -> (r: Result<Vec<Particle>, TraceError>)
    ensures
        match r {
            Ok(orbit) => orbit_spec(history.positions@, history.velocities@, probe as int) == Ok::<
                Seq<Particle>,
                TraceError,
            >(orbit@),
            Err(e) => orbit_spec(history.positions@, history.velocities@, probe as int) == Err::<
                Seq<Particle>,
                TraceError,
            >(e),
        },
{
    let ghost f = orbit_state_of(history.positions@, history.velocities@, probe as int);
    let mut orbit: Vec<Particle> = Vec::new();
    let mut t: usize = 0;
    while t < history.positions.len()
        invariant
            t <= history.positions@.len(),
            f == orbit_state_of(history.positions@, history.velocities@, probe as int),
            collect(f, t as nat) == Ok::<Seq<Particle>, TraceError>(orbit@),
        decreases history.positions@.len() - t,
    {
        if t < history.velocities.len() && probe < history.positions.entities() && probe
            < history.velocities.entities() {
            orbit.push(
                Particle {
                    position: history.positions.get(t, probe),
                    velocity: history.velocities.get(t, probe),
                },
            );
        } else {
            proof {
                lemma_collect_stops(f, (t + 1) as nat, history.positions@.len());
            }
            return Err(TraceError::InvalidConfiguration);
        }
        t += 1;
    }
    Ok(orbit)
}

/// The tick of sample point `i` among `samples` points spread evenly over
/// an orbit of `len` states, the first at its start and the last at its
/// end; a single point is at the start.
pub open spec fn sample_tick_spec(i: int, samples: nat, len: nat) -> int {
    if samples <= 1 {
        0
    } else {
        (i * (len - 1)) / (samples - 1)
    }
}

/// The tick of sample point `i`.
fn sample_tick(i: usize, samples: usize, len: usize) -> (t: usize)
    requires
        i < samples,
        len >= 1,
    ensures
        t == sample_tick_spec(i as int, samples as nat, len as nat),
        t < len,
{
    if samples == 1 {
        return 0;
    }
    let span: u128 = (len - 1) as u128;
    let last: u128 = (samples - 1) as u128;
    proof {
        crate::halo_orbits_compute::lemma_share_bounds(span as int, i as int, last as int);
        assert(span * i <= span * last) by (nonlinear_arith)
            requires
                span >= 0,
                0 <= i <= last,
        ;
        assert(span * last <= 0xFFFF_FFFF_FFFF_FFFF * 0xFFFF_FFFF_FFFF_FFFF) by (nonlinear_arith)
            requires
                0 <= span <= 0xFFFF_FFFF_FFFF_FFFF,
                0 <= last <= 0xFFFF_FFFF_FFFF_FFFF,
        ;
        assert(i * span == span * i) by (nonlinear_arith);
    }
    (span * (i as u128) / last) as usize
}

/// Perturbation `j` of size `epsilon`: along `+x`, `-x`, `+y`, `-y` in turn.
pub open spec fn perturbation_spec(j: int, epsilon: Fixed) -> Vec2 {
    let zero = Fixed { raw: 0 };
    let minus = Fixed { raw: (-epsilon.raw) as i64 };
    if j == 0 {
        Vec2 { x: epsilon, y: zero }
    } else if j == 1 {
        Vec2 { x: minus, y: zero }
    } else if j == 2 {
        Vec2 { x: zero, y: epsilon }
    } else {
        Vec2 { x: zero, y: minus }
    }
}

/// Perturbed probe `k`, as a function of `k`: perturbation `k % 4` at sample point `k / 4`.
pub open spec fn perturbed_of(orbit: Seq<Particle>, samples: nat, epsilon: Fixed) -> spec_fn(
    int,
) -> Result<Particle, TraceError> {
    |k: int|
        {
            let at = orbit[sample_tick_spec(k / 4, samples, orbit.len())];
            match at.velocity.add_spec(perturbation_spec(k % 4, epsilon)) {
                Some(velocity) => Ok(Particle { position: at.position, velocity }),
                None => Err(TraceError::Overflow),
            }
        }
}

/// The perturbed probes of an orbit: four at each of `samples` points.
/// There is none to make of no sample point; an orbit without a state has
/// no sample point to give.
pub open spec fn perturbed_spec(orbit: Seq<Particle>, samples: usize, epsilon: Fixed) -> Result<
    Seq<Particle>,
    TraceError,
> {
    if (samples >= 1 && orbit.len() == 0) || 4 * samples > usize::MAX || epsilon.raw
        == i64::MIN {
        Err(TraceError::InvalidConfiguration)
    } else {
        collect(perturbed_of(orbit, samples as nat, epsilon), (4 * samples) as nat)
    }
}

/// Perturbation `j` of size `epsilon`.
fn perturbation(j: usize, epsilon: Fixed) -> (p: Vec2)
    requires
        epsilon.raw > i64::MIN,
    ensures
        p == perturbation_spec(j as int, epsilon),
{
    let zero = Fixed { raw: 0 };
    let minus = Fixed { raw: -epsilon.raw };
    if j == 0 {
        Vec2 { x: epsilon, y: zero }
    } else if j == 1 {
        Vec2 { x: minus, y: zero }
    } else if j == 2 {
        Vec2 { x: zero, y: epsilon }
    } else {
        Vec2 { x: zero, y: minus }
    }
}

/// The perturbed probes of an orbit: at each of `samples` points evenly
/// spaced in time, four probes at the orbit's position whose velocity
/// differs from the orbit's by `epsilon` along one axis.
pub fn perturbed_probes(orbit: &Vec<Particle>, samples: usize, epsilon: Fixed) -> (r: Result<
    Vec<Particle>,
    TraceError,
>)
    ensures
        match r {
            Ok(probes) => perturbed_spec(orbit@, samples, epsilon) == Ok::<
                Seq<Particle>,
                TraceError,
            >(probes@),
            Err(e) => perturbed_spec(orbit@, samples, epsilon) == Err::<Seq<Particle>, TraceError>(
                e,
            ),
        },
{
    if (samples >= 1 && orbit.len() == 0) || samples > usize::MAX / 4 || epsilon.raw
        == i64::MIN {
        return Err(TraceError::InvalidConfiguration);
    }
    let ghost f = perturbed_of(orbit@, samples as nat, epsilon);
    let total: usize = 4 * samples;
    let mut probes: Vec<Particle> = Vec::new();
    let mut k: usize = 0;
    while k < total
        invariant
            k <= total,
            total == 4 * samples,
            samples >= 1 ==> orbit@.len() >= 1,
            epsilon.raw > i64::MIN,
            f == perturbed_of(orbit@, samples as nat, epsilon),
            collect(f, k as nat) == Ok::<Seq<Particle>, TraceError>(probes@),
        decreases total - k,
    {
        let at = orbit[sample_tick(k / 4, samples, orbit.len())];
        match at.velocity.checked_add(perturbation(k % 4, epsilon)) {
            Some(velocity) => {
                probes.push(Particle { position: at.position, velocity });
            },
            None => {
                proof {
                    lemma_collect_stops(f, (k + 1) as nat, total as nat);
                }
                return Err(TraceError::Overflow);
            },
        }
        k += 1;
    }
    Ok(probes)
}

/// The opposite of velocity `i`, as a function of `i`.
pub open spec fn reversed_of(velocities: Seq<Vec2>) -> spec_fn(int) -> Result<Vec2, TraceError> {
    |i: int|
        match velocities[i].neg_spec() {
            Some(v) => Ok(v),
            None => Err(TraceError::Overflow),
        }
}

/// The opposite velocities.
pub open spec fn reversed_spec(velocities: Seq<Vec2>) -> Result<Seq<Vec2>, TraceError> {
    collect(reversed_of(velocities), velocities.len())
}

/// The opposite velocities.
pub fn reversed(velocities: &Vec<Vec2>) -> (r: Result<Vec<Vec2>, TraceError>)
    ensures
        match r {
            Ok(v) => reversed_spec(velocities@) == Ok::<Seq<Vec2>, TraceError>(v@),
            Err(e) => reversed_spec(velocities@) == Err::<Seq<Vec2>, TraceError>(e),
        },
{
    let ghost f = reversed_of(velocities@);
    let mut out: Vec<Vec2> = Vec::new();
    let mut i: usize = 0;
    while i < velocities.len()
        invariant
            i <= velocities.len(),
            f == reversed_of(velocities@),
            collect(f, i as nat) == Ok::<Seq<Vec2>, TraceError>(out@),
        decreases velocities.len() - i,
    {
        match velocities[i].checked_neg() {
            Some(v) => {
                out.push(v);
            },
            None => {
                proof {
                    lemma_collect_stops(f, (i + 1) as nat, velocities@.len());
                }
                return Err(TraceError::Overflow);
            },
        }
        i += 1;
    }
    Ok(out)
}

/// The frame that rotates the other way.
pub open spec fn counter_rotating_spec(sys: CoRotating) -> Option<CoRotating> {
    match sys.omega.neg_spec() {
        Some(omega) => Some(CoRotating { m1: sys.m1, m2: sys.m2, x1: sys.x1, x2: sys.x2, omega }),
        None => None,
    }
}

/// The two flights that outline the manifolds of an orbit: forward from the
/// perturbed probes, and from the same probes with velocities and rotation
/// reversed.
pub open spec fn manifold_models_spec(
    sys: CoRotating,
    orbit: Seq<Particle>,
    samples: usize,
    epsilon: Fixed,
    dt: Fixed,
    time_steps: usize,
) -> Result<(ShipsModel<RotatingFrame>, ShipsModel<RotatingFrame>), TraceError> {
    match perturbed_spec(orbit, samples, epsilon) {
        _ if !history_fits(time_steps as nat, 2) => Err(TraceError::InvalidConfiguration),
        Err(e) => Err(e),
        Ok(probes) => match (reversed_spec(velocities_of(probes)), counter_rotating_spec(sys)) {
            (Ok(backward), Some(counter)) => Ok(
                (
                    co_rotating_model_spec(
                        sys,
                        positions_of(probes),
                        velocities_of(probes),
                        dt,
                        time_steps as nat,
                    ),
                    co_rotating_model_spec(
                        counter,
                        positions_of(probes),
                        backward,
                        dt,
                        time_steps as nat,
                    ),
                ),
            ),
            (Err(e), _) => Err(e),
            (_, None) => Err(TraceError::Overflow),
        },
    }
}

/// The position histories of the probes that outline the two manifolds.
#[derive(Debug)]
pub struct Manifolds {
    pub unstable: Trajectory,
    pub stable: Trajectory,
}

/// Traces the manifolds of a periodic orbit in the co-rotating frame `sys`.
///
/// `orbit` holds the state of the orbiting probe at every tick. Four
/// probes perturbed by `epsilon` start at each of `samples` points of the
/// orbit and fly for `time_steps` ticks of `dt`, once forward and once with
/// velocities and rotation reversed. The forward flight is traced first, and
/// its failure is the one reported.
pub fn trace_manifolds(
    sys: &CoRotating,
    orbit: &Vec<Particle>,
    samples: usize,
    epsilon: Fixed,
    dt: Fixed,
    time_steps: usize,
) -> (r: Result<Manifolds, TraceError>)
    ensures
        match manifold_models_spec(*sys, orbit@, samples, epsilon, dt, time_steps) {
            Err(e) => r == Err::<Manifolds, TraceError>(e),
            Ok((forward, backward)) => match r {
                Ok(m) => {
                    &&& ships_trajectory_spec(forward) == Ok::<Seq<Seq<Vec2>>, TraceError>(
                        m.unstable@,
                    )
                    &&& ships_trajectory_spec(backward) == Ok::<Seq<Seq<Vec2>>, TraceError>(
                        m.stable@,
                    )
                },
                Err(e) => {
                    ||| ships_trajectory_spec(forward) == Err::<Seq<Seq<Vec2>>, TraceError>(e)
                    ||| ships_trajectory_spec(forward) is Ok && ships_trajectory_spec(backward)
                        == Err::<Seq<Seq<Vec2>>, TraceError>(e)
                },
            },
        },
{
    if !can_allocate(time_steps, 2) {
        return Err(TraceError::InvalidConfiguration);
    }
    let probes = match perturbed_probes(orbit, samples, epsilon) {
        Ok(v) => v,
        Err(e) => { return Err(e); },
    };
    let velocities = velocity_snapshot(&probes);
    let backward = match reversed(&velocities) {
        Ok(v) => v,
        Err(e) => { return Err(e); },
    };
    let omega = match sys.omega.checked_neg() {
        Some(v) => v,
        None => { return Err(TraceError::Overflow); },
    };
    let counter = CoRotating { m1: sys.m1, m2: sys.m2, x1: sys.x1, x2: sys.x2, omega };
    let forward_opts =
        match co_rotating_options(sys, snapshot(&probes), velocities, dt, time_steps) {
        Some(o) => o,
        None => { return Err(TraceError::InvalidConfiguration); },
    };
    let unstable = match trace_ships(&forward_opts) {
        Ok(t) => t,
        Err(e) => { return Err(e); },
    };
    let backward_opts =
        match co_rotating_options(&counter, snapshot(&probes), backward, dt, time_steps) {
        Some(o) => o,
        None => { return Err(TraceError::InvalidConfiguration); },
    };
    let stable = match trace_ships(&backward_opts) {
        Ok(t) => t,
        Err(e) => { return Err(e); },
    };
    Ok(Manifolds { unstable, stable })
}

} // verus!

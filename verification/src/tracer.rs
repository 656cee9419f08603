//! Time stepping of bodies and probes.
//!
//! Both integrators advance by the semi-implicit Euler scheme: within a tick
//! every acceleration is computed from the positions before the tick, then
//! each velocity is advanced by `a * dt`, then each position by the new
//! velocity times `dt`. A run of `time_steps` ticks yields `time_steps + 1`
//! snapshots, the first of which is the initial state.
//!
//! A run that fails returns the error of the first tick that failed, and
//! within that tick of the first body or probe; it returns no history.
//! Configurations are checked before the first tick.

use crate::error::TraceError;
use crate::fixed::{fits, Fixed};
use crate::kernel::{
    collect, field_at, field_spec, lemma_collect_all, lemma_collect_ok, lemma_collect_stops,
    self_accelerations, self_accelerations_spec,
};
use crate::trajectory::{can_allocate, history_fits, Trajectory};
use crate::vector::Vec2;
use vstd::prelude::*;

verus! {

/// Position and velocity of one body or probe.
#[derive(Clone, Copy, Debug, PartialEq, Eq, Structural)]
pub struct Particle {
    pub position: Vec2,
    pub velocity: Vec2,
}

/// The positions of a collection of particles.
pub open spec fn positions_of(s: Seq<Particle>) -> Seq<Vec2> {
    Seq::new(s.len(), |i: int| s[i].position)
}

/// The velocities of a collection of particles.
pub open spec fn velocities_of(s: Seq<Particle>) -> Seq<Vec2> {
    Seq::new(s.len(), |i: int| s[i].velocity)
}

/// The particles with the given positions and velocities.
pub open spec fn particles_spec(positions: Seq<Vec2>, velocities: Seq<Vec2>) -> Seq<Particle> {
    Seq::new(positions.len(), |i: int| Particle { position: positions[i], velocity: velocities[i] })
}

/// One semi-implicit Euler step of a particle under acceleration `a`:
/// the velocity first, then the position by the new velocity.
pub open spec fn advance_spec(p: Particle, a: Vec2, dt: Fixed) -> Result<Particle, TraceError> {
    match a.scale_spec(dt) {
        None => Err(TraceError::Overflow),
        Some(dv) => match p.velocity.add_spec(dv) {
            None => Err(TraceError::Overflow),
            Some(velocity) => match velocity.scale_spec(dt) {
                None => Err(TraceError::Overflow),
                Some(dx) => match p.position.add_spec(dx) {
                    None => Err(TraceError::Overflow),
                    Some(position) => Ok(Particle { position, velocity }),
                },
            },
        },
    }
}

/// The step of particle `i` under acceleration `acc[i]`, as a function of `i`.
pub open spec fn advance_of(s: Seq<Particle>, acc: Seq<Vec2>, dt: Fixed) -> spec_fn(int) -> Result<
    Particle,
    TraceError,
> {
    |i: int| advance_spec(s[i], acc[i], dt)
}

/// Whether every mass is strictly positive.
pub open spec fn all_positive(masses: Seq<Fixed>) -> bool {
    forall|i: int| 0 <= i < masses.len() ==> (#[trigger] masses[i]).raw > 0
}

/// One semi-implicit Euler step of a particle.
pub fn advance(p: Particle, a: Vec2, dt: Fixed) -> (r: Result<Particle, TraceError>)
    ensures
        r == advance_spec(p, a, dt),
{
    let dv = match a.checked_scale(dt) {
        Some(v) => v,
        None => { return Err(TraceError::Overflow); },
    };
    let velocity = match p.velocity.checked_add(dv) {
        Some(v) => v,
        None => { return Err(TraceError::Overflow); },
    };
    let dx = match velocity.checked_scale(dt) {
        Some(v) => v,
        None => { return Err(TraceError::Overflow); },
    };
    match p.position.checked_add(dx) {
        Some(position) => Ok(Particle { position, velocity }),
        None => Err(TraceError::Overflow),
    }
}

/// Whether every mass is strictly positive.
pub fn check_masses(masses: &Vec<Fixed>) -> (ok: bool)
    ensures
        ok == all_positive(masses@),
{
    let mut i: usize = 0;
    while i < masses.len()
        invariant
            i <= masses.len(),
            forall|j: int| 0 <= j < i ==> (#[trigger] masses@[j]).raw > 0,
        decreases masses.len() - i,
    {
        if masses[i].raw <= 0 {
            return false;
        }
        i += 1;
    }
    true
}

/// Pairs positions with velocities.
fn make_particles(positions: &Vec<Vec2>, velocities: &Vec<Vec2>) -> (s: Vec<Particle>)
    requires
        positions.len() == velocities.len(),
    ensures
        s@ == particles_spec(positions@, velocities@),
{
    let mut s: Vec<Particle> = Vec::new();
    let mut i: usize = 0;
    while i < positions.len()
        invariant
            i <= positions.len(),
            positions.len() == velocities.len(),
            s@.len() == i,
            forall|j: int|
                0 <= j < i ==> s@[j] == (Particle {
                    position: positions@[j],
                    velocity: velocities@[j],
                }),
        decreases positions.len() - i,
    {
        s.push(Particle { position: positions[i], velocity: velocities[i] });
        i += 1;
    }
    assert(s@ =~= particles_spec(positions@, velocities@));
    s
}

/// The positions of the particles.
pub fn snapshot(s: &Vec<Particle>) -> (frame: Vec<Vec2>)
    ensures
        frame@ == positions_of(s@),
{
    let mut frame: Vec<Vec2> = Vec::new();
    let mut i: usize = 0;
    while i < s.len()
        invariant
            i <= s.len(),
            frame@.len() == i,
            forall|j: int| 0 <= j < i ==> frame@[j] == s@[j].position,
        decreases s.len() - i,
    {
        frame.push(s[i].position);
        i += 1;
    }
    assert(frame@ =~= positions_of(s@));
    frame
}

/// The velocities of the particles.
pub fn velocity_snapshot(s: &Vec<Particle>) -> (frame: Vec<Vec2>)
    ensures
        frame@ == velocities_of(s@),
{
    let mut frame: Vec<Vec2> = Vec::new();
    let mut i: usize = 0;
    while i < s.len()
        invariant
            i <= s.len(),
            frame@.len() == i,
            forall|j: int| 0 <= j < i ==> frame@[j] == s@[j].velocity,
        decreases s.len() - i,
    {
        frame.push(s[i].velocity);
        i += 1;
    }
    assert(frame@ =~= velocities_of(s@));
    frame
}

/// Initial conditions of a system of mutually attracting bodies.
pub struct TracePlanets {
    /// Gravitational constant.
    pub g: Fixed,
    pub masses: Vec<Fixed>,
    pub positions: Vec<Vec2>,
    pub velocities: Vec<Vec2>,
    /// Time step.
    pub dt: Fixed,
    /// Number of ticks.
    pub time_steps: usize,
}

/// What [`TracePlanets`] holds, as mathematical values.
pub struct PlanetsModel {
    pub g: Fixed,
    pub masses: Seq<Fixed>,
    pub positions: Seq<Vec2>,
    pub velocities: Seq<Vec2>,
    pub dt: Fixed,
    pub time_steps: nat,
}

impl View for TracePlanets {
    type V = PlanetsModel;

    open spec fn view(&self) -> PlanetsModel {
        PlanetsModel {
            g: self.g,
            masses: self.masses@,
            positions: self.positions@,
            velocities: self.velocities@,
            dt: self.dt,
            time_steps: self.time_steps as nat,
        }
    }
}

impl PlanetsModel {
    /// One mass, position and velocity per body; positive masses and time
    /// step; a history that can be allocated.
    pub open spec fn valid(self) -> bool {
        &&& self.masses.len() == self.positions.len()
        &&& self.masses.len() == self.velocities.len()
        &&& all_positive(self.masses)
        &&& self.dt.raw > 0
        &&& history_fits(self.time_steps + 1, self.masses.len())
    }
}

/// The bodies one tick later.
pub open spec fn planets_tick_spec(g: Fixed, masses: Seq<Fixed>, dt: Fixed, s: Seq<Particle>) -> Result<
    Seq<Particle>,
    TraceError,
> {
    match self_accelerations_spec(g, masses, positions_of(s)) {
        Err(e) => Err(e),
        Ok(acc) => collect(advance_of(s, acc, dt), s.len()),
    }
}

/// The bodies after `k` ticks.
pub open spec fn planets_after(m: PlanetsModel, k: nat) -> Result<Seq<Particle>, TraceError>
    decreases k,
{
    if k == 0 {
        Ok(particles_spec(m.positions, m.velocities))
    } else {
        match planets_after(m, (k - 1) as nat) {
            Err(e) => Err(e),
            Ok(s) => planets_tick_spec(m.g, m.masses, m.dt, s),
        }
    }
}

/// The snapshot after `k` ticks, as a function of `k`.
pub open spec fn planets_frame_of(m: PlanetsModel) -> spec_fn(int) -> Result<Seq<Vec2>, TraceError> {
    |k: int|
        match planets_after(m, k as nat) {
            Ok(s) => Ok(positions_of(s)),
            Err(e) => Err(e),
        }
}

/// The position history of the bodies: `time_steps + 1` snapshots.
pub open spec fn planets_trajectory_spec(m: PlanetsModel) -> Result<Seq<Seq<Vec2>>, TraceError> {
    if !m.valid() {
        Err(TraceError::InvalidConfiguration)
    } else {
        collect(planets_frame_of(m), m.time_steps + 1)
    }
}

/// Advances every particle by its own acceleration.
fn advance_all(s: &Vec<Particle>, acc: &Vec<Vec2>, dt: Fixed) -> (r: Result<
    Vec<Particle>,
    TraceError,
>)
    requires
        s.len() == acc.len(),
    ensures
        match r {
            Ok(next) => collect(advance_of(s@, acc@, dt), s@.len()) == Ok::<
                Seq<Particle>,
                TraceError,
            >(next@),
            Err(e) => collect(advance_of(s@, acc@, dt), s@.len()) == Err::<
                Seq<Particle>,
                TraceError,
            >(e),
        },
{
    let ghost f = advance_of(s@, acc@, dt);
    let mut next: Vec<Particle> = Vec::new();
    let mut i: usize = 0;
    while i < s.len()
        invariant
            i <= s.len(),
            s.len() == acc.len(),
            f == advance_of(s@, acc@, dt),
            collect(f, i as nat) == Ok::<Seq<Particle>, TraceError>(next@),
        decreases s.len() - i,
    {
        match advance(s[i], acc[i], dt) {
            Ok(p) => {
                next.push(p);
            },
            Err(e) => {
                proof {
                    lemma_collect_stops(f, (i + 1) as nat, s@.len());
                }
                return Err(e);
            },
        }
        i += 1;
    }
    Ok(next)
}

/// One tick of mutually attracting bodies.
pub fn planets_tick(g: Fixed, masses: &Vec<Fixed>, dt: Fixed, s: &Vec<Particle>) -> (r: Result<
    Vec<Particle>,
    TraceError,
>)
    ensures
        match r {
            Ok(next) => planets_tick_spec(g, masses@, dt, s@) == Ok::<Seq<Particle>, TraceError>(
                next@,
            ),
            Err(e) => planets_tick_spec(g, masses@, dt, s@) == Err::<Seq<Particle>, TraceError>(e),
        },
{
    let positions = snapshot(s);
    match self_accelerations(g, masses, &positions) {
        Err(e) => Err(e),
        Ok(acc) => {
            proof {
                lemma_collect_ok(
                    crate::kernel::self_field_of(g, masses@, positions@),
                    positions@.len(),
                );
            }
            advance_all(s, &acc, dt)
        },
    }
}

/// Whether a history of one snapshot more than `time_steps`, of `width`
/// entities each, can be allocated.
pub fn run_fits(time_steps: usize, width: usize) -> (ok: bool)
    ensures
        ok == history_fits((time_steps + 1) as nat, width as nat),
        ok ==> time_steps < usize::MAX,
{
    proof {
        if history_fits((time_steps + 1) as nat, width as nat) {
            crate::trajectory::lemma_history_bounds((time_steps + 1) as nat, width as nat);
        }
    }
    if time_steps == usize::MAX {
        false
    } else {
        can_allocate(time_steps + 1, width)
    }
}

/// Whether the configuration describes a run.
pub fn planets_valid(opts: &TracePlanets) -> (ok: bool)
    ensures
        ok == opts@.valid(),
        ok ==> opts.time_steps < usize::MAX,
{
    opts.masses.len() == opts.positions.len() && opts.masses.len() == opts.velocities.len()
        && check_masses(&opts.masses) && opts.dt.raw > 0 && run_fits(
        opts.time_steps,
        opts.masses.len(),
    )
}

/// Traces mutually attracting bodies and returns the history of their positions.
#[verifier::rlimit(50)]
pub fn trace_planets(opts: &TracePlanets) -> (r: Result<Trajectory, TraceError>)
    ensures
        match r {
            Ok(t) => planets_trajectory_spec(opts@) == Ok::<Seq<Seq<Vec2>>, TraceError>(t@),
            Err(e) => planets_trajectory_spec(opts@) == Err::<Seq<Seq<Vec2>>, TraceError>(e),
        },
        r is Ok ==> r->Ok_0@.len() == opts.time_steps + 1,
        r is Ok ==> forall|k: int|
            0 <= k <= opts.time_steps ==> (#[trigger] r->Ok_0@[k]).len() == opts.masses@.len(),
{
    if !planets_valid(opts) {
        return Err(TraceError::InvalidConfiguration);
    }
    let mut history = match Trajectory::zeros(opts.time_steps + 1, opts.masses.len()) {
        Some(h) => h,
        None => { return Err(TraceError::InvalidConfiguration); },
    };
    let ghost f = planets_frame_of(opts@);
    let mut state = make_particles(&opts.positions, &opts.velocities);
    history.write(0, &snapshot(&state));
    let mut t: usize = 0;
    while t < opts.time_steps
        invariant
            t <= opts.time_steps < usize::MAX,
            opts@.valid(),
            f == planets_frame_of(opts@),
            planets_after(opts@, t as nat) == Ok::<Seq<Particle>, TraceError>(state@),
            state@.len() == opts.masses@.len(),
            history@.len() == opts.time_steps + 1,
            forall|k: int| 0 <= k <= t ==> #[trigger] f(k) == Ok::<Seq<Vec2>, TraceError>(history@[k]),
            forall|k: int|
                0 <= k <= opts.time_steps ==> (#[trigger] history@[k]).len() == opts.masses@.len(),
        decreases opts.time_steps - t,
    {
        match planets_tick(opts.g, &opts.masses, opts.dt, &state) {
            Ok(next) => {
                proof {
                    lemma_collect_ok(
                        advance_of(
                            state@,
                            self_accelerations_spec(
                                opts.g,
                                opts.masses@,
                                positions_of(state@),
                            )->Ok_0,
                            opts.dt,
                        ),
                        state@.len(),
                    );
                }
                state = next;
                history.write(t + 1, &snapshot(&state));
            },
            Err(e) => {
                proof {
                    assert(planets_after(opts@, (t + 1) as nat) == Err::<Seq<Particle>, TraceError>(e));
                    assert(f(t + 1) == Err::<Seq<Vec2>, TraceError>(e));
                    lemma_collect_all(f, history@.take(t + 1));
                    assert(collect(f, (t + 2) as nat) == Err::<Seq<Seq<Vec2>>, TraceError>(e));
                    lemma_collect_stops(f, (t + 2) as nat, (opts.time_steps + 1) as nat);
                }
                return Err(e);
            },
        }
        t += 1;
    }
    proof {
        lemma_collect_all(f, history@);
    }
    Ok(history)
}

/// A force law of the frame of reference: the acceleration that a probe at
/// `position` moving with `velocity` feels beside gravity. `None` stands for
/// an acceleration outside the range of the numbers.
pub trait FictitiousForce {
    spec fn accel_spec(&self, position: Vec2, velocity: Vec2) -> Option<Vec2>;

    fn accel(&self, position: Vec2, velocity: Vec2) -> (a: Option<Vec2>)
        ensures
            a == self.accel_spec(position, velocity),
    ;
}

/// The force law of an inertial frame: no fictitious force.
#[derive(Clone, Copy, Debug)]
pub struct NoForce;

impl FictitiousForce for NoForce {
    open spec fn accel_spec(&self, position: Vec2, velocity: Vec2) -> Option<Vec2> {
        Some(Vec2 { x: Fixed { raw: 0 }, y: Fixed { raw: 0 } })
    }

    fn accel(&self, position: Vec2, velocity: Vec2) -> (a: Option<Vec2>) {
        Some(Vec2 { x: Fixed { raw: 0 }, y: Fixed { raw: 0 } })
    }
}

/// What an [`Inspector`] is shown of one probe in one tick.
#[derive(Clone, Copy, Debug, PartialEq, Eq, Structural)]
pub struct InspectData {
    /// Position before the tick.
    pub prev_r: Vec2,
    /// Position after the tick.
    pub r: Vec2,
    /// Index of the probe.
    pub i: usize,
}

/// Whether the displacement from `before` to `after` is itself a vector of the engine.
pub open spec fn step_fits(before: Vec2, after: Vec2) -> bool {
    fits(after.x.raw - before.x.raw) && fits(after.y.raw - before.y.raw)
}

impl InspectData {
    /// The displacement of the tick is itself a vector of the engine.
    pub open spec fn wf(&self) -> bool {
        step_fits(self.prev_r, self.r)
    }
}

/// An observer of a run of probes. It is called once per probe per tick, in
/// the order of the ticks and, within a tick, of the probes, after the whole
/// tick has been computed. `log` is all it remembers; `record` says how one
/// observation changes that.
pub trait Inspector {
    type Log;

    spec fn log(&self) -> Self::Log;

    spec fn record(log: Self::Log, data: InspectData) -> Self::Log;

    fn inspect(&mut self, data: InspectData)
        requires
            data.wf(),
        ensures
            final(self).log() == Self::record(old(self).log(), data),
    ;
}

/// The observer that remembers nothing.
#[derive(Clone, Copy, Debug)]
pub struct NoInspection;

impl Inspector for NoInspection {
    type Log = ();

    open spec fn log(&self) -> () {
        ()
    }

    open spec fn record(log: (), data: InspectData) -> () {
        ()
    }

    fn inspect(&mut self, data: InspectData) {
    }
}

/// The observer that remembers everything it is shown, in order.
#[derive(Debug)]
pub struct EventLog {
    pub events: Vec<InspectData>,
}

impl Inspector for EventLog {
    type Log = Seq<InspectData>;

    open spec fn log(&self) -> Seq<InspectData> {
        self.events@
    }

    open spec fn record(log: Seq<InspectData>, data: InspectData) -> Seq<InspectData> {
        log.push(data)
    }

    fn inspect(&mut self, data: InspectData) {
        self.events.push(data);
    }
}

impl EventLog {
    /// An observer that has seen nothing yet.
    pub fn new() -> (r: EventLog)
        ensures
            r.log() == Seq::<InspectData>::empty(),
    {
        EventLog { events: Vec::new() }
    }
}

/// Initial conditions of a batch of probes in the field of bodies whose
/// positions at every tick are given.
pub struct TraceShips<F: FictitiousForce> {
    /// Gravitational constant.
    pub g: Fixed,
    pub masses: Vec<Fixed>,
    /// Positions of the bodies, one snapshot per tick.
    pub mass_positions_at_t: Trajectory,
    pub ship_positions: Vec<Vec2>,
    pub ship_velocities: Vec<Vec2>,
    /// Time step.
    pub dt: Fixed,
    /// Number of ticks.
    pub time_steps: usize,
    pub fictitious_force: F,
}

/// What [`TraceShips`] holds, as mathematical values.
pub struct ShipsModel<F> {
    pub g: Fixed,
    pub masses: Seq<Fixed>,
    /// Positions of the bodies, one snapshot per tick.
    pub bodies: Seq<Seq<Vec2>>,
    /// Number of bodies that the snapshots were made for, also where there
    /// is no snapshot.
    pub body_width: nat,
    pub positions: Seq<Vec2>,
    pub velocities: Seq<Vec2>,
    pub dt: Fixed,
    pub time_steps: nat,
    pub force: F,
}

impl<F: FictitiousForce> View for TraceShips<F> {
    type V = ShipsModel<F>;

    open spec fn view(&self) -> ShipsModel<F> {
        ShipsModel {
            g: self.g,
            masses: self.masses@,
            bodies: self.mass_positions_at_t@,
            body_width: self.mass_positions_at_t.width(),
            positions: self.ship_positions@,
            velocities: self.ship_velocities@,
            dt: self.dt,
            time_steps: self.time_steps as nat,
            force: self.fictitious_force,
        }
    }
}

impl<F: FictitiousForce> ShipsModel<F> {
    /// One position and velocity per probe; a snapshot of the bodies for
    /// every tick; snapshots made for as many bodies as there are masses,
    /// each with one position per mass; positive masses and time step; a
    /// history that can be allocated.
    pub open spec fn valid(self) -> bool {
        &&& self.positions.len() == self.velocities.len()
        &&& self.bodies.len() >= self.time_steps
        &&& self.body_width == self.masses.len()
        &&& forall|t: int|
            0 <= t < self.bodies.len() ==> (#[trigger] self.bodies[t]).len() == self.masses.len()
        &&& all_positive(self.masses)
        &&& self.dt.raw > 0
        &&& history_fits(self.time_steps + 1, self.positions.len())
    }
}

/// One tick of one probe among bodies at `bodies`.
pub open spec fn probe_step_spec<F: FictitiousForce>(
    g: Fixed,
    masses: Seq<Fixed>,
    bodies: Seq<Vec2>,
    force: &F,
    dt: Fixed,
    p: Particle,
) -> Result<Particle, TraceError> {
    match field_spec(g, masses, bodies, p.position, -1, masses.len()) {
        Err(e) => Err(e),
        Ok(gravity) => match force.accel_spec(p.position, p.velocity) {
            None => Err(TraceError::Overflow),
            Some(fictitious) => match gravity.add_spec(fictitious) {
                None => Err(TraceError::Overflow),
                Some(a) => advance_spec(p, a, dt),
            },
        },
    }
}

/// The step of probe `i` in tick `t`, as a function of `i`.
pub open spec fn probe_step_of<F: FictitiousForce>(m: ShipsModel<F>, t: int, s: Seq<Particle>) -> spec_fn(
    int,
) -> Result<Particle, TraceError> {
    |i: int| probe_step_spec(m.g, m.masses, m.bodies[t], &m.force, m.dt, s[i])
}

/// The probes `s` after tick `t`.
pub open spec fn ships_tick_spec<F: FictitiousForce>(m: ShipsModel<F>, t: int, s: Seq<Particle>) -> Result<
    Seq<Particle>,
    TraceError,
> {
    collect(probe_step_of(m, t, s), s.len())
}

/// The probes after `k` ticks.
pub open spec fn ships_after<F: FictitiousForce>(m: ShipsModel<F>, k: nat) -> Result<
    Seq<Particle>,
    TraceError,
>
    decreases k,
{
    if k == 0 {
        Ok(particles_spec(m.positions, m.velocities))
    } else {
        match ships_after(m, (k - 1) as nat) {
            Err(e) => Err(e),
            Ok(s) => ships_tick_spec(m, k - 1, s),
        }
    }
}

/// The positions of the probes after `k` ticks, as a function of `k`.
pub open spec fn ships_frame_of<F: FictitiousForce>(m: ShipsModel<F>) -> spec_fn(int) -> Result<
    Seq<Vec2>,
    TraceError,
> {
    |k: int|
        match ships_after(m, k as nat) {
            Ok(s) => Ok(positions_of(s)),
            Err(e) => Err(e),
        }
}

/// The velocities of the probes after `k` ticks, as a function of `k`.
pub open spec fn ships_velocity_frame_of<F: FictitiousForce>(m: ShipsModel<F>) -> spec_fn(
    int,
) -> Result<Seq<Vec2>, TraceError> {
    |k: int|
        match ships_after(m, k as nat) {
            Ok(s) => Ok(velocities_of(s)),
            Err(e) => Err(e),
        }
}

/// The position history of the probes: `time_steps + 1` snapshots.
pub open spec fn ships_trajectory_spec<F: FictitiousForce>(m: ShipsModel<F>) -> Result<
    Seq<Seq<Vec2>>,
    TraceError,
> {
    if !m.valid() {
        Err(TraceError::InvalidConfiguration)
    } else {
        collect(ships_frame_of(m), m.time_steps + 1)
    }
}

/// The velocity history of the probes: `time_steps + 1` snapshots.
pub open spec fn ships_velocities_spec<F: FictitiousForce>(m: ShipsModel<F>) -> Result<
    Seq<Seq<Vec2>>,
    TraceError,
> {
    if !m.valid() {
        Err(TraceError::InvalidConfiguration)
    } else {
        collect(ships_velocity_frame_of(m), m.time_steps + 1)
    }
}

/// What the observer remembers after it was shown the first `n` probes of a tick.
pub open spec fn tick_log<I: Inspector>(
    log: I::Log,
    before: Seq<Particle>,
    after: Seq<Particle>,
    n: nat,
) -> I::Log
    decreases n,
{
    if n == 0 {
        log
    } else {
        I::record(
            tick_log::<I>(log, before, after, (n - 1) as nat),
            InspectData {
                prev_r: before[n - 1].position,
                r: after[n - 1].position,
                i: (n - 1) as usize,
            },
        )
    }
}

/// What the observer remembers after the first `k` ticks. A tick that fails
/// is not shown, nor any after it.
pub open spec fn run_log<F: FictitiousForce, I: Inspector>(m: ShipsModel<F>, log: I::Log, k: nat) -> I::Log
    decreases k,
{
    if k == 0 {
        log
    } else {
        let earlier = run_log::<F, I>(m, log, (k - 1) as nat);
        match (ships_after(m, (k - 1) as nat), ships_after(m, k)) {
            (Ok(before), Ok(after)) => tick_log::<I>(earlier, before, after, after.len()),
            _ => earlier,
        }
    }
}

/// What the observer remembers after the run.
pub open spec fn inspection_spec<F: FictitiousForce, I: Inspector>(
    m: ShipsModel<F>,
    log: I::Log,
) -> I::Log {
    if m.valid() {
        run_log::<F, I>(m, log, m.time_steps)
    } else {
        log
    }
}

/// Once a run has failed it stays failed.
pub proof fn lemma_ships_failed<F: FictitiousForce>(m: ShipsModel<F>, k: nat, n: nat)
    requires
        k <= n,
        ships_after(m, k) is Err,
    ensures
        ships_after(m, n) == ships_after(m, k),
    decreases n,
{
    if k < n {
        lemma_ships_failed(m, k, (n - 1) as nat);
    }
}

/// After a failed tick the observer is shown nothing more.
pub proof fn lemma_run_log_stops<F: FictitiousForce, I: Inspector>(
    m: ShipsModel<F>,
    log: I::Log,
    k: nat,
    n: nat,
)
    requires
        k <= n,
        ships_after(m, k + 1) is Err,
    ensures
        run_log::<F, I>(m, log, n) == run_log::<F, I>(m, log, k),
    decreases n,
{
    if k < n {
        lemma_run_log_stops::<F, I>(m, log, k, (n - 1) as nat);
        lemma_ships_failed(m, k + 1, n);
    }
}

/// One tick of one probe.
fn probe_step<F: FictitiousForce>(
    g: Fixed,
    masses: &Vec<Fixed>,
    bodies: &Vec<Vec2>,
    force: &F,
    dt: Fixed,
    p: Particle,
) -> (r: Result<Particle, TraceError>)
    requires
        masses.len() == bodies.len(),
    ensures
        r == probe_step_spec(g, masses@, bodies@, force, dt, p),
{
    let gravity = match field_at(g, masses, bodies, p.position, None) {
        Ok(v) => v,
        Err(e) => { return Err(e); },
    };
    let fictitious = match force.accel(p.position, p.velocity) {
        Some(v) => v,
        None => { return Err(TraceError::Overflow); },
    };
    match gravity.checked_add(fictitious) {
        Some(a) => advance(p, a, dt),
        None => Err(TraceError::Overflow),
    }
}

/// One tick of all the probes.
fn ships_tick<F: FictitiousForce>(opts: &TraceShips<F>, t: usize, s: &Vec<Particle>) -> (r:
    Result<Vec<Particle>, TraceError>)
    requires
        opts@.valid(),
        t < opts@.bodies.len(),
    ensures
        match r {
            Ok(next) => ships_tick_spec(opts@, t as int, s@) == Ok::<Seq<Particle>, TraceError>(
                next@,
            ),
            Err(e) => ships_tick_spec(opts@, t as int, s@) == Err::<Seq<Particle>, TraceError>(e),
        },
{
    let ghost f = probe_step_of(opts@, t as int, s@);
    let bodies = opts.mass_positions_at_t.frame(t);
    let mut next: Vec<Particle> = Vec::new();
    let mut i: usize = 0;
    while i < s.len()
        invariant
            i <= s.len(),
            opts@.valid(),
            t < opts@.bodies.len(),
            bodies@ == opts@.bodies[t as int],
            f == probe_step_of(opts@, t as int, s@),
            collect(f, i as nat) == Ok::<Seq<Particle>, TraceError>(next@),
        decreases s.len() - i,
    {
        match probe_step(opts.g, &opts.masses, &bodies, &opts.fictitious_force, opts.dt, s[i]) {
            Ok(p) => {
                next.push(p);
            },
            Err(e) => {
                proof {
                    lemma_collect_stops(f, (i + 1) as nat, s@.len());
                }
                return Err(e);
            },
        }
        i += 1;
    }
    Ok(next)
}

/// Whether each particle of `after` lies one representable displacement from
/// its counterpart in `before`.
pub open spec fn steps_fit(before: Seq<Particle>, after: Seq<Particle>) -> bool {
    &&& before.len() == after.len()
    &&& forall|i: int|
        0 <= i < after.len() ==> #[trigger] step_fits(before[i].position, after[i].position)
}

/// Shows the observer every probe of one tick.
fn notify<I: Inspector>(inspector: &mut I, before: &Vec<Particle>, after: &Vec<Particle>)
    requires
        steps_fit(before@, after@),
    ensures
        final(inspector).log() == tick_log::<I>(
            old(inspector).log(),
            before@,
            after@,
            after@.len(),
        ),
{
    let mut i: usize = 0;
    while i < after.len()
        invariant
            i <= after.len(),
            steps_fit(before@, after@),
            inspector.log() == tick_log::<I>(old(inspector).log(), before@, after@, i as nat),
        decreases after.len() - i,
    {
        let data = InspectData { prev_r: before[i].position, r: after[i].position, i };
        assert(step_fits(before@[i as int].position, after@[i as int].position));
        inspector.inspect(data);
        i += 1;
    }
}

/// Position and velocity histories of one run.
#[derive(Debug)]
pub struct PhaseHistory {
    pub positions: Trajectory,
    pub velocities: Trajectory,
}

/// A step that succeeds moves the particle by a representable displacement.
pub proof fn lemma_advance_fits(p: Particle, a: Vec2, dt: Fixed)
    requires
        advance_spec(p, a, dt) is Ok,
    ensures
        step_fits(p.position, advance_spec(p, a, dt)->Ok_0.position),
{
}

/// A tick that succeeds moves every probe by a representable displacement.
pub proof fn lemma_tick_fits<F: FictitiousForce>(m: ShipsModel<F>, t: int, s: Seq<Particle>)
    requires
        ships_tick_spec(m, t, s) is Ok,
    ensures
        steps_fit(s, ships_tick_spec(m, t, s)->Ok_0),
{
    let f = probe_step_of(m, t, s);
    let after = ships_tick_spec(m, t, s)->Ok_0;
    lemma_collect_ok(f, s.len());
    assert forall|i: int| 0 <= i < after.len() implies #[trigger] step_fits(
        s[i].position,
        after[i].position,
    ) by {
        assert(f(i) == Ok::<Particle, TraceError>(after[i]));
        let gravity = field_spec(m.g, m.masses, m.bodies[t], s[i].position, -1, m.masses.len())->Ok_0;
        let fictitious = m.force.accel_spec(s[i].position, s[i].velocity)->Some_0;
        let a = gravity.add_spec(fictitious)->Some_0;
        lemma_advance_fits(s[i], a, m.dt);
    }
}

/// A run keeps the number of its probes.
pub proof fn lemma_ships_count<F: FictitiousForce>(m: ShipsModel<F>, k: nat)
    requires
        ships_after(m, k) is Ok,
    ensures
        ships_after(m, k)->Ok_0.len() == m.positions.len(),
    decreases k,
{
    if k > 0 {
        lemma_ships_count(m, (k - 1) as nat);
        let s = ships_after(m, (k - 1) as nat)->Ok_0;
        lemma_collect_ok(probe_step_of(m, k - 1, s), s.len());
    }
}

/// Traces probes through the field of the bodies and returns the histories
/// of their positions and velocities. The observer is shown every probe in
/// every tick that was completed.
#[verifier::rlimit(50)]
pub fn trace_ships_phase<F: FictitiousForce, I: Inspector>(
    opts: &TraceShips<F>,
    inspector: &mut I,
) -> (r: Result<PhaseHistory, TraceError>)
    ensures
        match r {
            Ok(h) => {
                &&& ships_trajectory_spec(opts@) == Ok::<Seq<Seq<Vec2>>, TraceError>(h.positions@)
                &&& ships_velocities_spec(opts@) == Ok::<Seq<Seq<Vec2>>, TraceError>(
                    h.velocities@,
                )
            },
            Err(e) => ships_trajectory_spec(opts@) == Err::<Seq<Seq<Vec2>>, TraceError>(e),
        },
        final(inspector).log() == inspection_spec::<F, I>(opts@, old(inspector).log()),
{
    if !ships_valid(opts) {
        return Err(TraceError::InvalidConfiguration);
    }
    let n = opts.ship_positions.len();
    let mut positions = match Trajectory::zeros(opts.time_steps + 1, n) {
        Some(h) => h,
        None => { return Err(TraceError::InvalidConfiguration); },
    };
    let mut velocities = match Trajectory::zeros(opts.time_steps + 1, n) {
        Some(h) => h,
        None => { return Err(TraceError::InvalidConfiguration); },
    };
    let ghost f = ships_frame_of(opts@);
    let ghost fv = ships_velocity_frame_of(opts@);
    let mut state = make_particles(&opts.ship_positions, &opts.ship_velocities);
    positions.write(0, &snapshot(&state));
    velocities.write(0, &velocity_snapshot(&state));
    let mut t: usize = 0;
    while t < opts.time_steps
        invariant
            t <= opts.time_steps < usize::MAX,
            opts@.valid(),
            n == opts@.positions.len(),
            f == ships_frame_of(opts@),
            fv == ships_velocity_frame_of(opts@),
            ships_after(opts@, t as nat) == Ok::<Seq<Particle>, TraceError>(state@),
            state@.len() == n,
            positions@.len() == opts.time_steps + 1,
            velocities@.len() == opts.time_steps + 1,
            forall|k: int| 0 <= k <= t ==> #[trigger] f(k) == Ok::<Seq<Vec2>, TraceError>(positions@[k]),
            forall|k: int| 0 <= k <= t ==> #[trigger] fv(k) == Ok::<Seq<Vec2>, TraceError>(velocities@[k]),
            forall|k: int| 0 <= k <= opts.time_steps ==> (#[trigger] positions@[k]).len() == n,
            forall|k: int| 0 <= k <= opts.time_steps ==> (#[trigger] velocities@[k]).len() == n,
            inspector.log() == run_log::<F, I>(opts@, old(inspector).log(), t as nat),
        decreases opts.time_steps - t,
    {
        match ships_tick(opts, t, &state) {
            Ok(next) => {
                proof {
                    lemma_tick_fits(opts@, t as int, state@);
                    assert(ships_after(opts@, (t + 1) as nat) == Ok::<Seq<Particle>, TraceError>(next@));
                    lemma_ships_count(opts@, (t + 1) as nat);
                }
                notify(inspector, &state, &next);
                state = next;
                positions.write(t + 1, &snapshot(&state));
                velocities.write(t + 1, &velocity_snapshot(&state));
            },
            Err(e) => {
                proof {
                    assert(ships_after(opts@, (t + 1) as nat) == Err::<Seq<Particle>, TraceError>(e));
                    assert(f(t + 1) == Err::<Seq<Vec2>, TraceError>(e));
                    lemma_collect_all(f, positions@.take(t + 1));
                    assert(collect(f, (t + 2) as nat) == Err::<Seq<Seq<Vec2>>, TraceError>(e));
                    lemma_collect_stops(f, (t + 2) as nat, (opts.time_steps + 1) as nat);
                    lemma_run_log_stops::<F, I>(opts@, old(inspector).log(), t as nat, opts.time_steps as nat);
                }
                return Err(e);
            },
        }
        t += 1;
    }
    proof {
        lemma_collect_all(f, positions@);
        lemma_collect_all(fv, velocities@);
    }
    Ok(PhaseHistory { positions, velocities })
}

/// Whether the configuration describes a run.
pub fn ships_valid<F: FictitiousForce>(opts: &TraceShips<F>) -> (ok: bool)
    ensures
        ok == opts@.valid(),
        ok ==> opts.time_steps < usize::MAX,
{
    let len = opts.mass_positions_at_t.len();
    let width = opts.mass_positions_at_t.entities();
    width == opts.masses.len() && opts.ship_positions.len() == opts.ship_velocities.len() && len
        >= opts.time_steps && check_masses(&opts.masses) && opts.dt.raw > 0 && run_fits(
        opts.time_steps,
        opts.ship_positions.len(),
    )
}

/// Traces probes and returns the history of their positions; the observer
/// is shown the position of every probe before and after every tick.
pub fn trace_ships_inspect<F: FictitiousForce, I: Inspector>(
    opts: &TraceShips<F>,
    inspector: &mut I,
) -> (r: Result<Trajectory, TraceError>)
    ensures
        match r {
            Ok(t) => ships_trajectory_spec(opts@) == Ok::<Seq<Seq<Vec2>>, TraceError>(t@),
            Err(e) => ships_trajectory_spec(opts@) == Err::<Seq<Seq<Vec2>>, TraceError>(e),
        },
        final(inspector).log() == inspection_spec::<F, I>(opts@, old(inspector).log()),
{
    match trace_ships_phase(opts, inspector) {
        Ok(h) => Ok(h.positions),
        Err(e) => Err(e),
    }
}

/// Traces probes and returns the history of their positions.
pub fn trace_ships<F: FictitiousForce>(opts: &TraceShips<F>) -> (r: Result<Trajectory, TraceError>)
    ensures
        match r {
            Ok(t) => ships_trajectory_spec(opts@) == Ok::<Seq<Seq<Vec2>>, TraceError>(t@),
            Err(e) => ships_trajectory_spec(opts@) == Err::<Seq<Seq<Vec2>>, TraceError>(e),
        },
        r is Ok ==> r->Ok_0@.len() == opts.time_steps + 1,
{
    let mut inspector = NoInspection;
    let r = trace_ships_inspect(opts, &mut inspector);
    proof {
        if r is Ok {
            lemma_collect_ok(ships_frame_of(opts@), (opts.time_steps + 1) as nat);
        }
    }
    r
}

/// Number of whole time steps in `total_time`.
pub open spec fn steps_spec(total_time: Fixed, dt: Fixed) -> int {
    total_time.raw / dt.raw
}

/// Number of whole time steps in `total_time`, if the time step is
/// positive, the time is not negative and a `usize` holds the number.
pub fn whole_steps(total_time: Fixed, dt: Fixed) -> (n: Option<usize>)
    ensures
        n == (if dt.raw > 0 && total_time.raw >= 0 && steps_spec(total_time, dt) <= usize::MAX {
            Some(steps_spec(total_time, dt) as usize)
        } else {
            None
        }),
{
    if dt.raw <= 0 || total_time.raw < 0 {
        return None;
    }
    let q: i64 = total_time.raw / dt.raw;
    proof {
        vstd::arithmetic::div_mod::lemma_div_pos_is_pos(total_time.raw as int, dt.raw as int);
    }
    if q as u64 > usize::MAX as u64 {
        None
    } else {
        Some(q as usize)
    }
}

} // verus!

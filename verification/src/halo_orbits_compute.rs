//! The first collinear Lagrange point of two co-rotating masses, and the
//! search for periodic probe orbits about it.
//!
//! The frame rotates with the two masses about their centre of mass, so that
//! they rest on the x axis one unit of length apart, the first at `-mu` and
//! the second at `1 - mu`, with `mu = m1 * m2 / (m1 + m2)` and angular rate
//! `(m1 + m2) / m1`. The gravitational constant is one.
//!
//! The Lagrange point is found by bisection on the net force along the
//! axis. The search for an orbit flies a fan of probes that start at one
//! point with speeds spread over a bracket, and looks at the direction in
//! which each last crosses the x axis downward. A direction is compared
//! with the y axis by the tangent of the angle between them, which needs no
//! more than products of raw numbers; a crossing straight down counts as
//! one from below. The two crossings nearest to the right angle, one from
//! below and one from above, give the next bracket. The search ends in a
//! report: converged, or why it could not go on.

use crate::error::TraceError;
use crate::fixed::{magnitude, Fixed, ONE_RAW};
use crate::tracer::{
    inspection_spec, ships_trajectory_spec, steps_spec, trace_ships_inspect, whole_steps,
    FictitiousForce, InspectData, Inspector, ShipsModel, TraceShips,
};
use crate::trajectory::{can_allocate, history_fits, Trajectory};
use crate::vector::Vec2;
use vstd::prelude::*;

verus! {

/// The force law of a frame that rotates at a constant angular rate.
#[derive(Clone, Copy, Debug, PartialEq, Eq, Structural)]
pub struct RotatingFrame {
    pub omega: Fixed,
}

impl FictitiousForce for RotatingFrame {
    /// Centrifugal acceleration `omega^2 * r` plus Coriolis acceleration
    /// `2 * omega * (v_y, -v_x)`.
    open spec fn accel_spec(&self, position: Vec2, velocity: Vec2) -> Option<Vec2> {
        match (self.omega.mul_spec(self.omega), self.omega.add_spec(self.omega)) {
            (Some(omega_squared), Some(twice)) => match (
                position.scale_spec(omega_squared),
                twice.mul_spec(velocity.y),
                twice.mul_spec(velocity.x),
            ) {
                (Some(centrifugal), Some(cx), Some(ny)) => match ny.neg_spec() {
                    Some(cy) => centrifugal.add_spec(Vec2 { x: cx, y: cy }),
                    None => None,
                },
                _ => None,
            },
            _ => None,
        }
    }

    fn accel(&self, position: Vec2, velocity: Vec2) -> (a: Option<Vec2>) {
        let omega_squared = match self.omega.checked_mul(self.omega) {
            Some(v) => v,
            None => { return None; },
        };
        let twice = match self.omega.checked_add(self.omega) {
            Some(v) => v,
            None => { return None; },
        };
        let centrifugal = match position.checked_scale(omega_squared) {
            Some(v) => v,
            None => { return None; },
        };
        let cx = match twice.checked_mul(velocity.y) {
            Some(v) => v,
            None => { return None; },
        };
        let ny = match twice.checked_mul(velocity.x) {
            Some(v) => v,
            None => { return None; },
        };
        let cy = match ny.checked_neg() {
            Some(v) => v,
            None => { return None; },
        };
        centrifugal.checked_add(Vec2 { x: cx, y: cy })
    }
}

/// The fictitious force in a frame that rotates with constant angular
/// velocity `omega` about an axis through the origin, normal to the plane.
pub fn fictitious_force_rotating_frame(omega: Fixed) -> (f: RotatingFrame)
    ensures
        f.omega == omega,
{
    RotatingFrame { omega }
}

/// Two masses at rest in their co-rotating frame.
#[derive(Clone, Copy, Debug, PartialEq, Eq, Structural)]
pub struct CoRotating {
    pub m1: Fixed,
    pub m2: Fixed,
    /// Abscissa of the first mass, `-mu`.
    pub x1: Fixed,
    /// Abscissa of the second mass, `1 - mu`.
    pub x2: Fixed,
    /// Angular rate of the frame.
    pub omega: Fixed,
}

/// Inward margin that keeps the search for the Lagrange point off the masses: `1e-4`.
pub const L1_MARGIN_RAW: i64 = 109_951_162;

/// The co-rotating system of masses `m1` and `m2`.
pub open spec fn co_rotating_spec(m1: Fixed, m2: Fixed) -> Option<CoRotating> {
    match (m1.mul_spec(m2), m1.add_spec(m2)) {
        (Some(product), Some(total)) => match (product.div_spec(total), total.div_spec(m1)) {
            (Some(mu), Some(omega)) => match (mu.neg_spec(), (Fixed { raw: ONE_RAW }).sub_spec(mu)) {
                (Some(x1), Some(x2)) => Some(CoRotating { m1, m2, x1, x2, omega }),
                _ => None,
            },
            _ => None,
        },
        _ => None,
    }
}

/// `m / d^2`.
pub open spec fn inverse_square_spec(m: Fixed, d: Fixed) -> Option<Fixed> {
    match d.mul_spec(d) {
        Some(dd) => m.div_spec(dd),
        None => None,
    }
}

/// Net acceleration along the x axis of a probe at rest at `(x, 0)`: the
/// pull of the second mass, less that of the first, plus the centrifugal
/// term. Positive values point toward the second mass.
pub open spec fn net_force_spec(sys: CoRotating, x: Fixed) -> Option<Fixed> {
    match (x.sub_spec(sys.x1), x.sub_spec(sys.x2), sys.omega.mul_spec(sys.omega)) {
        (Some(d1), Some(d2), Some(omega_squared)) => match (
            inverse_square_spec(sys.m1, d1),
            inverse_square_spec(sys.m2, d2),
            omega_squared.mul_spec(x),
        ) {
            (Some(pull1), Some(f2), Some(centrifugal)) => match pull1.neg_spec() {
                Some(f1) => match f1.add_spec(f2) {
                    Some(gravity) => gravity.add_spec(centrifugal),
                    None => None,
                },
                None => None,
            },
            _ => None,
        },
        _ => None,
    }
}

/// The midpoint of `low` and `high`, rounded toward `low`.
pub open spec fn midpoint_spec(low: Fixed, high: Fixed) -> Fixed {
    Fixed { raw: (low.raw + (high.raw - low.raw) / 2) as i64 }
}

/// Bisection for the zero of the net force between `low` and `high`. The
/// upper bound moves where the force points to the second mass, else the
/// lower; the midpoint is returned once the force there is below `epsilon`
/// in magnitude.
pub open spec fn bisect_spec(sys: CoRotating, epsilon: Fixed, low: Fixed, high: Fixed) -> Result<
    Fixed,
    TraceError,
>
    decreases high.raw - low.raw,
{
    if high.raw - low.raw < 2 {
        Err(TraceError::NotConverged)
    } else {
        let x = midpoint_spec(low, high);
        match net_force_spec(sys, x) {
            None => Err(TraceError::Overflow),
            Some(a) => if magnitude(a.raw as int) < epsilon.raw {
                Ok(x)
            } else if a.raw > 0 {
                bisect_spec(sys, epsilon, low, x)
            } else {
                bisect_spec(sys, epsilon, x, high)
            },
        }
    }
}

/// The abscissa of the first Lagrange point of masses `m1` and `m2`.
pub open spec fn find_l1_x_spec(m1: Fixed, m2: Fixed, epsilon: Fixed) -> Result<Fixed, TraceError> {
    if m1.raw <= 0 || m2.raw <= 0 || epsilon.raw <= 0 {
        Err(TraceError::InvalidConfiguration)
    } else {
        match co_rotating_spec(m1, m2) {
            None => Err(TraceError::Overflow),
            Some(sys) => match (
                sys.x1.add_spec(Fixed { raw: L1_MARGIN_RAW }),
                sys.x2.sub_spec(Fixed { raw: L1_MARGIN_RAW }),
            ) {
                (Some(low), Some(high)) => bisect_spec(sys, epsilon, low, high),
                _ => Err(TraceError::Overflow),
            },
        }
    }
}

/// The co-rotating system of masses `m1` and `m2`.
pub fn co_rotating(m1: Fixed, m2: Fixed) -> (r: Option<CoRotating>)
    ensures
        r == co_rotating_spec(m1, m2),
{
    let product = match m1.checked_mul(m2) {
        Some(v) => v,
        None => { return None; },
    };
    let total = match m1.checked_add(m2) {
        Some(v) => v,
        None => { return None; },
    };
    let mu = match product.checked_div(total) {
        Some(v) => v,
        None => { return None; },
    };
    let omega = match total.checked_div(m1) {
        Some(v) => v,
        None => { return None; },
    };
    let x1 = match mu.checked_neg() {
        Some(v) => v,
        None => { return None; },
    };
    let x2 = match Fixed::one().checked_sub(mu) {
        Some(v) => v,
        None => { return None; },
    };
    Some(CoRotating { m1, m2, x1, x2, omega })
}

/// `m / d^2`.
pub fn inverse_square(m: Fixed, d: Fixed) -> (r: Option<Fixed>)
    ensures
        r == inverse_square_spec(m, d),
{
    match d.checked_mul(d) {
        Some(dd) => m.checked_div(dd),
        None => None,
    }
}

/// Net acceleration along the x axis of a probe at rest at `(x, 0)`.
pub fn net_force(sys: &CoRotating, x: Fixed) -> (r: Option<Fixed>)
    ensures
        r == net_force_spec(*sys, x),
{
    let d1 = match x.checked_sub(sys.x1) {
        Some(v) => v,
        None => { return None; },
    };
    let d2 = match x.checked_sub(sys.x2) {
        Some(v) => v,
        None => { return None; },
    };
    let omega_squared = match sys.omega.checked_mul(sys.omega) {
        Some(v) => v,
        None => { return None; },
    };
    let pull1 = match inverse_square(sys.m1, d1) {
        Some(v) => v,
        None => { return None; },
    };
    let f2 = match inverse_square(sys.m2, d2) {
        Some(v) => v,
        None => { return None; },
    };
    let centrifugal = match omega_squared.checked_mul(x) {
        Some(v) => v,
        None => { return None; },
    };
    let f1 = match pull1.checked_neg() {
        Some(v) => v,
        None => { return None; },
    };
    match f1.checked_add(f2) {
        Some(gravity) => gravity.checked_add(centrifugal),
        None => None,
    }
}

/// Finds the first Lagrange point of masses `m1` and `m2` in their
/// co-rotating frame and returns its abscissa: the point between the masses
/// where the net force on a probe at rest is below `epsilon` in magnitude.
pub fn find_l1_x(m1: Fixed, m2: Fixed, epsilon: Fixed) -> (r: Result<Fixed, TraceError>)
    ensures
        r == find_l1_x_spec(m1, m2, epsilon),
        r matches Ok(x) ==> {
            &&& co_rotating_spec(m1, m2) matches Some(sys)
            &&& sys.x1.raw < x.raw < sys.x2.raw
            &&& net_force_spec(sys, x) matches Some(a)
            &&& magnitude(a.raw as int) < epsilon.raw
        },
{
    if m1.raw <= 0 || m2.raw <= 0 || epsilon.raw <= 0 {
        return Err(TraceError::InvalidConfiguration);
    }
    let sys = match co_rotating(m1, m2) {
        Some(v) => v,
        None => { return Err(TraceError::Overflow); },
    };
    let margin = Fixed::from_raw(L1_MARGIN_RAW);
    let mut low = match sys.x1.checked_add(margin) {
        Some(v) => v,
        None => { return Err(TraceError::Overflow); },
    };
    let mut high = match sys.x2.checked_sub(margin) {
        Some(v) => v,
        None => { return Err(TraceError::Overflow); },
    };
    let ghost goal = bisect_spec(sys, epsilon, low, high);
    if high.raw < low.raw {
        return Err(TraceError::NotConverged);
    }
    while high.raw as i128 - low.raw as i128 >= 2
        invariant
            sys.x1.raw < low.raw <= high.raw < sys.x2.raw,
            epsilon.raw > 0,
            co_rotating_spec(m1, m2) == Some(sys),
            find_l1_x_spec(m1, m2, epsilon) == goal,
            bisect_spec(sys, epsilon, low, high) == goal,
        decreases high.raw - low.raw,
    {
        let half: i128 = (high.raw as i128 - low.raw as i128) / 2;
        let x = Fixed { raw: (low.raw as i128 + half) as i64 };
        assert(x == midpoint_spec(low, high));
        let a = match net_force(&sys, x) {
            Some(v) => v,
            None => { return Err(TraceError::Overflow); },
        };
        if -(epsilon.raw as i128) < a.raw as i128 && (a.raw as i128) < epsilon.raw as i128 {
            return Ok(x);
        }
        if a.raw > 0 {
            high = x;
        } else {
            low = x;
        }
    }
    Err(TraceError::NotConverged)
}

/// Remembers, for each probe, its displacement in the tick in which it
/// last crossed the x axis from positive to negative `y`.
#[derive(Debug)]
pub struct CrossingRecorder {
    pub crossings: Vec<Option<Vec2>>,
}

/// The record of `n` probes none of which has crossed.
pub open spec fn no_crossings(n: nat) -> Seq<Option<Vec2>> {
    Seq::new(n, |i: int| None::<Vec2>)
}

/// Whether the probe went from above the x axis to below it.
pub open spec fn crosses_down(data: InspectData) -> bool {
    data.prev_r.y.raw > 0 && data.r.y.raw < 0
}

/// The displacement of the tick.
pub open spec fn displacement(data: InspectData) -> Vec2 {
    Vec2 {
        x: Fixed { raw: (data.r.x.raw - data.prev_r.x.raw) as i64 },
        y: Fixed { raw: (data.r.y.raw - data.prev_r.y.raw) as i64 },
    }
}

/// The record after one more observation.
pub open spec fn crossing_record(log: Seq<Option<Vec2>>, data: InspectData) -> Seq<Option<Vec2>> {
    if data.i < log.len() && crosses_down(data) {
        log.update(data.i as int, Some(displacement(data)))
    } else {
        log
    }
}

impl Inspector for CrossingRecorder {
    type Log = Seq<Option<Vec2>>;

    open spec fn log(&self) -> Seq<Option<Vec2>> {
        self.crossings@
    }

    open spec fn record(log: Seq<Option<Vec2>>, data: InspectData) -> Seq<Option<Vec2>> {
        crossing_record(log, data)
    }

    fn inspect(&mut self, data: InspectData) {
        if data.i < self.crossings.len() && data.prev_r.y.raw > 0 && data.r.y.raw < 0 {
            let d = Vec2 {
                x: Fixed { raw: data.r.x.raw - data.prev_r.x.raw },
                y: Fixed { raw: data.r.y.raw - data.prev_r.y.raw },
            };
            self.crossings.set(data.i, Some(d));
        }
    }
}

impl CrossingRecorder {
    /// A recorder for `n` probes.
    pub fn new(n: usize) -> (r: CrossingRecorder)
        ensures
            r.log() == no_crossings(n as nat),
    {
        let mut crossings: Vec<Option<Vec2>> = Vec::new();
        let mut i: usize = 0;
        while i < n
            invariant
                i <= n,
                crossings@.len() == i,
                forall|j: int| 0 <= j < i ==> crossings@[j] == None::<Vec2>,
            decreases n - i,
        {
            crossings.push(None);
            i += 1;
        }
        assert(crossings@ =~= no_crossings(n as nat));
        CrossingRecorder { crossings }
    }
}

/// Whether `c` is a downward crossing at or below the right angle: the
/// probe moves down and not to the right.
pub open spec fn is_below(c: Option<Vec2>) -> bool {
    c matches Some(d) && d.y.raw < 0 && d.x.raw <= 0
}

/// Whether `c` is a downward crossing above the right angle: the probe
/// moves down and to the right.
pub open spec fn is_above(c: Option<Vec2>) -> bool {
    c matches Some(d) && d.y.raw < 0 && d.x.raw > 0
}

/// Whether direction `a` makes a strictly smaller angle with the y axis than `b`.
pub open spec fn nearer_spec(a: Vec2, b: Vec2) -> bool {
    magnitude(a.x.raw as int) * magnitude(b.y.raw as int) < magnitude(b.x.raw as int) * magnitude(
        a.y.raw as int,
    )
}

/// Whether direction `d` is within `epsilon` of the y axis, measured by the
/// tangent of the angle between them.
pub open spec fn within_spec(d: Vec2, epsilon: Fixed) -> bool {
    magnitude(d.x.raw as int) * ONE_RAW <= epsilon.raw * magnitude(d.y.raw as int)
}

/// Whether `c` is a candidate on the side asked for.
pub open spec fn on_side(c: Option<Vec2>, above: bool) -> bool {
    if above {
        is_above(c)
    } else {
        is_below(c)
    }
}

/// Among the first `n` probes, the index of the crossing on the side asked
/// for that is nearest to the right angle; of several equally near, the first.
pub open spec fn best_spec(log: Seq<Option<Vec2>>, above: bool, n: nat) -> Option<int>
    decreases n,
{
    if n == 0 {
        None
    } else {
        let earlier = best_spec(log, above, (n - 1) as nat);
        if on_side(log[n - 1], above) && (earlier matches Some(e) ==> nearer_spec(
            log[n - 1]->Some_0,
            log[e]->Some_0,
        )) {
            Some(n - 1)
        } else {
            earlier
        }
    }
}

/// The best crossing, if any, is one of the probes and lies on its side.
pub proof fn lemma_best_is_candidate(log: Seq<Option<Vec2>>, above: bool, n: nat)
    requires
        n <= log.len(),
    ensures
        best_spec(log, above, n) matches Some(b) ==> 0 <= b < n && on_side(log[b], above),
        best_spec(log, above, n) is None ==> forall|i: int|
            0 <= i < n ==> !on_side(#[trigger] log[i], above),
    decreases n,
{
    if n > 0 {
        lemma_best_is_candidate(log, above, (n - 1) as nat);
    }
}

/// Absolute value, widened so that it always exists.
pub fn wide_abs(v: i64) -> (a: i128)
    ensures
        a == magnitude(v as int),
        0 <= a <= 0x8000_0000_0000_0000,
{
    if v < 0 {
        -(v as i128)
    } else {
        v as i128
    }
}

/// Exact product of two numbers of at most 64 bits in magnitude.
fn magnitude_product(a: i128, b: i128) -> (p: i128)
    requires
        -0x8000_0000_0000_0000 <= a <= 0x8000_0000_0000_0000,
        -0x8000_0000_0000_0000 <= b <= 0x8000_0000_0000_0000,
    ensures
        p == a * b,
{
    assert(-0x4000_0000_0000_0000_0000_0000_0000_0000 <= a * b
        <= 0x4000_0000_0000_0000_0000_0000_0000_0000) by (nonlinear_arith)
        requires
            -0x8000_0000_0000_0000 <= a <= 0x8000_0000_0000_0000,
            -0x8000_0000_0000_0000 <= b <= 0x8000_0000_0000_0000,
    ;
    a * b
}

/// Whether direction `a` makes a strictly smaller angle with the y axis than `b`.
pub fn nearer(a: Vec2, b: Vec2) -> (r: bool)
    ensures
        r == nearer_spec(a, b),
{
    magnitude_product(wide_abs(a.x.raw), wide_abs(b.y.raw)) < magnitude_product(
        wide_abs(b.x.raw),
        wide_abs(a.y.raw),
    )
}

/// Whether direction `d` is within `epsilon` of the y axis.
pub fn within(d: Vec2, epsilon: Fixed) -> (r: bool)
    ensures
        r == within_spec(d, epsilon),
{
    magnitude_product(wide_abs(d.x.raw), ONE_RAW as i128) <= magnitude_product(
        epsilon.raw as i128,
        wide_abs(d.y.raw),
    )
}

/// Among the probes, the index of the crossing on the side asked for that
/// is nearest to the right angle.
pub fn select(crossings: &Vec<Option<Vec2>>, above: bool) -> (r: Option<usize>)
    ensures
        match r {
            Some(b) => best_spec(crossings@, above, crossings@.len()) == Some(b as int),
            None => best_spec(crossings@, above, crossings@.len()) is None,
        },
{
    let mut best: Option<usize> = None;
    let mut i: usize = 0;
    while i < crossings.len()
        invariant
            i <= crossings.len(),
            match best {
                Some(b) => best_spec(crossings@, above, i as nat) == Some(b as int),
                None => best_spec(crossings@, above, i as nat) is None,
            },
        decreases crossings.len() - i,
    {
        proof {
            lemma_best_is_candidate(crossings@, above, i as nat);
        }
        match crossings[i] {
            Some(d) => {
                let sided = d.y.raw < 0 && (if above {
                    d.x.raw > 0
                } else {
                    d.x.raw <= 0
                });
                if sided {
                    let better = match best {
                        None => true,
                        Some(b) => match crossings[b] {
                            Some(e) => nearer(d, e),
                            None => false,
                        },
                    };
                    if better {
                        best = Some(i);
                    }
                }
            },
            None => {},
        }
        i += 1;
    }
    best
}

/// Speed of probe `i` among `n` probes spread evenly from `low` to `high`.
pub open spec fn fan_speed_spec(low: Fixed, high: Fixed, n: nat, i: int) -> Fixed {
    Fixed { raw: (low.raw + ((high.raw - low.raw) * i) / (n - 1)) as i64 }
}

/// Velocities of `n` probes launched along the y axis with speeds spread
/// evenly from `low` to `high`.
pub open spec fn fan_spec(low: Fixed, high: Fixed, n: nat) -> Seq<Vec2> {
    Seq::new(n, |i: int| Vec2 { x: Fixed { raw: 0 }, y: fan_speed_spec(low, high, n, i) })
}

/// A share `i / d` of a span lies within the span.
pub proof fn lemma_share_bounds(span: int, i: int, d: int)
    requires
        span >= 0,
        0 <= i <= d,
        d > 0,
    ensures
        0 <= (span * i) / d <= span,
{
    assert(0 <= span * i <= span * d) by (nonlinear_arith)
        requires
            span >= 0,
            0 <= i <= d,
    ;
    vstd::arithmetic::div_mod::lemma_div_pos_is_pos(span * i, d);
    vstd::arithmetic::div_mod::lemma_div_is_ordered(span * i, span * d, d);
    vstd::arithmetic::div_mod::lemma_div_by_multiple(span, d);
}

/// Every speed of the fan lies within the bracket.
pub proof fn lemma_fan_within(low: Fixed, high: Fixed, n: nat, i: int)
    requires
        low.raw <= high.raw,
        n >= 2,
        0 <= i < n,
    ensures
        low.raw <= fan_speed_spec(low, high, n, i).raw <= high.raw,
        fan_speed_spec(low, high, n, i).raw == low.raw + ((high.raw - low.raw) * i) / (n - 1),
{
    lemma_share_bounds(high.raw - low.raw, i, n - 1);
}

/// Speed of probe `i` among `n` probes spread evenly from `low` to `high`.
fn fan_speed(low: Fixed, high: Fixed, n: usize, i: usize) -> (v: Fixed)
    requires
        low.raw <= high.raw,
        n >= 2,
        i < n,
    ensures
        v == fan_speed_spec(low, high, n as nat, i as int),
{
    let span: u128 = (high.raw as i128 - low.raw as i128) as u128;
    let last: u128 = (n - 1) as u128;
    proof {
        lemma_share_bounds(span as int, i as int, last as int);
        lemma_fan_within(low, high, n as nat, i as int);
        assert(span * i <= span * last) by (nonlinear_arith)
            requires
                span >= 0,
                0 <= i <= last,
        ;
        assert(span * last <= 0xFFFF_FFFF_FFFF_FFFF * 0xFFFF_FFFF_FFFF_FFFF) by (nonlinear_arith)
            requires
                0 <= span <= 0xFFFF_FFFF_FFFF_FFFF,
                0 <= last <= 0xFFFF_FFFF_FFFF_FFFF,
        ;
    }
    let share: u128 = span * (i as u128) / last;
    let raw: i128 = low.raw as i128 + share as i128;
    Fixed { raw: raw as i64 }
}

/// Velocities of `n` probes launched along the y axis with speeds spread
/// evenly from `low` to `high`.
fn fan(low: Fixed, high: Fixed, n: usize) -> (v: Vec<Vec2>)
    requires
        low.raw <= high.raw,
        n >= 2,
    ensures
        v@ == fan_spec(low, high, n as nat),
{
    let mut v: Vec<Vec2> = Vec::new();
    let mut i: usize = 0;
    while i < n
        invariant
            i <= n,
            n >= 2,
            low.raw <= high.raw,
            v@.len() == i,
            forall|j: int|
                0 <= j < i ==> v@[j] == (Vec2 {
                    x: Fixed { raw: 0 },
                    y: fan_speed_spec(low, high, n as nat, j),
                }),
        decreases n - i,
    {
        v.push(Vec2 { x: Fixed { raw: 0 }, y: fan_speed(low, high, n, i) });
        i += 1;
    }
    assert(v@ =~= fan_spec(low, high, n as nat));
    v
}

/// `n` copies of `v`.
pub fn replicate(v: Vec2, n: usize) -> (r: Vec<Vec2>)
    ensures
        r@ == Seq::new(n as nat, |i: int| v),
{
    let mut r: Vec<Vec2> = Vec::new();
    let mut i: usize = 0;
    while i < n
        invariant
            i <= n,
            r@.len() == i,
            forall|j: int| 0 <= j < i ==> r@[j] == v,
        decreases n - i,
    {
        r.push(v);
        i += 1;
    }
    assert(r@ =~= Seq::new(n as nat, |i: int| v));
    r
}

/// The snapshots of bodies that rest at `frame` through `n` ticks.
pub open spec fn stationary_spec(frame: Seq<Vec2>, n: nat) -> Seq<Seq<Vec2>> {
    Seq::new(n, |t: int| frame)
}

/// The snapshots of bodies that rest at `frame` through `n` ticks, if
/// they can be allocated.
pub fn stationary(frame: &Vec<Vec2>, n: usize) -> (r: Option<Trajectory>)
    ensures
        match r {
            Some(t) => history_fits(n as nat, frame@.len()) && t@ == stationary_spec(
                frame@,
                n as nat,
            ) && t.width() == frame@.len(),
            None => !history_fits(n as nat, frame@.len()),
        },
{
    let mut r = match Trajectory::zeros(n, frame.len()) {
        Some(t) => t,
        None => { return None; },
    };
    let mut t: usize = 0;
    while t < n
        invariant
            t <= n,
            r@.len() == n,
            r.width() == frame@.len(),
            forall|k: int| 0 <= k < t ==> #[trigger] r@[k] == frame@,
            forall|k: int| t <= k < n ==> (#[trigger] r@[k]).len() == frame@.len(),
        decreases n - t,
    {
        r.write(t, frame);
        t += 1;
    }
    assert(r@ =~= stationary_spec(frame@, n as nat));
    Some(r)
}

/// How a search ended.
#[derive(Clone, Copy, Debug, PartialEq, Eq, Structural)]
pub enum SearchStatus {
    /// The crossing below the right angle is within the tolerance of it.
    Converged,
    /// No probe of the fan crossed below the right angle, or none above: the
    /// fan did not resolve a bracketing pair.
    BracketLost,
    /// The bracket did not shrink.
    Stagnated,
}

/// The outcome of a search: how it ended, the bracket it ended with and
/// the number of times the bracket was narrowed on the way. After
/// convergence `low_v` is the velocity that was sought.
#[derive(Clone, Copy, Debug, PartialEq, Eq, Structural)]
pub struct SearchReport {
    pub status: SearchStatus,
    pub low_v: Fixed,
    pub high_v: Fixed,
    pub iterations: u64,
}

/// The fixed part of a search: the two masses at rest, the launch point
/// `(start, 0)`, the time step, and the number of ticks and of probes.
#[derive(Clone, Copy, Debug, PartialEq, Eq, Structural)]
pub struct HaloSetup {
    pub sys: CoRotating,
    pub start: Fixed,
    pub dt: Fixed,
    pub time_steps: usize,
    pub num_ships: usize,
}

/// The flight of probes among the two masses at rest, in their co-rotating frame.
pub open spec fn co_rotating_model_spec(
    sys: CoRotating,
    positions: Seq<Vec2>,
    velocities: Seq<Vec2>,
    dt: Fixed,
    time_steps: nat,
) -> ShipsModel<RotatingFrame> {
    ShipsModel {
        g: Fixed { raw: ONE_RAW },
        masses: seq![sys.m1, sys.m2],
        bodies: stationary_spec(
            seq![
                Vec2 { x: sys.x1, y: Fixed { raw: 0 } },
                Vec2 { x: sys.x2, y: Fixed { raw: 0 } },
            ],
            time_steps,
        ),
        body_width: 2,
        positions,
        velocities,
        dt,
        time_steps,
        force: RotatingFrame { omega: sys.omega },
    }
}

/// The flight of the probes of a search with the given launch velocities.
pub open spec fn halo_model_spec(setup: HaloSetup, velocities: Seq<Vec2>) -> ShipsModel<RotatingFrame> {
    co_rotating_model_spec(
        setup.sys,
        Seq::new(setup.num_ships as nat, |i: int| Vec2 { x: setup.start, y: Fixed { raw: 0 } }),
        velocities,
        setup.dt,
        setup.time_steps as nat,
    )
}

/// What the recorder holds after the fan over `[low, high]` has flown.
pub open spec fn fan_crossings(setup: HaloSetup, low: Fixed, high: Fixed) -> Seq<Option<Vec2>> {
    inspection_spec::<RotatingFrame, CrossingRecorder>(
        halo_model_spec(setup, fan_spec(low, high, setup.num_ships as nat)),
        no_crossings(setup.num_ships as nat),
    )
}

/// What one round of a search decides.
#[derive(Clone, Copy, Debug, PartialEq, Eq, Structural)]
pub enum Round {
    /// The search is over.
    Done(SearchReport),
    /// The search goes on with a narrower bracket.
    Narrowed(Fixed, Fixed),
}

/// What a round decides from the crossings `log` of the fan over `[low, high]`.
///
/// The crossings nearest to the right angle from below and from above give
/// the next bracket. The search is over when the lower of them is within
/// `epsilon` of the right angle, when either is missing, or when the next
/// bracket is inverted or no narrower than this one.
pub open spec fn decide_spec(
    log: Seq<Option<Vec2>>,
    epsilon: Fixed,
    low: Fixed,
    high: Fixed,
    iterations: nat,
) -> Round {
    let n = log.len();
    match (best_spec(log, false, n), best_spec(log, true, n)) {
        _ if low.raw > high.raw => Round::Done(
            SearchReport {
                status: SearchStatus::Stagnated,
                low_v: low,
                high_v: high,
                iterations: iterations as u64,
            },
        ),
        (Some(b), Some(a)) => {
            let new_low = fan_speed_spec(low, high, n, b);
            let new_high = fan_speed_spec(low, high, n, a);
            if within_spec(log[b]->Some_0, epsilon) {
                Round::Done(
                    SearchReport {
                        status: SearchStatus::Converged,
                        low_v: new_low,
                        high_v: new_high,
                        iterations: iterations as u64,
                    },
                )
            } else if new_low.raw > new_high.raw || new_high.raw - new_low.raw >= high.raw
                - low.raw {
                Round::Done(
                    SearchReport {
                        status: SearchStatus::Stagnated,
                        low_v: low,
                        high_v: high,
                        iterations: iterations as u64,
                    },
                )
            } else {
                Round::Narrowed(new_low, new_high)
            }
        },
        _ => Round::Done(
            SearchReport {
                status: SearchStatus::BracketLost,
                low_v: low,
                high_v: high,
                iterations: iterations as u64,
            },
        ),
    }
}

/// One round of a search: the fan over `[low, high]` flies, and its
/// crossings decide.
#[verifier::opaque]
pub open spec fn round_spec(
    setup: HaloSetup,
    epsilon: Fixed,
    low: Fixed,
    high: Fixed,
    iterations: nat,
) -> Result<Round, TraceError> {
    match ships_trajectory_spec(
        halo_model_spec(setup, fan_spec(low, high, setup.num_ships as nat)),
    ) {
        Err(e) => Err(e),
        Ok(_) => Ok(decide_spec(fan_crossings(setup, low, high), epsilon, low, high, iterations)),
    }
}

/// The search from the bracket `[low, high]`, reached by narrowing `iterations` times.
pub open spec fn search_spec(
    setup: HaloSetup,
    epsilon: Fixed,
    low: Fixed,
    high: Fixed,
    iterations: nat,
) -> Result<SearchReport, TraceError>
    decreases high.raw - low.raw,
{
    if low.raw > high.raw {
        Ok(
            SearchReport {
                status: SearchStatus::Stagnated,
                low_v: low,
                high_v: high,
                iterations: iterations as u64,
            },
        )
    } else {
        match round_spec(setup, epsilon, low, high, iterations) {
            Err(e) => Err(e),
            Ok(Round::Done(report)) => Ok(report),
            Ok(Round::Narrowed(new_low, new_high)) => {
                proof {
                    reveal(round_spec);
                }
                search_spec(setup, epsilon, new_low, new_high, iterations + 1)
            },
        }
    }
}

/// Tolerance on the net force at the Lagrange point: `1e-8`.
pub const L1_TOLERANCE_RAW: i64 = 10_995;

/// The search for the launch speed of a periodic orbit that starts
/// `distance_to_l1` on the near side of the first Lagrange point.
pub open spec fn halo_search_spec(
    m1: Fixed,
    m2: Fixed,
    total_time: Fixed,
    dt: Fixed,
    distance_to_l1: Fixed,
    low_v: Fixed,
    high_v: Fixed,
    num_ships: usize,
    epsilon: Fixed,
) -> Result<SearchReport, TraceError> {
    if m1.raw <= 0 || m2.raw <= 0 || dt.raw <= 0 || total_time.raw < 0 || num_ships < 2
        || steps_spec(total_time, dt) > usize::MAX || !history_fits(
        steps_spec(total_time, dt) as nat,
        2,
    ) {
        Err(TraceError::InvalidConfiguration)
    } else {
        match (find_l1_x_spec(m1, m2, Fixed { raw: L1_TOLERANCE_RAW }), co_rotating_spec(m1, m2)) {
            (Ok(l1), Some(sys)) => match l1.sub_spec(distance_to_l1) {
                Some(start) => search_spec(
                    HaloSetup {
                        sys,
                        start,
                        dt,
                        time_steps: steps_spec(total_time, dt) as usize,
                        num_ships,
                    },
                    epsilon,
                    low_v,
                    high_v,
                    0,
                ),
                None => Err(TraceError::Overflow),
            },
            (Err(e), _) => Err(e),
            (_, None) => Err(TraceError::Overflow),
        }
    }
}

/// The options of a flight of probes among the two masses at rest, in
/// their co-rotating frame, if the snapshots of the masses can be allocated.
pub fn co_rotating_options(
    sys: &CoRotating,
    positions: Vec<Vec2>,
    velocities: Vec<Vec2>,
    dt: Fixed,
    time_steps: usize,
) -> (r: Option<TraceShips<RotatingFrame>>)
    ensures
        match r {
            Some(opts) => history_fits(time_steps as nat, 2) && opts@ == co_rotating_model_spec(
                *sys,
                positions@,
                velocities@,
                dt,
                time_steps as nat,
            ),
            None => !history_fits(time_steps as nat, 2),
        },
{
    let mut masses: Vec<Fixed> = Vec::new();
    masses.push(sys.m1);
    masses.push(sys.m2);
    let mut frame: Vec<Vec2> = Vec::new();
    frame.push(Vec2 { x: sys.x1, y: Fixed::zero() });
    frame.push(Vec2 { x: sys.x2, y: Fixed::zero() });
    let ghost model = co_rotating_model_spec(*sys, positions@, velocities@, dt, time_steps as nat);
    let bodies = match stationary(&frame, time_steps) {
        Some(t) => t,
        None => { return None; },
    };
    let opts = TraceShips {
        g: Fixed::one(),
        masses,
        mass_positions_at_t: bodies,
        ship_positions: positions,
        ship_velocities: velocities,
        dt,
        time_steps,
        fictitious_force: fictitious_force_rotating_frame(sys.omega),
    };
    proof {
        assert(opts@.masses =~= model.masses);
        assert(frame@ =~= seq![
            Vec2 { x: sys.x1, y: Fixed { raw: 0 } },
            Vec2 { x: sys.x2, y: Fixed { raw: 0 } },
        ]);
        assert(opts@.bodies == model.bodies);
    }
    Some(opts)
}

/// The options of the flight of a search with the given launch velocities,
/// if the snapshots of the masses can be allocated.
pub fn halo_options(setup: &HaloSetup, velocities: Vec<Vec2>) -> (r: Option<
    TraceShips<RotatingFrame>,
>)
    ensures
        match r {
            Some(opts) => history_fits(setup.time_steps as nat, 2) && opts@ == halo_model_spec(
                *setup,
                velocities@,
            ),
            None => !history_fits(setup.time_steps as nat, 2),
        },
{
    co_rotating_options(
        &setup.sys,
        replicate(Vec2 { x: setup.start, y: Fixed::zero() }, setup.num_ships),
        velocities,
        setup.dt,
        setup.time_steps,
    )
}

/// What a round decides from the crossings of the fan over `[low, high]`.
pub fn decide(
    crossings: &Vec<Option<Vec2>>,
    epsilon: Fixed,
    low: Fixed,
    high: Fixed,
    iterations: u64,
) -> (r: Round)
    ensures
        r == decide_spec(crossings@, epsilon, low, high, iterations as nat),
        r matches Round::Narrowed(new_low, new_high) ==> low.raw <= new_low.raw <= new_high.raw
            <= high.raw && new_high.raw - new_low.raw < high.raw - low.raw,
{
    if low.raw > high.raw {
        return Round::Done(
            SearchReport { status: SearchStatus::Stagnated, low_v: low, high_v: high, iterations },
        );
    }
    let n = crossings.len();
    proof {
        lemma_best_is_candidate(crossings@, false, n as nat);
        lemma_best_is_candidate(crossings@, true, n as nat);
    }
    let below = select(crossings, false);
    let above = select(crossings, true);
    match (below, above) {
        (Some(b), Some(a)) => {
            proof {
                lemma_fan_within(low, high, n as nat, b as int);
                lemma_fan_within(low, high, n as nat, a as int);
            }
            let new_low = fan_speed(low, high, n, b);
            let new_high = fan_speed(low, high, n, a);
            let direction = match crossings[b] {
                Some(d) => d,
                None => Vec2::zero(),
            };
            if within(direction, epsilon) {
                Round::Done(
                    SearchReport {
                        status: SearchStatus::Converged,
                        low_v: new_low,
                        high_v: new_high,
                        iterations,
                    },
                )
            } else if new_low.raw > new_high.raw || new_high.raw as i128 - new_low.raw as i128
                >= high.raw as i128 - low.raw as i128 {
                Round::Done(
                    SearchReport {
                        status: SearchStatus::Stagnated,
                        low_v: low,
                        high_v: high,
                        iterations,
                    },
                )
            } else {
                Round::Narrowed(new_low, new_high)
            }
        },
        _ => Round::Done(
            SearchReport {
                status: SearchStatus::BracketLost,
                low_v: low,
                high_v: high,
                iterations,
            },
        ),
    }
}

/// One round of a search.
fn search_round(setup: &HaloSetup, epsilon: Fixed, low: Fixed, high: Fixed, iterations: u64) -> (r:
    Result<Round, TraceError>)
    requires
        low.raw <= high.raw,
        setup.num_ships >= 2,
        history_fits(setup.time_steps as nat, 2),
    ensures
        r == round_spec(*setup, epsilon, low, high, iterations as nat),
        r matches Ok(Round::Narrowed(new_low, new_high)) ==> low.raw <= new_low.raw
            <= new_high.raw <= high.raw && new_high.raw - new_low.raw < high.raw - low.raw,
{
    proof {
        reveal(round_spec);
    }
    let opts = match halo_options(setup, fan(low, high, setup.num_ships)) {
        Some(o) => o,
        None => { return Err(TraceError::InvalidConfiguration); },
    };
    let mut recorder = CrossingRecorder::new(setup.num_ships);
    match trace_ships_inspect(&opts, &mut recorder) {
        Err(e) => { return Err(e); },
        Ok(_) => {},
    }
    proof {
        lemma_inspection_len(opts@, no_crossings(setup.num_ships as nat));
    }
    Ok(decide(&recorder.crossings, epsilon, low, high, iterations))
}

/// The search from the bracket `[low_v, high_v]`.
fn search(setup: &HaloSetup, epsilon: Fixed, low_v: Fixed, high_v: Fixed) -> (r: Result<
    SearchReport,
    TraceError,
>)
    requires
        setup.num_ships >= 2,
        history_fits(setup.time_steps as nat, 2),
    ensures
        r == search_spec(*setup, epsilon, low_v, high_v, 0),
{
    let mut low = low_v;
    let mut high = high_v;
    let mut iterations: u64 = 0;
    if low.raw > high.raw {
        return Ok(
            SearchReport { status: SearchStatus::Stagnated, low_v, high_v, iterations: 0 },
        );
    }
    loop
        invariant
            low.raw <= high.raw,
            setup.num_ships >= 2,
            history_fits(setup.time_steps as nat, 2),
            iterations + (high.raw - low.raw) <= u64::MAX,
            search_spec(*setup, epsilon, low, high, iterations as nat) == search_spec(
                *setup,
                epsilon,
                low_v,
                high_v,
                0,
            ),
        decreases high.raw - low.raw,
    {
        match search_round(setup, epsilon, low, high, iterations) {
            Err(e) => { return Err(e); },
            Ok(Round::Done(report)) => { return Ok(report); },
            Ok(Round::Narrowed(new_low, new_high)) => {
                low = new_low;
                high = new_high;
                iterations += 1;
            },
        }
    }
}

/// Searches for the launch speed with which a probe, started at rest in `x`
/// at `distance_to_l1` before the first Lagrange point of masses `m1` and
/// `m2`, crosses the x axis downward at a right angle.
///
/// `low_v` and `high_v` bracket the speed; each round flies `num_ships`
/// probes for `total_time` in steps of `dt`. `epsilon` bounds the tangent of
/// the angle between the crossing direction and the y axis.
pub fn find_velocity_for_distance_to_l1(
    m1: Fixed,
    m2: Fixed,
    total_time: Fixed,
    dt: Fixed,
    distance_to_l1: Fixed,
    low_v: Fixed,
    high_v: Fixed,
    num_ships: usize,
    epsilon: Fixed,
) -> (r: Result<SearchReport, TraceError>)
    ensures
        r == halo_search_spec(
            m1,
            m2,
            total_time,
            dt,
            distance_to_l1,
            low_v,
            high_v,
            num_ships,
            epsilon,
        ),
{
    if m1.raw <= 0 || m2.raw <= 0 || num_ships < 2 {
        return Err(TraceError::InvalidConfiguration);
    }
    let time_steps = match whole_steps(total_time, dt) {
        Some(n) => n,
        None => { return Err(TraceError::InvalidConfiguration); },
    };
    if !can_allocate(time_steps, 2) {
        return Err(TraceError::InvalidConfiguration);
    }
    let l1 = match find_l1_x(m1, m2, Fixed::from_raw(L1_TOLERANCE_RAW)) {
        Ok(x) => x,
        Err(e) => { return Err(e); },
    };
    let sys = match co_rotating(m1, m2) {
        Some(v) => v,
        None => { return Err(TraceError::Overflow); },
    };
    let start = match l1.checked_sub(distance_to_l1) {
        Some(v) => v,
        None => { return Err(TraceError::Overflow); },
    };
    let setup = HaloSetup { sys, start, dt, time_steps, num_ships };
    search(&setup, epsilon, low_v, high_v)
}

/// A recorder keeps one entry per probe, whatever it is shown.
pub proof fn lemma_inspection_len<F: FictitiousForce>(m: ShipsModel<F>, log: Seq<Option<Vec2>>)
    ensures
        inspection_spec::<F, CrossingRecorder>(m, log).len() == log.len(),
{
    if m.valid() {
        lemma_run_log_len(m, log, m.time_steps);
    }
}

/// A recorder keeps one entry per probe through any number of ticks.
pub proof fn lemma_run_log_len<F: FictitiousForce>(m: ShipsModel<F>, log: Seq<Option<Vec2>>, k: nat)
    ensures
        crate::tracer::run_log::<F, CrossingRecorder>(m, log, k).len() == log.len(),
    decreases k,
{
    if k > 0 {
        lemma_run_log_len(m, log, (k - 1) as nat);
        let earlier = crate::tracer::run_log::<F, CrossingRecorder>(m, log, (k - 1) as nat);
        match (crate::tracer::ships_after(m, (k - 1) as nat), crate::tracer::ships_after(m, k)) {
            (Ok(before), Ok(after)) => {
                lemma_tick_log_len(earlier, before, after, after.len());
            },
            _ => {},
        }
    }
}

/// A recorder keeps one entry per probe through a tick.
pub proof fn lemma_tick_log_len(
    log: Seq<Option<Vec2>>,
    before: Seq<crate::tracer::Particle>,
    after: Seq<crate::tracer::Particle>,
    n: nat,
)
    ensures
        crate::tracer::tick_log::<CrossingRecorder>(log, before, after, n).len() == log.len(),
    decreases n,
{
    if n > 0 {
        lemma_tick_log_len(log, before, after, (n - 1) as nat);
    }
}

/// One search of a family of orbits: where the probes start, the bracket
/// of launch speeds and the tolerance.
#[derive(Clone, Copy, Debug, PartialEq, Eq, Structural)]
pub struct HaloCase {
    pub distance_to_l1: Fixed,
    pub low_v: Fixed,
    pub high_v: Fixed,
    pub epsilon: Fixed,
}

/// Flight time of the probes of a family search.
pub open spec fn family_time() -> Fixed {
    Fixed::fraction_spec(3, 1)
}

/// Time step of a family search.
pub open spec fn family_dt() -> Fixed {
    Fixed::fraction_spec(5, 100_000)
}

/// Number of probes in each fan of a family search.
pub const FAMILY_SHIPS: usize = 50;

/// The outcomes of the searches `cases` about the Lagrange point of masses `m1` and `m2`.
pub open spec fn family_spec(m1: Fixed, m2: Fixed, cases: Seq<HaloCase>) -> Seq<
    Result<SearchReport, TraceError>,
> {
    Seq::new(
        cases.len(),
        |i: int|
            halo_search_spec(
                m1,
                m2,
                family_time(),
                family_dt(),
                cases[i].distance_to_l1,
                cases[i].low_v,
                cases[i].high_v,
                FAMILY_SHIPS,
                cases[i].epsilon,
            ),
    )
}

/// Runs the searches `cases` about the Lagrange point of masses `m1` and
/// `m2`, one after the other.
pub fn search_family(m1: Fixed, m2: Fixed, cases: &Vec<HaloCase>) -> (r: Vec<
    Result<SearchReport, TraceError>,
>)
    ensures
        r@ == family_spec(m1, m2, cases@),
{
    let total_time = Fixed::fraction(3, 1);
    let dt = Fixed::fraction(5, 100_000);
    let mut r: Vec<Result<SearchReport, TraceError>> = Vec::new();
    let mut i: usize = 0;
    while i < cases.len()
        invariant
            i <= cases.len(),
            total_time == family_time(),
            dt == family_dt(),
            r@.len() == i,
            forall|j: int| 0 <= j < i ==> r@[j] == family_spec(m1, m2, cases@)[j],
        decreases cases.len() - i,
    {
        let case = cases[i];
        r.push(
            find_velocity_for_distance_to_l1(
                m1,
                m2,
                total_time,
                dt,
                case.distance_to_l1,
                case.low_v,
                case.high_v,
                FAMILY_SHIPS,
                case.epsilon,
            ),
        );
        i += 1;
    }
    assert(r@ =~= family_spec(m1, m2, cases@));
    r
}

/// The search with distance `distance / 10000` to the Lagrange point,
/// speeds between `low / 1000` and `high / 1000`, and tolerance `1 / per`.
pub open spec fn case_spec(distance: i16, low: i16, high: i16, per: u32) -> HaloCase {
    HaloCase {
        distance_to_l1: Fixed::fraction_spec(distance, 10_000),
        low_v: Fixed::fraction_spec(low, 1_000),
        high_v: Fixed::fraction_spec(high, 1_000),
        epsilon: Fixed::fraction_spec(1, per),
    }
}

/// The search with distance `distance / 10000` to the Lagrange point,
/// speeds between `low / 1000` and `high / 1000`, and tolerance `1 / per`.
pub fn case(distance: i16, low: i16, high: i16, per: u32) -> (c: HaloCase)
    ensures
        c == case_spec(distance, low, high, per),
{
    HaloCase {
        distance_to_l1: Fixed::fraction(distance, 10_000),
        low_v: Fixed::fraction(low, 1_000),
        high_v: Fixed::fraction(high, 1_000),
        epsilon: Fixed::fraction(1, per),
    }
}

/// The family of orbits about the Lagrange point of the Earth and the Moon.
pub open spec fn earth_moon_cases() -> Seq<HaloCase> {
    seq![
        case_spec(100, 40, 100, 1_000_000),
        case_spec(150, 100, 400, 1_000_000),
        case_spec(200, 100, 400, 1_000_000),
        case_spec(250, 100, 400, 100_000),
        case_spec(300, 100, 400, 100_000),
        case_spec(350, 100, 400, 100_000),
        case_spec(400, 100, 400, 100_000),
    ]
}

/// The family of orbits about the Lagrange point of the Sun and the Earth.
pub open spec fn sun_earth_cases() -> Seq<HaloCase> {
    seq![
        case_spec(10, 7, 10, 10_000_000),
        case_spec(15, 7, 20, 10_000_000),
        case_spec(20, 10, 20, 10_000_000),
    ]
}

/// The family of orbits about the Lagrange point of the Earth and the Moon.
pub fn earth_moon_family() -> (cases: Vec<HaloCase>)
    ensures
        cases@ == earth_moon_cases(),
{
    let mut cases: Vec<HaloCase> = Vec::new();
    cases.push(case(100, 40, 100, 1_000_000));
    cases.push(case(150, 100, 400, 1_000_000));
    cases.push(case(200, 100, 400, 1_000_000));
    cases.push(case(250, 100, 400, 100_000));
    cases.push(case(300, 100, 400, 100_000));
    cases.push(case(350, 100, 400, 100_000));
    cases.push(case(400, 100, 400, 100_000));
    assert(cases@ =~= earth_moon_cases());
    cases
}

/// The family of orbits about the Lagrange point of the Sun and the Earth.
pub fn sun_earth_family() -> (cases: Vec<HaloCase>)
    ensures
        cases@ == sun_earth_cases(),
{
    let mut cases: Vec<HaloCase> = Vec::new();
    cases.push(case(10, 7, 10, 10_000_000));
    cases.push(case(15, 7, 20, 10_000_000));
    cases.push(case(20, 10, 20, 10_000_000));
    assert(cases@ =~= sun_earth_cases());
    cases
}

/// Searches the launch speeds of a family of periodic orbits about the
/// first Lagrange point of the Earth and the Moon, of masses `1` and
/// `0.0123`: one report for each case of [`earth_moon_family`], in order.
pub fn start_earth_moon() -> (r: Vec<Result<SearchReport, TraceError>>)
    ensures
        r@ == family_spec(
            Fixed::fraction_spec(1, 1),
            Fixed::fraction_spec(123, 10_000),
            earth_moon_cases(),
        ),
{
    let cases = earth_moon_family();
    search_family(Fixed::fraction(1, 1), Fixed::fraction(123, 10_000), &cases)
}

/// Searches the launch speeds of a family of periodic orbits about the
/// first Lagrange point of the Sun and the Earth, of masses `1` and
/// `1 / 333000`: one report for each case of [`sun_earth_family`], in order.
pub fn start_sun_earth() -> (r: Vec<Result<SearchReport, TraceError>>)
    ensures
        r@ == family_spec(
            Fixed::fraction_spec(1, 1),
            Fixed::fraction_spec(1, 333_000),
            sun_earth_cases(),
        ),
{
    let cases = sun_earth_family();
    search_family(Fixed::fraction(1, 1), Fixed::fraction(1, 333_000), &cases)
}

} // verus!

//! Laws of the engine: what holds of the field and of the integrators
//! whatever the inputs.

use crate::conservation::{lemma_spread, lemma_trunc_rest};
use crate::error::TraceError;
use crate::fixed::{
    floor_sqrt, is_floor_sqrt, lemma_floor_sqrt_is, magnitude, mul_raw, trunc_div, Fixed, ONE_RAW,
};
use crate::kernel::{
    accelerations_spec, collect, field_of, field_spec, lemma_collect_ok, pull_spec,
    self_accelerations_spec, self_field_of,
};
use crate::halo_orbits_compute::{
    best_spec, co_rotating_model_spec, decide_spec, fan_crossings, lemma_best_is_candidate,
    lemma_fan_within, round_spec, search_spec, CoRotating, HaloSetup, RotatingFrame, Round,
};
use crate::manifolds_earth_moon::{perturbed_of, perturbed_spec, sample_tick_spec};
use crate::tracer::{
    advance_of, advance_spec, lemma_ships_count, particles_spec, planets_after,
    planets_tick_spec, positions_of, probe_step_of, probe_step_spec, ships_after, velocities_of,
    FictitiousForce, Particle, PlanetsModel, ShipsModel,
};
use crate::vector::Vec2;
use vstd::prelude::*;

verus! {

/// Every natural number has a rounded-down square root.
pub proof fn lemma_floor_sqrt_exists(n: nat)
    ensures
        is_floor_sqrt(n as int, floor_sqrt(n as int)),
    decreases n,
{
    if n == 0 {
        assert(is_floor_sqrt(0, 0));
    } else {
        lemma_floor_sqrt_exists((n - 1) as nat);
        let r = floor_sqrt(n - 1);
        if n < (r + 1) * (r + 1) {
            assert(is_floor_sqrt(n as int, r));
        } else {
            assert((r + 1) * (r + 1) < (r + 2) * (r + 2)) by (nonlinear_arith)
                requires
                    r >= 0,
            ;
            assert(is_floor_sqrt(n as int, r + 1));
        }
    }
}

/// The length of a vector along the x axis is the magnitude of its abscissa.
pub proof fn lemma_norm_on_axis(d: Fixed)
    requires
        d.raw > 0,
    ensures
        (Vec2 { x: d, y: Fixed { raw: 0 } }).norm_spec() == Some(d),
{
    let v = Vec2 { x: d, y: Fixed { raw: 0 } };
    assert(v.norm_squared_raw() == d.raw * d.raw);
    assert(d.raw * d.raw < (d.raw + 1) * (d.raw + 1)) by (nonlinear_arith)
        requires
            d.raw > 0,
    ;
    lemma_floor_sqrt_is(d.raw * d.raw, d.raw as int);
}

/// The field of a single source at a single query point is the pull of
/// that source along the separation; where the two coincide it is the
/// degenerate geometry that is reported.
pub proof fn lemma_single_source(g: Fixed, m: Fixed, q: Vec2, s: Vec2)
    ensures
        accelerations_spec(g, seq![q], seq![m], seq![s]) == (match s.sub_spec(q) {
            None => Err::<Seq<Vec2>, TraceError>(TraceError::Overflow),
            Some(r) => match pull_spec(g, m, r) {
                Ok(a) => Ok(seq![a]),
                Err(e) => Err(e),
            },
        }),
        s == q ==> accelerations_spec(g, seq![q], seq![m], seq![s]) == Err::<
            Seq<Vec2>,
            TraceError,
        >(TraceError::DegenerateGeometry),
{
    let f = field_of(g, seq![q], seq![m], seq![s]);
    assert(collect(f, 0) == Ok::<Seq<Vec2>, TraceError>(Seq::empty()));
    assert(field_spec(g, seq![m], seq![s], q, -1, 0) == Ok::<Vec2, TraceError>(
        Vec2 { x: Fixed { raw: 0 }, y: Fixed { raw: 0 } },
    ));
    assert(seq![q][0] == q);
    assert(seq![m][0] == m);
    assert(seq![s][0] == s);
    match s.sub_spec(q) {
        None => {},
        Some(r) => {
            match pull_spec(g, m, r) {
                Ok(a) => {
                    assert(f(0) == Ok::<Vec2, TraceError>(a));
                    assert(Seq::<Vec2>::empty().push(a) =~= seq![a]);
                },
                Err(e) => {},
            }
        },
    }
}

/// A source along the x axis at distance `d` pulls with
/// `g * m / d^2` toward itself, rounded down by less than `1 + 1 / d`
/// units of the last place.
#[verifier::rlimit(50)]
pub proof fn lemma_pull_inverse_square(g: Fixed, m: Fixed, d: Fixed)
    requires
        d.raw > 0,
        g.mul_spec(m) matches Some(gm) && gm.raw >= 0,
        pull_spec(g, m, Vec2 { x: d, y: Fixed { raw: 0 } }) is Ok,
    ensures
        ({
            let a = pull_spec(g, m, Vec2 { x: d, y: Fixed { raw: 0 } })->Ok_0;
            let gm = g.mul_spec(m)->Some_0;
            &&& a.y.raw == 0
            &&& a.x.raw >= 0
            &&& a.x.raw * (d.raw * d.raw) <= gm.raw * (ONE_RAW * ONE_RAW)
            &&& gm.raw * (ONE_RAW * ONE_RAW) < (a.x.raw + 1) * (d.raw * d.raw) + ONE_RAW * d.raw
        }),
{
    let r = Vec2 { x: d, y: Fixed { raw: 0 } };
    let gm = g.mul_spec(m)->Some_0;
    lemma_norm_on_axis(d);
    let one = ONE_RAW as int;
    let dd = d.raw as int;
    let k1 = (gm.raw * one) / dd;
    assert(gm.raw * one >= 0) by (nonlinear_arith)
        requires
            gm.raw >= 0,
            one > 0,
    ;
    vstd::arithmetic::div_mod::lemma_div_pos_is_pos(gm.raw * one, dd);
    vstd::arithmetic::div_mod::lemma_fundamental_div_mod(gm.raw * one, dd);
    vstd::arithmetic::div_mod::lemma_mod_pos_bound(gm.raw * one, dd);
    assert(gm.div_spec(d) == Some(Fixed { raw: k1 as i64 }));
    let k2 = (k1 * one) / dd;
    assert(k1 * one >= 0) by (nonlinear_arith)
        requires
            k1 >= 0,
            one > 0,
    ;
    vstd::arithmetic::div_mod::lemma_div_pos_is_pos(k1 * one, dd);
    vstd::arithmetic::div_mod::lemma_fundamental_div_mod(k1 * one, dd);
    vstd::arithmetic::div_mod::lemma_mod_pos_bound(k1 * one, dd);
    assert((Fixed { raw: k1 as i64 }).div_spec(d) == Some(Fixed { raw: k2 as i64 }));
    // the unit vector is exact
    assert(dd * one >= 0) by (nonlinear_arith)
        requires
            dd > 0,
            one > 0,
    ;
    vstd::arithmetic::div_mod::lemma_div_by_multiple(one, dd);
    assert(dd * one == one * dd) by (nonlinear_arith);
    assert(trunc_div(dd * one, dd) == one);
    assert(0 * one == 0) by (nonlinear_arith);
    assert(trunc_div(0 * one, dd) == 0);
    assert(r.shrink_spec(d) == Some(Vec2 { x: Fixed { raw: ONE_RAW }, y: Fixed { raw: 0 } }));
    // scaling the unit vector by k2
    vstd::arithmetic::div_mod::lemma_div_by_multiple(k2, one);
    assert(one * k2 == k2 * one) by (nonlinear_arith);
    assert(one * k2 >= 0) by (nonlinear_arith)
        requires
            k2 >= 0,
            one > 0,
    ;
    assert(mul_raw(one, k2) == k2);
    assert(0 * k2 == 0) by (nonlinear_arith);
    assert(mul_raw(0, k2) == 0);
    let a = pull_spec(g, m, r)->Ok_0;
    assert(a.x.raw == k2);
    assert(a.y.raw == 0);
    // the two roundings
    let rem1 = (gm.raw * one) % dd;
    let rem2 = (k1 * one) % dd;
    assert(k2 * (dd * dd) <= gm.raw * (one * one) && gm.raw * (one * one) < (k2 + 1) * (dd * dd)
        + one * dd) by (nonlinear_arith)
        requires
            gm.raw * one == dd * k1 + rem1,
            k1 * one == dd * k2 + rem2,
            0 <= rem1 < dd,
            0 <= rem2 < dd,
            one > 0,
            dd > 0,
            k1 >= 0,
            k2 >= 0,
    ;
}

/// A quotient rounded toward zero has the sign of the dividend, and the
/// magnitude of the quotient of the magnitudes rounded down.
pub proof fn lemma_trunc_div_sign(a: int, b: int)
    requires
        b > 0,
    ensures
        a >= 0 ==> trunc_div(a, b) >= 0,
        a <= 0 ==> trunc_div(a, b) <= 0,
        magnitude(trunc_div(a, b)) == magnitude(a) / b,
        trunc_div(-a, b) == -trunc_div(a, b),
{
    vstd::arithmetic::div_mod::lemma_div_pos_is_pos(magnitude(a), b);
    if a == 0 {
        assert(0int / b == 0) by (nonlinear_arith)
            requires
                b > 0,
        ;
    }
}

/// A product of fixed-point numbers has the sign of the product of the
/// factors, is odd in each of them, and is no larger than one factor where
/// the other is at most one.
pub proof fn lemma_mul_raw_unit(u: int, k: int)
    requires
        magnitude(u) <= ONE_RAW,
        k >= 0,
    ensures
        u >= 0 ==> mul_raw(u, k) >= 0,
        u <= 0 ==> mul_raw(u, k) <= 0,
        magnitude(mul_raw(u, k)) <= k,
{
    let one = ONE_RAW as int;
    lemma_trunc_div_sign(u * k, one);
    assert(magnitude(u * k) == magnitude(u) * k && magnitude(u) * k <= one * k && (u >= 0 ==> u
        * k >= 0) && (u <= 0 ==> u * k <= 0)) by (nonlinear_arith)
        requires
            magnitude(u) <= one,
            k >= 0,
            one > 0,
    ;
    vstd::arithmetic::div_mod::lemma_div_is_ordered(magnitude(u) * k, one * k, one);
    vstd::arithmetic::div_mod::lemma_div_by_multiple(k, one);
    assert(one * k == k * one) by (nonlinear_arith);
}

/// No coordinate of a vector is longer than the vector.
pub proof fn lemma_coordinate_within_norm(r: Vec2)
    ensures
        magnitude(r.x.raw as int) <= floor_sqrt(r.norm_squared_raw()),
        magnitude(r.y.raw as int) <= floor_sqrt(r.norm_squared_raw()),
        (r.x.raw != 0 || r.y.raw != 0) ==> floor_sqrt(r.norm_squared_raw()) >= 1,
{
    let n = r.norm_squared_raw();
    let x = r.x.raw as int;
    let y = r.y.raw as int;
    assert(n >= 0 && x * x <= n && y * y <= n && magnitude(x) * magnitude(x) == x * x
        && magnitude(y) * magnitude(y) == y * y) by (nonlinear_arith)
        requires
            n == x * x + y * y,
    ;
    lemma_floor_sqrt_exists(n as nat);
    let d = floor_sqrt(n);
    assert(magnitude(x) <= d) by (nonlinear_arith)
        requires
            magnitude(x) * magnitude(x) <= n,
            n < (d + 1) * (d + 1),
            d >= 0,
            magnitude(x) >= 0,
    ;
    assert(magnitude(y) <= d) by (nonlinear_arith)
        requires
            magnitude(y) * magnitude(y) <= n,
            n < (d + 1) * (d + 1),
            d >= 0,
            magnitude(y) >= 0,
    ;
}

/// The strength of the pull of a source of mass `m` at separation `r`:
/// `g * m / |r|^2` as the engine computes it.
pub open spec fn strength_spec(g: Fixed, m: Fixed, r: Vec2) -> Option<Fixed> {
    match (g.mul_spec(m), r.norm_spec()) {
        (Some(gm), Some(d)) => match gm.div_spec(d) {
            Some(k1) => k1.div_spec(d),
            None => None,
        },
        _ => None,
    }
}

/// The pull of a source points at it: in each coordinate it has the sign
/// of the separation, or vanishes. It is no stronger in either coordinate
/// than `g * m / |r|^2`, which the engine never rounds up.
#[verifier::rlimit(50)]
pub proof fn lemma_pull_toward_source(g: Fixed, m: Fixed, r: Vec2)
    requires
        g.mul_spec(m) matches Some(gm) && gm.raw >= 0,
        pull_spec(g, m, r) is Ok,
    ensures
        ({
            let a = pull_spec(g, m, r)->Ok_0;
            let gm = g.mul_spec(m)->Some_0;
            &&& r.norm_spec() matches Some(d)
            &&& strength_spec(g, m, r) matches Some(k)
            &&& d.raw >= 1
            &&& k.raw >= 0
            &&& k.raw * (d.raw * d.raw) <= gm.raw * (ONE_RAW * ONE_RAW)
            &&& magnitude(a.x.raw as int) <= k.raw
            &&& magnitude(a.y.raw as int) <= k.raw
            &&& r.x.raw >= 0 ==> a.x.raw >= 0
            &&& r.x.raw <= 0 ==> a.x.raw <= 0
            &&& r.y.raw >= 0 ==> a.y.raw >= 0
            &&& r.y.raw <= 0 ==> a.y.raw <= 0
        }),
{
    let gm = g.mul_spec(m)->Some_0;
    let d = r.norm_spec()->Some_0;
    let one = ONE_RAW as int;
    let dd = d.raw as int;
    lemma_coordinate_within_norm(r);
    assert(dd >= 1);
    // strength
    let k1 = gm.div_spec(d)->Some_0;
    let k2 = k1.div_spec(d)->Some_0;
    assert(gm.raw * one >= 0) by (nonlinear_arith)
        requires
            gm.raw >= 0,
            one > 0,
    ;
    lemma_trunc_div_sign(gm.raw * one, dd);
    assert(k1.raw == (gm.raw * one) / dd);
    assert(k1.raw * one >= 0) by (nonlinear_arith)
        requires
            k1.raw >= 0,
            one > 0,
    ;
    lemma_trunc_div_sign(k1.raw * one, dd);
    assert(k2.raw == (k1.raw * one) / dd);
    vstd::arithmetic::div_mod::lemma_fundamental_div_mod(gm.raw * one, dd);
    vstd::arithmetic::div_mod::lemma_mod_pos_bound(gm.raw * one, dd);
    vstd::arithmetic::div_mod::lemma_fundamental_div_mod(k1.raw * one, dd);
    vstd::arithmetic::div_mod::lemma_mod_pos_bound(k1.raw * one, dd);
    let rem1 = (gm.raw * one) % dd;
    let rem2 = (k1.raw * one) % dd;
    assert(k2.raw * (dd * dd) <= gm.raw * (one * one)) by (nonlinear_arith)
        requires
            gm.raw * one == dd * k1.raw + rem1,
            k1.raw * one == dd * k2.raw + rem2,
            0 <= rem1 < dd,
            0 <= rem2 < dd,
            one > 0,
            dd > 0,
            k1.raw >= 0,
            k2.raw >= 0,
    ;
    // direction
    let u = r.shrink_spec(d)->Some_0;
    lemma_unit_coordinate(r.x.raw as int, dd);
    lemma_unit_coordinate(r.y.raw as int, dd);
    lemma_mul_raw_unit(u.x.raw as int, k2.raw as int);
    lemma_mul_raw_unit(u.y.raw as int, k2.raw as int);
}

/// A coordinate divided by a length that is no shorter gives at most one,
/// with the sign of the coordinate.
pub proof fn lemma_unit_coordinate(x: int, d: int)
    requires
        d >= 1,
        magnitude(x) <= d,
    ensures
        magnitude(trunc_div(x * ONE_RAW, d)) <= ONE_RAW,
        x >= 0 ==> trunc_div(x * ONE_RAW, d) >= 0,
        x <= 0 ==> trunc_div(x * ONE_RAW, d) <= 0,
{
    let one = ONE_RAW as int;
    lemma_trunc_div_sign(x * one, d);
    assert(magnitude(x * one) == magnitude(x) * one && magnitude(x) * one <= d * one && (x >= 0
        ==> x * one >= 0) && (x <= 0 ==> x * one <= 0)) by (nonlinear_arith)
        requires
            magnitude(x) <= d,
            one > 0,
    ;
    vstd::arithmetic::div_mod::lemma_div_is_ordered(magnitude(x) * one, d * one, d);
    vstd::arithmetic::div_mod::lemma_div_by_multiple(one, d);
    assert(d * one == one * d) by (nonlinear_arith);
}

/// The product of fixed-point numbers is odd in its first factor.
pub proof fn lemma_mul_raw_odd(a: int, b: int)
    ensures
        mul_raw(-a, b) == -mul_raw(a, b),
{
    assert((-a) * b == -(a * b)) by (nonlinear_arith);
    lemma_trunc_div_sign(a * b, ONE_RAW as int);
}

/// Whether `b` is the opposite of `a`.
pub open spec fn opposite(a: Vec2, b: Vec2) -> bool {
    a.x.raw + b.x.raw == 0 && a.y.raw + b.y.raw == 0
}

/// Opposite separations give opposite pulls: what one body does to the
/// other, a body of the same mass does to it in return.
#[verifier::rlimit(50)]
pub proof fn lemma_pull_odd(g: Fixed, m: Fixed, r: Vec2, back: Vec2)
    requires
        opposite(r, back),
        pull_spec(g, m, r) is Ok,
        pull_spec(g, m, back) is Ok,
    ensures
        opposite(pull_spec(g, m, r)->Ok_0, pull_spec(g, m, back)->Ok_0),
{
    let one = ONE_RAW as int;
    assert(back.norm_squared_raw() == r.norm_squared_raw()) by (nonlinear_arith)
        requires
            r.x.raw + back.x.raw == 0,
            r.y.raw + back.y.raw == 0,
            back.norm_squared_raw() == back.x.raw * back.x.raw + back.y.raw * back.y.raw,
            r.norm_squared_raw() == r.x.raw * r.x.raw + r.y.raw * r.y.raw,
    ;
    let d = r.norm_spec()->Some_0;
    assert(back.norm_spec() == Some(d));
    lemma_coordinate_within_norm(r);
    let u = r.shrink_spec(d)->Some_0;
    let w = back.shrink_spec(d)->Some_0;
    lemma_trunc_div_sign(r.x.raw * one, d.raw as int);
    lemma_trunc_div_sign(r.y.raw * one, d.raw as int);
    assert(back.x.raw * one == -(r.x.raw * one)) by (nonlinear_arith)
        requires
            r.x.raw + back.x.raw == 0,
    ;
    assert(back.y.raw * one == -(r.y.raw * one)) by (nonlinear_arith)
        requires
            r.y.raw + back.y.raw == 0,
    ;
    assert(opposite(u, w));
    let k = strength_spec(g, m, r)->Some_0;
    lemma_mul_raw_odd(u.x.raw as int, k.raw as int);
    lemma_mul_raw_odd(u.y.raw as int, k.raw as int);
}

/// Opposite accelerations of particles with opposite velocities leave the
/// velocities opposite and move the particles by opposite displacements.
pub proof fn lemma_advance_odd(p: Particle, q: Particle, a: Vec2, b: Vec2, dt: Fixed)
    requires
        opposite(p.velocity, q.velocity),
        opposite(a, b),
        advance_spec(p, a, dt) is Ok,
        advance_spec(q, b, dt) is Ok,
    ensures
        ({
            let p_next = advance_spec(p, a, dt)->Ok_0;
            let q_next = advance_spec(q, b, dt)->Ok_0;
            &&& opposite(p_next.velocity, q_next.velocity)
            &&& p_next.position.x.raw + q_next.position.x.raw == p.position.x.raw + q.position.x.raw
            &&& p_next.position.y.raw + q_next.position.y.raw == p.position.y.raw + q.position.y.raw
        }),
{
    lemma_mul_raw_odd(a.x.raw as int, dt.raw as int);
    lemma_mul_raw_odd(a.y.raw as int, dt.raw as int);
    let p_next = advance_spec(p, a, dt)->Ok_0;
    let q_next = advance_spec(q, b, dt)->Ok_0;
    assert(opposite(p_next.velocity, q_next.velocity));
    lemma_mul_raw_odd(p_next.velocity.x.raw as int, dt.raw as int);
    lemma_mul_raw_odd(p_next.velocity.y.raw as int, dt.raw as int);
}

/// One tick of two bodies of equal mass with opposite velocities leaves
/// their velocities opposite and the sum of their positions unchanged.
#[verifier::rlimit(50)]
pub proof fn lemma_pair_tick(g: Fixed, masses: Seq<Fixed>, dt: Fixed, s: Seq<Particle>)
    requires
        masses.len() == 2,
        s.len() == 2,
        masses[0] == masses[1],
        opposite(s[0].velocity, s[1].velocity),
        planets_tick_spec(g, masses, dt, s) is Ok,
    ensures
        ({
            let n = planets_tick_spec(g, masses, dt, s)->Ok_0;
            &&& n.len() == 2
            &&& opposite(n[0].velocity, n[1].velocity)
            &&& n[0].position.x.raw + n[1].position.x.raw == s[0].position.x.raw
                + s[1].position.x.raw
            &&& n[0].position.y.raw + n[1].position.y.raw == s[0].position.y.raw
                + s[1].position.y.raw
        }),
{
    let pos = positions_of(s);
    let f = self_field_of(g, masses, pos);
    let acc = self_accelerations_spec(g, masses, pos)->Ok_0;
    lemma_collect_ok(f, 2);
    assert(f(0) == Ok::<Vec2, TraceError>(acc[0]));
    assert(f(1) == Ok::<Vec2, TraceError>(acc[1]));
    let zero = Vec2 { x: Fixed { raw: 0 }, y: Fixed { raw: 0 } };
    // body 0 feels body 1 alone
    assert(field_spec(g, masses, pos, pos[0], 0, 0) == Ok::<Vec2, TraceError>(zero));
    assert(field_spec(g, masses, pos, pos[0], 0, 1) == Ok::<Vec2, TraceError>(zero));
    let r = pos[1].sub_spec(pos[0])->Some_0;
    let a = pull_spec(g, masses[1], r)->Ok_0;
    assert(field_spec(g, masses, pos, pos[0], 0, 2) == Ok::<Vec2, TraceError>(a));
    // body 1 feels body 0 alone
    assert(field_spec(g, masses, pos, pos[1], 1, 0) == Ok::<Vec2, TraceError>(zero));
    let back = pos[0].sub_spec(pos[1])->Some_0;
    let b = pull_spec(g, masses[0], back)->Ok_0;
    assert(field_spec(g, masses, pos, pos[1], 1, 1) == Ok::<Vec2, TraceError>(b));
    assert(field_spec(g, masses, pos, pos[1], 1, 2) == Ok::<Vec2, TraceError>(b));
    lemma_pull_odd(g, masses[0], r, back);
    let step = advance_of(s, acc, dt);
    let n = planets_tick_spec(g, masses, dt, s)->Ok_0;
    lemma_collect_ok(step, 2);
    assert(step(0) == Ok::<Particle, TraceError>(n[0]));
    assert(step(1) == Ok::<Particle, TraceError>(n[1]));
    lemma_advance_odd(s[0], s[1], acc[0], acc[1], dt);
}

/// Two bodies of equal mass whose velocities are opposite, so that their
/// net momentum is zero, keep their centre of mass where it is: at every
/// tick the sum of their positions is what it was at the start, and their
/// velocities are opposite.
#[verifier::rlimit(50)]
pub proof fn lemma_center_of_mass_at_rest(m: PlanetsModel, k: nat)
    requires
        m.masses.len() == 2,
        m.positions.len() == 2,
        m.velocities.len() == 2,
        m.masses[0] == m.masses[1],
        opposite(m.velocities[0], m.velocities[1]),
        planets_after(m, k) is Ok,
    ensures
        ({
            let s = planets_after(m, k)->Ok_0;
            &&& s.len() == 2
            &&& opposite(s[0].velocity, s[1].velocity)
            &&& s[0].position.x.raw + s[1].position.x.raw == m.positions[0].x.raw
                + m.positions[1].x.raw
            &&& s[0].position.y.raw + s[1].position.y.raw == m.positions[0].y.raw
                + m.positions[1].y.raw
        }),
    decreases k,
{
    if k > 0 {
        lemma_center_of_mass_at_rest(m, (k - 1) as nat);
        let s = planets_after(m, (k - 1) as nat)->Ok_0;
        lemma_pair_tick(m.g, m.masses, m.dt, s);
    }
}

/// Functions that agree on `0..n` are collected alike.
pub proof fn lemma_collect_agree<T>(
    f: spec_fn(int) -> Result<T, TraceError>,
    h: spec_fn(int) -> Result<T, TraceError>,
    n: nat,
)
    requires
        forall|i: int| 0 <= i < n ==> #[trigger] f(i) == h(i),
    ensures
        collect(f, n) == collect(h, n),
    decreases n,
{
    if n > 0 {
        lemma_collect_agree(f, h, (n - 1) as nat);
        assert(f(n - 1) == h(n - 1));
    }
}

/// The first `k` ticks of a run depend on the positions of the bodies in
/// those ticks alone, not on later ones nor on the length of the run.
pub proof fn lemma_ships_same_start<F: FictitiousForce>(m: ShipsModel<F>, o: ShipsModel<F>, k: nat)
    requires
        m.g == o.g,
        m.masses == o.masses,
        m.dt == o.dt,
        m.force == o.force,
        m.positions == o.positions,
        m.velocities == o.velocities,
        forall|t: int| 0 <= t < k ==> #[trigger] m.bodies[t] == o.bodies[t],
    ensures
        ships_after(m, k) == ships_after(o, k),
    decreases k,
{
    if k > 0 {
        lemma_ships_same_start(m, o, (k - 1) as nat);
        match ships_after(m, (k - 1) as nat) {
            Ok(s) => {
                assert(m.bodies[k - 1] == o.bodies[k - 1]);
                lemma_collect_agree(probe_step_of(m, k - 1, s), probe_step_of(o, k - 1, s), s.len());
            },
            Err(_) => {},
        }
    }
}

/// The run that starts where `m` stands after `t` ticks.
pub open spec fn resumed<F>(m: ShipsModel<F>, t: nat, s: Seq<Particle>) -> ShipsModel<F> {
    ShipsModel {
        g: m.g,
        masses: m.masses,
        bodies: m.bodies.skip(t as int),
        body_width: m.body_width,
        positions: positions_of(s),
        velocities: velocities_of(s),
        dt: m.dt,
        time_steps: (m.time_steps - t) as nat,
        force: m.force,
    }
}

/// A run that is stopped after `t` ticks and started again from the state
/// it had reached goes on as if it had not been stopped.
#[verifier::rlimit(50)]
pub proof fn lemma_restart<F: FictitiousForce>(m: ShipsModel<F>, t: nat, k: nat)
    requires
        ships_after(m, t) is Ok,
        t + k <= m.bodies.len(),
    ensures
        ships_after(resumed(m, t, ships_after(m, t)->Ok_0), k) == ships_after(m, t + k),
    decreases k,
{
    let s = ships_after(m, t)->Ok_0;
    let r = resumed(m, t, s);
    if k == 0 {
        assert(particles_spec(positions_of(s), velocities_of(s)) =~= s);
    } else {
        lemma_restart(m, t, (k - 1) as nat);
        match ships_after(r, (k - 1) as nat) {
            Ok(now) => {
                assert(r.bodies[k - 1] == m.bodies[t + k - 1]);
                lemma_collect_agree(
                    probe_step_of(r, k - 1, now),
                    probe_step_of(m, t + k - 1, now),
                    now.len(),
                );
            },
            Err(_) => {},
        }
    }
}

/// The run of probe `i` of `m` with no other probe beside it.
pub open spec fn alone<F>(m: ShipsModel<F>, i: int) -> ShipsModel<F> {
    ShipsModel {
        g: m.g,
        masses: m.masses,
        bodies: m.bodies,
        body_width: m.body_width,
        positions: seq![m.positions[i]],
        velocities: seq![m.velocities[i]],
        dt: m.dt,
        time_steps: m.time_steps,
        force: m.force,
    }
}

/// Probes do not feel each other: in a run that succeeds, each probe moves
/// as it would alone.
#[verifier::rlimit(50)]
pub proof fn lemma_probe_alone<F: FictitiousForce>(m: ShipsModel<F>, i: int, k: nat)
    requires
        0 <= i < m.positions.len(),
        m.positions.len() == m.velocities.len(),
        ships_after(m, k) is Ok,
    ensures
        ships_after(alone(m, i), k) == Ok::<Seq<Particle>, TraceError>(
            seq![ships_after(m, k)->Ok_0[i]],
        ),
    decreases k,
{
    let a = alone(m, i);
    if k == 0 {
        assert(particles_spec(a.positions, a.velocities) =~= seq![
            particles_spec(m.positions, m.velocities)[i],
        ]);
    } else {
        lemma_probe_alone(m, i, (k - 1) as nat);
        lemma_ships_count(m, (k - 1) as nat);
        let s = ships_after(m, (k - 1) as nat)->Ok_0;
        let after = ships_after(m, k)->Ok_0;
        let f = probe_step_of(m, k - 1, s);
        lemma_collect_ok(f, s.len());
        assert(f(i) == Ok::<Particle, TraceError>(after[i]));
        let one = seq![s[i]];
        let h = probe_step_of(a, k - 1, one);
        assert(one[0] == s[i]);
        assert(h(0) == f(i));
        assert(collect(h, 0) == Ok::<Seq<Particle>, TraceError>(Seq::empty()));
        assert(Seq::<Particle>::empty().push(after[i]) =~= seq![after[i]]);
    }
}

/// The flight of one probe alone among the two masses at rest.
pub open spec fn solo(sys: CoRotating, start: Particle, dt: Fixed, steps: nat) -> ShipsModel<
    crate::halo_orbits_compute::RotatingFrame,
> {
    co_rotating_model_spec(sys, seq![start.position], seq![start.velocity], dt, steps)
}

/// Whether `orbit` is the history of a probe that flies alone in the frame `sys`.
pub open spec fn is_orbit(sys: CoRotating, dt: Fixed, orbit: Seq<Particle>) -> bool {
    &&& orbit.len() >= 1
    &&& forall|t: nat|
        t < orbit.len() ==> #[trigger] ships_after(
            solo(sys, orbit[0], dt, (orbit.len() - 1) as nat),
            t,
        ) == Ok::<Seq<Particle>, TraceError>(seq![orbit[t as int]])
}

/// At zero perturbation every perturbed probe starts on the orbit, at its
/// sample point.
pub proof fn lemma_unperturbed_start(orbit: Seq<Particle>, samples: usize, i: int, j: int)
    requires
        perturbed_spec(orbit, samples, Fixed { raw: 0 }) is Ok,
        0 <= i < samples,
        0 <= j < 4,
    ensures
        0 <= sample_tick_spec(i, samples as nat, orbit.len()) < orbit.len(),
        0 <= 4 * i + j < perturbed_spec(orbit, samples, Fixed { raw: 0 })->Ok_0.len(),
        perturbed_spec(orbit, samples, Fixed { raw: 0 })->Ok_0[4 * i + j]
            == orbit[sample_tick_spec(i, samples as nat, orbit.len())],
{
    let zero = Fixed { raw: 0 };
    let probes = perturbed_spec(orbit, samples, zero)->Ok_0;
    let index = 4 * i + j;
    if samples >= 2 {
        crate::halo_orbits_compute::lemma_share_bounds(orbit.len() - 1, i, samples - 1);
        assert(i * (orbit.len() - 1) == (orbit.len() - 1) * i) by (nonlinear_arith);
    }
    let f = perturbed_of(orbit, samples as nat, zero);
    lemma_collect_ok(f, (4 * samples) as nat);
    assert(f(index) == Ok::<Particle, TraceError>(probes[index]));
    assert(index / 4 == i && index % 4 == j);
}

/// A probe that starts alone on an orbit, at the state that the orbit has
/// at some tick, retraces the orbit from there.
#[verifier::rlimit(50)]
pub proof fn lemma_retrace_alone(
    sys: CoRotating,
    dt: Fixed,
    orbit: Seq<Particle>,
    tick: nat,
    steps: nat,
    k: nat,
)
    requires
        is_orbit(sys, dt, orbit),
        tick + k < orbit.len(),
        k <= steps,
    ensures
        ships_after(solo(sys, orbit[tick as int], dt, steps), k) == Ok::<
            Seq<Particle>,
            TraceError,
        >(seq![orbit[(tick + k) as int]]),
{
    let whole = solo(sys, orbit[0], dt, (orbit.len() - 1) as nat);
    let here = seq![orbit[tick as int]];
    assert(ships_after(whole, tick) == Ok::<Seq<Particle>, TraceError>(here));
    assert(ships_after(whole, (tick + k) as nat) == Ok::<Seq<Particle>, TraceError>(
        seq![orbit[(tick + k) as int]],
    ));
    lemma_restart(whole, tick, k);
    let again = resumed(whole, tick, here);
    let alone = solo(sys, orbit[tick as int], dt, steps);
    assert(again.positions =~= alone.positions);
    assert(again.velocities =~= alone.velocities);
    assert(again.masses == alone.masses);
    assert forall|t: int| 0 <= t < k implies #[trigger] again.bodies[t] == alone.bodies[t] by {}
    lemma_ships_same_start(again, alone, k);
}

/// At zero perturbation the probes that outline the unstable manifold
/// retrace the orbit from their sample points.
///
/// `orbit` is the history of a probe that flies alone in the frame `sys`.
/// The probe of perturbation `j` at sample point `i`, flown forward for `k`
/// ticks among any number of others, is where the orbit is `k` ticks after
/// that sample point.
#[verifier::rlimit(50)]
pub proof fn lemma_unperturbed_retraces(
    sys: CoRotating,
    dt: Fixed,
    orbit: Seq<Particle>,
    samples: usize,
    i: int,
    j: int,
    forward_steps: nat,
    k: nat,
)
    requires
        is_orbit(sys, dt, orbit),
        perturbed_spec(orbit, samples, Fixed { raw: 0 }) is Ok,
        0 <= i < samples,
        0 <= j < 4,
        k <= forward_steps,
        sample_tick_spec(i, samples as nat, orbit.len()) + k < orbit.len(),
        ships_after(
            co_rotating_model_spec(
                sys,
                positions_of(perturbed_spec(orbit, samples, Fixed { raw: 0 })->Ok_0),
                velocities_of(perturbed_spec(orbit, samples, Fixed { raw: 0 })->Ok_0),
                dt,
                forward_steps,
            ),
            k,
        ) is Ok,
    ensures
        ships_after(
            co_rotating_model_spec(
                sys,
                positions_of(perturbed_spec(orbit, samples, Fixed { raw: 0 })->Ok_0),
                velocities_of(perturbed_spec(orbit, samples, Fixed { raw: 0 })->Ok_0),
                dt,
                forward_steps,
            ),
            k,
        )->Ok_0[4 * i + j] == orbit[sample_tick_spec(i, samples as nat, orbit.len()) + k],
{
    let probes = perturbed_spec(orbit, samples, Fixed { raw: 0 })->Ok_0;
    let index = 4 * i + j;
    let tick = sample_tick_spec(i, samples as nat, orbit.len());
    lemma_unperturbed_start(orbit, samples, i, j);
    let forward = co_rotating_model_spec(
        sys,
        positions_of(probes),
        velocities_of(probes),
        dt,
        forward_steps,
    );
    // flown among the others the probe moves as alone
    lemma_probe_alone(forward, index, k);
    // alone it retraces the orbit
    lemma_retrace_alone(sys, dt, orbit, tick as nat, forward_steps, k);
    let single = solo(sys, orbit[tick], dt, forward_steps);
    assert(alone(forward, index).positions =~= single.positions);
    assert(alone(forward, index).velocities =~= single.velocities);
    assert(alone(forward, index) == single);
    assert(seq![orbit[tick + k]][0] == orbit[tick + k]);
    assert(seq![ships_after(forward, k)->Ok_0[index]][0] == ships_after(forward, k)->Ok_0[index]);
}

/// A search never leaves its bracket: whatever it reports, the speeds of
/// the report lie between the speeds it was given. A search that converges
/// from a bracket about a speed therefore gives a speed no farther from it
/// than the bracket is wide.
#[verifier::rlimit(50)]
pub proof fn lemma_search_within_bracket(
    setup: HaloSetup,
    epsilon: Fixed,
    low: Fixed,
    high: Fixed,
    iterations: nat,
)
    requires
        low.raw <= high.raw,
        search_spec(setup, epsilon, low, high, iterations) is Ok,
    ensures
        ({
            let r = search_spec(setup, epsilon, low, high, iterations)->Ok_0;
            &&& low.raw <= r.low_v.raw <= high.raw
            &&& low.raw <= r.high_v.raw <= high.raw
        }),
    decreases high.raw - low.raw,
{
    reveal(round_spec);
    let log = fan_crossings(setup, low, high);
    let n = log.len();
    lemma_best_is_candidate(log, false, n);
    lemma_best_is_candidate(log, true, n);
    match (best_spec(log, false, n), best_spec(log, true, n)) {
        (Some(b), Some(a)) => {
            lemma_fan_within(low, high, n, b);
            lemma_fan_within(low, high, n, a);
            match decide_spec(log, epsilon, low, high, iterations) {
                Round::Narrowed(new_low, new_high) => {
                    lemma_search_within_bracket(setup, epsilon, new_low, new_high, iterations + 1);
                },
                Round::Done(_) => {},
            }
        },
        _ => {},
    }
}

/// The flight backward in time feels the force of the flight forward: in a
/// frame that rotates the other way, a probe with the opposite velocity is
/// accelerated as the probe is in the frame itself, where both
/// accelerations are in range.
#[verifier::rlimit(50)]
pub proof fn lemma_reversed_force(
    omega: Fixed,
    counter: Fixed,
    position: Vec2,
    velocity: Vec2,
    reversed: Vec2,
)
    requires
        omega.raw + counter.raw == 0,
        opposite(velocity, reversed),
        (RotatingFrame { omega }).accel_spec(position, velocity) is Some,
        (RotatingFrame { omega: counter }).accel_spec(position, reversed) is Some,
    ensures
        (RotatingFrame { omega: counter }).accel_spec(position, reversed) == (RotatingFrame {
            omega,
        }).accel_spec(position, velocity),
{
    assert(counter.raw * counter.raw == omega.raw * omega.raw) by (nonlinear_arith)
        requires
            omega.raw + counter.raw == 0,
    ;
    assert(counter.mul_spec(counter) == omega.mul_spec(omega));
    let twice = omega.add_spec(omega)->Some_0;
    assert(omega.add_spec(omega) is Some);
    assert(counter.add_spec(counter) is Some);
    let back = counter.add_spec(counter)->Some_0;
    assert(back.raw + twice.raw == 0);
    assert(back.raw * reversed.y.raw == twice.raw * velocity.y.raw) by (nonlinear_arith)
        requires
            back.raw + twice.raw == 0,
            velocity.y.raw + reversed.y.raw == 0,
    ;
    assert(back.raw * reversed.x.raw == twice.raw * velocity.x.raw) by (nonlinear_arith)
        requires
            back.raw + twice.raw == 0,
            velocity.x.raw + reversed.x.raw == 0,
    ;
    assert(back.mul_spec(reversed.y) == twice.mul_spec(velocity.y));
    assert(back.mul_spec(reversed.x) == twice.mul_spec(velocity.x));
}

/// The first tick backward undoes what the first tick forward does to the
/// velocity, up to the sign of the velocity itself: among the same bodies,
/// the probe with the opposite velocity in the frame that rotates the other
/// way gains what the probe gains.
#[verifier::rlimit(50)]
pub proof fn lemma_reversed_first_tick(
    g: Fixed,
    masses: Seq<Fixed>,
    bodies: Seq<Vec2>,
    omega: Fixed,
    counter: Fixed,
    dt: Fixed,
    p: Particle,
    q: Particle,
)
    requires
        omega.raw + counter.raw == 0,
        q.position == p.position,
        opposite(p.velocity, q.velocity),
        probe_step_spec(g, masses, bodies, &(RotatingFrame { omega }), dt, p) is Ok,
        probe_step_spec(g, masses, bodies, &(RotatingFrame { omega: counter }), dt, q) is Ok,
    ensures
        ({
            let forward = probe_step_spec(g, masses, bodies, &(RotatingFrame { omega }), dt, p)->Ok_0;
            let backward = probe_step_spec(
                g,
                masses,
                bodies,
                &(RotatingFrame { omega: counter }),
                dt,
                q,
            )->Ok_0;
            &&& backward.velocity.x.raw - q.velocity.x.raw == forward.velocity.x.raw
                - p.velocity.x.raw
            &&& backward.velocity.y.raw - q.velocity.y.raw == forward.velocity.y.raw
                - p.velocity.y.raw
        }),
{
    lemma_reversed_force(omega, counter, p.position, p.velocity, q.velocity);
}

/// Three roundings of parts that add up to nothing leave at most two
/// units: the products of `v`, of `w - v` and of `w` with `dt`.
#[verifier::rlimit(50)]
pub proof fn lemma_split_product(v: int, w: int, dt: int)
    ensures
        magnitude(mul_raw(v, dt) + mul_raw(w - v, dt) - mul_raw(w, dt)) <= 2,
{
    let one = ONE_RAW as int;
    lemma_trunc_rest(v * dt, one);
    lemma_trunc_rest((w - v) * dt, one);
    lemma_trunc_rest(w * dt, one);
    lemma_spread(dt, w, v);
    let left = mul_raw(v, dt) + mul_raw(w - v, dt) - mul_raw(w, dt);
    let e0 = v * dt - one * mul_raw(v, dt);
    let e1 = (w - v) * dt - one * mul_raw(w - v, dt);
    let e2 = w * dt - one * mul_raw(w, dt);
    assert(one * left == e2 - e0 - e1) by (nonlinear_arith)
        requires
            left == mul_raw(v, dt) + mul_raw(w - v, dt) - mul_raw(w, dt),
            e0 == v * dt - one * mul_raw(v, dt),
            e1 == (w - v) * dt - one * mul_raw(w - v, dt),
            e2 == w * dt - one * mul_raw(w, dt),
            (w - v) * dt == w * dt - v * dt,
    ;
    assert(magnitude(left) <= 2) by (nonlinear_arith)
        requires
            one * left == e2 - e0 - e1,
            magnitude(e0) < one,
            magnitude(e1) < one,
            magnitude(e2) < one,
            one > 0,
    ;
}

/// One tick backward from a state of an orbit leads to where the orbit was
/// one tick before, but for what the probe gains in velocity in that tick,
/// times `dt`, and two units of the last place: the flight backward follows
/// the orbit backward up to the square of the time step.
///
/// `here` is the state that the orbit reaches from `prev`; `q` starts
/// there with the opposite velocity, in the frame that rotates the other
/// way, and reaches `back`.
#[verifier::rlimit(50)]
pub proof fn lemma_reversed_step_back(
    g: Fixed,
    masses: Seq<Fixed>,
    bodies: Seq<Vec2>,
    omega: Fixed,
    counter: Fixed,
    dt: Fixed,
    prev: Particle,
    here: Particle,
    q: Particle,
)
    requires
        probe_step_spec(g, masses, bodies, &(RotatingFrame { omega }), dt, prev) == Ok::<
            Particle,
            TraceError,
        >(here),
        q.position == here.position,
        opposite(here.velocity, q.velocity),
        probe_step_spec(g, masses, bodies, &(RotatingFrame { omega: counter }), dt, q) is Ok,
    ensures
        ({
            let back = probe_step_spec(
                g,
                masses,
                bodies,
                &(RotatingFrame { omega: counter }),
                dt,
                q,
            )->Ok_0;
            let gain_x = back.velocity.x.raw - q.velocity.x.raw;
            let gain_y = back.velocity.y.raw - q.velocity.y.raw;
            &&& magnitude(
                back.position.x.raw - prev.position.x.raw - mul_raw(gain_x, dt.raw as int),
            ) <= 2
            &&& magnitude(
                back.position.y.raw - prev.position.y.raw - mul_raw(gain_y, dt.raw as int),
            ) <= 2
        }),
{
    let back = probe_step_spec(g, masses, bodies, &(RotatingFrame { omega: counter }), dt, q)->Ok_0;
    let gain_x = back.velocity.x.raw - q.velocity.x.raw;
    let gain_y = back.velocity.y.raw - q.velocity.y.raw;
    crate::conservation::lemma_step_components(
        g,
        masses,
        bodies,
        &(RotatingFrame { omega }),
        dt,
        prev,
    );
    crate::conservation::lemma_step_components(
        g,
        masses,
        bodies,
        &(RotatingFrame { omega: counter }),
        dt,
        q,
    );
    lemma_split_product(here.velocity.x.raw as int, gain_x, dt.raw as int);
    lemma_split_product(here.velocity.y.raw as int, gain_y, dt.raw as int);
}

} // verus!

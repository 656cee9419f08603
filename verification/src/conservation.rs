//! Momentum and centre of mass of two bodies, and the angular momentum of a
//! probe about a lone body.
//!
//! In exact arithmetic two bodies exchange opposite momenta, and with no net
//! momentum their centre of mass rests; a probe about a lone body at rest
//! keeps its angular momentum. The engine rounds every product and quotient
//! toward zero, by less than one unit of the last place each time. The laws
//! here bound what those roundings can add up to: in one tick, and for the
//! two bodies through a run in which they stay a given distance apart.

use crate::error::TraceError;
use crate::fixed::{floor_sqrt, magnitude, trunc_div, Fixed, ONE_RAW};
use crate::kernel::{
    field_spec, lemma_collect_ok, pull_spec, self_accelerations_spec, self_field_of,
};
use crate::tracer::{probe_step_spec, NoForce};
use crate::laws::{lemma_coordinate_within_norm, lemma_trunc_div_sign, lemma_unit_coordinate};
use crate::tracer::{
    advance_of, advance_spec, particles_spec, planets_after, planets_tick_spec, positions_of,
    Particle, PlanetsModel,
};
use crate::vector::Vec2;
use vstd::prelude::*;

verus! {

/// What rounding toward zero takes away: the dividend is the quotient times
/// the divisor plus a rest of the dividend's sign that is smaller in
/// magnitude than the divisor.
pub proof fn lemma_trunc_rest(a: int, b: int)
    requires
        b > 0,
    ensures
        magnitude(a - b * trunc_div(a, b)) < b,
        a >= 0 ==> 0 <= a - b * trunc_div(a, b),
        a <= 0 ==> a - b * trunc_div(a, b) <= 0,
{
    if a >= 0 {
        vstd::arithmetic::div_mod::lemma_fundamental_div_mod(a, b);
        vstd::arithmetic::div_mod::lemma_mod_pos_bound(a, b);
    } else {
        vstd::arithmetic::div_mod::lemma_fundamental_div_mod(-a, b);
        vstd::arithmetic::div_mod::lemma_mod_pos_bound(-a, b);
        assert(b * (-((-a) / b)) == -(b * ((-a) / b))) by (nonlinear_arith);
    }
}

/// The magnitude of a product is at most the product of bounds on the factors.
pub proof fn lemma_product_bound(x: int, y: int, bx: int, by: int)
    requires
        magnitude(x) <= bx,
        magnitude(y) <= by,
    ensures
        magnitude(x * y) <= bx * by,
{
    assert(magnitude(x * y) == magnitude(x) * magnitude(y)) by (nonlinear_arith);
    assert(magnitude(x) * magnitude(y) <= bx * by) by (nonlinear_arith)
        requires
            0 <= magnitude(x) <= bx,
            0 <= magnitude(y) <= by,
    ;
}

/// `a * (b - c)` is `a * b - a * c`.
pub proof fn lemma_spread(a: int, b: int, c: int)
    ensures
        a * (b - c) == a * b - a * c,
        (b - c) * a == b * a - c * a,
{
    assert(a * (b - c) == a * b - a * c) by (nonlinear_arith);
    assert((b - c) * a == b * a - c * a) by (nonlinear_arith);
}

/// The factors of a product of three can be taken in any order.
pub proof fn lemma_regroup(a: int, b: int, c: int)
    ensures
        a * (b * c) == b * (a * c),
        a * (b * c) == (a * b) * c,
        a * (b * c) == c * (a * b),
{
    assert(a * (b * c) == b * (a * c)) by (nonlinear_arith);
    assert(a * (b * c) == (a * b) * c) by (nonlinear_arith);
    assert(a * (b * c) == c * (a * b)) by (nonlinear_arith);
}

/// `m0 * a0 + m1 * a1`, times `s`, from `s * a0` and `s * a1`.
pub proof fn lemma_weighted_sum(m0: int, m1: int, a0: int, a1: int, s: int)
    ensures
        (m0 * a0 + m1 * a1) * s == m0 * (s * a0) + m1 * (s * a1),
{
    lemma_regroup(m0, s, a0);
    lemma_regroup(m1, s, a1);
    assert((m0 * a0 + m1 * a1) * s == (m0 * a0) * s + (m1 * a1) * s) by (nonlinear_arith);
    assert((m0 * a0) * s == s * (m0 * a0)) by (nonlinear_arith);
    assert((m1 * a1) * s == s * (m1 * a1)) by (nonlinear_arith);
}

/// The strength `g * m / d^2` as the engine computes it, from raw values:
/// the product rounded, then divided by `d` twice.
pub open spec fn strength_raw(g: int, m: int, d: int) -> int {
    let one = ONE_RAW as int;
    trunc_div(trunc_div(trunc_div(g * m, one) * one, d) * one, d)
}

/// The three roundings of a strength take away less than
/// `1 + 1 / d + 1 / d^2` units of the last place of `g * m`:
/// `strength * d^2` falls short of `one * g * m` by less than
/// `one^2 + one * d + d^2`, and never exceeds it.
#[verifier::rlimit(50)]
pub proof fn lemma_strength_defect(g: int, m: int, d: int)
    requires
        g >= 0,
        m >= 0,
        d >= 1,
    ensures
        strength_raw(g, m, d) >= 0,
        0 <= ONE_RAW * (g * m) - strength_raw(g, m, d) * (d * d) < ONE_RAW * ONE_RAW + ONE_RAW * d
            + d * d,
{
    let one = ONE_RAW as int;
    assert(g * m >= 0) by (nonlinear_arith)
        requires
            g >= 0,
            m >= 0,
    ;
    let gm = trunc_div(g * m, one);
    lemma_trunc_rest(g * m, one);
    lemma_trunc_div_sign(g * m, one);
    let e1 = g * m - one * gm;
    assert(gm * one >= 0) by (nonlinear_arith)
        requires
            gm >= 0,
            one > 0,
    ;
    let q = trunc_div(gm * one, d);
    lemma_trunc_rest(gm * one, d);
    lemma_trunc_div_sign(gm * one, d);
    let e2 = gm * one - d * q;
    assert(q * one >= 0) by (nonlinear_arith)
        requires
            q >= 0,
            one > 0,
    ;
    let k = trunc_div(q * one, d);
    lemma_trunc_rest(q * one, d);
    lemma_trunc_div_sign(q * one, d);
    let e3 = q * one - d * k;
    assert(k == strength_raw(g, m, d));
    assert(one * (g * m) - k * (d * d) == one * e1 + one * e2 + d * e3) by (nonlinear_arith)
        requires
            e1 == g * m - one * gm,
            e2 == gm * one - d * q,
            e3 == q * one - d * k,
    ;
    assert(0 <= one * e1 + one * e2 + d * e3 < one * one + one * d + d * d) by (nonlinear_arith)
        requires
            0 <= e1 < one,
            0 <= e2 < d,
            0 <= e3 < d,
            one > 0,
            d >= 1,
    ;
}

/// The change of velocity along one axis, in one tick of length `dt`, of a
/// body drawn by a source of mass `m` at distance `d`, of whose separation
/// `rx` is the component along that axis.
pub open spec fn kick_raw(g: int, m: int, rx: int, d: int, dt: int) -> int {
    let one = ONE_RAW as int;
    let unit = trunc_div(rx * one, d);
    let a = trunc_div(unit * strength_raw(g, m, d), one);
    trunc_div(a * dt, one)
}

/// What the three roundings of a strength can take away, times `d^2`:
/// `one^2 + one * d + d^2`.
pub open spec fn rounding_width(d: int) -> int {
    ONE_RAW * ONE_RAW + ONE_RAW * d + d * d
}

/// The bound on the momentum that the roundings of one tick can make up
/// between two bodies of masses `total` together, `d` apart, times
/// `one * d^2`: `total * (dt * (one^2 + one * d + 2 * d^2) + one * d^2)`.
pub open spec fn exchange_bound(total: int, d: int, dt: int) -> int {
    dt * (total * (rounding_width(d) + d * d)) + (total * ONE_RAW) * (d * d)
}

/// Action and reaction, up to rounding: the momenta that two bodies give
/// each other in one tick cancel but for what the roundings take away.
#[verifier::rlimit(50)]
pub proof fn lemma_exchange_defect(g: int, m0: int, m1: int, rx: int, d: int, dt: int)
    requires
        g >= 0,
        m0 >= 0,
        m1 >= 0,
        dt >= 0,
        d >= 1,
        magnitude(rx) <= d,
    ensures
        magnitude(m0 * kick_raw(g, m1, rx, d, dt) + m1 * kick_raw(g, m0, -rx, d, dt)) * (ONE_RAW
            * (d * d)) <= exchange_bound(m0 + m1, d, dt),
{
    let one = ONE_RAW as int;
    let dd = d * d;
    assert(dd >= 1) by (nonlinear_arith)
        requires
            d >= 1,
            dd == d * d,
    ;
    let total = m0 + m1;
    let width = one * one + one * d + dd;
    let k1 = strength_raw(g, m1, d);
    let k0 = strength_raw(g, m0, d);
    lemma_strength_defect(g, m1, d);
    lemma_strength_defect(g, m0, d);
    let w1 = one * (g * m1) - k1 * dd;
    let w0 = one * (g * m0) - k0 * dd;
    // the strengths weighted by the masses differ by roundings alone
    let x = m0 * k1 - m1 * k0;
    assert(x * dd == m1 * w0 - m0 * w1) by {
        // m0 * (one * (g * m1)) == m1 * (one * (g * m0))
        lemma_regroup(one, g, m1);
        lemma_regroup(one, g, m0);
        lemma_regroup(m0, one * g, m1);
        // spread the products
        lemma_spread(dd, m0 * k1, m1 * k0);
        lemma_regroup(m0, k1, dd);
        lemma_regroup(m1, k0, dd);
        lemma_spread(m0, one * (g * m1), k1 * dd);
        lemma_spread(m1, one * (g * m0), k0 * dd);
    }
    assert(magnitude(x * dd) <= total * width) by (nonlinear_arith)
        requires
            x * dd == m1 * w0 - m0 * w1,
            0 <= w0 < width,
            0 <= w1 < width,
            m0 >= 0,
            m1 >= 0,
            total == m0 + m1,
    ;
    // the accelerations
    let unit = trunc_div(rx * one, d);
    lemma_unit_coordinate(rx, d);
    lemma_trunc_div_sign(rx * one, d);
    assert((-rx) * one == -(rx * one)) by (nonlinear_arith);
    assert(trunc_div((-rx) * one, d) == -unit);
    let a0 = trunc_div(unit * k1, one);
    let a1 = trunc_div((-unit) * k0, one);
    lemma_trunc_rest(unit * k1, one);
    lemma_trunc_rest((-unit) * k0, one);
    let e0 = unit * k1 - one * a0;
    let e1 = (-unit) * k0 - one * a1;
    let y = m0 * a0 + m1 * a1;
    assert(y * one == unit * x - (m0 * e0 + m1 * e1)) by {
        lemma_weighted_sum(m0, m1, a0, a1, one);
        lemma_spread(m0, unit * k1, e0);
        lemma_spread(m1, (-unit) * k0, e1);
        lemma_spread(unit, m0 * k1, m1 * k0);
        lemma_regroup(unit, m0, k1);
        lemma_regroup(unit, m1, k0);
        assert((-unit) * k0 == -(unit * k0)) by (nonlinear_arith);
        assert(m1 * (-(unit * k0)) == -(m1 * (unit * k0))) by (nonlinear_arith);
    }
    lemma_product_bound(unit, x * dd, one, total * width);
    assert(unit * (x * dd) == (unit * x) * dd) by (nonlinear_arith);
    assert(magnitude(m0 * e0 + m1 * e1) <= total * one) by (nonlinear_arith)
        requires
            magnitude(e0) < one,
            magnitude(e1) < one,
            m0 >= 0,
            m1 >= 0,
            total == m0 + m1,
    ;
    lemma_product_bound(m0 * e0 + m1 * e1, dd, total * one, dd);
    assert((y * dd) * one == (unit * x) * dd - (m0 * e0 + m1 * e1) * dd) by (nonlinear_arith)
        requires
            y * one == unit * x - (m0 * e0 + m1 * e1),
    ;
    assert(magnitude((y * dd) * one) <= one * (total * width) + (total * one) * dd);
    assert(magnitude(y * dd) <= total * (width + dd)) by (nonlinear_arith)
        requires
            magnitude((y * dd) * one) <= one * (total * width) + (total * one) * dd,
            one > 0,
    ;
    // the changes of velocity
    let v0 = trunc_div(a0 * dt, one);
    let v1 = trunc_div(a1 * dt, one);
    assert(v0 == kick_raw(g, m1, rx, d, dt));
    assert(v1 == kick_raw(g, m0, -rx, d, dt));
    lemma_trunc_rest(a0 * dt, one);
    lemma_trunc_rest(a1 * dt, one);
    let f0 = a0 * dt - one * v0;
    let f1 = a1 * dt - one * v1;
    let z = m0 * v0 + m1 * v1;
    assert(z * one == dt * y - (m0 * f0 + m1 * f1)) by {
        lemma_weighted_sum(m0, m1, v0, v1, one);
        lemma_spread(m0, a0 * dt, f0);
        lemma_spread(m1, a1 * dt, f1);
        lemma_regroup(m0, a0, dt);
        lemma_regroup(m1, a1, dt);
        assert(dt * (m0 * a0 + m1 * a1) == dt * (m0 * a0) + dt * (m1 * a1)) by (nonlinear_arith);
    }
    assert(magnitude(m0 * f0 + m1 * f1) <= total * one) by (nonlinear_arith)
        requires
            magnitude(f0) < one,
            magnitude(f1) < one,
            m0 >= 0,
            m1 >= 0,
            total == m0 + m1,
    ;
    lemma_product_bound(dt, y * dd, dt, total * (width + dd));
    lemma_product_bound(m0 * f0 + m1 * f1, dd, total * one, dd);
    assert((z * one) * dd == dt * (y * dd) - (m0 * f0 + m1 * f1) * dd) by (nonlinear_arith)
        requires
            z * one == dt * y - (m0 * f0 + m1 * f1),
    ;
    assert(magnitude((z * one) * dd) <= dt * (total * (width + dd)) + (total * one) * dd);
    assert(magnitude(z) * (one * dd) == magnitude((z * one) * dd)) by (nonlinear_arith)
        requires
            one > 0,
            dd >= 1,
    ;
    assert(dt * (total * (width + dd)) + (total * one) * dd == exchange_bound(total, d, dt));
}

/// The acceleration along one axis of a body drawn by a source of mass `m`
/// at distance `d`, of whose separation `rx` is the component along that axis.
pub open spec fn pull_raw(g: int, m: int, rx: int, d: int) -> int {
    let one = ONE_RAW as int;
    trunc_div(trunc_div(rx * one, d) * strength_raw(g, m, d), one)
}

/// The pull of a source, coordinate by coordinate.
pub proof fn lemma_pull_components(g: Fixed, m: Fixed, r: Vec2)
    requires
        pull_spec(g, m, r) is Ok,
    ensures
        ({
            let a = pull_spec(g, m, r)->Ok_0;
            let d = floor_sqrt(r.norm_squared_raw());
            &&& d >= 1
            &&& magnitude(r.x.raw as int) <= d
            &&& magnitude(r.y.raw as int) <= d
            &&& a.x.raw == pull_raw(g.raw as int, m.raw as int, r.x.raw as int, d)
            &&& a.y.raw == pull_raw(g.raw as int, m.raw as int, r.y.raw as int, d)
        }),
{
    lemma_coordinate_within_norm(r);
}

/// The change of velocity of a particle in a step that succeeds, coordinate
/// by coordinate, and its displacement.
pub proof fn lemma_advance_components(p: Particle, a: Vec2, dt: Fixed)
    requires
        advance_spec(p, a, dt) is Ok,
    ensures
        ({
            let n = advance_spec(p, a, dt)->Ok_0;
            let one = ONE_RAW as int;
            &&& n.velocity.x.raw - p.velocity.x.raw == trunc_div(a.x.raw * dt.raw, one)
            &&& n.velocity.y.raw - p.velocity.y.raw == trunc_div(a.y.raw * dt.raw, one)
            &&& n.position.x.raw - p.position.x.raw == trunc_div(n.velocity.x.raw * dt.raw, one)
            &&& n.position.y.raw - p.position.y.raw == trunc_div(n.velocity.y.raw * dt.raw, one)
        }),
{
}

/// A probe that is stepped moves by its new velocity times `dt`.
pub proof fn lemma_step_components<F: crate::tracer::FictitiousForce>(
    g: Fixed,
    masses: Seq<Fixed>,
    bodies: Seq<Vec2>,
    force: &F,
    dt: Fixed,
    p: Particle,
)
    requires
        crate::tracer::probe_step_spec(g, masses, bodies, force, dt, p) is Ok,
    ensures
        ({
            let n = crate::tracer::probe_step_spec(g, masses, bodies, force, dt, p)->Ok_0;
            let one = ONE_RAW as int;
            &&& n.position.x.raw - p.position.x.raw == trunc_div(n.velocity.x.raw * dt.raw, one)
            &&& n.position.y.raw - p.position.y.raw == trunc_div(n.velocity.y.raw * dt.raw, one)
        }),
{
    let gravity = field_spec(g, masses, bodies, p.position, -1, masses.len())->Ok_0;
    let fictitious = force.accel_spec(p.position, p.velocity)->Some_0;
    let a = gravity.add_spec(fictitious)->Some_0;
    lemma_advance_components(p, a, dt);
}

/// The distance of two bodies, rounded down to a raw unit.
pub open spec fn separation(s: Seq<Particle>) -> int {
    let dx = s[1].position.x.raw - s[0].position.x.raw;
    let dy = s[1].position.y.raw - s[0].position.y.raw;
    floor_sqrt(dx * dx + dy * dy)
}

/// The momentum of two bodies along x: the sum of their velocities
/// weighted by their masses.
pub open spec fn momentum_x(masses: Seq<Fixed>, s: Seq<Particle>) -> int {
    masses[0].raw * s[0].velocity.x.raw + masses[1].raw * s[1].velocity.x.raw
}

/// The momentum of two bodies along y.
pub open spec fn momentum_y(masses: Seq<Fixed>, s: Seq<Particle>) -> int {
    masses[0].raw * s[0].velocity.y.raw + masses[1].raw * s[1].velocity.y.raw
}

/// The sum of the abscissas of two bodies weighted by their masses: their
/// total mass times the abscissa of their centre of mass.
pub open spec fn moment_x(masses: Seq<Fixed>, s: Seq<Particle>) -> int {
    masses[0].raw * s[0].position.x.raw + masses[1].raw * s[1].position.x.raw
}

/// The sum of the ordinates of two bodies weighted by their masses.
pub open spec fn moment_y(masses: Seq<Fixed>, s: Seq<Particle>) -> int {
    masses[0].raw * s[0].position.y.raw + masses[1].raw * s[1].position.y.raw
}

/// What a tick of two bodies does to each of them.
#[verifier::rlimit(50)]
pub proof fn lemma_pair_accelerations(g: Fixed, masses: Seq<Fixed>, dt: Fixed, s: Seq<Particle>)
    requires
        masses.len() == 2,
        s.len() == 2,
        planets_tick_spec(g, masses, dt, s) is Ok,
    ensures
        ({
            let n = planets_tick_spec(g, masses, dt, s)->Ok_0;
            let one = ONE_RAW as int;
            let d = separation(s);
            let rx = s[1].position.x.raw - s[0].position.x.raw;
            let ry = s[1].position.y.raw - s[0].position.y.raw;
            let m0 = masses[0].raw as int;
            let m1 = masses[1].raw as int;
            &&& n.len() == 2
            &&& d >= 1
            &&& magnitude(rx) <= d
            &&& magnitude(ry) <= d
            &&& n[0].velocity.x.raw - s[0].velocity.x.raw == kick_raw(
                g.raw as int,
                m1,
                rx,
                d,
                dt.raw as int,
            )
            &&& n[1].velocity.x.raw - s[1].velocity.x.raw == kick_raw(
                g.raw as int,
                m0,
                -rx,
                d,
                dt.raw as int,
            )
            &&& n[0].velocity.y.raw - s[0].velocity.y.raw == kick_raw(
                g.raw as int,
                m1,
                ry,
                d,
                dt.raw as int,
            )
            &&& n[1].velocity.y.raw - s[1].velocity.y.raw == kick_raw(
                g.raw as int,
                m0,
                -ry,
                d,
                dt.raw as int,
            )
            &&& n[0].position.x.raw - s[0].position.x.raw == trunc_div(
                n[0].velocity.x.raw * dt.raw,
                one,
            )
            &&& n[1].position.x.raw - s[1].position.x.raw == trunc_div(
                n[1].velocity.x.raw * dt.raw,
                one,
            )
            &&& n[0].position.y.raw - s[0].position.y.raw == trunc_div(
                n[0].velocity.y.raw * dt.raw,
                one,
            )
            &&& n[1].position.y.raw - s[1].position.y.raw == trunc_div(
                n[1].velocity.y.raw * dt.raw,
                one,
            )
        }),
{
    let pos = positions_of(s);
    let f = self_field_of(g, masses, pos);
    let acc = self_accelerations_spec(g, masses, pos)->Ok_0;
    lemma_collect_ok(f, 2);
    assert(f(0) == Ok::<Vec2, TraceError>(acc[0]));
    assert(f(1) == Ok::<Vec2, TraceError>(acc[1]));
    let zero = Vec2 { x: Fixed { raw: 0 }, y: Fixed { raw: 0 } };
    assert(field_spec(g, masses, pos, pos[0], 0, 0) == Ok::<Vec2, TraceError>(zero));
    assert(field_spec(g, masses, pos, pos[0], 0, 1) == Ok::<Vec2, TraceError>(zero));
    let r = pos[1].sub_spec(pos[0])->Some_0;
    let a = pull_spec(g, masses[1], r)->Ok_0;
    assert(field_spec(g, masses, pos, pos[0], 0, 2) == Ok::<Vec2, TraceError>(a));
    assert(field_spec(g, masses, pos, pos[1], 1, 0) == Ok::<Vec2, TraceError>(zero));
    let back = pos[0].sub_spec(pos[1])->Some_0;
    let b = pull_spec(g, masses[0], back)->Ok_0;
    assert(field_spec(g, masses, pos, pos[1], 1, 1) == Ok::<Vec2, TraceError>(b));
    assert(field_spec(g, masses, pos, pos[1], 1, 2) == Ok::<Vec2, TraceError>(b));
    lemma_pull_components(g, masses[1], r);
    lemma_pull_components(g, masses[0], back);
    assert(back.norm_squared_raw() == r.norm_squared_raw()) by (nonlinear_arith)
        requires
            r.x.raw + back.x.raw == 0,
            r.y.raw + back.y.raw == 0,
            back.norm_squared_raw() == back.x.raw * back.x.raw + back.y.raw * back.y.raw,
            r.norm_squared_raw() == r.x.raw * r.x.raw + r.y.raw * r.y.raw,
    ;
    let step = advance_of(s, acc, dt);
    let n = planets_tick_spec(g, masses, dt, s)->Ok_0;
    lemma_collect_ok(step, 2);
    assert(step(0) == Ok::<Particle, TraceError>(n[0]));
    assert(step(1) == Ok::<Particle, TraceError>(n[1]));
    lemma_advance_components(s[0], acc[0], dt);
    lemma_advance_components(s[1], acc[1], dt);
}

/// Action and reaction in one tick: the momentum of two bodies changes by
/// no more than the roundings allow. `d` apart, the change times
/// `one * d^2` is within [`exchange_bound`] along either axis.
#[verifier::rlimit(50)]
pub proof fn lemma_tick_momentum(g: Fixed, masses: Seq<Fixed>, dt: Fixed, s: Seq<Particle>)
    requires
        masses.len() == 2,
        s.len() == 2,
        g.raw >= 0,
        masses[0].raw >= 0,
        masses[1].raw >= 0,
        dt.raw >= 0,
        planets_tick_spec(g, masses, dt, s) is Ok,
    ensures
        ({
            let n = planets_tick_spec(g, masses, dt, s)->Ok_0;
            let d = separation(s);
            let bound = exchange_bound(masses[0].raw + masses[1].raw, d, dt.raw as int);
            &&& n.len() == 2
            &&& d >= 1
            &&& magnitude(momentum_x(masses, n) - momentum_x(masses, s)) * (ONE_RAW * (d * d))
                <= bound
            &&& magnitude(momentum_y(masses, n) - momentum_y(masses, s)) * (ONE_RAW * (d * d))
                <= bound
        }),
{
    let n = planets_tick_spec(g, masses, dt, s)->Ok_0;
    let d = separation(s);
    let rx = s[1].position.x.raw - s[0].position.x.raw;
    let ry = s[1].position.y.raw - s[0].position.y.raw;
    let m0 = masses[0].raw as int;
    let m1 = masses[1].raw as int;
    lemma_pair_accelerations(g, masses, dt, s);
    lemma_exchange_defect(g.raw as int, m0, m1, rx, d, dt.raw as int);
    lemma_exchange_defect(g.raw as int, m0, m1, ry, d, dt.raw as int);
    lemma_spread(m0, n[0].velocity.x.raw as int, s[0].velocity.x.raw as int);
    lemma_spread(m1, n[1].velocity.x.raw as int, s[1].velocity.x.raw as int);
    lemma_spread(m0, n[0].velocity.y.raw as int, s[0].velocity.y.raw as int);
    lemma_spread(m1, n[1].velocity.y.raw as int, s[1].velocity.y.raw as int);
}

/// In one tick the centre of mass moves as the momentum after the tick
/// says, up to rounding: the change of the weighted sum of positions, times
/// `one`, is `dt` times the momentum, within the total mass times `one`.
#[verifier::rlimit(50)]
pub proof fn lemma_tick_moment(g: Fixed, masses: Seq<Fixed>, dt: Fixed, s: Seq<Particle>)
    requires
        masses.len() == 2,
        s.len() == 2,
        masses[0].raw >= 0,
        masses[1].raw >= 0,
        planets_tick_spec(g, masses, dt, s) is Ok,
    ensures
        ({
            let n = planets_tick_spec(g, masses, dt, s)->Ok_0;
            let total = masses[0].raw + masses[1].raw;
            &&& magnitude(
                (moment_x(masses, n) - moment_x(masses, s)) * ONE_RAW - dt.raw * momentum_x(
                    masses,
                    n,
                ),
            ) <= total * ONE_RAW
            &&& magnitude(
                (moment_y(masses, n) - moment_y(masses, s)) * ONE_RAW - dt.raw * momentum_y(
                    masses,
                    n,
                ),
            ) <= total * ONE_RAW
        }),
{
    let n = planets_tick_spec(g, masses, dt, s)->Ok_0;
    lemma_pair_accelerations(g, masses, dt, s);
    lemma_moment_axis(
        masses[0].raw as int,
        masses[1].raw as int,
        dt.raw as int,
        s[0].position.x.raw as int,
        s[1].position.x.raw as int,
        n[0].position.x.raw as int,
        n[1].position.x.raw as int,
        n[0].velocity.x.raw as int,
        n[1].velocity.x.raw as int,
    );
    lemma_moment_axis(
        masses[0].raw as int,
        masses[1].raw as int,
        dt.raw as int,
        s[0].position.y.raw as int,
        s[1].position.y.raw as int,
        n[0].position.y.raw as int,
        n[1].position.y.raw as int,
        n[0].velocity.y.raw as int,
        n[1].velocity.y.raw as int,
    );
}

/// The displacements of two bodies along one axis, weighted by their
/// masses, against their momentum.
#[verifier::rlimit(50)]
pub proof fn lemma_moment_axis(
    m0: int,
    m1: int,
    dt: int,
    x0: int,
    x1: int,
    y0: int,
    y1: int,
    v0: int,
    v1: int,
)
    requires
        m0 >= 0,
        m1 >= 0,
        y0 - x0 == trunc_div(v0 * dt, ONE_RAW as int),
        y1 - x1 == trunc_div(v1 * dt, ONE_RAW as int),
    ensures
        magnitude(((m0 * y0 + m1 * y1) - (m0 * x0 + m1 * x1)) * ONE_RAW - dt * (m0 * v0 + m1 * v1))
            <= (m0 + m1) * ONE_RAW,
{
    let one = ONE_RAW as int;
    let d0 = y0 - x0;
    let d1 = y1 - x1;
    lemma_trunc_rest(v0 * dt, one);
    lemma_trunc_rest(v1 * dt, one);
    let e0 = v0 * dt - one * d0;
    let e1 = v1 * dt - one * d1;
    lemma_spread(m0, y0, x0);
    lemma_spread(m1, y1, x1);
    assert((m0 * y0 + m1 * y1) - (m0 * x0 + m1 * x1) == m0 * d0 + m1 * d1);
    lemma_weighted_sum(m0, m1, d0, d1, one);
    lemma_spread(m0, v0 * dt, e0);
    lemma_spread(m1, v1 * dt, e1);
    lemma_regroup(m0, v0, dt);
    lemma_regroup(m1, v1, dt);
    assert(dt * (m0 * v0 + m1 * v1) == dt * (m0 * v0) + dt * (m1 * v1)) by (nonlinear_arith);
    assert((m0 * d0 + m1 * d1) * one - dt * (m0 * v0 + m1 * v1) == -(m0 * e0 + m1 * e1));
    assert(magnitude(m0 * e0 + m1 * e1) <= (m0 + m1) * one) by (nonlinear_arith)
        requires
            magnitude(e0) < one,
            magnitude(e1) < one,
            m0 >= 0,
            m1 >= 0,
    ;
}

/// The farther apart the bodies, the less their roundings weigh: the bound
/// for a distance holds of every greater distance.
#[verifier::rlimit(50)]
pub proof fn lemma_bound_widens(total: int, d: int, least: int, dt: int)
    requires
        total >= 0,
        dt >= 0,
        1 <= least <= d,
    ensures
        exchange_bound(total, d, dt) * (least * least) <= exchange_bound(total, least, dt) * (d
            * d),
{
    let one = ONE_RAW as int;
    let dd = d * d;
    let ll = least * least;
    let near = rounding_width(least) + ll;
    let far = rounding_width(d) + dd;
    assert(1 <= ll <= dd && least * dd >= d * ll) by (nonlinear_arith)
        requires
            1 <= least <= d,
            dd == d * d,
            ll == least * least,
    ;
    // far * ll <= near * dd
    assert((one * one) * ll <= (one * one) * dd) by (nonlinear_arith)
        requires
            ll <= dd,
            one > 0,
    ;
    assert((one * d) * ll <= (one * least) * dd) by (nonlinear_arith)
        requires
            d * ll <= least * dd,
            one > 0,
    ;
    assert(far * ll == (one * one) * ll + (one * d) * ll + 2 * (dd * ll)) by (nonlinear_arith)
        requires
            far == one * one + one * d + dd + dd,
    ;
    assert(near * dd == (one * one) * dd + (one * least) * dd + 2 * (dd * ll)) by (nonlinear_arith)
        requires
            near == one * one + one * least + ll + ll,
    ;
    assert(far * ll <= near * dd);
    let weight = dt * total;
    assert(weight >= 0) by (nonlinear_arith)
        requires
            weight == dt * total,
            dt >= 0,
            total >= 0,
    ;
    assert(weight * (far * ll) <= weight * (near * dd)) by (nonlinear_arith)
        requires
            weight >= 0,
            far * ll <= near * dd,
    ;
    lemma_regroup(dt, total, far);
    lemma_regroup(dt, total, near);
    lemma_regroup(weight, far, ll);
    lemma_regroup(weight, near, dd);
    lemma_regroup(total * one, dd, ll);
    assert(exchange_bound(total, d, dt) * ll == (weight * far) * ll + ((total * one) * dd) * ll)
        by (nonlinear_arith)
        requires
            exchange_bound(total, d, dt) == weight * far + (total * one) * dd,
    ;
    assert(exchange_bound(total, least, dt) * dd == (weight * near) * dd + ((total * one) * ll)
        * dd) by (nonlinear_arith)
        requires
            exchange_bound(total, least, dt) == weight * near + (total * one) * ll,
    ;
    assert(((total * one) * ll) * dd == ((total * one) * dd) * ll) by (nonlinear_arith);
}

/// Action and reaction in one tick of two bodies that are at least `least`
/// apart: the bound for that distance holds.
#[verifier::rlimit(50)]
pub proof fn lemma_tick_momentum_apart(
    g: Fixed,
    masses: Seq<Fixed>,
    dt: Fixed,
    s: Seq<Particle>,
    least: int,
)
    requires
        masses.len() == 2,
        s.len() == 2,
        g.raw >= 0,
        masses[0].raw >= 0,
        masses[1].raw >= 0,
        dt.raw >= 0,
        planets_tick_spec(g, masses, dt, s) is Ok,
        1 <= least <= separation(s),
    ensures
        ({
            let n = planets_tick_spec(g, masses, dt, s)->Ok_0;
            let bound = exchange_bound(masses[0].raw + masses[1].raw, least, dt.raw as int);
            &&& n.len() == 2
            &&& magnitude(momentum_x(masses, n) - momentum_x(masses, s)) * (ONE_RAW * (least
                * least)) <= bound
            &&& magnitude(momentum_y(masses, n) - momentum_y(masses, s)) * (ONE_RAW * (least
                * least)) <= bound
        }),
{
    let n = planets_tick_spec(g, masses, dt, s)->Ok_0;
    let d = separation(s);
    let total = masses[0].raw + masses[1].raw;
    lemma_tick_momentum(g, masses, dt, s);
    lemma_bound_widens(total, d, least, dt.raw as int);
    lemma_narrow(
        magnitude(momentum_x(masses, n) - momentum_x(masses, s)),
        d,
        least,
        exchange_bound(total, d, dt.raw as int),
        exchange_bound(total, least, dt.raw as int),
    );
    lemma_narrow(
        magnitude(momentum_y(masses, n) - momentum_y(masses, s)),
        d,
        least,
        exchange_bound(total, d, dt.raw as int),
        exchange_bound(total, least, dt.raw as int),
    );
}

/// From a bound at distance `d` to the bound at a smaller distance.
#[verifier::rlimit(50)]
pub proof fn lemma_narrow(p: int, d: int, least: int, far: int, near: int)
    requires
        p >= 0,
        d >= 1,
        least >= 1,
        p * (ONE_RAW * (d * d)) <= far,
        far * (least * least) <= near * (d * d),
    ensures
        p * (ONE_RAW * (least * least)) <= near,
{
    let one = ONE_RAW as int;
    let dd = d * d;
    let ll = least * least;
    assert(dd >= 1 && ll >= 1) by (nonlinear_arith)
        requires
            d >= 1,
            least >= 1,
            dd == d * d,
            ll == least * least,
    ;
    assert((p * (one * dd)) * ll <= far * ll) by (nonlinear_arith)
        requires
            p * (one * dd) <= far,
            ll >= 1,
    ;
    assert((p * (one * dd)) * ll == (p * (one * ll)) * dd) by (nonlinear_arith);
    assert(p * (one * ll) <= near) by (nonlinear_arith)
        requires
            (p * (one * ll)) * dd <= near * dd,
            dd >= 1,
    ;
}

/// Whether two bodies are at least `least` apart at the start of each of
/// the first `k` ticks.
pub open spec fn apart(m: PlanetsModel, k: nat, least: int) -> bool {
    forall|j: nat|
        j < k ==> (#[trigger] planets_after(m, j)) is Ok && separation(planets_after(m, j)->Ok_0)
            >= least
}

/// A run that has come to tick `k` had come to every tick before.
pub proof fn lemma_planets_came(m: PlanetsModel, j: nat, k: nat)
    requires
        j <= k,
        planets_after(m, k) is Ok,
    ensures
        planets_after(m, j) is Ok,
    decreases k,
{
    if j < k {
        lemma_planets_came(m, j, (k - 1) as nat);
    }
}

/// A tick of two bodies keeps them two.
pub proof fn lemma_planets_pair(m: PlanetsModel, k: nat)
    requires
        m.masses.len() == 2,
        m.positions.len() == 2,
        planets_after(m, k) is Ok,
    ensures
        planets_after(m, k)->Ok_0.len() == 2,
    decreases k,
{
    if k > 0 {
        lemma_planets_pair(m, (k - 1) as nat);
        lemma_pair_accelerations(m.g, m.masses, m.dt, planets_after(m, (k - 1) as nat)->Ok_0);
    }
}

/// In a run that succeeds two bodies are at least one raw unit of length
/// apart at the start of every tick: the bounds on the drift hold of every
/// such run with `least` at one, and the better the farther apart the
/// bodies stay.
pub proof fn lemma_apart_by_a_unit(m: PlanetsModel, k: nat)
    requires
        m.masses.len() == 2,
        m.positions.len() == 2,
        planets_after(m, k) is Ok,
    ensures
        apart(m, k, 1),
{
    assert forall|j: nat| j < k implies (#[trigger] planets_after(m, j)) is Ok && separation(
        planets_after(m, j)->Ok_0,
    ) >= 1 by {
        lemma_planets_came(m, j, k);
        lemma_planets_came(m, j + 1, k);
        lemma_planets_pair(m, j);
        lemma_pair_accelerations(m.g, m.masses, m.dt, planets_after(m, j)->Ok_0);
    }
}

/// `1 + 2 + ... + k`.
pub open spec fn triangle(k: nat) -> nat
    decreases k,
{
    if k == 0 {
        0
    } else {
        triangle((k - 1) as nat) + k
    }
}

/// The magnitude of a sum, times a weight, is at most the sum of the
/// magnitudes times the weight.
pub proof fn lemma_triangle_inequality(a: int, b: int, c: int)
    requires
        c >= 0,
    ensures
        magnitude(a + b) * c <= magnitude(a) * c + magnitude(b) * c,
{
    assert(magnitude(a + b) * c <= magnitude(a) * c + magnitude(b) * c) by (nonlinear_arith)
        requires
            c >= 0,
            magnitude(a + b) <= magnitude(a) + magnitude(b),
            magnitude(a) >= 0,
            magnitude(b) >= 0,
    ;
}

/// Through a run in which two bodies stay at least `least` apart, their
/// momentum strays from what it was by no more than the roundings of each
/// tick allow: after `k` ticks, times `one * least^2`, by at most `k`
/// times [`exchange_bound`].
#[verifier::rlimit(50)]
pub proof fn lemma_momentum_drift(m: PlanetsModel, k: nat, least: int)
    requires
        m.masses.len() == 2,
        m.positions.len() == 2,
        m.velocities.len() == 2,
        m.g.raw >= 0,
        m.masses[0].raw >= 0,
        m.masses[1].raw >= 0,
        m.dt.raw >= 0,
        least >= 1,
        planets_after(m, k) is Ok,
        apart(m, k, least),
    ensures
        ({
            let before = particles_spec(m.positions, m.velocities);
            let after = planets_after(m, k)->Ok_0;
            let bound = exchange_bound(m.masses[0].raw + m.masses[1].raw, least, m.dt.raw as int);
            &&& after.len() == 2
            &&& bound >= 0
            &&& magnitude(momentum_x(m.masses, after) - momentum_x(m.masses, before)) * (ONE_RAW
                * (least * least)) <= k * bound
            &&& magnitude(momentum_y(m.masses, after) - momentum_y(m.masses, before)) * (ONE_RAW
                * (least * least)) <= k * bound
        }),
    decreases k,
{
    let before = particles_spec(m.positions, m.velocities);
    let total = m.masses[0].raw + m.masses[1].raw;
    let bound = exchange_bound(total, least, m.dt.raw as int);
    let weight = ONE_RAW * (least * least);
    assert(weight >= 0 && bound >= 0) by (nonlinear_arith)
        requires
            least >= 1,
            total >= 0,
            m.dt.raw >= 0,
            weight == ONE_RAW * (least * least),
            bound == m.dt.raw * (total * (rounding_width(least) + least * least)) + (total
                * ONE_RAW) * (least * least),
            rounding_width(least) == ONE_RAW * ONE_RAW + ONE_RAW * least + least * least,
    ;
    if k == 0 {
        assert(k * bound == 0) by (nonlinear_arith)
            requires
                k == 0,
        ;
        assert(magnitude(0) * weight == 0) by (nonlinear_arith);
        assert(planets_after(m, k)->Ok_0 == before);
    } else {
        let j = (k - 1) as nat;
        assert(planets_after(m, j) is Ok);
        assert(apart(m, j, least));
        lemma_momentum_drift(m, j, least);
        let s = planets_after(m, j)->Ok_0;
        let n = planets_after(m, k)->Ok_0;
        assert(separation(s) >= least);
        lemma_tick_momentum_apart(m.g, m.masses, m.dt, s, least);
        lemma_triangle_inequality(
            momentum_x(m.masses, s) - momentum_x(m.masses, before),
            momentum_x(m.masses, n) - momentum_x(m.masses, s),
            weight,
        );
        lemma_triangle_inequality(
            momentum_y(m.masses, s) - momentum_y(m.masses, before),
            momentum_y(m.masses, n) - momentum_y(m.masses, s),
            weight,
        );
        assert(k * bound == j * bound + bound) by (nonlinear_arith)
            requires
                k == j + 1,
        ;
    }
}

/// Two bodies with no net momentum keep their centre of mass at rest, up
/// to rounding.
///
/// Through a run in which the bodies stay at least `least` apart, the sum
/// of their positions weighted by their masses, which is their total mass
/// times their centre of mass, strays from what it was by less than one
/// unit of the last place per tick and unit of mass, and by what the
/// strayed momentum carries: after `k` ticks, times `one^2 * least^2`, by at
/// most the total mass times `k * one^2 * least^2`, plus `dt` times
/// `1 + 2 + ... + k` times [`exchange_bound`].
#[verifier::rlimit(50)]
pub proof fn lemma_center_of_mass_drift(m: PlanetsModel, k: nat, least: int)
    requires
        m.masses.len() == 2,
        m.positions.len() == 2,
        m.velocities.len() == 2,
        m.g.raw >= 0,
        m.masses[0].raw >= 0,
        m.masses[1].raw >= 0,
        m.dt.raw >= 0,
        least >= 1,
        momentum_x(m.masses, particles_spec(m.positions, m.velocities)) == 0,
        momentum_y(m.masses, particles_spec(m.positions, m.velocities)) == 0,
        planets_after(m, k) is Ok,
        apart(m, k, least),
    ensures
        ({
            let before = particles_spec(m.positions, m.velocities);
            let after = planets_after(m, k)->Ok_0;
            let total = m.masses[0].raw + m.masses[1].raw;
            let weight = ONE_RAW * (ONE_RAW * (least * least));
            let bound = exchange_bound(total, least, m.dt.raw as int);
            &&& magnitude(moment_x(m.masses, after) - moment_x(m.masses, before)) * weight
                <= total * (k * weight) + m.dt.raw * (triangle(k) * bound)
            &&& magnitude(moment_y(m.masses, after) - moment_y(m.masses, before)) * weight
                <= total * (k * weight) + m.dt.raw * (triangle(k) * bound)
        }),
    decreases k,
{
    let before = particles_spec(m.positions, m.velocities);
    let total = m.masses[0].raw + m.masses[1].raw;
    let bound = exchange_bound(total, least, m.dt.raw as int);
    let inner = ONE_RAW * (least * least);
    let weight = ONE_RAW * inner;
    let dt = m.dt.raw as int;
    assert(inner >= 0 && weight >= 0) by (nonlinear_arith)
        requires
            least >= 1,
            inner == ONE_RAW * (least * least),
            weight == ONE_RAW * inner,
    ;
    if k == 0 {
        assert(magnitude(0) * weight == 0) by (nonlinear_arith);
        assert(total * (0 * weight) + dt * (triangle(0) * bound) == 0) by (nonlinear_arith)
            requires
                triangle(0) == 0,
        ;
    } else {
        let j = (k - 1) as nat;
        assert(planets_after(m, j) is Ok);
        assert(apart(m, j, least));
        lemma_center_of_mass_drift(m, j, least);
        lemma_momentum_drift(m, k, least);
        let s = planets_after(m, j)->Ok_0;
        let n = planets_after(m, k)->Ok_0;
        lemma_tick_moment(m.g, m.masses, m.dt, s);
        lemma_drift_step(
            moment_x(m.masses, s) - moment_x(m.masses, before),
            moment_x(m.masses, n) - moment_x(m.masses, s),
            momentum_x(m.masses, n),
            dt,
            total,
            inner,
            bound,
            j,
            triangle(j) as int,
        );
        lemma_drift_step(
            moment_y(m.masses, s) - moment_y(m.masses, before),
            moment_y(m.masses, n) - moment_y(m.masses, s),
            momentum_y(m.masses, n),
            dt,
            total,
            inner,
            bound,
            j,
            triangle(j) as int,
        );
    }
}

/// One more tick of drift: from the bound after `j` ticks to the bound
/// after `j + 1`.
#[verifier::rlimit(50)]
pub proof fn lemma_drift_step(
    gone: int,
    step: int,
    p: int,
    dt: int,
    total: int,
    inner: int,
    bound: int,
    j: nat,
    tri: int,
)
    requires
        dt >= 0,
        total >= 0,
        inner >= 0,
        bound >= 0,
        tri >= 0,
        magnitude(gone) * (ONE_RAW * inner) <= total * (j * (ONE_RAW * inner)) + dt * (tri * bound),
        magnitude(step * ONE_RAW - dt * p) <= total * ONE_RAW,
        magnitude(p) * inner <= (j + 1) * bound,
    ensures
        magnitude(gone + step) * (ONE_RAW * inner) <= total * ((j + 1) * (ONE_RAW * inner)) + dt
            * ((tri + j + 1) * bound),
{
    let one = ONE_RAW as int;
    let weight = one * inner;
    assert(weight >= 0) by (nonlinear_arith)
        requires
            inner >= 0,
            weight == one * inner,
            one > 0,
    ;
    lemma_triangle_inequality(gone, step, weight);
    // step * one is dt * p up to total * one
    let rest = step * one - dt * p;
    assert(magnitude(step * one) <= dt * magnitude(p) + total * one) by (nonlinear_arith)
        requires
            rest == step * one - dt * p,
            magnitude(rest) <= total * one,
            dt >= 0,
    ;
    assert(magnitude(step) * weight == magnitude(step * one) * inner) by (nonlinear_arith)
        requires
            weight == one * inner,
            one > 0,
    ;
    assert(magnitude(step * one) * inner <= (dt * magnitude(p) + total * one) * inner)
        by (nonlinear_arith)
        requires
            magnitude(step * one) <= dt * magnitude(p) + total * one,
            inner >= 0,
    ;
    assert((dt * magnitude(p) + total * one) * inner == dt * (magnitude(p) * inner) + total
        * weight) by (nonlinear_arith)
        requires
            weight == one * inner,
    ;
    assert(dt * (magnitude(p) * inner) <= dt * ((j + 1) * bound)) by (nonlinear_arith)
        requires
            magnitude(p) * inner <= (j + 1) * bound,
            dt >= 0,
    ;
    assert(total * (j * weight) + total * weight == total * ((j + 1) * weight))
        by (nonlinear_arith);
    assert(dt * (tri * bound) + dt * ((j + 1) * bound) == dt * ((tri + j + 1) * bound))
        by (nonlinear_arith);
}

/// The cross product of two plane vectors given by their coordinates.
pub open spec fn cross(ax: int, ay: int, bx: int, by: int) -> int {
    ax * by - ay * bx
}

/// The angular momentum per unit of mass of a probe about the point `s`:
/// the cross product of its position from `s` and its velocity.
pub open spec fn angular_momentum(s: Vec2, p: Particle) -> int {
    cross(
        p.position.x.raw - s.x.raw,
        p.position.y.raw - s.y.raw,
        p.velocity.x.raw as int,
        p.velocity.y.raw as int,
    )
}

/// A vector and a rounded multiple of it are parallel up to the rounding:
/// the cross product of `(x, y)` with the products of `(x, y)` and `k`,
/// divided by `d`, is smaller in magnitude than the sum of the magnitudes
/// of `x` and `y`.
#[verifier::rlimit(50)]
pub proof fn lemma_cross_of_rounded(x: int, y: int, k: int, d: int)
    requires
        d >= 1,
    ensures
        magnitude(cross(x, y, trunc_div(x * k, d), trunc_div(y * k, d))) <= magnitude(x)
            + magnitude(y),
{
    let px = trunc_div(x * k, d);
    let py = trunc_div(y * k, d);
    lemma_trunc_rest(x * k, d);
    lemma_trunc_rest(y * k, d);
    let ex = x * k - d * px;
    let ey = y * k - d * py;
    let c = cross(x, y, px, py);
    // d * c == x * (y k - ey) - y * (x k - ex) == y * ex - x * ey
    lemma_spread(x, y * k, ey);
    lemma_spread(y, x * k, ex);
    lemma_regroup(x, y, k);
    lemma_regroup(y, x, k);
    lemma_regroup(d, x, py);
    lemma_regroup(d, y, px);
    assert(x * (y * k) == y * (x * k)) by (nonlinear_arith);
    assert(d * c == d * (x * py) - d * (y * px)) by (nonlinear_arith)
        requires
            c == x * py - y * px,
    ;
    assert(d * c == y * ex - x * ey);
    lemma_product_bound(y, ex, magnitude(y), d - 1);
    lemma_product_bound(x, ey, magnitude(x), d - 1);
    assert(magnitude(d * c) <= (magnitude(x) + magnitude(y)) * (d - 1)) by (nonlinear_arith)
        requires
            d * c == y * ex - x * ey,
            magnitude(y * ex) <= magnitude(y) * (d - 1),
            magnitude(x * ey) <= magnitude(x) * (d - 1),
    ;
    assert(magnitude(c) <= magnitude(x) + magnitude(y)) by (nonlinear_arith)
        requires
            magnitude(d * c) <= (magnitude(x) + magnitude(y)) * (d - 1),
            d >= 1,
            magnitude(x) + magnitude(y) >= 0,
    ;
}

/// The cross product with a rounded multiple: for `w` the products of
/// `(ux, uy)` and `k` divided by `s`, the cross product of `(rx, ry)` with
/// `w`, times `s`, is `k` times that with `(ux, uy)`, within `s` times the
/// sum of the magnitudes of `rx` and `ry`.
#[verifier::rlimit(50)]
pub proof fn lemma_cross_scaled(rx: int, ry: int, ux: int, uy: int, k: int, s: int)
    requires
        s >= 1,
    ensures
        magnitude(
            cross(rx, ry, trunc_div(ux * k, s), trunc_div(uy * k, s)) * s - k * cross(
                rx,
                ry,
                ux,
                uy,
            ),
        ) <= (magnitude(rx) + magnitude(ry)) * s,
{
    let wx = trunc_div(ux * k, s);
    let wy = trunc_div(uy * k, s);
    lemma_trunc_rest(ux * k, s);
    lemma_trunc_rest(uy * k, s);
    let fx = ux * k - s * wx;
    let fy = uy * k - s * wy;
    // (rx wy - ry wx) s == rx (uy k - fy) - ry (ux k - fx)
    lemma_regroup(rx, s, wy);
    lemma_regroup(ry, s, wx);
    lemma_spread(rx, uy * k, fy);
    lemma_spread(ry, ux * k, fx);
    lemma_regroup(rx, uy, k);
    lemma_regroup(ry, ux, k);
    lemma_spread(k, rx * uy, ry * ux);
    let c = cross(rx, ry, wx, wy);
    assert(c * s == rx * (s * wy) - ry * (s * wx)) by (nonlinear_arith)
        requires
            c == rx * wy - ry * wx,
            rx * (s * wy) == (rx * wy) * s,
            ry * (s * wx) == (ry * wx) * s,
    ;
    assert(c * s - k * cross(rx, ry, ux, uy) == ry * fx - rx * fy);
    lemma_product_bound(ry, fx, magnitude(ry), s);
    lemma_product_bound(rx, fy, magnitude(rx), s);
    assert((magnitude(rx) + magnitude(ry)) * s == magnitude(rx) * s + magnitude(ry) * s)
        by (nonlinear_arith);
}

/// What the roundings of one tick can add to the angular momentum of a
/// probe about a lone body, times `one^2`: for a probe whose coordinates
/// from the body have magnitudes that sum to `reach`, and whose velocity
/// after the tick has coordinates whose magnitudes sum to `speed`, under a
/// pull of strength `strength`.
pub open spec fn swing_bound(reach: int, speed: int, strength: int, dt: int) -> int {
    reach * (dt * (strength + ONE_RAW) + ONE_RAW * ONE_RAW) + speed * (ONE_RAW * ONE_RAW)
}

/// About a lone body at rest a probe keeps its angular momentum, up to
/// rounding: in an inertial frame one tick changes the cross product of the
/// probe's position from the body and its velocity by no more, times
/// `one^2`, than [`swing_bound`].
#[verifier::rlimit(50)]
pub proof fn lemma_tick_angular_momentum(g: Fixed, m: Fixed, s: Vec2, dt: Fixed, p: Particle)
    requires
        g.raw >= 0,
        m.raw >= 0,
        dt.raw >= 0,
        probe_step_spec(g, seq![m], seq![s], &NoForce, dt, p) is Ok,
    ensures
        ({
            let n = probe_step_spec(g, seq![m], seq![s], &NoForce, dt, p)->Ok_0;
            let d = floor_sqrt(s.sub_spec(p.position)->Some_0.norm_squared_raw());
            let reach = magnitude(p.position.x.raw - s.x.raw) + magnitude(
                p.position.y.raw - s.y.raw,
            );
            let speed = magnitude(n.velocity.x.raw as int) + magnitude(n.velocity.y.raw as int);
            magnitude(angular_momentum(s, n) - angular_momentum(s, p)) * (ONE_RAW * ONE_RAW)
                <= swing_bound(reach, speed, strength_raw(g.raw as int, m.raw as int, d), dt.raw as int)
        }),
{
    let one = ONE_RAW as int;
    let n = probe_step_spec(g, seq![m], seq![s], &NoForce, dt, p)->Ok_0;
    let zero = Vec2 { x: Fixed { raw: 0 }, y: Fixed { raw: 0 } };
    // the field of the lone body is its pull
    assert(seq![m][0] == m);
    assert(seq![s][0] == s);
    assert(field_spec(g, seq![m], seq![s], p.position, -1, 0) == Ok::<Vec2, TraceError>(zero));
    let r = s.sub_spec(p.position)->Some_0;
    let a = pull_spec(g, m, r)->Ok_0;
    assert(field_spec(g, seq![m], seq![s], p.position, -1, 1) == Ok::<Vec2, TraceError>(a));
    lemma_pull_components(g, m, r);
    lemma_advance_components(p, a, dt);
    let d = floor_sqrt(r.norm_squared_raw());
    let k = strength_raw(g.raw as int, m.raw as int, d);
    lemma_strength_defect(g.raw as int, m.raw as int, d);
    let rx = r.x.raw as int;
    let ry = r.y.raw as int;
    let reach = magnitude(rx) + magnitude(ry);
    let ux = trunc_div(rx * one, d);
    let uy = trunc_div(ry * one, d);
    let ax = a.x.raw as int;
    let ay = a.y.raw as int;
    let dvx = n.velocity.x.raw - p.velocity.x.raw;
    let dvy = n.velocity.y.raw - p.velocity.y.raw;
    let dxx = n.position.x.raw - p.position.x.raw;
    let dxy = n.position.y.raw - p.position.y.raw;
    let c_u = cross(rx, ry, ux, uy);
    let c_a = cross(rx, ry, ax, ay);
    let c_v = cross(rx, ry, dvx, dvy);
    lemma_cross_of_rounded(rx, ry, one, d);
    lemma_cross_scaled(rx, ry, ux, uy, k, one);
    lemma_cross_scaled(rx, ry, ax, ay, dt.raw as int, one);
    lemma_product_bound(k, c_u, k, reach);
    assert(magnitude(c_a * one) <= reach * (k + one)) by (nonlinear_arith)
        requires
            magnitude(c_a * one - k * c_u) <= reach * one,
            magnitude(k * c_u) <= k * reach,
    ;
    lemma_product_bound(dt.raw as int, c_a * one, dt.raw as int, reach * (k + one));
    assert(dt.raw * (c_a * one) == (dt.raw * c_a) * one) by (nonlinear_arith);
    assert(magnitude((c_v * one) * one) <= dt.raw * (reach * (k + one)) + (reach * one) * one)
        by (nonlinear_arith)
        requires
            magnitude(c_v * one - dt.raw * c_a) <= reach * one,
            magnitude((dt.raw * c_a) * one) <= dt.raw * (reach * (k + one)),
            one > 0,
    ;
    // the displacement is a rounded multiple of the new velocity
    let vx = n.velocity.x.raw as int;
    let vy = n.velocity.y.raw as int;
    let speed = magnitude(vx) + magnitude(vy);
    lemma_cross_of_rounded(vx, vy, dt.raw as int, one);
    let c_x = cross(vx, vy, dxx, dxy);
    // the change of the angular momentum
    let px = p.position.x.raw - s.x.raw;
    let py = p.position.y.raw - s.y.raw;
    let change = angular_momentum(s, n) - angular_momentum(s, p);
    assert(change == -c_v - c_x) by (nonlinear_arith)
        requires
            change == ((px + dxx) * vy - (py + dxy) * vx) - (px * (vy - dvy) - py * (vx - dvx)),
            c_v == rx * dvy - ry * dvx,
            c_x == vx * dxy - vy * dxx,
            rx == -px,
            ry == -py,
    ;
    assert(magnitude(change) * (one * one) <= magnitude((c_v * one) * one) + magnitude(c_x) * (one
        * one)) by (nonlinear_arith)
        requires
            change == -c_v - c_x,
            one > 0,
    ;
    assert(magnitude(c_x) * (one * one) <= speed * (one * one)) by (nonlinear_arith)
        requires
            magnitude(c_x) <= speed,
            one > 0,
    ;
    assert(dt.raw * (reach * (k + one)) + (reach * one) * one + speed * (one * one) == swing_bound(
        reach,
        speed,
        k,
        dt.raw as int,
    )) by (nonlinear_arith)
        requires
            swing_bound(reach, speed, k, dt.raw as int) == reach * (dt.raw * (k + one) + one * one)
                + speed * (one * one),
    ;
}

} // verus!

//! The probe that a body comes nearest to capturing.
//!
//! Among the probes of a run, and the ticks from a given one on, those
//! count that are within a zone about the body. Of these the one is chosen
//! that moves slowest relative to the body, by its displacement in that
//! tick less the body's. Lengths and speeds are compared by their squares,
//! which are exact.

use crate::fixed::{wide_product, Fixed};
use crate::trajectory::Trajectory;
use crate::vector::Vec2;
use vstd::prelude::*;

verus! {

/// The displacement of probe `i` in the tick that ends at snapshot `t`,
/// less that of body `moon`, where each is a vector of the engine.
pub open spec fn relative_step(
    ships: Seq<Seq<Vec2>>,
    bodies: Seq<Seq<Vec2>>,
    moon: int,
    t: int,
    i: int,
) -> Option<Vec2> {
    match (ships[t][i].sub_spec(ships[t - 1][i]), bodies[t][moon].sub_spec(bodies[t - 1][moon])) {
        (Some(own), Some(other)) => own.sub_spec(other),
        _ => None,
    }
}

/// Whether probe `i` at snapshot `t` counts: the snapshot is not before
/// `first` and has one before it, the probe is less than `zone` from body
/// `moon`, and its step relative to the body is a vector of the engine.
pub open spec fn is_candidate(
    ships: Seq<Seq<Vec2>>,
    bodies: Seq<Seq<Vec2>>,
    moon: int,
    first: int,
    zone: Fixed,
    t: int,
    i: int,
) -> bool {
    &&& 1 <= t
    &&& first <= t
    &&& t < ships.len()
    &&& t < bodies.len()
    &&& 0 <= i < ships[t].len()
    &&& i < ships[t - 1].len()
    &&& 0 <= moon < bodies[t].len()
    &&& moon < bodies[t - 1].len()
    &&& zone.raw > 0
    &&& ships[t][i].sub_spec(bodies[t][moon]) matches Some(separation)
    &&& separation.norm_squared_raw() < zone.raw * zone.raw
    &&& relative_step(ships, bodies, moon, t, i) is Some
}

/// Square of the speed of probe `i` relative to body `moon` in the tick
/// that ends at snapshot `t`, in squared raw units of length per tick.
pub open spec fn speed_squared(
    ships: Seq<Seq<Vec2>>,
    bodies: Seq<Seq<Vec2>>,
    moon: int,
    t: int,
    i: int,
) -> int {
    relative_step(ships, bodies, moon, t, i)->Some_0.norm_squared_raw()
}

/// Whether probe `i` at snapshot `t` is looked at before probe `j` at snapshot `u`.
pub open spec fn earlier(t: int, i: int, u: int, j: int) -> bool {
    t < u || (t == u && i < j)
}

/// Whether probe `i` at snapshot `t` counts and none that counts is
/// slower, nor as slow and looked at earlier.
pub open spec fn is_slowest(
    ships: Seq<Seq<Vec2>>,
    bodies: Seq<Seq<Vec2>>,
    moon: int,
    first: int,
    zone: Fixed,
    t: int,
    i: int,
) -> bool {
    &&& is_candidate(ships, bodies, moon, first, zone, t, i)
    &&& forall|u: int, j: int| #[trigger]
        is_candidate(ships, bodies, moon, first, zone, u, j) ==> {
            &&& speed_squared(ships, bodies, moon, t, i) <= speed_squared(ships, bodies, moon, u, j)
            &&& earlier(u, j, t, i) ==> speed_squared(ships, bodies, moon, t, i) < speed_squared(
                ships,
                bodies,
                moon,
                u,
                j,
            )
        }
}

/// What is known of the best probe so far, when all probes looked at
/// before probe `i` at snapshot `t` have been weighed.
pub open spec fn best_so_far(
    ships: Seq<Seq<Vec2>>,
    bodies: Seq<Seq<Vec2>>,
    moon: int,
    first: int,
    zone: Fixed,
    t: int,
    i: int,
    best: Option<(usize, usize)>,
    speed: int,
) -> bool {
    match best {
        None => forall|u: int, j: int| #[trigger]
            is_candidate(ships, bodies, moon, first, zone, u, j) ==> !earlier(u, j, t, i),
        Some((bt, bi)) => {
            &&& is_candidate(ships, bodies, moon, first, zone, bt as int, bi as int)
            &&& earlier(bt as int, bi as int, t, i)
            &&& speed == speed_squared(ships, bodies, moon, bt as int, bi as int)
            &&& forall|u: int, j: int| #[trigger]
                is_candidate(ships, bodies, moon, first, zone, u, j) && earlier(u, j, t, i) ==> {
                    &&& speed <= speed_squared(ships, bodies, moon, u, j)
                    &&& earlier(u, j, bt as int, bi as int) ==> speed < speed_squared(
                        ships,
                        bodies,
                        moon,
                        u,
                        j,
                    )
                }
        },
    }
}

/// The square of the speed of probe `i` relative to body `moon` at
/// snapshot `t`, if the probe counts there.
fn weigh(
    ships: &Trajectory,
    bodies: &Trajectory,
    moon: usize,
    first: usize,
    zone: Fixed,
    t: usize,
    i: usize,
) -> (r: Option<u128>)
    requires
        1 <= t,
        first <= t,
        t < ships@.len(),
        t < bodies@.len(),
        i < ships@[t as int].len(),
        i < ships@[t - 1].len(),
        moon < bodies@[t as int].len(),
        moon < bodies@[t - 1].len(),
    ensures
        match r {
            Some(speed) => is_candidate(
                ships@,
                bodies@,
                moon as int,
                first as int,
                zone,
                t as int,
                i as int,
            ) && speed == speed_squared(ships@, bodies@, moon as int, t as int, i as int),
            None => !is_candidate(
                ships@,
                bodies@,
                moon as int,
                first as int,
                zone,
                t as int,
                i as int,
            ),
        },
{
    if zone.raw <= 0 {
        return None;
    }
    let here = ships.get(t, i);
    let body = bodies.get(t, moon);
    let separation = match here.checked_sub(body) {
        Some(v) => v,
        None => { return None; },
    };
    let reach: i128 = wide_product(zone.raw, zone.raw);
    if separation.norm_squared() >= reach as u128 {
        return None;
    }
    let own = match here.checked_sub(ships.get(t - 1, i)) {
        Some(v) => v,
        None => { return None; },
    };
    let other = match body.checked_sub(bodies.get(t - 1, moon)) {
        Some(v) => v,
        None => { return None; },
    };
    match own.checked_sub(other) {
        Some(relative) => Some(relative.norm_squared()),
        None => None,
    }
}

/// The snapshot and the probe that moves slowest relative to body `moon`
/// among those that are less than `zone` from it, from snapshot `first`
/// on; of several as slow, the one looked at first, snapshot by snapshot
/// and probe by probe. `None` where no probe comes that near.
pub fn slowest_near(
    ships: &Trajectory,
    bodies: &Trajectory,
    moon: usize,
    first: usize,
    zone: Fixed,
) -> (r: Option<(usize, usize)>)
    ensures
        match r {
            Some((t, i)) => is_slowest(
                ships@,
                bodies@,
                moon as int,
                first as int,
                zone,
                t as int,
                i as int,
            ),
            None => forall|u: int, j: int|
                !#[trigger] is_candidate(ships@, bodies@, moon as int, first as int, zone, u, j),
        },
{
    let width = ships.entities();
    let end = if ships.len() < bodies.len() {
        ships.len()
    } else {
        bodies.len()
    };
    if moon >= bodies.entities() {
        return None;
    }
    let mut best: Option<(usize, usize)> = None;
    let mut speed: u128 = 0;
    let mut t: usize = if first == 0 {
        1
    } else {
        first
    };
    while t < end
        invariant
            1 <= t,
            first <= t,
            end <= ships@.len(),
            end <= bodies@.len(),
            end == ships@.len() || end == bodies@.len(),
            forall|k: int| 0 <= k < ships@.len() ==> (#[trigger] ships@[k]).len() == width,
            forall|k: int| 0 <= k < bodies@.len() ==> moon < (#[trigger] bodies@[k]).len(),
            best_so_far(
                ships@,
                bodies@,
                moon as int,
                first as int,
                zone,
                t as int,
                0,
                best,
                speed as int,
            ),
        decreases end - t,
    {
        let mut i: usize = 0;
        while i < width
            invariant
                i <= width,
                1 <= t < end,
                first <= t,
                end <= ships@.len(),
                end <= bodies@.len(),
                forall|k: int| 0 <= k < ships@.len() ==> (#[trigger] ships@[k]).len() == width,
                forall|k: int| 0 <= k < bodies@.len() ==> moon < (#[trigger] bodies@[k]).len(),
                best_so_far(
                    ships@,
                    bodies@,
                    moon as int,
                    first as int,
                    zone,
                    t as int,
                    i as int,
                    best,
                    speed as int,
                ),
            decreases width - i,
        {
            assert(ships@[t as int].len() == width && ships@[t - 1].len() == width);
            assert(moon < bodies@[t as int].len() && moon < bodies@[t - 1].len());
            match weigh(ships, bodies, moon, first, zone, t, i) {
                Some(found) => {
                    let better = match best {
                        None => true,
                        Some(_) => found < speed,
                    };
                    if better {
                        best = Some((t, i));
                        speed = found;
                    }
                },
                None => {},
            }
            i += 1;
        }
        t += 1;
    }
    best
}

} // verus!

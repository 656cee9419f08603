use gravity_tracer::error::TraceError;
use gravity_tracer::fixed::{Fixed, ONE_RAW};
use gravity_tracer::halo_orbits::{simulate_ships, simulate_ships_phase};
use gravity_tracer::halo_orbits_compute::{
    case, earth_moon_family, sun_earth_family, co_rotating, co_rotating_options, decide, find_l1_x, find_velocity_for_distance_to_l1,
    halo_options, inverse_square, nearer, net_force, replicate, search_family, select,
    stationary, wide_abs, within, CrossingRecorder, HaloCase, HaloSetup, Round, SearchReport,
    SearchStatus, FAMILY_SHIPS, L1_MARGIN_RAW, L1_TOLERANCE_RAW,
};
use gravity_tracer::tracer::{trace_ships_inspect, InspectData, Inspector};
use gravity_tracer::vector::Vec2;

fn fx(x: f64) -> Fixed {
    Fixed::from_raw((x * ONE_RAW as f64).round() as i64)
}

fn fl(x: Fixed) -> f64 {
    x.raw as f64 / ONE_RAW as f64
}

fn v2(x: f64, y: f64) -> Vec2 {
    Vec2::new(fx(x), fx(y))
}

fn raw2(x: i64, y: i64) -> Vec2 {
    Vec2::new(Fixed::from_raw(x), Fixed::from_raw(y))
}

#[test]
fn constants_stand_for_their_decimals() {
    assert_eq!(L1_MARGIN_RAW, (1e-4 * ONE_RAW as f64) as i64);
    assert_eq!(L1_TOLERANCE_RAW, (1e-8 * ONE_RAW as f64) as i64);
    assert_eq!(FAMILY_SHIPS, 50);
}

#[test]
fn the_co_rotating_frame_of_earth_and_moon() {
    let sys = co_rotating(fx(1.0), fx(0.0123)).unwrap();
    let mu = 0.0123 / 1.0123;
    assert!((fl(sys.x1) + mu).abs() < 1e-11);
    assert!((fl(sys.x2) - (1.0 - mu)).abs() < 1e-11);
    assert!((fl(sys.omega) - 1.0123).abs() < 1e-11);
    assert_eq!(sys.x2.raw - sys.x1.raw, ONE_RAW);
    assert_eq!(sys.m1, fx(1.0));
    assert_eq!(sys.m2, fx(0.0123));
}

#[test]
fn the_co_rotating_frame_of_equal_masses() {
    let sys = co_rotating(fx(2.0), fx(2.0)).unwrap();
    assert_eq!(sys.x1, fx(-1.0));
    assert_eq!(sys.x2, fx(0.0));
    assert_eq!(sys.omega, fx(2.0));
    assert_eq!(co_rotating(fx(4_000_000.0), fx(4_000_000.0)), None);
    assert_eq!(co_rotating(fx(0.0), fx(0.0)), None);
}

#[test]
fn inverse_squares_by_hand() {
    assert_eq!(inverse_square(fx(3.0), fx(2.0)), Some(fx(0.75)));
    assert_eq!(inverse_square(fx(3.0), fx(-2.0)), Some(fx(0.75)));
    assert_eq!(inverse_square(fx(3.0), fx(0.0)), None);
    assert_eq!(inverse_square(fx(3.0), Fixed::from_raw(1)), None);
}

#[test]
fn the_net_force_by_hand() {
    let sys = co_rotating(fx(2.0), fx(2.0)).unwrap();
    // at x = -0.5: -2 / 0.25 + 2 / 0.25 + 4 * (-0.5)
    assert_eq!(net_force(&sys, fx(-0.5)), Some(fx(-2.0)));
    // at x = -0.75: -2 / 0.0625 + 2 / 0.5625 - 3
    let f = fl(net_force(&sys, fx(-0.75)).unwrap());
    assert!((f - (-32.0 + 2.0 / 0.5625 - 3.0)).abs() < 1e-10);
    assert_eq!(net_force(&sys, fx(-1.0)), None);
}

#[test]
fn the_lagrange_point_of_earth_and_moon() {
    let eps = fx(1e-8);
    let x = find_l1_x(fx(1.0), fx(0.0123), eps).unwrap();
    let sys = co_rotating(fx(1.0), fx(0.0123)).unwrap();
    assert!(sys.x1.raw < x.raw && x.raw < sys.x2.raw);
    let f = net_force(&sys, x).unwrap();
    assert!(f.raw.abs() < eps.raw);
    assert!((fl(x) - 0.8360001970020347).abs() < 1e-9);
}

#[test]
fn the_lagrange_point_of_sun_and_earth() {
    let eps = fx(1e-8);
    let m2 = Fixed::fraction(1, 333_000);
    let x = find_l1_x(fx(1.0), m2, eps).unwrap();
    let sys = co_rotating(fx(1.0), m2).unwrap();
    assert!(sys.x1.raw < x.raw && x.raw < sys.x2.raw);
    assert!(net_force(&sys, x).unwrap().raw.abs() < eps.raw);
    assert!((fl(x) - 0.9900268049994121).abs() < 1e-7);
}

#[test]
fn the_lagrange_point_for_a_coarse_tolerance_is_the_first_midpoint_that_meets_it() {
    // between -1 + 1e-4 and -1e-4 the first midpoint is -0.5, where the force is -2
    assert_eq!(find_l1_x(fx(2.0), fx(2.0), fx(2.5)), Ok(fx(-0.5)));
}

#[test]
fn the_lagrange_point_rejects_invalid_inputs() {
    let bad = Err(TraceError::InvalidConfiguration);
    assert_eq!(find_l1_x(fx(0.0), fx(1.0), fx(1e-8)), bad);
    assert_eq!(find_l1_x(fx(1.0), fx(0.0), fx(1e-8)), bad);
    assert_eq!(find_l1_x(fx(-1.0), fx(1.0), fx(1e-8)), bad);
    assert_eq!(find_l1_x(fx(1.0), fx(-1.0), fx(1e-8)), bad);
    assert_eq!(find_l1_x(fx(1.0), fx(1.0), fx(0.0)), bad);
    assert_eq!(find_l1_x(fx(1.0), fx(1.0), fx(-1.0)), bad);
}

#[test]
fn the_lagrange_point_out_of_range_is_an_overflow() {
    assert_eq!(
        find_l1_x(fx(4_000_000.0), fx(4_000_000.0), fx(1e-8)),
        Err(TraceError::Overflow)
    );
}

#[test]
fn the_lagrange_point_beyond_resolution_does_not_converge() {
    assert_eq!(
        find_l1_x(fx(1.0), fx(0.0123), Fixed::from_raw(1)),
        Err(TraceError::NotConverged)
    );
}

#[test]
fn the_recorder_keeps_the_last_downward_crossing() {
    let mut r = CrossingRecorder::new(3);
    assert_eq!(r.crossings, vec![None, None, None]);
    r.inspect(InspectData { prev_r: v2(1.0, 0.5), r: v2(0.75, -0.25), i: 1 });
    assert_eq!(r.crossings, vec![None, Some(v2(-0.25, -0.75)), None]);
    // upward, touching and distant steps are no crossings
    r.inspect(InspectData { prev_r: v2(1.0, -0.5), r: v2(0.75, 0.25), i: 0 });
    r.inspect(InspectData { prev_r: v2(1.0, 0.0), r: v2(0.75, -0.25), i: 0 });
    r.inspect(InspectData { prev_r: v2(1.0, 0.5), r: v2(0.75, 0.0), i: 0 });
    r.inspect(InspectData { prev_r: v2(1.0, 0.5), r: v2(0.75, 0.25), i: 0 });
    assert_eq!(r.crossings, vec![None, Some(v2(-0.25, -0.75)), None]);
    // a later crossing replaces the earlier one
    r.inspect(InspectData { prev_r: v2(2.0, 0.125), r: v2(2.5, -0.125), i: 1 });
    assert_eq!(r.crossings, vec![None, Some(v2(0.5, -0.25)), None]);
    // a probe that is not there is not recorded
    r.inspect(InspectData { prev_r: v2(1.0, 0.5), r: v2(0.75, -0.25), i: 3 });
    assert_eq!(r.crossings.len(), 3);
}

#[test]
fn directions_are_ordered_by_their_angle_to_the_y_axis() {
    assert!(nearer(raw2(-1, -10), raw2(-2, -10)));
    assert!(!nearer(raw2(-2, -10), raw2(-1, -10)));
    assert!(!nearer(raw2(-1, -10), raw2(-1, -10)));
    assert!(nearer(raw2(1, -10), raw2(-2, -10)));
    assert!(nearer(raw2(-3, -31), raw2(-1, -10)));
    assert!(nearer(raw2(0, -1), raw2(1, -1_000_000)));
    assert!(nearer(raw2(i64::MIN, i64::MIN), raw2(i64::MIN, i64::MAX)));
    assert_eq!(wide_abs(i64::MIN), 1i128 << 63);
    assert_eq!(wide_abs(-5), 5);
    assert_eq!(wide_abs(5), 5);
}

#[test]
fn the_tolerance_bounds_the_tangent() {
    let eps = fx(0.001);
    assert!(within(raw2(0, -5), eps));
    assert!(within(raw2(-1, -1000), fx(0.001)));
    assert!(within(raw2(1, -1000), fx(0.001)));
    assert!(!within(raw2(-1, -999), Fixed::fraction(1, 1000)));
    assert!(within(raw2(0, -5), fx(0.0)));
    assert!(!within(raw2(-1, -5_000_000), fx(0.0)));
    assert!(!within(raw2(0, -5), fx(-0.001)));
}

#[test]
fn the_best_crossing_on_each_side() {
    let crossings = vec![
        None,
        Some(raw2(-5, -100)),
        Some(raw2(7, -100)),
        Some(raw2(-2, -100)),
        Some(raw2(-2, -100)),
        Some(raw2(3, -100)),
        Some(raw2(-1, 100)),
        Some(raw2(0, 0)),
    ];
    assert_eq!(select(&crossings, false), Some(3));
    assert_eq!(select(&crossings, true), Some(5));
    assert_eq!(select(&vec![None, Some(raw2(4, -1))], false), None);
    assert_eq!(select(&vec![None, Some(raw2(-4, -1))], true), None);
    assert_eq!(select(&vec![Some(raw2(0, -1))], false), Some(0));
    assert_eq!(select(&vec![], false), None);
}

fn report(status: SearchStatus, low: f64, high: f64, iterations: u64) -> Round {
    Round::Done(SearchReport { status, low_v: fx(low), high_v: fx(high), iterations })
}

#[test]
fn a_round_narrows_the_bracket_to_the_best_pair() {
    // five probes over [1, 3]: speeds 1, 1.5, 2, 2.5, 3
    let crossings = vec![
        Some(raw2(-50, -100)),
        Some(raw2(-20, -100)),
        Some(raw2(30, -100)),
        Some(raw2(60, -100)),
        None,
    ];
    assert_eq!(
        decide(&crossings, fx(0.01), fx(1.0), fx(3.0), 4),
        Round::Narrowed(fx(1.5), fx(2.0))
    );
}

#[test]
fn a_round_converges_on_a_crossing_within_tolerance() {
    let crossings = vec![
        Some(raw2(-50, -100)),
        Some(raw2(-1, -100)),
        Some(raw2(30, -100)),
        Some(raw2(60, -100)),
        None,
    ];
    assert_eq!(
        decide(&crossings, fx(0.01), fx(1.0), fx(3.0), 4),
        report(SearchStatus::Converged, 1.5, 2.0, 4)
    );
    // the crossing above the right angle does not count, however near
    let crossings = vec![Some(raw2(-50, -100)), Some(raw2(1, -100)), None];
    assert_eq!(
        decide(&crossings, fx(0.01), fx(1.0), fx(3.0), 0),
        Round::Narrowed(fx(1.0), fx(2.0))
    );
}

#[test]
fn a_round_without_a_pair_loses_the_bracket() {
    let below = vec![Some(raw2(-50, -100)), Some(raw2(-20, -100)), None];
    assert_eq!(
        decide(&below, fx(0.01), fx(1.0), fx(3.0), 2),
        report(SearchStatus::BracketLost, 1.0, 3.0, 2)
    );
    let above = vec![Some(raw2(50, -100)), Some(raw2(20, -100)), None];
    assert_eq!(
        decide(&above, fx(0.01), fx(1.0), fx(3.0), 2),
        report(SearchStatus::BracketLost, 1.0, 3.0, 2)
    );
    let none = vec![None, None, None];
    assert_eq!(
        decide(&none, fx(0.01), fx(1.0), fx(3.0), 0),
        report(SearchStatus::BracketLost, 1.0, 3.0, 0)
    );
    assert_eq!(
        decide(&vec![], fx(0.01), fx(1.0), fx(3.0), 0),
        report(SearchStatus::BracketLost, 1.0, 3.0, 0)
    );
    // a crossing within tolerance does not make up for the missing side
    let near = vec![Some(raw2(0, -100)), None];
    assert_eq!(
        decide(&near, fx(0.01), fx(1.0), fx(3.0), 0),
        report(SearchStatus::BracketLost, 1.0, 3.0, 0)
    );
}

#[test]
fn a_round_that_does_not_shrink_the_bracket_stagnates() {
    // the ends of the fan are the best pair: the bracket stays
    let same = vec![Some(raw2(-50, -100)), None, Some(raw2(50, -100))];
    assert_eq!(
        decide(&same, fx(0.01), fx(1.0), fx(3.0), 7),
        report(SearchStatus::Stagnated, 1.0, 3.0, 7)
    );
    // the crossing below is faster than the crossing above: the bracket is inverted
    let inverted = vec![Some(raw2(50, -100)), None, Some(raw2(-50, -100))];
    assert_eq!(
        decide(&inverted, fx(0.01), fx(1.0), fx(3.0), 7),
        report(SearchStatus::Stagnated, 1.0, 3.0, 7)
    );
    // a bracket given upside down
    assert_eq!(
        decide(&same, fx(0.01), fx(3.0), fx(1.0), 0),
        report(SearchStatus::Stagnated, 3.0, 1.0, 0)
    );
}

#[test]
fn fan_speeds_are_evenly_spread_and_rounded_down() {
    // four probes over [0, 1] raw units apart by thirds
    let crossings = vec![
        None,
        Some(raw2(-5, -100)),
        Some(raw2(5, -100)),
        None,
    ];
    assert_eq!(
        decide(&crossings, fx(0.0), Fixed::from_raw(0), Fixed::from_raw(100), 0),
        Round::Narrowed(Fixed::from_raw(33), Fixed::from_raw(66))
    );
    assert_eq!(
        decide(&crossings, fx(0.0), Fixed::from_raw(-100), Fixed::from_raw(0), 0),
        Round::Narrowed(Fixed::from_raw(-67), Fixed::from_raw(-34))
    );
}

#[test]
fn the_probes_of_a_search_start_together_among_the_masses() {
    let sys = co_rotating(fx(1.0), fx(0.0123)).unwrap();
    let setup = HaloSetup { sys, start: fx(0.8), dt: fx(0.001), time_steps: 5, num_ships: 3 };
    let opts = halo_options(&setup, vec![v2(0.0, 0.1), v2(0.0, 0.2), v2(0.0, 0.3)]).unwrap();
    assert_eq!(opts.g, fx(1.0));
    assert_eq!(opts.masses, vec![fx(1.0), fx(0.0123)]);
    assert_eq!(opts.mass_positions_at_t.len(), 5);
    for frame in opts.mass_positions_at_t.to_frames() {
        assert_eq!(frame, vec![Vec2::new(sys.x1, fx(0.0)), Vec2::new(sys.x2, fx(0.0))]);
    }
    assert_eq!(opts.ship_positions, vec![v2(0.8, 0.0); 3]);
    assert_eq!(opts.ship_velocities, vec![v2(0.0, 0.1), v2(0.0, 0.2), v2(0.0, 0.3)]);
    assert_eq!(opts.dt, fx(0.001));
    assert_eq!(opts.time_steps, 5);
    assert_eq!(opts.fictitious_force.omega, sys.omega);
    let other =
        co_rotating_options(&sys, vec![v2(0.5, 0.5)], vec![v2(0.0, 0.0)], fx(0.5), 2).unwrap();
    assert_eq!(other.ship_positions, vec![v2(0.5, 0.5)]);
    assert_eq!(other.mass_positions_at_t.len(), 2);
    assert_eq!(replicate(v2(1.0, 2.0), 2), vec![v2(1.0, 2.0), v2(1.0, 2.0)]);
    assert_eq!(
        stationary(&vec![v2(1.0, 2.0)], 2).unwrap().to_frames(),
        vec![vec![v2(1.0, 2.0)], vec![v2(1.0, 2.0)]]
    );
    assert!(stationary(&vec![v2(1.0, 2.0)], usize::MAX).is_none());
    let none = co_rotating_options(&sys, vec![], vec![], fx(0.5), usize::MAX);
    assert!(none.is_none());
}

#[test]
fn a_probe_near_the_lagrange_point_crosses_the_axis() {
    let sys = co_rotating(fx(1.0), fx(0.0123)).unwrap();
    let l1 = find_l1_x(fx(1.0), fx(0.0123), fx(1e-8)).unwrap();
    let start = l1.checked_sub(fx(0.01)).unwrap();
    let setup = HaloSetup { sys, start, dt: fx(0.0005), time_steps: 6000, num_ships: 4 };
    let speeds = vec![v2(0.0, 0.04), v2(0.0, 0.088), v2(0.0, 0.09), v2(0.0, 0.2)];
    let opts = halo_options(&setup, speeds).unwrap();
    let mut recorder = CrossingRecorder::new(4);
    let t = trace_ships_inspect(&opts, &mut recorder).unwrap();
    assert_eq!(t.len(), 6001);
    let mut seen = 0;
    for i in 0..4 {
        let mut last = None;
        for k in 0..6000 {
            let (p, q) = (t.get(k, i), t.get(k + 1, i));
            if p.y.raw > 0 && q.y.raw < 0 {
                last = Some(Vec2::new(
                    Fixed::from_raw(q.x.raw - p.x.raw),
                    Fixed::from_raw(q.y.raw - p.y.raw),
                ));
            }
        }
        if last.is_some() {
            seen += 1;
        }
        assert_eq!(recorder.crossings[i], last);
    }
    assert!(seen >= 2);
}

#[test]
fn the_search_converges_on_the_launch_speed() {
    let r = find_velocity_for_distance_to_l1(
        fx(1.0),
        fx(0.0123),
        fx(3.0),
        Fixed::fraction(5, 100_000),
        fx(0.01),
        fx(0.04),
        fx(0.1),
        10,
        fx(1e-6),
    )
    .unwrap();
    assert_eq!(r.status, SearchStatus::Converged);
    assert!(r.low_v.raw <= r.high_v.raw);
    assert!(r.iterations >= 1);
    // the search has not left its bracket
    assert!(fx(0.04).raw <= r.low_v.raw && r.high_v.raw <= fx(0.1).raw);
    assert!((fl(r.low_v) - 0.08934111342264894).abs() < 1e-6, "{}", fl(r.low_v));
}

#[test]
fn the_search_reconverges_from_a_bracket_about_the_speed() {
    let run = |low: f64, high: f64, ships: usize| {
        find_velocity_for_distance_to_l1(
            fx(1.0),
            fx(0.0123),
            fx(3.0),
            fx(0.0005),
            fx(0.01),
            fx(low),
            fx(high),
            ships,
            fx(1e-5),
        )
        .unwrap()
    };
    let first = run(0.04, 0.1, 20);
    assert_eq!(first.status, SearchStatus::Converged);
    let v = fl(first.low_v);
    let again = run(v - 0.003, v + 0.002, 20);
    assert_eq!(again.status, SearchStatus::Converged);
    assert!((fl(again.low_v) - v).abs() < 1e-5, "{} against {}", fl(again.low_v), v);
    let more = run(v - 0.003, v + 0.002, 33);
    assert_eq!(more.status, SearchStatus::Converged);
    assert!((fl(more.low_v) - v).abs() < 1e-5, "{} against {}", fl(more.low_v), v);
}

#[test]
fn the_search_reports_a_bracket_that_holds_no_pair() {
    let r = find_velocity_for_distance_to_l1(
        fx(1.0),
        fx(0.0123),
        fx(3.0),
        fx(0.0005),
        fx(0.01),
        fx(0.04),
        fx(0.06),
        5,
        fx(1e-5),
    )
    .unwrap();
    assert_eq!(r.status, SearchStatus::BracketLost);
    assert_eq!(r.low_v, fx(0.04));
    assert_eq!(r.high_v, fx(0.06));
    assert_eq!(r.iterations, 0);
}

#[test]
fn the_search_reports_a_bracket_given_upside_down() {
    let r = find_velocity_for_distance_to_l1(
        fx(1.0),
        fx(0.0123),
        fx(3.0),
        fx(0.0005),
        fx(0.01),
        fx(0.1),
        fx(0.04),
        5,
        fx(1e-5),
    );
    assert_eq!(
        r,
        Ok(SearchReport {
            status: SearchStatus::Stagnated,
            low_v: fx(0.1),
            high_v: fx(0.04),
            iterations: 0
        })
    );
}

#[test]
fn the_search_rejects_invalid_configurations() {
    let run = |m1: f64, m2: f64, total: f64, dt: f64, ships: usize| {
        find_velocity_for_distance_to_l1(
            fx(m1),
            fx(m2),
            fx(total),
            fx(dt),
            fx(0.01),
            fx(0.04),
            fx(0.1),
            ships,
            fx(1e-5),
        )
    };
    let bad = Err(TraceError::InvalidConfiguration);
    assert_eq!(run(0.0, 0.0123, 1.0, 0.001, 5), bad);
    assert_eq!(run(1.0, -0.0123, 1.0, 0.001, 5), bad);
    assert_eq!(run(1.0, 0.0123, -1.0, 0.001, 5), bad);
    assert_eq!(run(1.0, 0.0123, 1.0, 0.0, 5), bad);
    assert_eq!(run(1.0, 0.0123, 1.0, -0.001, 5), bad);
    assert_eq!(run(1.0, 0.0123, 1.0, 0.001, 1), bad);
    assert_eq!(run(1.0, 0.0123, 1.0, 0.001, 0), bad);
}

#[test]
fn the_search_passes_on_the_failure_of_a_flight() {
    // the probes start on the second mass
    let l1 = find_l1_x(fx(1.0), fx(0.0123), fx(1e-8)).unwrap();
    let sys = co_rotating(fx(1.0), fx(0.0123)).unwrap();
    let distance = l1.checked_sub(sys.x2).unwrap();
    let r = find_velocity_for_distance_to_l1(
        fx(1.0),
        fx(0.0123),
        fx(1.0),
        fx(0.001),
        distance,
        fx(0.04),
        fx(0.1),
        5,
        fx(1e-5),
    );
    assert_eq!(r, Err(TraceError::DegenerateGeometry));
}

#[test]
fn the_cases_of_a_family_are_decimals() {
    let c = case(100, 40, 100, 1_000_000);
    assert_eq!(c.distance_to_l1, Fixed::fraction(1, 100));
    assert_eq!(c.low_v, Fixed::fraction(4, 100));
    assert_eq!(c.high_v, Fixed::fraction(1, 10));
    assert_eq!(c.epsilon, Fixed::fraction(1, 1_000_000));
    assert!((fl(c.distance_to_l1) - 0.01).abs() < 1e-12);
    assert!((fl(c.epsilon) - 1e-6).abs() < 1e-12);
}

#[test]
fn the_families_hold_their_cases_in_order() {
    let earth_moon = earth_moon_family();
    assert_eq!(earth_moon.len(), 7);
    assert_eq!(earth_moon[0], case(100, 40, 100, 1_000_000));
    assert_eq!(earth_moon[3], case(250, 100, 400, 100_000));
    assert_eq!(earth_moon[6], case(400, 100, 400, 100_000));
    assert!((fl(earth_moon[6].distance_to_l1) - 0.04).abs() < 1e-12);
    let sun_earth = sun_earth_family();
    assert_eq!(sun_earth.len(), 3);
    assert_eq!(sun_earth[0], case(10, 7, 10, 10_000_000));
    assert_eq!(sun_earth[1], case(15, 7, 20, 10_000_000));
    assert_eq!(sun_earth[2], case(20, 10, 20, 10_000_000));
}

#[test]
fn ships_are_simulated_about_the_lagrange_point() {
    let l1 = find_l1_x(fx(1.0), fx(0.0123), fx(1e-8)).unwrap();
    let positions = vec![v2(-0.01, 0.0), v2(0.0, 0.002)];
    let velocities = vec![v2(0.0, 0.0893), v2(0.0, 0.0)];
    let t = simulate_ships(fx(0.01), fx(1.0), fx(0.0123), &positions, &velocities).unwrap();
    assert_eq!(t.len(), 201);
    assert_eq!(t.entities(), 2);
    assert_eq!(t.get(0, 0), Vec2::new(l1.checked_sub(fx(0.01)).unwrap(), fx(0.0)));
    assert_eq!(t.get(0, 1), Vec2::new(l1, fx(0.002)));
    let h = simulate_ships_phase(fx(0.01), fx(1.0), fx(0.0123), &positions, &velocities).unwrap();
    assert_eq!(h.positions.to_frames(), t.to_frames());
    assert_eq!(h.velocities.get(0, 0), v2(0.0, 0.0893));
    assert_eq!(h.velocities.len(), 201);
    // the probe on the far side of the axis is drawn back toward it
    assert!(h.velocities.get(200, 1).y.raw < 0);
}

#[test]
fn simulations_reject_invalid_configurations() {
    let p = vec![v2(-0.01, 0.0)];
    let v = vec![v2(0.0, 0.0893)];
    let bad = Some(TraceError::InvalidConfiguration);
    assert_eq!(simulate_ships(fx(-1.0), fx(1.0), fx(0.0123), &p, &v).err(), bad);
    assert_eq!(simulate_ships(fx(1.0), fx(0.0), fx(0.0123), &p, &v).err(), bad);
    assert_eq!(simulate_ships(fx(1.0), fx(1.0), fx(0.0), &p, &v).err(), bad);
    assert_eq!(simulate_ships(fx(0.01), fx(1.0), fx(0.0123), &p, &vec![]).err(), bad);
    assert_eq!(
        simulate_ships(fx(0.01), fx(1.0), fx(0.0123), &vec![v2(8_388_607.5, 0.0)], &v).err(),
        Some(TraceError::Overflow)
    );
}

#[test]
fn a_family_is_searched_case_by_case() {
    let upside_down = HaloCase {
        distance_to_l1: fx(0.01),
        low_v: fx(0.1),
        high_v: fx(0.04),
        epsilon: fx(1e-6),
    };
    let lost = HaloCase {
        distance_to_l1: fx(0.01),
        low_v: fx(0.04),
        high_v: fx(0.06),
        epsilon: fx(1e-6),
    };
    let r = search_family(fx(1.0), fx(0.0123), &vec![upside_down, lost, upside_down]);
    assert_eq!(r.len(), 3);
    let stuck = Ok(SearchReport {
        status: SearchStatus::Stagnated,
        low_v: fx(0.1),
        high_v: fx(0.04),
        iterations: 0,
    });
    assert_eq!(r[0], stuck);
    assert_eq!(
        r[1],
        Ok(SearchReport {
            status: SearchStatus::BracketLost,
            low_v: fx(0.04),
            high_v: fx(0.06),
            iterations: 0,
        })
    );
    assert_eq!(r[2], stuck);
    assert_eq!(search_family(fx(0.0), fx(0.0123), &vec![lost]), vec![Err(TraceError::InvalidConfiguration)]);
    assert_eq!(search_family(fx(1.0), fx(0.0123), &vec![]), vec![]);
}

use gravity_tracer::error::TraceError;
use gravity_tracer::fixed::{Fixed, ONE_RAW};
use gravity_tracer::halo_orbits::simulate_ships_phase;
use gravity_tracer::halo_orbits_compute::co_rotating;
use gravity_tracer::manifolds_earth_moon::{
    extract_orbit, perturbed_probes, reversed, trace_manifolds, PERTURBATIONS_PER_POINT,
};
use gravity_tracer::tracer::{Particle, PhaseHistory};
use gravity_tracer::trajectory::Trajectory;
use gravity_tracer::vector::Vec2;

fn fx(x: f64) -> Fixed {
    Fixed::from_raw((x * ONE_RAW as f64).round() as i64)
}

fn fl(x: Fixed) -> f64 {
    x.raw as f64 / ONE_RAW as f64
}

fn v2(x: f64, y: f64) -> Vec2 {
    Vec2::new(fx(x), fx(y))
}

fn series(frames: Vec<Vec<Vec2>>) -> Trajectory {
    Trajectory::from_frames(&frames).unwrap()
}

fn line(n: usize) -> Vec<Particle> {
    (0..n)
        .map(|t| Particle {
            position: v2(t as f64, -(t as f64)),
            velocity: v2(0.5 * t as f64, 1.0),
        })
        .collect()
}

#[test]
fn the_orbit_of_a_probe_is_read_off_a_history() {
    let h = PhaseHistory {
        positions: series(vec![
            vec![v2(1.0, 2.0), v2(3.0, 4.0)],
            vec![v2(5.0, 6.0), v2(7.0, 8.0)],
        ]),
        velocities: series(vec![
            vec![v2(0.1, 0.2), v2(0.3, 0.4)],
            vec![v2(0.5, 0.6), v2(0.7, 0.8)],
        ]),
    };
    assert_eq!(
        extract_orbit(&h, 1),
        Ok(vec![
            Particle { position: v2(3.0, 4.0), velocity: v2(0.3, 0.4) },
            Particle { position: v2(7.0, 8.0), velocity: v2(0.7, 0.8) },
        ])
    );
    assert_eq!(extract_orbit(&h, 2), Err(TraceError::InvalidConfiguration));
    let short = PhaseHistory {
        positions: series(vec![vec![v2(1.0, 2.0)], vec![v2(5.0, 6.0)]]),
        velocities: series(vec![vec![v2(0.1, 0.2)]]),
    };
    assert_eq!(extract_orbit(&short, 0), Err(TraceError::InvalidConfiguration));
    let empty = PhaseHistory { positions: series(vec![]), velocities: series(vec![]) };
    assert_eq!(extract_orbit(&empty, 0), Ok(vec![]));
}

#[test]
fn perturbed_probes_are_laid_out_four_to_a_sample_point() {
    assert_eq!(PERTURBATIONS_PER_POINT, 4);
    // eleven states, five sample points: ticks 0, 2, 5, 7, 10
    let orbit = line(11);
    let eps = fx(0.001);
    let probes = perturbed_probes(&orbit, 5, eps).unwrap();
    assert_eq!(probes.len(), 20);
    let ticks = [0usize, 2, 5, 7, 10];
    for i in 0..5 {
        let at = orbit[ticks[i]];
        for j in 0..4 {
            assert_eq!(probes[4 * i + j].position, at.position);
        }
        let v = at.velocity;
        assert_eq!(probes[4 * i].velocity, Vec2::new(Fixed::from_raw(v.x.raw + eps.raw), v.y));
        assert_eq!(probes[4 * i + 1].velocity, Vec2::new(Fixed::from_raw(v.x.raw - eps.raw), v.y));
        assert_eq!(probes[4 * i + 2].velocity, Vec2::new(v.x, Fixed::from_raw(v.y.raw + eps.raw)));
        assert_eq!(probes[4 * i + 3].velocity, Vec2::new(v.x, Fixed::from_raw(v.y.raw - eps.raw)));
    }
}

#[test]
fn sample_points_span_the_orbit() {
    let orbit = line(80_001);
    let probes = perturbed_probes(&orbit, 40, fx(0.0)).unwrap();
    assert_eq!(probes.len(), 160);
    assert_eq!(probes[0], orbit[0]);
    assert_eq!(probes[4], orbit[2051]);
    assert_eq!(probes[4 * 13 + 2], orbit[26_666]);
    assert_eq!(probes[159], orbit[80_000]);
    // an orbit of one state is sampled there every time
    let still = perturbed_probes(&line(1), 3, fx(0.0)).unwrap();
    assert_eq!(still, vec![line(1)[0]; 12]);
}

#[test]
fn perturbed_probes_reject_invalid_configurations() {
    let bad = Err(TraceError::InvalidConfiguration);
    assert_eq!(perturbed_probes(&vec![], 5, fx(0.001)), bad);
    assert_eq!(perturbed_probes(&vec![], 1, fx(0.001)), bad);
    assert_eq!(perturbed_probes(&line(5), usize::MAX / 4 + 1, fx(0.001)), bad);
    assert_eq!(perturbed_probes(&line(5), 5, Fixed::from_raw(i64::MIN)), bad);
}

#[test]
fn a_single_sample_point_is_the_start_of_the_orbit() {
    let orbit = line(7);
    let eps = fx(0.25);
    let probes = perturbed_probes(&orbit, 1, eps).unwrap();
    assert_eq!(probes.len(), 4);
    for p in &probes {
        assert_eq!(p.position, orbit[0].position);
    }
    assert_eq!(probes[0].velocity, v2(0.25, 1.0));
    assert_eq!(probes[1].velocity, v2(-0.25, 1.0));
    assert_eq!(probes[2].velocity, v2(0.0, 1.25));
    assert_eq!(probes[3].velocity, v2(0.0, 0.75));
}

#[test]
fn no_sample_point_gives_no_probe() {
    assert_eq!(perturbed_probes(&line(7), 0, fx(0.25)), Ok(vec![]));
    assert_eq!(perturbed_probes(&vec![], 0, fx(0.25)), Ok(vec![]));
    let sys = co_rotating(fx(1.0), fx(0.0123)).unwrap();
    let m = trace_manifolds(&sys, &line(7), 0, fx(0.25), fx(0.001), 5).unwrap();
    assert_eq!(m.unstable.len(), 6);
    assert_eq!(m.unstable.entities(), 0);
    assert_eq!(m.stable.len(), 6);
    assert_eq!(m.stable.entities(), 0);
}

#[test]
fn perturbed_probes_out_of_range_are_an_overflow() {
    let fast = vec![Particle { position: v2(0.0, 0.0), velocity: v2(8_388_607.0, 0.0) }];
    assert_eq!(perturbed_probes(&fast, 2, fx(2.0)), Err(TraceError::Overflow));
}

#[test]
fn velocities_are_reversed_by_component() {
    assert_eq!(
        reversed(&vec![v2(1.0, -2.0), v2(0.0, 3.5)]),
        Ok(vec![v2(-1.0, 2.0), v2(0.0, -3.5)])
    );
    assert_eq!(
        reversed(&vec![v2(1.0, -2.0), Vec2::new(Fixed::from_raw(i64::MIN), fx(0.0))]),
        Err(TraceError::Overflow)
    );
}

fn orbit_about_l1(total: f64) -> Vec<Particle> {
    let h = simulate_ships_phase(
        fx(total),
        fx(1.0),
        fx(0.0123),
        &vec![v2(-0.01, 0.0)],
        &vec![v2(0.0, 0.08934111342264894)],
    )
    .unwrap();
    extract_orbit(&h, 0).unwrap()
}

#[test]
fn manifolds_hold_four_probes_to_a_sample_point_in_every_snapshot() {
    let sys = co_rotating(fx(1.0), fx(0.0123)).unwrap();
    let orbit = orbit_about_l1(0.05);
    assert_eq!(orbit.len(), 1001);
    let dt = Fixed::fraction(5, 100_000);
    let m = trace_manifolds(&sys, &orbit, 6, fx(0.001), dt, 300).unwrap();
    assert_eq!(m.unstable.len(), 301);
    assert_eq!(m.stable.len(), 301);
    assert_eq!(m.unstable.entities(), 24);
    assert_eq!(m.stable.entities(), 24);
    for i in 0..6 {
        for j in 0..4 {
            assert_eq!(m.unstable.get(0, 4 * i + j), orbit[200 * i].position);
            assert_eq!(m.stable.get(0, 4 * i + j), orbit[200 * i].position);
        }
    }
    // probes pushed along +x and -x part to either side of the orbit
    assert!(m.unstable.get(300, 0).x.raw > m.unstable.get(300, 1).x.raw);
    assert!(m.stable.get(300, 0).x.raw < m.stable.get(300, 1).x.raw);
}

#[test]
fn unperturbed_manifolds_retrace_the_orbit() {
    let sys = co_rotating(fx(1.0), fx(0.0123)).unwrap();
    let orbit = orbit_about_l1(0.1);
    assert_eq!(orbit.len(), 2001);
    let dt = Fixed::fraction(5, 100_000);
    let m = trace_manifolds(&sys, &orbit, 5, fx(0.0), dt, 400).unwrap();
    for i in 0..5 {
        let tick = 500 * i;
        for j in 0..4 {
            let probe = 4 * i + j;
            // forward, exactly
            for k in 0..=400 {
                if tick + k < orbit.len() {
                    assert_eq!(m.unstable.get(k, probe), orbit[tick + k].position);
                }
            }
            // backward, to within the error of the scheme
            for k in 0..=400 {
                if k <= tick {
                    let p = m.stable.get(k, probe);
                    let q = orbit[tick - k].position;
                    assert!((fl(p.x) - fl(q.x)).abs() < 1e-5, "sample {i}, tick {k}");
                    assert!((fl(p.y) - fl(q.y)).abs() < 1e-5, "sample {i}, tick {k}");
                }
            }
        }
    }
}

#[test]
fn manifolds_pass_on_failures() {
    let sys = co_rotating(fx(1.0), fx(0.0123)).unwrap();
    let dt = Fixed::fraction(5, 100_000);
    assert_eq!(
        trace_manifolds(&sys, &vec![], 1, fx(0.001), dt, 10).err(),
        Some(TraceError::InvalidConfiguration)
    );
    assert_eq!(
        trace_manifolds(&sys, &line(5), 2, fx(0.001), fx(0.0), 10).err(),
        Some(TraceError::InvalidConfiguration)
    );
    let on_mass = vec![Particle { position: Vec2::new(sys.x1, fx(0.0)), velocity: v2(0.0, 0.0) }];
    assert_eq!(
        trace_manifolds(&sys, &on_mass, 2, fx(0.001), dt, 10).err(),
        Some(TraceError::DegenerateGeometry)
    );
    assert_eq!(
        trace_manifolds(&sys, &line(5), 2, fx(0.001), dt, usize::MAX).err(),
        Some(TraceError::InvalidConfiguration)
    );
}

#[test]
fn one_tick_backward_leads_to_where_the_orbit_was() {
    let sys = co_rotating(fx(1.0), fx(0.0123)).unwrap();
    let orbit = orbit_about_l1(0.1);
    let dt = Fixed::fraction(5, 100_000);
    let m = trace_manifolds(&sys, &orbit, 5, fx(0.0), dt, 1).unwrap();
    let product = |a: i64, b: i64| ((a as i128 * b as i128) / ONE_RAW as i128) as i64;
    let mut looked = 0;
    for i in 0..5 {
        let tick = 500 * i;
        if tick == 0 || tick + 1 >= orbit.len() {
            continue;
        }
        for j in 0..4 {
            let back = m.stable.get(1, 4 * i + j);
            let before = orbit[tick - 1].position;
            let gain_x = orbit[tick + 1].velocity.x.raw - orbit[tick].velocity.x.raw;
            let gain_y = orbit[tick + 1].velocity.y.raw - orbit[tick].velocity.y.raw;
            assert!((back.x.raw - before.x.raw - product(gain_x, dt.raw)).abs() <= 2);
            assert!((back.y.raw - before.y.raw - product(gain_y, dt.raw)).abs() <= 2);
            // which is of the order of the square of the time step
            assert!((fl(back.x) - fl(before.x)).abs() < 1e-7);
            assert!((fl(back.y) - fl(before.y)).abs() < 1e-7);
            looked += 1;
        }
    }
    assert_eq!(looked, 12);
}

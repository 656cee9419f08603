use gravity_tracer::error::TraceError;
use gravity_tracer::fixed::{Fixed, ONE_RAW};
use gravity_tracer::kernel::{accelerations, pull, self_accelerations};
use gravity_tracer::vector::Vec2;

fn fx(x: f64) -> Fixed {
    Fixed::from_raw((x * ONE_RAW as f64).round() as i64)
}

fn fl(x: Fixed) -> f64 {
    x.raw as f64 / ONE_RAW as f64
}

fn v2(x: f64, y: f64) -> Vec2 {
    Vec2::new(fx(x), fx(y))
}

#[test]
fn pull_along_axis_is_inverse_square() {
    let a = pull(Fixed::one(), Fixed::one(), v2(2.0, 0.0)).unwrap();
    assert_eq!(a.x.raw, ONE_RAW / 4);
    assert_eq!(a.y.raw, 0);
}

#[test]
fn pull_points_at_the_source() {
    let a = pull(fx(2.0), fx(3.0), v2(-3.0, 4.0)).unwrap();
    // g m / r^2 = 6 / 25, along (-3/5, 4/5)
    assert!((fl(a.x) - (-0.144)).abs() < 1e-10);
    assert!((fl(a.y) - 0.192).abs() < 1e-10);
}

#[test]
fn pull_at_zero_separation_is_degenerate() {
    assert_eq!(
        pull(Fixed::one(), Fixed::one(), Vec2::zero()),
        Err(TraceError::DegenerateGeometry)
    );
}

#[test]
fn accelerations_sum_the_sources() {
    let positions = vec![v2(0.0, 0.0)];
    let masses = vec![fx(1.0), fx(1.0)];
    let sources = vec![v2(1.0, 0.0), v2(0.0, 2.0)];
    let a = accelerations(Fixed::one(), &positions, &masses, &sources).unwrap();
    assert_eq!(a.len(), 1);
    assert_eq!(a[0].x.raw, ONE_RAW);
    assert_eq!(a[0].y.raw, ONE_RAW / 4);
}

#[test]
fn accelerations_reject_a_probe_on_a_source() {
    let positions = vec![v2(1.0, 0.0)];
    let masses = vec![fx(1.0)];
    let sources = vec![v2(1.0, 0.0)];
    assert_eq!(
        accelerations(Fixed::one(), &positions, &masses, &sources),
        Err(TraceError::DegenerateGeometry)
    );
}

#[test]
fn accelerations_reject_mismatched_sources() {
    let positions = vec![v2(0.0, 0.0)];
    let masses = vec![fx(1.0), fx(2.0)];
    let sources = vec![v2(1.0, 0.0)];
    assert_eq!(
        accelerations(Fixed::one(), &positions, &masses, &sources),
        Err(TraceError::InvalidConfiguration)
    );
}

#[test]
fn self_accelerations_leave_out_the_body_itself() {
    let masses = vec![fx(1.0), fx(4.0)];
    let positions = vec![v2(0.0, 0.0), v2(2.0, 0.0)];
    let a = self_accelerations(Fixed::one(), &masses, &positions).unwrap();
    assert_eq!(a[0].x.raw, ONE_RAW);
    assert_eq!(a[0].y.raw, 0);
    assert_eq!(a[1].x.raw, -ONE_RAW / 4);
    assert_eq!(a[1].y.raw, 0);
}

#[test]
fn self_accelerations_reject_coincident_bodies() {
    let masses = vec![fx(1.0), fx(4.0)];
    let positions = vec![v2(1.0, 1.0), v2(1.0, 1.0)];
    assert_eq!(
        self_accelerations(Fixed::one(), &masses, &positions),
        Err(TraceError::DegenerateGeometry)
    );
}

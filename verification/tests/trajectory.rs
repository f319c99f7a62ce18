use atum::motion::profiling::bezier::Bezier;
use atum::motion::profiling::trajectory::{ProfilePoint, Trajectory};
use atum::pose::Vec2;

fn sample(distance: i64) -> ProfilePoint {
    ProfilePoint {
        distance,
        position: Vec2::new(distance, 0),
        heading: 0,
        linear_velocity: distance * 2,
        angular_velocity: 0,
    }
}

fn path() -> Trajectory {
    Trajectory::new(vec![sample(0), sample(1_000_000), sample(1_000_000), sample(2_500_000)])
        .unwrap()
}

#[test]
fn trajectory_needs_a_sample() {
    assert!(Trajectory::new(vec![]).is_none());
    assert!(Trajectory::new(vec![sample(5)]).is_some());
}

#[test]
fn trajectory_needs_its_samples_in_order() {
    assert!(Trajectory::new(vec![sample(0), sample(2), sample(1)]).is_none());
    assert!(Trajectory::new(vec![sample(1), sample(0)]).is_none());
    assert!(Trajectory::new(vec![sample(0), sample(0), sample(1)]).is_some());
}

#[test]
fn trajectory_keeps_its_samples() {
    let t = path();
    assert_eq!(t.len(), 4);
    assert_eq!(t.profile[3], sample(2_500_000));
    assert_eq!(t.last(), sample(2_500_000));
}

#[test]
fn lookup_finds_the_first_sample_at_or_beyond_the_distance() {
    let t = path();
    assert_eq!(t.place(-5), 0);
    assert_eq!(t.place(0), 0);
    assert_eq!(t.place(1), 1);
    assert_eq!(t.place(1_000_000), 1);
    assert_eq!(t.place(1_000_001), 3);
    assert_eq!(t.place(2_500_000), 3);
    assert_eq!(t.at(1), sample(1_000_000));
    assert_eq!(t.at(2_000_000), sample(2_500_000));
}

#[test]
fn lookup_beyond_the_end_gives_the_last_sample() {
    let t = path();
    assert_eq!(t.place(2_500_001), 3);
    assert_eq!(t.place(i64::MAX), 3);
    assert_eq!(t.at(i64::MAX), t.last());
    let single = Trajectory::new(vec![sample(7)]).unwrap();
    assert_eq!(single.place(100), 0);
    assert_eq!(single.at(-100), sample(7));
}

#[test]
fn curve_runs_from_the_first_control_point_to_the_last() {
    let b = Bezier::new(
        Vec2::new(0, 0),
        Vec2::new(0, 10_000_000),
        Vec2::new(10_000_000, 10_000_000),
        Vec2::new(10_000_000, 0),
    );
    assert_eq!(b.point(0), Vec2::new(0, 0));
    assert_eq!(b.point(1_000_000), Vec2::new(10_000_000, 0));
    // halfway: (p0 + 3 p1 + 3 p2 + p3) / 8 = (5, 7.5)
    assert_eq!(b.point(500_000), Vec2::new(5_000_000, 7_500_000));
}

#[test]
fn curve_velocity() {
    let b = Bezier::new(
        Vec2::new(0, 0),
        Vec2::new(0, 10_000_000),
        Vec2::new(10_000_000, 10_000_000),
        Vec2::new(10_000_000, 0),
    );
    // at the ends the velocity is three times the first and last leg
    assert_eq!(b.derivative(0), Vec2::new(0, 30_000_000));
    assert_eq!(b.derivative(1_000_000), Vec2::new(0, -30_000_000));
    // halfway: 3/4 (p3 + p2 - p1 - p0) = (15, 0)
    assert_eq!(b.derivative(500_000), Vec2::new(15_000_000, 0));
}

#[test]
fn curve_acceleration() {
    let b = Bezier::new(
        Vec2::new(0, 0),
        Vec2::new(0, 10_000_000),
        Vec2::new(10_000_000, 10_000_000),
        Vec2::new(10_000_000, 0),
    );
    // 6 (p0 - 2 p1 + p2) at the start, 6 (p1 - 2 p2 + p3) at the end
    assert_eq!(b.second_derivative(0), Vec2::new(60_000_000, -60_000_000));
    assert_eq!(b.second_derivative(1_000_000), Vec2::new(-60_000_000, -60_000_000));
    assert_eq!(b.second_derivative(500_000), Vec2::new(0, -60_000_000));
}

#[test]
fn straight_curve_moves_evenly() {
    let b = Bezier::new(
        Vec2::new(0, 0),
        Vec2::new(3_000_000, 0),
        Vec2::new(6_000_000, 0),
        Vec2::new(9_000_000, 0),
    );
    assert_eq!(b.point(250_000), Vec2::new(2_250_000, 0));
    assert_eq!(b.derivative(250_000), Vec2::new(9_000_000, 0));
    assert_eq!(b.second_derivative(250_000), Vec2::new(0, 0));
}

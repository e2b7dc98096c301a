use shooter_core::math::Aabb2d;
use shooter_core::math::Vec2;
use shooter_core::math::mul_div;
use shooter_core::timer::Timer;
use shooter_core::timer::TimerMode;

#[test]
fn mul_div_truncates_toward_zero() {
    assert_eq!(mul_div(5, 100, 1000), 0);
    assert_eq!(mul_div(15, 700, 1000), 10);
    assert_eq!(mul_div(-17, 700, 1000), -11);
    assert_eq!(mul_div(-5, 100, 1000), 0);
    assert_eq!(mul_div(10, -500, 1000), -5);
    assert_eq!(mul_div(-10, -500, 1000), 5);
    assert_eq!(mul_div(i64::MAX, 1, 1), i64::MAX);
    assert_eq!(mul_div(i64::MIN, 1, 1), i64::MIN);
}

#[test]
fn aabb_overlap_and_touching_edges() {
    let a = Aabb2d { min: Vec2 { x: -5, y: -5 }, max: Vec2 { x: 5, y: 5 } };
    let overlapping = Aabb2d { min: Vec2 { x: 0, y: 0 }, max: Vec2 { x: 9, y: 9 } };
    let touching = Aabb2d { min: Vec2 { x: 5, y: -5 }, max: Vec2 { x: 15, y: 5 } };
    let corner = Aabb2d { min: Vec2 { x: 5, y: 5 }, max: Vec2 { x: 9, y: 9 } };
    let disjoint_x = Aabb2d { min: Vec2 { x: 6, y: -5 }, max: Vec2 { x: 15, y: 5 } };
    let disjoint_y = Aabb2d { min: Vec2 { x: -5, y: 6 }, max: Vec2 { x: 5, y: 15 } };
    assert!(a.intersects(&overlapping));
    assert!(a.intersects(&touching));
    assert!(touching.intersects(&a));
    assert!(a.intersects(&corner));
    assert!(!a.intersects(&disjoint_x));
    assert!(!a.intersects(&disjoint_y));
}

#[test]
fn once_timer_finishes_exactly_at_duration() {
    let mut t = Timer::from_millis(400, TimerMode::Once);
    t.tick(200);
    assert!(!t.finished());
    assert!(!t.just_finished);
    t.tick(199);
    assert!(!t.finished());
    t.tick(1);
    assert!(t.finished());
    assert!(t.just_finished);
    t.tick(50);
    assert!(t.finished());
    assert!(!t.just_finished);
    assert_eq!(t.elapsed_ms, 400);
}

#[test]
fn repeating_timer_wraps_overshoot() {
    let mut t = Timer::from_millis(2000, TimerMode::Repeating);
    t.tick(1500);
    assert!(!t.finished());
    t.tick(1000);
    assert!(t.finished());
    assert!(t.just_finished);
    assert_eq!(t.elapsed_ms, 500);
    t.tick(100);
    assert!(!t.finished());
    assert_eq!(t.elapsed_ms, 600);
}

#[test]
fn reset_rearms_a_finished_timer() {
    let mut t = Timer::from_millis(100, TimerMode::Once);
    t.tick(100);
    assert!(t.finished());
    t.reset();
    assert!(!t.finished());
    assert_eq!(t.elapsed_ms, 0);
    t.tick(99);
    assert!(!t.finished());
    t.tick(1);
    assert!(t.finished());
}

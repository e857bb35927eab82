use bouncr::ball::{Ball, Color};
use bouncr::simulation::{Policy, Simulation, resolve_collision};

fn gray() -> Color {
    Color { r: 128, g: 128, b: 128, a: 255 }
}

fn fixed_ball(number: usize, x: i64, y: i64, radius: i64, speed: i64) -> Ball {
    Ball {
        number,
        x,
        y,
        speed,
        radius,
        x_add: 1,
        y_add: 1,
        max_x: 1000,
        max_y: 1000,
        color: gray(),
        visible: true,
    }
}

fn sim_of(balls: Vec<Ball>, policy: Policy) -> Simulation {
    Simulation { balls, max_x: 1000, max_y: 1000, policy }
}

#[test]
fn resolve_disable_hides() {
    let mut b = fixed_ball(0, 50, 50, 5, 2);
    resolve_collision(&mut b, Policy::Disable);
    assert!(!b.visible);
    assert_eq!(b.x_add, 1);
    resolve_collision(&mut b, Policy::Disable);
    assert!(!b.visible);
}

#[test]
fn resolve_bounce_reverses() {
    let mut b = fixed_ball(0, 50, 50, 5, 2);
    resolve_collision(&mut b, Policy::Bounce);
    assert_eq!(b.x_add, -1);
    assert_eq!(b.y_add, -1);
    assert!(b.visible);
}

#[test]
fn detect_reports_each_ball_once() {
    // Three mutually overlapping balls: the scan sees three colliding
    // pairs, yet each index is reported exactly once, in order.
    let balls = vec![
        fixed_ball(0, 100, 100, 5, 0),
        fixed_ball(1, 103, 100, 5, 0),
        fixed_ball(2, 100, 104, 5, 0),
    ];
    let sim = sim_of(balls, Policy::Bounce);
    let ids = sim.detect_collisions();
    assert_eq!(ids, vec![0, 1, 2]);
}

#[test]
fn detect_finds_nothing_when_apart() {
    let balls = vec![
        fixed_ball(0, 100, 100, 5, 0),
        fixed_ball(1, 300, 300, 5, 0),
        fixed_ball(2, 500, 500, 5, 0),
    ];
    let sim = sim_of(balls, Policy::Bounce);
    let ids = sim.detect_collisions();
    assert!(ids.is_empty());
}

#[test]
fn detect_skips_invisible_pairs() {
    let mut hidden = fixed_ball(0, 100, 100, 5, 0);
    hidden.visible = false;
    let balls = vec![hidden, fixed_ball(1, 103, 100, 5, 0)];
    let sim = sim_of(balls, Policy::Bounce);
    let ids = sim.detect_collisions();
    assert!(ids.is_empty());
}

#[test]
fn step_moves_every_ball() {
    let mut a = fixed_ball(0, 100, 100, 5, 2);
    a.y_add = -1;
    let b = fixed_ball(1, 300, 300, 5, 3);
    let mut sim = sim_of(vec![a, b], Policy::Bounce);
    sim.step();
    assert_eq!(sim.balls[0].x, 102);
    assert_eq!(sim.balls[0].y, 98);
    assert_eq!(sim.balls[1].x, 303);
    assert_eq!(sim.balls[1].y, 303);
    assert!(sim.balls[0].visible && sim.balls[1].visible);
}

#[test]
fn step_empty_simulation() {
    let mut sim = sim_of(Vec::new(), Policy::Disable);
    sim.step();
    assert!(sim.balls.is_empty());
}

#[test]
fn step_disable_hides_both_colliders() {
    let balls = vec![
        fixed_ball(0, 100, 100, 5, 0),
        fixed_ball(1, 100, 108, 5, 0),
        fixed_ball(2, 500, 500, 5, 0),
    ];
    let mut sim = sim_of(balls, Policy::Disable);
    sim.step();
    assert!(!sim.balls[0].visible);
    assert!(!sim.balls[1].visible);
    assert!(sim.balls[2].visible);
}

#[test]
fn step_bounce_inverts_direction_once() {
    // Both colliding balls keep their post-move position and leave with the
    // exact inverse of the direction they would otherwise have had.
    let a = fixed_ball(0, 100, 100, 5, 2);
    let mut b = fixed_ball(1, 100, 108, 5, 2);
    b.x_add = -1;
    b.y_add = -1;
    let mut sim = sim_of(vec![a, b], Policy::Bounce);
    sim.step();
    assert_eq!(sim.balls[0].x, 102);
    assert_eq!(sim.balls[0].y, 102);
    assert_eq!(sim.balls[0].x_add, -1);
    assert_eq!(sim.balls[0].y_add, -1);
    assert_eq!(sim.balls[1].x, 98);
    assert_eq!(sim.balls[1].y, 106);
    assert_eq!(sim.balls[1].x_add, 1);
    assert_eq!(sim.balls[1].y_add, 1);
    assert!(sim.balls[0].visible && sim.balls[1].visible);
}

#[test]
fn step_never_revives_disabled_balls() {
    let mut hidden = fixed_ball(0, 100, 100, 5, 2);
    hidden.visible = false;
    let near = fixed_ball(1, 100, 106, 5, 2);
    let mut sim = sim_of(vec![hidden, near], Policy::Disable);
    sim.step();
    // The invisible ball still moves but collides with nothing, and the
    // visible one is untouched.
    assert!(!sim.balls[0].visible);
    assert!(sim.balls[1].visible);
    assert_eq!(sim.balls[0].x, 102);
    assert_eq!(sim.balls[1].x, 102);
}

#[test]
fn simulation_new_numbers_and_count() {
    let mut rng = rand::rng();
    let sim = Simulation::new(25, &mut rng, 640, 480, Policy::Bounce);
    assert_eq!(sim.balls.len(), 25);
    assert_eq!(sim.max_x, 640);
    assert_eq!(sim.max_y, 480);
    assert_eq!(sim.policy, Policy::Bounce);
    for (i, b) in sim.balls.iter().enumerate() {
        assert_eq!(b.number, i);
        assert!(b.visible);
        assert!(b.x >= 0 && b.x < 640);
        assert!(b.y >= 0 && b.y < 480);
    }
}

#[test]
fn fresh_simulation_is_within_bounds() {
    let mut rng = rand::rng();
    let mut sim = Simulation::new(10, &mut rng, 640, 480, Policy::Bounce);
    assert!(sim.within_bounds());
    sim.step();
}

#[test]
fn within_bounds_detects_escape() {
    let mut far = fixed_ball(0, 100, 100, 5, 2);
    far.x = 600000000;
    let sim = sim_of(vec![far], Policy::Bounce);
    assert!(!sim.within_bounds());
}

use bouncr::ball::{Ball, Color};

fn plain_color() -> Color {
    Color { r: 200, g: 100, b: 50, a: 255 }
}

fn still_ball(number: usize, x: i64, y: i64, radius: i64) -> Ball {
    Ball {
        number,
        x,
        y,
        speed: 0,
        radius,
        x_add: 1,
        y_add: 1,
        max_x: 100,
        max_y: 100,
        color: plain_color(),
        visible: true,
    }
}

#[test]
fn collide_at_distance_eight() {
    let a = still_ball(0, 10, 10, 5);
    let b = still_ball(1, 10, 18, 5);
    assert!(a.collides(&b));
}

#[test]
fn miss_at_distance_eleven() {
    let a = still_ball(0, 10, 10, 5);
    let b = still_ball(1, 10, 21, 5);
    assert!(!a.collides(&b));
}

#[test]
fn collide_at_exact_touching_distance() {
    let a = still_ball(0, 10, 10, 5);
    let b = still_ball(1, 10, 20, 5);
    assert!(a.collides(&b));
}

#[test]
fn collision_is_symmetric() {
    let a = still_ball(0, 30, 40, 6);
    let b = still_ball(1, 33, 44, 3);
    assert_eq!(a.collides(&b), b.collides(&a));
    let c = still_ball(2, 90, 90, 3);
    assert_eq!(a.collides(&c), c.collides(&a));
}

#[test]
fn no_self_collision() {
    let a = still_ball(0, 50, 50, 5);
    assert!(!a.collides(&a));
}

#[test]
fn invisible_ball_is_silent() {
    let mut a = still_ball(0, 50, 50, 5);
    let b = still_ball(1, 52, 50, 5);
    a.visible = false;
    assert!(!a.collides(&b));
    assert!(!b.collides(&a));
}

#[test]
fn shift_moves_straight() {
    let mut b = still_ball(0, 50, 60, 5);
    b.speed = 2;
    b.y_add = -1;
    b.shift();
    assert_eq!(b.x, 52);
    assert_eq!(b.y, 58);
    assert_eq!(b.x_add, 1);
    assert_eq!(b.y_add, -1);
}

#[test]
fn shift_keeps_visible_flag() {
    let mut b = still_ball(0, 96, 50, 5);
    b.speed = 2;
    b.shift();
    assert!(b.visible);
    b.visible = false;
    b.shift();
    assert!(!b.visible);
}

#[test]
fn shift_flips_at_right_wall_once() {
    let mut b = still_ball(0, 96, 50, 5);
    b.speed = 2;
    b.shift();
    assert_eq!(b.x_add, -1);
    assert_eq!(b.x, 94);
    b.shift();
    assert_eq!(b.x_add, -1);
    assert_eq!(b.x, 92);
}

#[test]
fn shift_flips_at_left_wall() {
    let mut b = still_ball(0, 4, 50, 5);
    b.speed = 3;
    b.x_add = -1;
    b.shift();
    assert_eq!(b.x_add, 1);
    assert_eq!(b.x, 7);
}

#[test]
fn shift_checks_wall_before_moving() {
    // The boundary check runs on the pre-move position: a ball heading away
    // from the wall but still touching it reverses back toward the wall.
    let mut b = still_ball(0, 96, 50, 5);
    b.speed = 2;
    b.x_add = -1;
    b.shift();
    assert_eq!(b.x_add, 1);
    assert_eq!(b.x, 98);
}

#[test]
fn reverse_negates_both_signs() {
    let mut b = still_ball(0, 50, 50, 5);
    b.y_add = -1;
    b.reverse();
    assert_eq!(b.x_add, -1);
    assert_eq!(b.y_add, 1);
    b.reverse();
    assert_eq!(b.x_add, 1);
    assert_eq!(b.y_add, -1);
}

#[test]
fn new_ball_attributes_in_ranges() {
    let mut rng = rand::rng();
    for number in 0..50usize {
        let b = Ball::new(number, &mut rng, 640, 480);
        assert_eq!(b.number, number);
        assert!(b.x >= 0 && b.x < 640);
        assert!(b.y >= 0 && b.y < 480);
        assert!(b.radius >= 3 && b.radius < 10);
        assert!(b.speed >= 1 && b.speed < 4);
        assert!(b.x_add == 1 || b.x_add == -1);
        assert!(b.y_add == 1 || b.y_add == -1);
        assert_eq!(b.max_x, 640);
        assert_eq!(b.max_y, 480);
        assert_eq!(b.color.a, 255);
        assert!(b.visible);
    }
}

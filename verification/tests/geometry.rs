use pong_core::actor::{clamp_i64, ColliderBounds, ColliderType, RectangleDefinition, Vec2};
use pong_core::collision_helper::{collides, separation, separation_vec};
use pong_core::math_helper::{isqrt_u128, mul_div, to_pixels};

fn rect(up: i64, down: i64, left: i64, right: i64) -> ColliderBounds {
    ColliderBounds::Rectangle {
        up,
        down,
        left,
        right,
    }
}

fn circle(radius: i64, x: i64, y: i64) -> ColliderBounds {
    ColliderBounds::Circle {
        radius,
        center: Vec2 { x, y },
    }
}

#[test]
fn vec2_length_exact() {
    let v = Vec2 { x: 3000, y: 4000 };
    assert_eq!(v.length_squared(), 25_000_000);
    assert_eq!(v.length(), 5000);
}

#[test]
fn vec2_length_rounds_down() {
    let v = Vec2 { x: 1000, y: 1000 };
    // sqrt(2_000_000) = 1414.2..., rounded down
    assert_eq!(v.length(), 1414);
}

#[test]
fn isqrt_edges() {
    assert_eq!(isqrt_u128(0), 0);
    assert_eq!(isqrt_u128(1), 1);
    assert_eq!(isqrt_u128(3), 1);
    assert_eq!(isqrt_u128(4), 2);
    assert_eq!(isqrt_u128(u128::from(u64::MAX)), 4294967295);
}

#[test]
fn mul_div_truncates_toward_zero() {
    assert_eq!(mul_div(7, 1, 2), 3);
    assert_eq!(mul_div(-7, 1, 2), -3);
    assert_eq!(mul_div(105, 105, 100), 110);
}

#[test]
fn clamp_picks_nearest_bound() {
    assert_eq!(clamp_i64(5, 0, 10), 5);
    assert_eq!(clamp_i64(-5, 0, 10), 0);
    assert_eq!(clamp_i64(15, 0, 10), 10);
}

#[test]
fn to_pixels_rounds_half_away_from_zero() {
    assert_eq!(to_pixels(1499), 1);
    assert_eq!(to_pixels(1500), 2);
    assert_eq!(to_pixels(-1499), -1);
    assert_eq!(to_pixels(-1500), -2);
    assert_eq!(to_pixels(0), 0);
}

#[test]
fn bounds_from_rectangle() {
    let shape = ColliderType::Rectangle(RectangleDefinition {
        width: 20_000,
        height: 10_000,
    });
    let pos = Vec2 {
        x: 100_000,
        y: 50_000,
    };
    let b = ColliderBounds::from(&shape, &pos);
    assert_eq!(b, rect(45_000, 55_000, 90_000, 110_000));
}

#[test]
fn bounds_from_circle() {
    let shape = ColliderType::Circle { radius: 23_000 };
    let pos = Vec2 { x: 7, y: 8 };
    let b = ColliderBounds::from(&shape, &pos);
    assert_eq!(b, circle(23_000, 7, 8));
}

#[test]
fn collides_is_symmetric() {
    // all shape-pair orderings over a small menagerie
    let shapes = [
        circle(10_000, 0, 0),
        circle(5_000, 12_000, 0),
        rect(-5_000, 5_000, -5_000, 5_000),
        rect(8_000, 20_000, 8_000, 20_000),
        circle(1, 100_000, 100_000),
    ];
    for a in shapes.iter() {
        for b in shapes.iter() {
            assert_eq!(collides(*a, *b), collides(*b, *a));
        }
    }
}

#[test]
fn touching_rectangles_collide() {
    // sharing exactly the one corner point (10, 10)
    let a = rect(0, 10, 0, 10);
    let b = rect(10, 20, 10, 20);
    assert!(collides(a, b));
    assert!(collides(b, a));
    // one unit apart: no longer colliding
    let c = rect(11, 20, 11, 20);
    assert!(!collides(a, c));
}

#[test]
fn circle_inside_rect_separation_is_minus_radius() {
    let c = circle(23_000, 50_000, 50_000);
    let r = rect(0, 100_000, 0, 100_000);
    assert!(collides(c, r));
    assert_eq!(separation(c, r), -23_000);
    assert!(separation(c, r) < 0);
}

#[test]
fn circle_rect_separation_outside() {
    // center 30_000 to the right of the rectangle's right edge
    let c = circle(10_000, 130_000, 50_000);
    let r = rect(0, 100_000, 0, 100_000);
    assert!(!collides(c, r));
    assert_eq!(separation(c, r), 20_000);
    let v = separation_vec(c, r);
    assert_eq!(v, Vec2 { x: 30_000, y: 0 });
}

#[test]
fn circle_circle_cases() {
    let a = circle(10_000, 0, 0);
    let b = circle(5_000, 30_000, 0);
    assert!(!collides(a, b));
    assert_eq!(separation(a, b), 15_000);
    assert_eq!(separation_vec(a, b), Vec2 { x: -30_000, y: 0 });
    // exactly touching counts as colliding
    let t = circle(5_000, 15_000, 0);
    assert!(collides(a, t));
    assert_eq!(separation(a, t), 0);
}

#[test]
fn rect_rect_separation_vec_direction() {
    // paddle below a wall whose bottom edge is y == 0
    let wall = rect(-600_000, 0, 0, 800_000);
    let paddle = rect(-1_499, 48_501, 32_500, 47_500);
    assert!(collides(paddle, wall));
    let v = separation_vec(paddle, wall);
    // pushed down by exactly the penetration: wall.down - paddle.up
    assert_eq!(v.y, 1_499);
}

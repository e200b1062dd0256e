use pong_core::actor::{Actor, DrawCmd, Vec2};
use pong_core::ball::{circle_spans, Ball, Span};
use pong_core::math_helper::{get_point_on_unit_circle, get_random_point_on_unit_circle};
use pong_core::player_paddle::PlayerPaddle;
use pong_core::scoreboard::{score_text, u32_decimal, Scoreboard};
use pong_core::wall::{Wall, WallType};

#[test]
fn decimal_digits() {
    assert_eq!(u32_decimal(0), b"0".to_vec());
    assert_eq!(u32_decimal(7), b"7".to_vec());
    assert_eq!(u32_decimal(10), b"10".to_vec());
    assert_eq!(u32_decimal(305), b"305".to_vec());
    assert_eq!(u32_decimal(u32::MAX), b"4294967295".to_vec());
}

#[test]
fn score_line_composition() {
    assert_eq!(score_text(0, 0), b"0 : 0".to_vec());
    assert_eq!(score_text(12, 3), b"12 : 3".to_vec());
}

#[test]
fn ball_draw_is_rounded_circle() {
    let b = Ball {
        position: Vec2 { x: 400_500, y: 299_499 },
        initial_position: Vec2 { x: 400_500, y: 299_499 },
        velocity: Vec2 { x: 1, y: 0 },
        radius: 23_000,
    };
    match b.draw() {
        DrawCmd::Circle {
            center_x,
            center_y,
            radius,
        } => {
            assert_eq!(center_x, 401);
            assert_eq!(center_y, 299);
            assert_eq!(radius, 23);
        }
        _ => panic!("ball draws a circle"),
    }
}

#[test]
fn paddle_draw_is_top_left_rect() {
    let p = PlayerPaddle::new(&Vec2 { x: 40_000, y: 300_000 }, true);
    match p.draw() {
        DrawCmd::Rect {
            x,
            y,
            width,
            height,
        } => {
            // left edge 40_000 - 7_500, top edge 300_000 - 25_000
            assert_eq!(x, 33);
            assert_eq!(y, 275);
            assert_eq!(width, 15);
            assert_eq!(height, 50);
        }
        _ => panic!("paddle draws a rectangle"),
    }
}

#[test]
fn wall_draws_nothing() {
    let w = Wall::new(&Vec2 { x: 0, y: 0 }, 800_000, 600_000, WallType::Regular);
    assert!(matches!(w.draw(), DrawCmd::Nothing));
}

#[test]
fn scoreboard_draw_carries_text() {
    let s = Scoreboard::new(&Vec2 { x: 400_000, y: 50_000 });
    match Actor::Scoreboard(s).draw() {
        DrawCmd::Text {
            text,
            center_x,
            center_y,
        } => {
            assert_eq!(text, b"0 : 0".to_vec());
            assert_eq!(center_x, 400);
            assert_eq!(center_y, 50);
        }
        _ => panic!("scoreboard draws text"),
    }
}

/// The midpoint circle walk as the rasterizer promises it, replayed
/// step by step, collecting the same mirrored scanlines.
fn reference_spans(cx: i64, cy: i64, r: i64) -> Vec<Span> {
    let diameter = r * 2;
    let mut x = r - 1;
    let mut y: i64 = 0;
    let mut tx: i64 = 1;
    let mut ty: i64 = 1;
    let mut error = tx - diameter;
    let mut out = Vec::new();
    while x >= y {
        out.push(Span {
            x_start: cx - x,
            x_end: cx + x,
            y: cy + y,
        });
        out.push(Span {
            x_start: cx - x,
            x_end: cx + x,
            y: cy - y,
        });
        if error <= 0 {
            y += 1;
            error += ty;
            ty += 2;
        }
        if error > 0 {
            out.push(Span {
                x_start: cx - y,
                x_end: cx + y,
                y: cy + x,
            });
            out.push(Span {
                x_start: cx - y,
                x_end: cx + y,
                y: cy - x,
            });
            x -= 1;
            tx += 2;
            error += tx - diameter;
        }
    }
    out
}

#[test]
fn circle_spans_match_midpoint_walk() {
    for r in [0, 1, 2, 3, 10, 23, 100] {
        let got = circle_spans(400, 300, r);
        let want = reference_spans(400, 300, r);
        assert_eq!(got, want, "radius {}", r);
    }
}

#[test]
fn circle_spans_stay_in_bounding_box() {
    let r = 23;
    let (cx, cy) = (100, 200);
    for s in circle_spans(cx, cy, r) {
        assert!(cx - r <= s.x_start && s.x_start <= s.x_end && s.x_end <= cx + r);
        assert!(cy - r <= s.y && s.y <= cy + r);
    }
}

#[test]
fn unit_points_lie_on_the_circle() {
    for k in 0..32u64 {
        let (x, y) = get_point_on_unit_circle(k);
        assert_eq!(x * x + y * y, 1_000_000, "k = {}", k);
    }
}

#[test]
fn random_unit_point_lies_on_the_circle() {
    // exercises the random draw behind the library's only outside call
    for _ in 0..64 {
        let (x, y) = get_random_point_on_unit_circle();
        assert_eq!(x * x + y * y, 1_000_000);
    }
}

use pong_core::actor::{Actor, ActorData, GameKey, KeysPressed, UpdateInfo, Vec2};
use pong_core::ball::Ball;
use pong_core::player_paddle::PlayerPaddle;
use pong_core::scoreboard::Scoreboard;
use pong_core::wall::{Wall, WallType};
use pong_core::world::{should_process_frame, FixedTimer, World, FIXED_UPDATE_TIME_MICROS};

const FIXED_DT: u64 = FIXED_UPDATE_TIME_MICROS;

fn info(dt: u64) -> UpdateInfo {
    UpdateInfo {
        keys_pressed: KeysPressed::default(),
        elapsed_micros: dt,
    }
}

fn ball_at(x: i64, y: i64, vx: i64, vy: i64) -> Ball {
    Ball {
        position: Vec2 { x, y },
        initial_position: Vec2 { x, y },
        velocity: Vec2 { x: vx, y: vy },
        radius: 23_000,
    }
}

fn ball_of(a: &Actor) -> Ball {
    match a {
        Actor::Ball(b) => *b,
        _ => panic!("expected a ball"),
    }
}

fn scores_of(a: &Actor) -> (u32, u32) {
    match a {
        Actor::Scoreboard(s) => (s.data.left_score, s.data.right_score),
        _ => panic!("expected a scoreboard"),
    }
}

#[test]
fn free_flight_advances_by_velocity_times_dt() {
    // field center, 100 px/s rightward, one fixed tick of 1/60 s:
    // x advances by 100_000 * 16666 / 1_000_000 = 1666 fixed units,
    // about 1.667 pixels, and the velocity is unchanged
    let mut w = World::new();
    w.add_actor(Actor::Ball(ball_at(400_000, 300_000, 100_000, 0)));
    w.fixed_update_all(&info(FIXED_DT));
    let b = ball_of(&w.actors[0]);
    assert_eq!(b.position, Vec2 { x: 401_666, y: 300_000 });
    assert_eq!(b.velocity, Vec2 { x: 100_000, y: 0 });
}

#[test]
fn bounce_reflects_x_and_speeds_up() {
    // ball moving left into a static rectangle it overlaps on its left
    // edge: |sep.x| > |sep.y|, so x reflects and the speed scales by
    // the bounce factor; y keeps its sign
    let mut w = World::new();
    w.add_actor(Actor::Ball(ball_at(100_000, 100_000, -50_000, 0)));
    w.add_actor(Actor::Wall(Wall::new(
        &Vec2 { x: 70_000, y: 100_000 },
        20_000,
        200_000,
        WallType::Regular,
    )));
    w.fixed_update_all(&info(FIXED_DT));
    let b = ball_of(&w.actors[0]);
    // integration first: x = 100_000 - 50_000 * 16666 / 1_000_000 = 99_167
    // wall right edge 80_000; sep_vec = (19_167, 0); sep = 19_167 - 23_000
    // reflect x then scale: 50_000 * 105 / 100 = 52_500
    assert_eq!(b.velocity, Vec2 { x: 52_500, y: 0 });
    // push-out: 52_500 * 3_833 / 50_000 = 4_024 added to 99_167
    assert_eq!(b.position, Vec2 { x: 103_191, y: 100_000 });
}

#[test]
fn scoring_on_left_wall_awards_right_player() {
    let mut w = World::new();
    w.add_actor(Actor::Ball(ball_at(10_000, 300_000, -100_000, 0)));
    w.add_actor(Actor::Wall(Wall::new(
        &Vec2 { x: -400_000, y: 300_000 },
        800_000,
        600_000,
        WallType::Left,
    )));
    w.add_actor(Actor::Scoreboard(Scoreboard::new(&Vec2 {
        x: 400_000,
        y: 50_000,
    })));
    w.fixed_update_all(&info(FIXED_DT));
    let b = ball_of(&w.actors[0]);
    // reset in place to the spawn point
    assert_eq!(b.position, Vec2 { x: 10_000, y: 300_000 });
    // fresh velocity of exactly the initial speed: |v|^2 == 125_000^2
    let v2 = (b.velocity.x as i128) * (b.velocity.x as i128)
        + (b.velocity.y as i128) * (b.velocity.y as i128);
    assert_eq!(v2, 15_625_000_000);
    // right player scores exactly one; left untouched
    assert_eq!(scores_of(&w.actors[2]), (0, 1));
}

#[test]
fn scoring_on_right_wall_awards_left_player() {
    let mut w = World::new();
    w.add_actor(Actor::Ball(ball_at(790_000, 300_000, 100_000, 0)));
    w.add_actor(Actor::Wall(Wall::new(
        &Vec2 { x: 1_200_000, y: 300_000 },
        800_000,
        600_000,
        WallType::Right,
    )));
    w.add_actor(Actor::Scoreboard(Scoreboard::new(&Vec2 {
        x: 400_000,
        y: 50_000,
    })));
    w.fixed_update_all(&info(FIXED_DT));
    assert_eq!(scores_of(&w.actors[2]), (1, 0));
}

#[test]
fn regular_wall_does_not_score() {
    // same geometry as the left-wall test, but a non-scoring boundary:
    // the ball bounces instead and nobody scores
    let mut w = World::new();
    w.add_actor(Actor::Ball(ball_at(10_000, 300_000, -100_000, 0)));
    w.add_actor(Actor::Wall(Wall::new(
        &Vec2 { x: -400_000, y: 300_000 },
        800_000,
        600_000,
        WallType::Regular,
    )));
    w.add_actor(Actor::Scoreboard(Scoreboard::new(&Vec2 {
        x: 400_000,
        y: 50_000,
    })));
    w.fixed_update_all(&info(FIXED_DT));
    let b = ball_of(&w.actors[0]);
    assert_eq!(scores_of(&w.actors[2]), (0, 0));
    // reflected rightward and sped up
    assert_eq!(b.velocity.x, 105_000);
}

#[test]
fn paddle_clamped_exactly_tangent_to_wall() {
    // paddle moving up into the bottom edge (y == 0) of the top wall:
    // it is pushed back down by exactly the y component of the
    // separation vector, ending with its top edge on the wall's bottom
    let mut w = World::new();
    let mut keys = KeysPressed::default();
    keys.press(GameKey::W);
    w.add_actor(Actor::PlayerPaddle(PlayerPaddle::new(
        &Vec2 { x: 40_000, y: 26_000 },
        true,
    )));
    w.add_actor(Actor::Wall(Wall::new(
        &Vec2 { x: 400_000, y: -300_000 },
        800_000,
        600_000,
        WallType::Regular,
    )));
    w.update_all(&UpdateInfo {
        keys_pressed: keys,
        elapsed_micros: FIXED_DT,
    });
    let p = match &w.actors[0] {
        Actor::PlayerPaddle(p) => *p,
        _ => panic!("expected a paddle"),
    };
    // moved up by 150_000 * 16666 / 1_000_000 = 2_499, to y = 23_501,
    // then pushed back to 25_000: top edge 25_000 - 25_000 == 0
    assert_eq!(p.position, Vec2 { x: 40_000, y: 25_000 });
}

#[test]
fn paddle_moves_down_unobstructed() {
    let mut w = World::new();
    let mut keys = KeysPressed::default();
    keys.press(GameKey::Down);
    // arrow keys drive the non-main paddle
    w.add_actor(Actor::PlayerPaddle(PlayerPaddle::new(
        &Vec2 { x: 760_000, y: 300_000 },
        false,
    )));
    w.update_all(&UpdateInfo {
        keys_pressed: keys,
        elapsed_micros: FIXED_DT,
    });
    let p = match &w.actors[0] {
        Actor::PlayerPaddle(p) => *p,
        _ => panic!("expected a paddle"),
    };
    assert_eq!(p.position, Vec2 { x: 760_000, y: 302_499 });
}

#[test]
fn paddle_ignores_other_player_keys() {
    let mut w = World::new();
    let mut keys = KeysPressed::default();
    keys.press(GameKey::Up);
    // main paddle reads W/S, not the arrows
    w.add_actor(Actor::PlayerPaddle(PlayerPaddle::new(
        &Vec2 { x: 40_000, y: 300_000 },
        true,
    )));
    w.update_all(&UpdateInfo {
        keys_pressed: keys,
        elapsed_micros: FIXED_DT,
    });
    let p = match &w.actors[0] {
        Actor::PlayerPaddle(p) => *p,
        _ => panic!("expected a paddle"),
    };
    assert_eq!(p.position, Vec2 { x: 40_000, y: 300_000 });
}

#[test]
fn keys_pressed_tracks_press_and_release() {
    let mut keys = KeysPressed::default();
    assert!(!keys.w && !keys.s && !keys.up && !keys.down);
    keys.press(GameKey::W);
    keys.press(GameKey::Down);
    assert!(keys.w && !keys.s && !keys.up && keys.down);
    keys.release(GameKey::W);
    assert!(!keys.w && keys.down);
}

#[test]
fn fixed_timer_pays_out_whole_quanta() {
    let mut t = FixedTimer::new();
    // exactly one quantum is not yet strictly over the threshold
    assert_eq!(t.advance(FIXED_DT), 0);
    assert_eq!(t.carry_micros, FIXED_DT);
    // one more microsecond tips it over
    assert_eq!(t.advance(1), 1);
    assert_eq!(t.carry_micros, 1);
    // a long frame pays several steps
    let mut t2 = FixedTimer::new();
    assert_eq!(t2.advance(50_000), 3);
    assert_eq!(t2.carry_micros, 50_000 - 3 * FIXED_DT);
}

#[test]
fn frame_cap_boundary() {
    assert!(!should_process_frame(16_665));
    assert!(should_process_frame(16_666));
    assert!(should_process_frame(1_000_000));
}

#[test]
fn scoring_ends_the_tick_early() {
    // two scoring walls both overlap the ball; the first one ends the
    // tick, so only one point is awarded
    let mut w = World::new();
    w.add_actor(Actor::Ball(ball_at(10_000, 300_000, -100_000, 0)));
    w.add_actor(Actor::Wall(Wall::new(
        &Vec2 { x: -400_000, y: 300_000 },
        900_000,
        600_000,
        WallType::Left,
    )));
    w.add_actor(Actor::Wall(Wall::new(
        &Vec2 { x: -400_000, y: 300_000 },
        900_000,
        600_000,
        WallType::Left,
    )));
    w.add_actor(Actor::Scoreboard(Scoreboard::new(&Vec2 {
        x: 400_000,
        y: 50_000,
    })));
    w.fixed_update_all(&info(FIXED_DT));
    assert_eq!(scores_of(&w.actors[3]), (0, 1));
}

#[test]
fn score_saturates_at_the_top() {
    // a score already at the ceiling stays there instead of wrapping
    let mut w = World::new();
    w.add_actor(Actor::Ball(ball_at(10_000, 300_000, -100_000, 0)));
    w.add_actor(Actor::Wall(Wall::new(
        &Vec2 { x: -400_000, y: 300_000 },
        800_000,
        600_000,
        WallType::Left,
    )));
    let mut sb = Scoreboard::new(&Vec2 {
        x: 400_000,
        y: 50_000,
    });
    sb.set_data(ActorData::Scoreboard(pong_core::scoreboard::ScoreboardData {
        left_score: 2,
        right_score: u32::MAX,
    }));
    w.add_actor(Actor::Scoreboard(sb));
    w.fixed_update_all(&info(FIXED_DT));
    assert_eq!(scores_of(&w.actors[2]), (2, u32::MAX));
}

#[test]
fn empty_world_ticks() {
    let mut w = World::new();
    w.update_all(&info(FIXED_DT));
    w.fixed_update_all(&info(FIXED_DT));
    assert_eq!(w.actors.len(), 0);
}

#[test]
fn ball_new_has_initial_speed() {
    let b = Ball::new(&Vec2 { x: 400_000, y: 300_000 });
    assert_eq!(b.radius, 23_000);
    assert_eq!(b.position, Vec2 { x: 400_000, y: 300_000 });
    let v2 = (b.velocity.x as i128) * (b.velocity.x as i128)
        + (b.velocity.y as i128) * (b.velocity.y as i128);
    assert_eq!(v2, 15_625_000_000);
}

#[test]
fn scoreboard_set_data_accepts_only_scores() {
    let mut s = Scoreboard::new(&Vec2 { x: 0, y: 0 });
    s.set_data(ActorData::Wall(WallType::Left));
    assert_eq!((s.data.left_score, s.data.right_score), (0, 0));
    s.set_data(ActorData::Scoreboard(pong_core::scoreboard::ScoreboardData {
        left_score: 3,
        right_score: 7,
    }));
    assert_eq!((s.data.left_score, s.data.right_score), (3, 7));
}

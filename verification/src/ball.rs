use vstd::prelude::*;

use crate::actor::{
    Actor, ActorData, Collider, ColliderBounds, ColliderType, DrawCmd, UpdateInfo, Vec2,
};
use crate::collision_helper::{lemma_length_fits, separation_vec, spec_separation_vec};
use crate::math_helper::{
    abs_i, get_random_point_on_unit_circle, lemma_unit_point_on_circle, mul_div_spec,
    spec_to_pixels, spec_unit_point, sqrt_floor, to_pixels, COORD_LIMIT, DT_LIMIT, MICROS_PER_SEC,
};
use crate::scoreboard::ScoreboardData;
use crate::wall::WallType;

verus! {

/// The speed a ball starts with after spawn or reset, in fixed-point
/// units per second (125 pixels per second).
pub const INITIAL_SPEED: i64 = 125_000;

/// `INITIAL_SPEED` in whole pixels per second; scaling an exact point on
/// the `FX_SCALE` circle by it gives a velocity of exact magnitude.
pub const INITIAL_SPEED_PX: i64 = 125;

/// The ball's radius, in fixed-point units (23 pixels).
pub const BALL_RADIUS: i64 = 23_000;

/// Each bounce scales the speed by `BOUNCE_NUM / BOUNCE_DEN` (1.05), so
/// rallies accelerate over time.
pub const BOUNCE_NUM: i64 = 105;

pub const BOUNCE_DEN: i64 = 100;

/// The moving circle: bounces off everything it touches, scores on the
/// tagged side walls.
#[derive(Copy, Clone, Debug, PartialEq, Eq, Structural)]
pub struct Ball {
    pub position: Vec2,
    pub initial_position: Vec2,
    pub velocity: Vec2,
    pub radius: i64,
}

/// The starting velocity chosen by direction index `k`: a point on the
/// `FX_SCALE` circle scaled to magnitude `INITIAL_SPEED`.
pub open spec fn spec_starting_velocity(k: int) -> Vec2 {
    let p = spec_unit_point(k);
    Vec2 { x: (p.0 * INITIAL_SPEED_PX) as i64, y: (p.1 * INITIAL_SPEED_PX) as i64 }
}

/// Every starting velocity has squared magnitude exactly
/// `INITIAL_SPEED * INITIAL_SPEED`.
pub proof fn lemma_starting_velocity_magnitude(k: int)
    ensures
        spec_starting_velocity(k).spec_len_sq() == (INITIAL_SPEED as int) * (INITIAL_SPEED as int),
        spec_starting_velocity(k).in_range(),
        spec_starting_velocity(k).spec_len_sq() >= 1,
{
    lemma_unit_point_on_circle(k);
    let p = spec_unit_point(k);
    let v = spec_starting_velocity(k);
    assert(-125000 <= p.0 * 125 <= 125000);
    assert(-125000 <= p.1 * 125 <= 125000);
    assert(v.x == p.0 * 125 && v.y == p.1 * 125);
    assert(v.x * v.x + v.y * v.y == 15625 * (p.0 * p.0 + p.1 * p.1)) by (nonlinear_arith)
        requires
            v.x == p.0 * 125,
            v.y == p.1 * 125,
    ;
    assert(v.spec_len_sq() == 15_625_000_000int);
    assert((INITIAL_SPEED as int) * (INITIAL_SPEED as int) == 15_625_000_000int);
}

/// Integration of one fixed step: the position advances by
/// `velocity * dt`, with `dt` in microseconds.
pub open spec fn spec_integrate(b: Ball, dt: int) -> Ball {
    Ball {
        position: b.position.spec_plus(b.velocity.spec_scaled(dt, MICROS_PER_SEC as int)),
        ..b
    }
}

/// The ball's absolute bounds at its current position.
pub open spec fn spec_ball_bounds(b: Ball) -> ColliderBounds {
    ColliderBounds::Circle { radius: b.radius, center: b.position }
}

/// The bounce response against a shape penetrated to depth `-sep`:
/// reflect the velocity component on the axis of larger penetration,
/// speed it up by the bounce factor, then advance out of penetration by
/// the new velocity scaled by `-sep` over the old speed.
pub open spec fn spec_bounce(b: Ball, sep_vec: Vec2, sep: int) -> Ball {
    let speed = sqrt_floor(b.velocity.spec_len_sq());
    let flipped = if abs_i(sep_vec.x as int) > abs_i(sep_vec.y as int) {
        Vec2 { x: (-b.velocity.x) as i64, y: b.velocity.y }
    } else {
        Vec2 { x: b.velocity.x, y: (-b.velocity.y) as i64 }
    };
    let v2 = flipped.spec_scaled(BOUNCE_NUM as int, BOUNCE_DEN as int);
    Ball {
        velocity: v2,
        position: b.position.spec_plus(v2.spec_scaled(-sep, speed)),
        ..b
    }
}

/// One more point for the side a wall awards: the left wall awards the
/// right player and the right wall the left player; a regular wall
/// awards nobody. Increments saturate at `u32::MAX`.
pub open spec fn spec_bump_score(s: ScoreboardData, wall: WallType) -> ScoreboardData {
    match wall {
        WallType::Left => ScoreboardData {
            right_score: if s.right_score < u32::MAX { (s.right_score + 1) as u32 } else { s.right_score },
            ..s
        },
        WallType::Right => ScoreboardData {
            left_score: if s.left_score < u32::MAX { (s.left_score + 1) as u32 } else { s.left_score },
            ..s
        },
        WallType::Regular => s,
    }
}

/// Scanning the actors from `i`, the first one that carries a score pair
/// takes the bumped pair; the scan stops there.
pub open spec fn spec_update_scoreboard(actors: Seq<Actor>, i: int, wall: WallType) -> Seq<Actor>
    decreases actors.len() - i,
{
    if i < 0 || i >= actors.len() {
        actors
    } else {
        match actors[i].spec_data() {
            Some(ActorData::Scoreboard(s)) => actors.update(
                i,
                actors[i].spec_with_data(ActorData::Scoreboard(spec_bump_score(s, wall))),
            ),
            _ => spec_update_scoreboard(actors, i + 1, wall),
        }
    }
}

/// What the rest of a fixed tick does from actor `i` on, with the
/// ball's own slot `skip` left out of the scan. An overlap with a
/// scoring wall resets the ball — to its spawn point, with the starting
/// velocity chosen by `k` — bumps the score and stops the tick; any
/// other overlap bounces, and the changed ball meets the remaining
/// actors in the same scan.
pub open spec fn spec_fixed_update_from(
    b: Ball,
    actors: Seq<Actor>,
    skip: int,
    i: int,
    k: int,
) -> (Ball, Seq<Actor>)
    decreases actors.len() - i,
{
    if i < 0 || i >= actors.len() {
        (b, actors)
    } else if i == skip {
        spec_fixed_update_from(b, actors, skip, i + 1, k)
    } else {
        match actors[i].spec_collider() {
            None => spec_fixed_update_from(b, actors, skip, i + 1, k),
            Some(col) => {
                let bounds = ColliderBounds::spec_from(col.collider, actors[i].spec_position());
                let sep_vec = spec_separation_vec(spec_ball_bounds(b), bounds);
                let sep = sqrt_floor(sep_vec.spec_len_sq()) - b.radius;
                if sep < 0 {
                    match actors[i].spec_data() {
                        Some(ActorData::Wall(wt)) => {
                            if wt == WallType::Left || wt == WallType::Right {
                                (
                                    Ball {
                                        position: b.initial_position,
                                        velocity: spec_starting_velocity(k),
                                        ..b
                                    },
                                    spec_update_scoreboard(actors, 0, wt),
                                )
                            } else {
                                spec_fixed_update_from(
                                    spec_bounce(b, sep_vec, sep),
                                    actors,
                                    skip,
                                    i + 1,
                                    k,
                                )
                            }
                        },
                        _ => spec_fixed_update_from(spec_bounce(b, sep_vec, sep), actors, skip, i + 1, k),
                    }
                } else {
                    spec_fixed_update_from(b, actors, skip, i + 1, k)
                }
            },
        }
    }
}

/// A whole fixed tick: integrate the position, then resolve collisions
/// against every other actor in collection order.
pub open spec fn spec_fixed_update(
    b: Ball,
    actors: Seq<Actor>,
    skip: int,
    dt: int,
    k: int,
) -> (Ball, Seq<Actor>) {
    spec_fixed_update_from(spec_integrate(b, dt), actors, skip, 0, k)
}

/// Awarding a point never changes how many actors there are.
pub proof fn lemma_update_scoreboard_len(actors: Seq<Actor>, i: int, wall: WallType)
    ensures
        spec_update_scoreboard(actors, i, wall).len() == actors.len(),
    decreases actors.len() - i,
{
    if 0 <= i && i < actors.len() {
        lemma_update_scoreboard_len(actors, i + 1, wall);
    }
}

/// A tick never changes how many actors there are.
pub proof fn lemma_fixed_update_from_len(b: Ball, actors: Seq<Actor>, skip: int, i: int, k: int)
    ensures
        spec_fixed_update_from(b, actors, skip, i, k).1.len() == actors.len(),
    decreases actors.len() - i,
{
    if 0 <= i && i < actors.len() {
        if i == skip {
            lemma_fixed_update_from_len(b, actors, skip, i + 1, k);
        } else {
            match actors[i].spec_collider() {
                None => {
                    lemma_fixed_update_from_len(b, actors, skip, i + 1, k);
                },
                Some(col) => {
                    let bounds = ColliderBounds::spec_from(col.collider, actors[i].spec_position());
                    let sep_vec = spec_separation_vec(spec_ball_bounds(b), bounds);
                    let sep = sqrt_floor(sep_vec.spec_len_sq()) - b.radius;
                    if sep < 0 {
                        match actors[i].spec_data() {
                            Some(ActorData::Wall(wt)) => {
                                if wt == WallType::Left || wt == WallType::Right {
                                    lemma_update_scoreboard_len(actors, 0, wt);
                                } else {
                                    lemma_fixed_update_from_len(
                                        spec_bounce(b, sep_vec, sep),
                                        actors,
                                        skip,
                                        i + 1,
                                        k,
                                    );
                                }
                            },
                            _ => {
                                lemma_fixed_update_from_len(
                                    spec_bounce(b, sep_vec, sep),
                                    actors,
                                    skip,
                                    i + 1,
                                    k,
                                );
                            },
                        }
                    } else {
                        lemma_fixed_update_from_len(b, actors, skip, i + 1, k);
                    }
                },
            }
        }
    }
}

/// With no obstacle anywhere in the scan, the rest of a tick changes nothing.
proof fn lemma_fixed_update_from_no_obstacles(
    b: Ball,
    actors: Seq<Actor>,
    skip: int,
    i: int,
    k: int,
)
    requires
        forall|j: int|
            0 <= j < actors.len() && j != skip ==> (#[trigger] actors[j]).spec_collider() is None,
    ensures
        spec_fixed_update_from(b, actors, skip, i, k) == (b, actors),
    decreases actors.len() - i,
{
    if 0 <= i && i < actors.len() {
        lemma_fixed_update_from_no_obstacles(b, actors, skip, i + 1, k);
    }
}

/// Given zero obstacles, a fixed tick advances the position by exactly
/// `velocity * dt` and leaves the velocity unchanged.
pub proof fn lemma_fixed_update_no_obstacles(
    b: Ball,
    actors: Seq<Actor>,
    skip: int,
    dt: int,
    k: int,
)
    requires
        forall|j: int|
            0 <= j < actors.len() && j != skip ==> (#[trigger] actors[j]).spec_collider() is None,
    ensures
        spec_fixed_update(b, actors, skip, dt, k) == (spec_integrate(b, dt), actors),
        spec_fixed_update(b, actors, skip, dt, k).0.position == b.position.spec_plus(
            b.velocity.spec_scaled(dt, MICROS_PER_SEC as int),
        ),
        spec_fixed_update(b, actors, skip, dt, k).0.velocity == b.velocity,
{
    lemma_fixed_update_from_no_obstacles(spec_integrate(b, dt), actors, skip, 0, k);
}

/// A bounce whose penetration is deeper on the x axis reflects the x
/// component of the velocity and scales both components by the bounce
/// factor: the y component keeps its sign, and the speed never decreases.
pub proof fn lemma_bounce_reflects_x(b: Ball, sep_vec: Vec2, sep: int)
    requires
        b.wf(),
        abs_i(sep_vec.x as int) > abs_i(sep_vec.y as int),
    ensures
        spec_bounce(b, sep_vec, sep).velocity.x == mul_div_spec(
            -(b.velocity.x as int),
            BOUNCE_NUM as int,
            BOUNCE_DEN as int,
        ),
        spec_bounce(b, sep_vec, sep).velocity.y == mul_div_spec(
            b.velocity.y as int,
            BOUNCE_NUM as int,
            BOUNCE_DEN as int,
        ),
        spec_bounce(b, sep_vec, sep).velocity.spec_len_sq() >= b.velocity.spec_len_sq(),
{
    lemma_bounce_wf(b, sep_vec, sep);
}

/// The scan that awards a point bumps exactly the first actor carrying a
/// score pair, and no other.
proof fn lemma_update_scoreboard_first(
    actors: Seq<Actor>,
    i: int,
    j: int,
    s: ScoreboardData,
    wall: WallType,
)
    requires
        0 <= i <= j < actors.len(),
        actors[j].spec_data() == Some(ActorData::Scoreboard(s)),
        forall|l: int|
            i <= l < j ==> !((#[trigger] actors[l]).spec_data() matches Some(
                ActorData::Scoreboard(_),
            )),
    ensures
        spec_update_scoreboard(actors, i, wall) == actors.update(
            j,
            actors[j].spec_with_data(ActorData::Scoreboard(spec_bump_score(s, wall))),
        ),
    decreases j - i,
{
    if i < j {
        lemma_update_scoreboard_first(actors, i + 1, j, s, wall);
    }
}

/// A tick that reaches an overlap with a left-tagged wall resets the
/// ball to its spawn point, gives it a fresh velocity of exactly the
/// initial speed, and awards the right player one point on the first
/// scoreboard, leaving the left score untouched.
pub proof fn lemma_score_on_left_wall(
    b: Ball,
    actors: Seq<Actor>,
    skip: int,
    i: int,
    j: int,
    s: ScoreboardData,
    k: int,
)
    requires
        0 <= i < actors.len(),
        i != skip,
        actors[i].spec_data() == Some(ActorData::Wall(WallType::Left)),
        actors[i].spec_collider() matches Some(col) && sqrt_floor(
            spec_separation_vec(
                spec_ball_bounds(b),
                ColliderBounds::spec_from(col.collider, actors[i].spec_position()),
            ).spec_len_sq(),
        ) - b.radius < 0,
        0 <= j < actors.len(),
        actors[j].spec_data() == Some(ActorData::Scoreboard(s)),
        forall|l: int|
            0 <= l < j ==> !((#[trigger] actors[l]).spec_data() matches Some(
                ActorData::Scoreboard(_),
            )),
        s.right_score < u32::MAX,
    ensures
        ({
            let r = spec_fixed_update_from(b, actors, skip, i, k);
            &&& r.0.position == b.initial_position
            &&& r.0.velocity.spec_len_sq() == (INITIAL_SPEED as int) * (INITIAL_SPEED as int)
            &&& r.1 == actors.update(
                j,
                actors[j].spec_with_data(ActorData::Scoreboard(ScoreboardData {
                    left_score: s.left_score,
                    right_score: (s.right_score + 1) as u32,
                })),
            )
        }),
{
    lemma_starting_velocity_magnitude(k);
    lemma_update_scoreboard_first(actors, 0, j, s, WallType::Left);
    assert(spec_bump_score(s, WallType::Left) == (ScoreboardData {
        left_score: s.left_score,
        right_score: (s.right_score + 1) as u32,
    }));
}

/// Magnitudes compare as their squares do.
pub proof fn lemma_abs_square_le(a: int, b: int)
    requires
        abs_i(a) <= abs_i(b),
    ensures
        a * a <= b * b,
{
    let aa = abs_i(a);
    let bb = abs_i(b);
    assert(aa * aa <= bb * bb) by (nonlinear_arith)
        requires
            0 <= aa <= bb,
    ;
    if a >= 0 {
        assert(aa == a);
    } else {
        assert(aa == -a);
        assert(aa * aa == a * a) by (nonlinear_arith)
            requires
                aa == -a,
        ;
    }
    if b >= 0 {
        assert(bb == b);
    } else {
        assert(bb == -b);
        assert(bb * bb == b * b) by (nonlinear_arith)
            requires
                bb == -b,
        ;
    }
}

/// Scaling a component by the bounce factor never shrinks its magnitude.
pub proof fn lemma_scale_up_keeps_magnitude(x: int)
    requires
        -COORD_LIMIT <= x <= COORD_LIMIT,
    ensures
        abs_i(mul_div_spec(x, BOUNCE_NUM as int, BOUNCE_DEN as int)) >= abs_i(x),
{
    if x >= 0 {
        vstd::arithmetic::div_mod::lemma_div_multiples_vanish(x, 100);
        vstd::arithmetic::div_mod::lemma_div_is_ordered(100 * x, x * 105, 100);
        assert((x * 105) / 100 >= x);
    } else {
        let m = -x;
        vstd::arithmetic::div_mod::lemma_div_multiples_vanish(m, 100);
        vstd::arithmetic::div_mod::lemma_div_is_ordered(100 * m, m * 105, 100);
        assert((m * 105) / 100 >= m);
        assert(-(x * 105) == m * 105);
    }
}

/// A bounce keeps the ball well-formed and never slows it down.
pub proof fn lemma_bounce_wf(b: Ball, sep_vec: Vec2, sep: int)
    requires
        b.wf(),
    ensures
        spec_bounce(b, sep_vec, sep).wf(),
        spec_bounce(b, sep_vec, sep).velocity.spec_len_sq() >= b.velocity.spec_len_sq(),
        spec_bounce(b, sep_vec, sep).initial_position == b.initial_position,
        spec_bounce(b, sep_vec, sep).radius == b.radius,
{
    let flipped = if abs_i(sep_vec.x as int) > abs_i(sep_vec.y as int) {
        Vec2 { x: (-b.velocity.x) as i64, y: b.velocity.y }
    } else {
        Vec2 { x: b.velocity.x, y: (-b.velocity.y) as i64 }
    };
    let v2 = flipped.spec_scaled(BOUNCE_NUM as int, BOUNCE_DEN as int);
    assert(abs_i(flipped.x as int) == abs_i(b.velocity.x as int));
    assert(abs_i(flipped.y as int) == abs_i(b.velocity.y as int));
    lemma_scale_up_keeps_magnitude(flipped.x as int);
    lemma_scale_up_keeps_magnitude(flipped.y as int);
    lemma_abs_square_le(b.velocity.x as int, v2.x as int);
    lemma_abs_square_le(b.velocity.y as int, v2.y as int);
}

impl Ball {
    pub open spec fn wf(self) -> bool {
        &&& self.position.in_range()
        &&& self.initial_position.in_range()
        &&& self.velocity.in_range()
        &&& 0 < self.radius <= COORD_LIMIT
        &&& self.velocity.spec_len_sq() >= 1
    }

    /// A freshly spawned ball: at `position`, remembering it as the spot
    /// to respawn at, with a random starting velocity of exact magnitude
    /// `INITIAL_SPEED`.
    pub fn new(position: &Vec2) -> (b: Ball)
        requires
            position.in_range(),
        ensures
            b.position == *position,
            b.initial_position == *position,
            b.radius == BALL_RADIUS,
            b.velocity.spec_len_sq() == (INITIAL_SPEED as int) * (INITIAL_SPEED as int),
            exists|k: int| b.velocity == spec_starting_velocity(k),
            b.wf(),
    {
        Ball {
            position: *position,
            initial_position: *position,
            velocity: Ball::get_random_starting_velocity(),
            radius: BALL_RADIUS,
        }
    }

    /// A random direction scaled to the initial speed.
    pub fn get_random_starting_velocity() -> (v: Vec2)
        ensures
            exists|k: int| v == spec_starting_velocity(k),
            v.spec_len_sq() == (INITIAL_SPEED as int) * (INITIAL_SPEED as int),
            v.in_range(),
            v.spec_len_sq() >= 1,
    {
        let p = get_random_point_on_unit_circle();
        let ghost k: int = choose|k: int| (p.0 as int, p.1 as int) == spec_unit_point(k);
        proof {
            lemma_unit_point_on_circle(k);
        }
        let v = Vec2 { x: p.0 * INITIAL_SPEED_PX, y: p.1 * INITIAL_SPEED_PX };
        proof {
            lemma_starting_velocity_magnitude(k);
            assert(v == spec_starting_velocity(k));
        }
        v
    }

    pub fn position(&self) -> (p: &Vec2)
        ensures
            *p == self.position,
    {
        &self.position
    }

    /// The ball has no player input; the variable-rate update does nothing.
    pub fn update(&mut self, _info: &UpdateInfo)
        ensures
            *final(self) == *old(self),
    {
    }

    /// One fixed physics step: integrate the position, then walk every
    /// other actor in collection order, scoring on tagged side walls and
    /// bouncing off everything else it overlaps. The scan is
    /// order-dependent by design: a scoring event ends the tick early,
    /// and a bounce moves the ball before the next comparison.
    pub fn fixed_update(&mut self, self_index: usize, actors: &mut Vec<Actor>, info: &UpdateInfo)
        requires
            old(self).wf(),
            forall|j: int| 0 <= j < old(actors)@.len() ==> (#[trigger] old(actors)@[j]).wf(),
            info.elapsed_micros <= DT_LIMIT,
        ensures
            final(self).wf(),
            final(actors)@.len() == old(actors)@.len(),
            forall|j: int| 0 <= j < final(actors)@.len() ==> (#[trigger] final(actors)@[j]).wf(),
            exists|k: int|
                (*final(self), final(actors)@) == spec_fixed_update(
                    *old(self),
                    old(actors)@,
                    self_index as int,
                    info.elapsed_micros as int,
                    k,
                ),
    {
        let dt: i64 = info.elapsed_micros as i64;
        self.position = self.position.plus(self.velocity.scaled(dt, MICROS_PER_SEC));
        let ghost b0 = *self;
        let ghost a0 = actors@;
        let ghost skip = self_index as int;
        proof {
            assert(b0 == spec_integrate(*old(self), info.elapsed_micros as int));
        }
        let mut i: usize = 0;
        while i < actors.len()
            invariant
                self.wf(),
                actors@ == a0,
                i <= actors.len(),
                skip == self_index as int,
                a0 == old(actors)@,
                b0 == spec_integrate(*old(self), info.elapsed_micros as int),
                forall|j: int| 0 <= j < a0.len() ==> (#[trigger] a0[j]).wf(),
                forall|k: int|
                    #[trigger] spec_fixed_update_from(b0, a0, skip, 0, k) == spec_fixed_update_from(
                        *self,
                        a0,
                        skip,
                        i as int,
                        k,
                    ),
            decreases actors.len() - i,
        {
            let ghost prev = *self;
            if i != self_index {
                let a = actors[i];
                proof {
                    assert(a == a0[i as int]);
                    assert(a.wf());
                }
                match a.get_collider() {
                    None => {
                        proof {
                            assert forall|k: int|
                                #[trigger] spec_fixed_update_from(b0, a0, skip, 0, k)
                                    == spec_fixed_update_from(*self, a0, skip, i as int + 1, k) by {
                                assert(spec_fixed_update_from(b0, a0, skip, 0, k)
                                    == spec_fixed_update_from(prev, a0, skip, i as int, k));
                            }
                        }
                    },
                    Some(col) => {
                        let bounds = col.to_bounds(*a.position());
                        let my_bounds = ColliderBounds::Circle {
                            radius: self.radius,
                            center: self.position,
                        };
                        let sep_vec = separation_vec(my_bounds, bounds);
                        let len = sep_vec.length();
                        proof {
                            lemma_length_fits(sep_vec, len as int);
                            assert(my_bounds == spec_ball_bounds(prev));
                        }
                        let sep: i64 = (len as i64) - self.radius;
                        if sep < 0 {
                            let mut scoring = false;
                            let mut wt = WallType::Regular;
                            match a.get_data() {
                                Some(ActorData::Wall(w)) => match w {
                                    WallType::Left => {
                                        scoring = true;
                                        wt = w;
                                    },
                                    WallType::Right => {
                                        scoring = true;
                                        wt = w;
                                    },
                                    WallType::Regular => {},
                                },
                                _ => {},
                            }
                            if scoring {
                                proof {
                                    assert(a.spec_data() == Some(ActorData::Wall(wt)));
                                    assert(wt == WallType::Left || wt == WallType::Right);
                                }
                                self.position = self.initial_position;
                                self.velocity = Ball::get_random_starting_velocity();
                                self.update_scoreboard(actors, wt);
                                proof {
                                    let kk = choose|k: int|
                                        self.velocity == spec_starting_velocity(k);
                                    lemma_starting_velocity_magnitude(kk);
                                    assert((*self, actors@) == spec_fixed_update_from(
                                        prev,
                                        a0,
                                        skip,
                                        i as int,
                                        kk,
                                    ));
                                    assert(spec_fixed_update_from(b0, a0, skip, 0, kk)
                                        == spec_fixed_update_from(prev, a0, skip, i as int, kk));
                                    assert((*self, actors@) == spec_fixed_update(
                                        *old(self),
                                        old(actors)@,
                                        self_index as int,
                                        info.elapsed_micros as int,
                                        kk,
                                    ));
                                }
                                return;
                            } else {
                                proof {
                                    assert(match a.spec_data() {
                                        Some(ActorData::Wall(w)) => w == WallType::Regular,
                                        _ => true,
                                    });
                                }
                                let speed = self.velocity.length();
                                proof {
                                    lemma_length_fits(self.velocity, speed as int);
                                    if speed == 0 {
                                        assert(self.velocity.spec_len_sq() < (0 + 1) * (0 + 1));
                                        assert(false);
                                    }
                                }
                                let ax = if sep_vec.x >= 0 {
                                    sep_vec.x
                                } else {
                                    -sep_vec.x
                                };
                                let ay = if sep_vec.y >= 0 {
                                    sep_vec.y
                                } else {
                                    -sep_vec.y
                                };
                                let flipped = if ax > ay {
                                    Vec2 { x: -self.velocity.x, y: self.velocity.y }
                                } else {
                                    Vec2 { x: self.velocity.x, y: -self.velocity.y }
                                };
                                let v2 = flipped.scaled(BOUNCE_NUM, BOUNCE_DEN);
                                self.velocity = v2;
                                self.position = self.position.plus(v2.scaled(-sep, speed as i64));
                                proof {
                                    lemma_bounce_wf(prev, sep_vec, sep as int);
                                    assert(*self == spec_bounce(prev, sep_vec, sep as int));
                                    assert forall|k: int|
                                        #[trigger] spec_fixed_update_from(b0, a0, skip, 0, k)
                                            == spec_fixed_update_from(*self, a0, skip, i as int + 1, k) by {
                                        assert(spec_fixed_update_from(b0, a0, skip, 0, k)
                                            == spec_fixed_update_from(prev, a0, skip, i as int, k));
                                    }
                                }
                            }
                        } else {
                            proof {
                                assert forall|k: int|
                                    #[trigger] spec_fixed_update_from(b0, a0, skip, 0, k)
                                        == spec_fixed_update_from(*self, a0, skip, i as int + 1, k) by {
                                    assert(spec_fixed_update_from(b0, a0, skip, 0, k)
                                        == spec_fixed_update_from(prev, a0, skip, i as int, k));
                                }
                            }
                        }
                    },
                }
            } else {
                proof {
                    assert forall|k: int|
                        #[trigger] spec_fixed_update_from(b0, a0, skip, 0, k)
                            == spec_fixed_update_from(*self, a0, skip, i as int + 1, k) by {
                        assert(spec_fixed_update_from(b0, a0, skip, 0, k)
                            == spec_fixed_update_from(prev, a0, skip, i as int, k));
                    }
                }
            }
            i += 1;
        }
        proof {
            assert((*self, actors@) == spec_fixed_update_from(*self, a0, skip, a0.len() as int, 0));
            assert(spec_fixed_update_from(b0, a0, skip, 0, 0) == spec_fixed_update_from(
                *self,
                a0,
                skip,
                actors@.len() as int,
                0,
            ));
            assert((*self, actors@) == spec_fixed_update(
                *old(self),
                old(actors)@,
                self_index as int,
                info.elapsed_micros as int,
                0,
            ));
        }
    }

    /// Finds the first actor carrying a score pair and awards the point
    /// for `wall`; later scoreboards are left alone.
    fn update_scoreboard(&mut self, actors: &mut Vec<Actor>, wall: WallType)
        requires
            forall|j: int| 0 <= j < old(actors)@.len() ==> (#[trigger] old(actors)@[j]).wf(),
        ensures
            *final(self) == *old(self),
            final(actors)@ == spec_update_scoreboard(old(actors)@, 0, wall),
            final(actors)@.len() == old(actors)@.len(),
            forall|j: int| 0 <= j < final(actors)@.len() ==> (#[trigger] final(actors)@[j]).wf(),
    {
        let ghost a0 = actors@;
        let mut i: usize = 0;
        while i < actors.len()
            invariant
                actors@ == a0,
                a0 == old(actors)@,
                i <= actors.len(),
                forall|j: int| 0 <= j < a0.len() ==> (#[trigger] a0[j]).wf(),
                spec_update_scoreboard(a0, 0, wall) == spec_update_scoreboard(a0, i as int, wall),
            decreases actors.len() - i,
        {
            let a = actors[i];
            match a.get_data() {
                Some(ActorData::Scoreboard(s)) => {
                    let s2 = match wall {
                        WallType::Left => ScoreboardData {
                            right_score: if s.right_score < u32::MAX {
                                s.right_score + 1
                            } else {
                                s.right_score
                            },
                            ..s
                        },
                        WallType::Right => ScoreboardData {
                            left_score: if s.left_score < u32::MAX {
                                s.left_score + 1
                            } else {
                                s.left_score
                            },
                            ..s
                        },
                        WallType::Regular => s,
                    };
                    proof {
                        assert(s2 == spec_bump_score(s, wall));
                    }
                    let mut updated = a;
                    updated.set_data(ActorData::Scoreboard(s2));
                    actors[i] = updated;
                    proof {
                        assert(actors@ == a0.update(
                            i as int,
                            a0[i as int].spec_with_data(ActorData::Scoreboard(spec_bump_score(s, wall))),
                        ));
                    }
                    return;
                },
                _ => {},
            }
            i += 1;
        }
    }

    pub fn set_position(&mut self, new_pos: &Vec2)
        requires
            new_pos.in_range(),
        ensures
            *final(self) == (Ball { position: *new_pos, ..*old(self) }),
    {
        self.position = *new_pos;
    }

    /// The shape the ball exposes to collision queries: its circle,
    /// never static.
    pub open spec fn spec_collider(self) -> Collider {
        Collider { is_static: false, collider: ColliderType::Circle { radius: self.radius } }
    }

    pub fn get_collider(&self) -> (c: Option<Collider>)
        ensures
            c == Some(self.spec_collider()),
    {
        Some(Collider { is_static: false, collider: ColliderType::Circle { radius: self.radius } })
    }

    pub fn get_data(&self) -> (d: Option<ActorData>)
        ensures
            d == None::<ActorData>,
    {
        None
    }

    /// The command the ball hands the draw surface: its circle, in pixels.
    pub open spec fn spec_draw(self) -> DrawCmd {
        DrawCmd::Circle {
            center_x: spec_to_pixels(self.position.x as int) as i64,
            center_y: spec_to_pixels(self.position.y as int) as i64,
            radius: spec_to_pixels(self.radius as int) as i64,
        }
    }

    /// What the ball asks the surface to draw: its circle, in pixels.
    pub fn draw(&self) -> (cmd: DrawCmd)
        requires
            self.wf(),
        ensures
            cmd == self.spec_draw(),
    {
        DrawCmd::Circle {
            center_x: to_pixels(self.position.x),
            center_y: to_pixels(self.position.y),
            radius: to_pixels(self.radius),
        }
    }
}

/// One horizontal scanline of a filled circle, in pixels.
#[derive(Copy, Clone, Debug, PartialEq, Eq, Structural)]
pub struct Span {
    pub x_start: i64,
    pub x_end: i64,
    pub y: i64,
}

/// The largest circle radius the rasterizer accepts, in pixels.
pub const MAX_DRAW_RADIUS: i64 = 1_000_000;

/// The farthest circle center the rasterizer accepts, in pixels.
pub const MAX_DRAW_COORD: i64 = 1_000_000_000_000;

/// The scanline lies within the bounding box of the circle around
/// `(cx, cy)` with radius `r`.
pub open spec fn span_in_box(s: Span, cx: int, cy: int, r: int) -> bool {
    &&& cx - r <= s.x_start <= s.x_end <= cx + r
    &&& cy - r <= s.y <= cy + r
}

/// The two scanlines one midpoint step emits: a horizontal run of
/// half-width `w` mirrored above and below the center.
pub open spec fn spec_mirrored_pair(cx: int, cy: int, w: int, dy: int) -> Seq<Span> {
    seq![
        Span { x_start: (cx - w) as i64, x_end: (cx + w) as i64, y: (cy + dy) as i64 },
        Span { x_start: (cx - w) as i64, x_end: (cx + w) as i64, y: (cy - dy) as i64 },
    ]
}

/// The remaining scanlines of the midpoint walk from state
/// `(x, y, ty, tx, error)`: each step emits the mirrored pair at height
/// `y`, and whenever the error term turns positive, the transposed pair
/// at height `x` before stepping inward.
pub open spec fn spec_circle_spans(
    cx: int,
    cy: int,
    diameter: int,
    x: int,
    y: int,
    ty: int,
    tx: int,
    error: int,
) -> Seq<Span>
    decreases x - y + 2,
{
    if x < y {
        Seq::empty()
    } else {
        let first = spec_mirrored_pair(cx, cy, x, y);
        if error <= 0 {
            let y2 = y + 1;
            let error2 = error + ty;
            let ty2 = ty + 2;
            if error2 > 0 {
                first + spec_mirrored_pair(cx, cy, y2, x) + spec_circle_spans(
                    cx,
                    cy,
                    diameter,
                    x - 1,
                    y2,
                    ty2,
                    tx + 2,
                    error2 + tx + 2 - diameter,
                )
            } else {
                first + spec_circle_spans(cx, cy, diameter, x, y2, ty2, tx, error2)
            }
        } else {
            first + spec_mirrored_pair(cx, cy, y, x) + spec_circle_spans(
                cx,
                cy,
                diameter,
                x - 1,
                y,
                ty,
                tx + 2,
                error + tx + 2 - diameter,
            )
        }
    }
}

/// Rasterizes a filled circle as horizontal scanlines, by the midpoint
/// circle algorithm with each step filled by a pair of mirrored lines.
/// Every emitted scanline stays within the circle's bounding box.
pub fn circle_spans(center_x: i64, center_y: i64, radius: i64) -> (spans: Vec<Span>)
    requires
        0 <= radius <= MAX_DRAW_RADIUS,
        -MAX_DRAW_COORD <= center_x <= MAX_DRAW_COORD,
        -MAX_DRAW_COORD <= center_y <= MAX_DRAW_COORD,
    ensures
        forall|s: int|
            0 <= s < spans@.len() ==> span_in_box(
                #[trigger] spans@[s],
                center_x as int,
                center_y as int,
                radius as int,
            ),
        spans@ == spec_circle_spans(
            center_x as int,
            center_y as int,
            2 * radius,
            radius as int - 1,
            0,
            1,
            1,
            1 - 2 * radius,
        ),
{
    let diameter: i64 = radius * 2;
    let mut x: i64 = radius - 1;
    let mut y: i64 = 0;
    let mut tx: i64 = 1;
    let mut ty: i64 = 1;
    let mut error: i64 = tx - diameter;
    let mut spans: Vec<Span> = Vec::new();
    while x >= y
        invariant
            0 <= radius <= MAX_DRAW_RADIUS,
            -MAX_DRAW_COORD <= center_x <= MAX_DRAW_COORD,
            -MAX_DRAW_COORD <= center_y <= MAX_DRAW_COORD,
            -1 <= x <= radius - 1,
            0 <= y <= radius + 1,
            y <= x + 2,
            diameter == 2 * radius,
            tx == 1 + 2 * (radius - 1 - x),
            ty == 1 + 2 * y,
            error == y * y + (radius - 1 - x) * (radius - 1 - x) + 2 * (radius - 1 - x) - 2
                * radius * (radius - 1 - x) + 1 - 2 * radius,
            forall|s: int|
                0 <= s < spans@.len() ==> span_in_box(
                    #[trigger] spans@[s],
                    center_x as int,
                    center_y as int,
                    radius as int,
                ),
            spec_circle_spans(
                center_x as int,
                center_y as int,
                diameter as int,
                radius as int - 1,
                0,
                1,
                1,
                1 - 2 * (radius as int),
            ) == spans@ + spec_circle_spans(
                center_x as int,
                center_y as int,
                diameter as int,
                x as int,
                y as int,
                ty as int,
                tx as int,
                error as int,
            ),
        decreases x - y + 2,
    {
        let ghost spans0 = spans@;
        let ghost x0 = x as int;
        let ghost y0 = y as int;
        let ghost ty0 = ty as int;
        let ghost tx0 = tx as int;
        let ghost e0 = error as int;
        let ghost d0 = (radius - 1 - x) as int;
        proof {
            lemma_error_range(radius as int, y0, d0, e0);
        }
        spans.push(Span { x_start: center_x - x, x_end: center_x + x, y: center_y + y });
        spans.push(Span { x_start: center_x - x, x_end: center_x + x, y: center_y - y });
        proof {
            assert(spans@ =~= spans0 + spec_mirrored_pair(
                center_x as int,
                center_y as int,
                x0,
                y0,
            ));
        }
        if error <= 0 {
            y = y + 1;
            error = error + ty;
            ty = ty + 2;
            proof {
                lemma_square_step(y0);
                assert((y as int) * (y as int) == y0 * y0 + 2 * y0 + 1);
                assert(error == (y as int) * (y as int) + d0 * d0 + 2 * d0 - 2 * radius * d0 + 1
                    - 2 * radius);
            }
        }
        if error > 0 {
            spans.push(Span { x_start: center_x - y, x_end: center_x + y, y: center_y + x });
            spans.push(Span { x_start: center_x - y, x_end: center_x + y, y: center_y - x });
            proof {
                assert(spans@ =~= spans0 + spec_mirrored_pair(center_x as int, center_y as int, x0, y0)
                    + spec_mirrored_pair(center_x as int, center_y as int, y as int, x0));
            }
            x = x - 1;
            tx = tx + 2;
            error = error + tx - diameter;
            proof {
                let dn = (radius - 1 - x) as int;
                assert(dn == d0 + 1);
                lemma_square_step(d0);
                assert(dn * dn == d0 * d0 + 2 * d0 + 1);
                assert(2 * radius * dn == 2 * radius * d0 + 2 * radius) by (nonlinear_arith)
                    requires
                        dn == d0 + 1,
                ;
                assert(error == (y as int) * (y as int) + dn * dn + 2 * dn - 2 * radius * dn + 1
                    - 2 * radius);
                let cx = center_x as int;
                let cy = center_y as int;
                let dm = diameter as int;
                let rest0 = spec_circle_spans(cx, cy, dm, x0, y0, ty0, tx0, e0);
                let rest1 = spec_circle_spans(
                    cx,
                    cy,
                    dm,
                    x as int,
                    y as int,
                    ty as int,
                    tx as int,
                    error as int,
                );
                assert(rest0 == spec_mirrored_pair(cx, cy, x0, y0) + spec_mirrored_pair(
                    cx,
                    cy,
                    y as int,
                    x0,
                ) + rest1);
                assert(spans0 + (spec_mirrored_pair(cx, cy, x0, y0) + spec_mirrored_pair(
                    cx,
                    cy,
                    y as int,
                    x0,
                ) + rest1) =~= (spans0 + spec_mirrored_pair(cx, cy, x0, y0)
                    + spec_mirrored_pair(cx, cy, y as int, x0)) + rest1);
            }
        } else {
            proof {
                let cx = center_x as int;
                let cy = center_y as int;
                let dm = diameter as int;
                let rest0 = spec_circle_spans(cx, cy, dm, x0, y0, ty0, tx0, e0);
                let rest1 = spec_circle_spans(
                    cx,
                    cy,
                    dm,
                    x as int,
                    y as int,
                    ty as int,
                    tx as int,
                    error as int,
                );
                assert(rest0 == spec_mirrored_pair(cx, cy, x0, y0) + rest1);
                assert(spans0 + (spec_mirrored_pair(cx, cy, x0, y0) + rest1) =~= (spans0
                    + spec_mirrored_pair(cx, cy, x0, y0)) + rest1);
            }
        }
    }
    proof {
        assert(spans@ + spec_circle_spans(
            center_x as int,
            center_y as int,
            diameter as int,
            x as int,
            y as int,
            ty as int,
            tx as int,
            error as int,
        ) =~= spans@);
    }
    spans
}

/// The midpoint error term stays far inside the machine range.
proof fn lemma_error_range(r: int, y: int, d: int, e: int)
    requires
        0 <= r <= 1000000,
        0 <= y <= r + 1,
        0 <= d <= r,
        e == y * y + d * d + 2 * d - 2 * r * d + 1 - 2 * r,
    ensures
        -3000000000000 <= e <= 3000000000000,
{
    assert(0 <= y * y <= 1100000000000) by (nonlinear_arith)
        requires
            0 <= y <= 1000001,
    ;
    assert(0 <= d * d <= 1000000000000) by (nonlinear_arith)
        requires
            0 <= d <= 1000000,
    ;
    assert(0 <= 2 * r * d <= 2000000000000) by (nonlinear_arith)
        requires
            0 <= d <= 1000000,
            0 <= r <= 1000000,
    ;
}

/// Expanding the next square: `(a + 1)^2 == a^2 + 2a + 1`.
proof fn lemma_square_step(a: int)
    ensures
        (a + 1) * (a + 1) == a * a + 2 * a + 1,
{
    assert((a + 1) * (a + 1) == a * a + 2 * a + 1) by (nonlinear_arith);
}

} // verus!

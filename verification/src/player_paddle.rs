use vstd::prelude::*;

use crate::actor::{
    clamp_to_coord, Actor, ActorData, Collider, ColliderBounds, ColliderType, DrawCmd,
    KeysPressed, RectangleDefinition, UpdateInfo, Vec2,
};
use crate::collision_helper::{
    collides, separation_vec, spec_collides, spec_rect_center, spec_separation_vec,
};
use crate::math_helper::{
    clamp_coord, mul_div, mul_div_spec, spec_to_pixels, to_pixels, DT_LIMIT, MICROS_PER_SEC,
};
use crate::wall::Wall;

verus! {

/// How fast a paddle moves while its key is held, in fixed-point units
/// per second (150 pixels per second).
pub const MOVE_SPEED: i64 = 150_000;

/// Width and height of a paddle's rectangle, in fixed-point units.
pub const PADDLE_WIDTH: i64 = 15_000;

pub const PADDLE_HEIGHT: i64 = 50_000;

/// A keyboard-driven rectangle. `main_player` selects the key pair that
/// drives it: W/S for the main player, the arrow keys otherwise.
#[derive(Copy, Clone, Debug, PartialEq, Eq, Structural)]
pub struct PlayerPaddle {
    pub position: Vec2,
    pub collider: RectangleDefinition,
    pub main_player: bool,
}

/// Whether this paddle's "move up" key is held: W for the main player,
/// the up arrow otherwise.
pub open spec fn spec_key_up(p: PlayerPaddle, keys: KeysPressed) -> bool {
    if p.main_player {
        keys.w
    } else {
        keys.up
    }
}

/// Whether this paddle's "move down" key is held: S for the main player,
/// the down arrow otherwise.
pub open spec fn spec_key_down(p: PlayerPaddle, keys: KeysPressed) -> bool {
    if p.main_player {
        keys.s
    } else {
        keys.down
    }
}

/// Where the paddle stands after the key-driven move, before any
/// collision response: up subtracts `MOVE_SPEED * dt`, down adds it.
pub open spec fn spec_paddle_moved(p: PlayerPaddle, keys: KeysPressed, dt: int) -> PlayerPaddle {
    let step = mul_div_spec(MOVE_SPEED as int, dt, MICROS_PER_SEC as int);
    let y1 = if spec_key_up(p, keys) {
        clamp_coord(p.position.y - step)
    } else {
        p.position.y as int
    };
    let y2 = if spec_key_down(p, keys) {
        clamp_coord(y1 + step)
    } else {
        y1
    };
    PlayerPaddle { position: Vec2 { x: p.position.x, y: y2 as i64 }, ..p }
}

/// The paddle's collision response from actor `i` on, its own slot
/// `skip` left out: for every static collider it overlaps, it is pushed
/// back by the y component of the separation vector, and its bounds are
/// recomputed before the next comparison. Non-static colliders (the ball,
/// the other paddle) never block a paddle.
pub open spec fn spec_resolve_from(
    p: PlayerPaddle,
    actors: Seq<Actor>,
    skip: int,
    i: int,
) -> PlayerPaddle
    decreases actors.len() - i,
{
    if i < 0 || i >= actors.len() {
        p
    } else if i == skip {
        spec_resolve_from(p, actors, skip, i + 1)
    } else {
        match actors[i].spec_collider() {
            Some(col) => {
                if col.is_static {
                    let my_bounds = ColliderBounds::spec_from(
                        ColliderType::Rectangle(p.collider),
                        p.position,
                    );
                    let bounds = ColliderBounds::spec_from(col.collider, actors[i].spec_position());
                    if spec_collides(my_bounds, bounds) {
                        let sv = spec_separation_vec(my_bounds, bounds);
                        let p2 = PlayerPaddle {
                            position: Vec2 {
                                x: p.position.x,
                                y: clamp_coord(p.position.y + sv.y) as i64,
                            },
                            ..p
                        };
                        spec_resolve_from(p2, actors, skip, i + 1)
                    } else {
                        spec_resolve_from(p, actors, skip, i + 1)
                    }
                } else {
                    spec_resolve_from(p, actors, skip, i + 1)
                }
            },
            None => spec_resolve_from(p, actors, skip, i + 1),
        }
    }
}

/// A whole variable-rate update: the key-driven move, then — only if a
/// key actually moved the paddle — the static-collision response.
pub open spec fn spec_paddle_update(
    p: PlayerPaddle,
    actors: Seq<Actor>,
    skip: int,
    keys: KeysPressed,
    dt: int,
) -> PlayerPaddle {
    let moved = spec_key_up(p, keys) || spec_key_down(p, keys);
    let p1 = spec_paddle_moved(p, keys, dt);
    if moved {
        spec_resolve_from(p1, actors, skip, 0)
    } else {
        p1
    }
}

impl PlayerPaddle {
    pub open spec fn wf(self) -> bool {
        &&& self.position.in_range()
        &&& self.collider.wf()
    }

    pub fn new(position: &Vec2, main_player: bool) -> (p: PlayerPaddle)
        requires
            position.in_range(),
        ensures
            p == (PlayerPaddle {
                position: *position,
                collider: RectangleDefinition { width: PADDLE_WIDTH, height: PADDLE_HEIGHT },
                main_player,
            }),
            p.wf(),
    {
        PlayerPaddle {
            position: *position,
            collider: RectangleDefinition { width: PADDLE_WIDTH, height: PADDLE_HEIGHT },
            main_player,
        }
    }

    pub fn position(&self) -> (p: &Vec2)
        ensures
            *p == self.position,
    {
        &self.position
    }

    /// The variable-rate update: move by the held keys, then resolve
    /// against every static collider in the set, in collection order.
    pub fn update(&mut self, self_index: usize, actors: &Vec<Actor>, info: &UpdateInfo)
        requires
            old(self).wf(),
            forall|j: int| 0 <= j < actors@.len() ==> (#[trigger] actors@[j]).wf(),
            info.elapsed_micros <= DT_LIMIT,
        ensures
            final(self).wf(),
            *final(self) == spec_paddle_update(
                *old(self),
                actors@,
                self_index as int,
                info.keys_pressed,
                info.elapsed_micros as int,
            ),
    {
        let keys = info.keys_pressed;
        let step = mul_div(MOVE_SPEED, info.elapsed_micros as i64, MICROS_PER_SEC);
        let mut moved = false;
        let key_up = if self.main_player {
            keys.w
        } else {
            keys.up
        };
        let key_down = if self.main_player {
            keys.s
        } else {
            keys.down
        };
        if key_up {
            self.position.y = clamp_to_coord((self.position.y as i128) - (step as i128));
            moved = true;
        }
        if key_down {
            self.position.y = clamp_to_coord((self.position.y as i128) + (step as i128));
            moved = true;
        }
        proof {
            assert(*self == spec_paddle_moved(*old(self), keys, info.elapsed_micros as int));
        }
        if moved {
            let ghost p1 = *self;
            let ghost a0 = actors@;
            let ghost skip = self_index as int;
            let mut i: usize = 0;
            while i < actors.len()
                invariant
                    self.wf(),
                    actors@ == a0,
                    i <= actors.len(),
                    skip == self_index as int,
                    forall|j: int| 0 <= j < a0.len() ==> (#[trigger] a0[j]).wf(),
                    self.collider == p1.collider,
                    self.main_player == p1.main_player,
                    self.position.x == p1.position.x,
                    spec_resolve_from(p1, a0, skip, 0) == spec_resolve_from(
                        *self,
                        a0,
                        skip,
                        i as int,
                    ),
                decreases actors.len() - i,
            {
                let ghost prev = *self;
                if i != self_index {
                    let a = actors[i];
                    proof {
                        assert(a == a0[i as int]);
                        assert(a.wf());
                    }
                    match a.get_collider() {
                        Some(col) => {
                            if col.is_static {
                                let my_bounds = ColliderBounds::from(
                                    &ColliderType::Rectangle(self.collider),
                                    &self.position,
                                );
                                let bounds = col.to_bounds(*a.position());
                                if collides(my_bounds, bounds) {
                                    let sv = separation_vec(my_bounds, bounds);
                                    self.position.y = clamp_to_coord(
                                        (self.position.y as i128) + (sv.y as i128),
                                    );
                                }
                            }
                        },
                        None => {},
                    }
                }
                proof {
                    assert(spec_resolve_from(p1, a0, skip, 0) == spec_resolve_from(
                        prev,
                        a0,
                        skip,
                        i as int,
                    ));
                    assert(spec_resolve_from(prev, a0, skip, i as int) == spec_resolve_from(
                        *self,
                        a0,
                        skip,
                        i as int + 1,
                    ));
                }
                i += 1;
            }
        }
    }

    /// Paddle movement is input-driven, not physics-integrated: the
    /// fixed-rate update does nothing.
    pub fn fixed_update(&mut self, _info: &UpdateInfo)
        ensures
            *final(self) == *old(self),
    {
    }

    pub fn set_position(&mut self, new_pos: &Vec2)
        requires
            new_pos.in_range(),
        ensures
            *final(self) == (PlayerPaddle { position: *new_pos, ..*old(self) }),
    {
        self.position = *new_pos;
    }

    /// The shape a paddle exposes to collision queries; paddles are not
    /// static, so the ball bounces off them but they do not block each other.
    pub open spec fn spec_collider(self) -> Collider {
        Collider { is_static: false, collider: ColliderType::Rectangle(self.collider) }
    }

    pub fn get_collider(&self) -> (c: Option<Collider>)
        ensures
            c == Some(self.spec_collider()),
    {
        Some(Collider { is_static: false, collider: ColliderType::Rectangle(self.collider) })
    }

    pub fn get_data(&self) -> (d: Option<ActorData>)
        ensures
            d == None::<ActorData>,
    {
        None
    }

    /// The command the paddle hands the draw surface: its rectangle, in
    /// pixels, from its top-left corner.
    pub open spec fn spec_draw(self) -> DrawCmd {
        match ColliderBounds::spec_from(ColliderType::Rectangle(self.collider), self.position) {
            ColliderBounds::Rectangle { up, down: _, left, right: _ } => DrawCmd::Rect {
                x: spec_to_pixels(left as int) as i64,
                y: spec_to_pixels(up as int) as i64,
                width: spec_to_pixels(self.collider.width as int) as i64,
                height: spec_to_pixels(self.collider.height as int) as i64,
            },
            _ => DrawCmd::Nothing,
        }
    }

    /// What the paddle asks the surface to draw.
    pub fn draw(&self) -> (cmd: DrawCmd)
        requires
            self.wf(),
        ensures
            cmd == self.spec_draw(),
    {
        let bounds = ColliderBounds::from(&ColliderType::Rectangle(self.collider), &self.position);
        match bounds {
            ColliderBounds::Rectangle { up, down: _, left, right: _ } => DrawCmd::Rect {
                x: to_pixels(left),
                y: to_pixels(up),
                width: to_pixels(self.collider.width),
                height: to_pixels(self.collider.height),
            },
            _ => DrawCmd::Nothing,
        }
    }
}

/// A paddle that has moved up into a static wall is pushed back down by
/// exactly the y component of the separation vector, ending exactly
/// tangent to the wall: its top edge meets the wall's bottom edge with
/// zero residual overlap.
pub proof fn lemma_paddle_wall_clamp(p: PlayerPaddle, w: Wall)
    requires
        p.wf(),
        w.wf(),
        -1000000000000 <= p.position.x <= 1000000000000,
        -1000000000000 <= p.position.y <= 1000000000000,
        -1000000000000 <= w.position.x <= 1000000000000,
        -1000000000000 <= w.position.y <= 1000000000000,
        0 <= p.collider.height <= 1000000000000,
        0 <= p.collider.width <= 1000000000000,
        0 <= w.collider.height <= 1000000000000,
        0 <= w.collider.width <= 1000000000000,
        ({
            let pt = p.position.y - p.collider.height as int / 2;
            let wd = w.position.y + w.collider.height as int / 2;
            &&& pt < wd
            &&& wd < p.position.y
            &&& w.position.y < pt
            &&& w.position.x - w.collider.width as int / 2 <= p.position.x + p.collider.width as int
                / 2
            &&& p.position.x - p.collider.width as int / 2 <= w.position.x + w.collider.width as int
                / 2
        }),
    ensures
        ({
            let pt = p.position.y - p.collider.height as int / 2;
            let wd = w.position.y + w.collider.height as int / 2;
            let my_bounds = ColliderBounds::spec_from(
                ColliderType::Rectangle(p.collider),
                p.position,
            );
            let wall_bounds = ColliderBounds::spec_from(
                ColliderType::Rectangle(w.collider),
                w.position,
            );
            let sv = spec_separation_vec(my_bounds, wall_bounds);
            let resolved = spec_resolve_from(p, seq![Actor::Wall(w)], 1, 0);
            &&& spec_collides(my_bounds, wall_bounds)
            &&& sv.y == wd - pt
            &&& resolved.position.y == p.position.y + sv.y
            &&& resolved.position.y - p.collider.height as int / 2 == wd
            &&& resolved.position.x == p.position.x
        }),
{
    let s = seq![Actor::Wall(w)];
    assert(s.len() == 1);
    assert(s[0] == Actor::Wall(w));
    crate::collision_helper::lemma_half_of_double(p.position.x as int);
    crate::collision_helper::lemma_half_of_double(p.position.y as int);
    crate::collision_helper::lemma_half_of_double(w.position.x as int);
    crate::collision_helper::lemma_half_of_double(w.position.y as int);
    let ph = p.collider.height as int / 2;
    let pw = p.collider.width as int / 2;
    let wh = w.collider.height as int / 2;
    let ww = w.collider.width as int / 2;
    let my_bounds = ColliderBounds::spec_from(ColliderType::Rectangle(p.collider), p.position);
    let wall_bounds = ColliderBounds::spec_from(ColliderType::Rectangle(w.collider), w.position);
    assert(my_bounds == (ColliderBounds::Rectangle {
        up: (p.position.y - ph) as i64,
        down: (p.position.y + ph) as i64,
        left: (p.position.x - pw) as i64,
        right: (p.position.x + pw) as i64,
    }));
    assert(wall_bounds == (ColliderBounds::Rectangle {
        up: (w.position.y - wh) as i64,
        down: (w.position.y + wh) as i64,
        left: (w.position.x - ww) as i64,
        right: (w.position.x + ww) as i64,
    }));
    let sv = spec_separation_vec(my_bounds, wall_bounds);
    assert(spec_rect_center(
        p.position.y - ph,
        p.position.y + ph,
        p.position.x - pw,
        p.position.x + pw,
    ) == p.position);
    assert(spec_rect_center(
        w.position.y - wh,
        w.position.y + wh,
        w.position.x - ww,
        w.position.x + ww,
    ) == w.position);
    assert(sv.y == (w.position.y + wh) - (p.position.y - ph));
    let p2 = PlayerPaddle {
        position: Vec2 {
            x: p.position.x,
            y: clamp_coord(p.position.y + sv.y) as i64,
        },
        ..p
    };
    assert(spec_resolve_from(p, s, 1, 0) == spec_resolve_from(p2, s, 1, 1));
    assert(spec_resolve_from(p2, s, 1, 1) == spec_resolve_from(p2, s, 1, 2));
    assert(spec_resolve_from(p2, s, 1, 2) == p2);
}

} // verus!

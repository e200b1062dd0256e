use vstd::prelude::*;

use crate::math_helper::{
    clamp_coord, div_trunc, isqrt_u128, mul_div, mul_div_spec, sqrt_floor, COORD_LIMIT,
};
use crate::ball::Ball;
use crate::player_paddle::PlayerPaddle;
use crate::scoreboard::{spec_score_text, Scoreboard, ScoreboardData};
use crate::wall::{Wall, WallType};

verus! {

/// A 2D vector in fixed-point units (thousandths of a pixel).
#[derive(Copy, Clone, Debug, PartialEq, Eq, Structural)]
pub struct Vec2 {
    pub x: i64,
    pub y: i64,
}

impl Vec2 {
    /// Both components lie in the coordinate range the library works in.
    pub open spec fn in_range(self) -> bool {
        &&& -COORD_LIMIT <= self.x <= COORD_LIMIT
        &&& -COORD_LIMIT <= self.y <= COORD_LIMIT
    }

    /// The squared Euclidean length, in the mathematical integers.
    pub open spec fn spec_len_sq(self) -> int {
        self.x * self.x + self.y * self.y
    }

    /// Componentwise sum, each component clamped into the coordinate range.
    pub open spec fn spec_plus(self, o: Vec2) -> Vec2 {
        Vec2 { x: clamp_coord(self.x + o.x) as i64, y: clamp_coord(self.y + o.y) as i64 }
    }

    /// Componentwise difference, each component clamped into the coordinate range.
    pub open spec fn spec_minus(self, o: Vec2) -> Vec2 {
        Vec2 { x: clamp_coord(self.x - o.x) as i64, y: clamp_coord(self.y - o.y) as i64 }
    }

    /// Multiplication by the scalar `num / den`, truncating toward zero,
    /// each component clamped into the coordinate range.
    pub open spec fn spec_scaled(self, num: int, den: int) -> Vec2 {
        Vec2 { x: mul_div_spec(self.x as int, num, den) as i64, y: mul_div_spec(self.y as int, num, den) as i64 }
    }

    pub fn length_squared(self) -> (r: u128)
        requires
            self.in_range(),
        ensures
            r == self.spec_len_sq(),
    {
        proof {
            assert((self.x as int) * (self.x as int) <= (COORD_LIMIT as int) * (COORD_LIMIT as int)
                && (self.x as int) * (self.x as int) >= 0) by (nonlinear_arith)
                requires
                    -COORD_LIMIT <= self.x <= COORD_LIMIT,
            ;
            assert((self.y as int) * (self.y as int) <= (COORD_LIMIT as int) * (COORD_LIMIT as int)
                && (self.y as int) * (self.y as int) >= 0) by (nonlinear_arith)
                requires
                    -COORD_LIMIT <= self.y <= COORD_LIMIT,
            ;
        }
        let xx: i128 = (self.x as i128) * (self.x as i128);
        let yy: i128 = (self.y as i128) * (self.y as i128);
        (xx + yy) as u128
    }

    /// Euclidean length, rounded down to an integer.
    pub fn length(self) -> (r: u64)
        requires
            self.in_range(),
        ensures
            r == sqrt_floor(self.spec_len_sq()),
            (r as int) * (r as int) <= self.spec_len_sq(),
            self.spec_len_sq() < ((r as int) + 1) * ((r as int) + 1),
    {
        let sq = self.length_squared();
        isqrt_u128(sq)
    }

    pub fn plus(self, o: Vec2) -> (r: Vec2)
        ensures
            r == self.spec_plus(o),
            r.in_range(),
    {
        let x = clamp_to_coord((self.x as i128) + (o.x as i128));
        let y = clamp_to_coord((self.y as i128) + (o.y as i128));
        Vec2 { x, y }
    }

    pub fn minus(self, o: Vec2) -> (r: Vec2)
        ensures
            r == self.spec_minus(o),
            r.in_range(),
    {
        let x = clamp_to_coord((self.x as i128) - (o.x as i128));
        let y = clamp_to_coord((self.y as i128) - (o.y as i128));
        Vec2 { x, y }
    }

    pub fn scaled(self, num: i64, den: i64) -> (r: Vec2)
        requires
            self.in_range(),
            -COORD_LIMIT <= num <= COORD_LIMIT,
            0 < den,
        ensures
            r == self.spec_scaled(num as int, den as int),
            r.in_range(),
    {
        let x = mul_div(self.x, num, den);
        let y = mul_div(self.y, num, den);
        Vec2 { x, y }
    }
}

/// Clamp a wide intermediate value into the coordinate range.
pub fn clamp_to_coord(v: i128) -> (r: i64)
    ensures
        r == clamp_coord(v as int),
        -COORD_LIMIT <= r <= COORD_LIMIT,
{
    if v < -(COORD_LIMIT as i128) {
        -COORD_LIMIT
    } else if v > COORD_LIMIT as i128 {
        COORD_LIMIT
    } else {
        v as i64
    }
}

/// Clamp `v` into the closed interval `[lo, hi]`.
pub open spec fn spec_clamp(v: int, lo: int, hi: int) -> int {
    if v < lo {
        lo
    } else if v > hi {
        hi
    } else {
        v
    }
}

pub fn clamp_i64(v: i64, lo: i64, hi: i64) -> (r: i64)
    requires
        lo <= hi,
    ensures
        r == spec_clamp(v as int, lo as int, hi as int),
{
    if v < lo {
        lo
    } else if v > hi {
        hi
    } else {
        v
    }
}

/// Extents of a rectangle, centered on its owner's position.
#[derive(Copy, Clone, Debug, PartialEq, Eq, Structural)]
pub struct RectangleDefinition {
    pub height: i64,
    pub width: i64,
}

impl RectangleDefinition {
    pub open spec fn wf(self) -> bool {
        &&& 0 <= self.height <= COORD_LIMIT
        &&& 0 <= self.width <= COORD_LIMIT
    }
}

/// A shape relative to an actor's position; never stores an absolute location.
#[derive(Copy, Clone, Debug, PartialEq, Eq, Structural)]
pub enum ColliderType {
    Rectangle(RectangleDefinition),
    Circle { radius: i64 },
}

impl ColliderType {
    pub open spec fn wf(self) -> bool {
        match self {
            ColliderType::Rectangle(r) => r.wf(),
            ColliderType::Circle { radius } => 0 <= radius <= COORD_LIMIT,
        }
    }
}

/// Absolute, frame-computed bounds of a shape. In screen space the y axis
/// grows downward, so `up` is the smaller y and `down` the larger.
#[derive(Copy, Clone, Debug, PartialEq, Eq, Structural)]
pub enum ColliderBounds {
    Rectangle { up: i64, down: i64, left: i64, right: i64 },
    Circle { radius: i64, center: Vec2 },
}

impl ColliderBounds {
    pub open spec fn wf(self) -> bool {
        match self {
            ColliderBounds::Rectangle { up, down, left, right } => {
                &&& up <= down
                &&& left <= right
                &&& -COORD_LIMIT <= up <= COORD_LIMIT
                &&& -COORD_LIMIT <= down <= COORD_LIMIT
                &&& -COORD_LIMIT <= left <= COORD_LIMIT
                &&& -COORD_LIMIT <= right <= COORD_LIMIT
            },
            ColliderBounds::Circle { radius, center } => {
                &&& 0 <= radius <= COORD_LIMIT
                &&& center.in_range()
            },
        }
    }

    /// What `from` computes: a circle keeps its radius and takes the
    /// position as center; a rectangle puts its half-extents around it.
    pub open spec fn spec_from(c: ColliderType, pos: Vec2) -> ColliderBounds {
        match c {
            ColliderType::Circle { radius } => ColliderBounds::Circle { radius, center: pos },
            ColliderType::Rectangle(r) => {
                let half_height = div_trunc(r.height as int, 2);
                let half_width = div_trunc(r.width as int, 2);
                ColliderBounds::Rectangle {
                    up: clamp_coord(pos.y - half_height) as i64,
                    down: clamp_coord(pos.y + half_height) as i64,
                    left: clamp_coord(pos.x - half_width) as i64,
                    right: clamp_coord(pos.x + half_width) as i64,
                }
            },
        }
    }

    pub fn from(c: &ColliderType, pos: &Vec2) -> (b: ColliderBounds)
        requires
            c.wf(),
            pos.in_range(),
        ensures
            b == ColliderBounds::spec_from(*c, *pos),
            b.wf(),
    {
        match c {
            ColliderType::Circle { radius } => ColliderBounds::Circle { radius: *radius, center: *pos },
            ColliderType::Rectangle(r) => {
                let half_height = r.height / 2;
                let half_width = r.width / 2;
                ColliderBounds::Rectangle {
                    up: clamp_to_coord((pos.y as i128) - (half_height as i128)),
                    down: clamp_to_coord((pos.y as i128) + (half_height as i128)),
                    left: clamp_to_coord((pos.x as i128) - (half_width as i128)),
                    right: clamp_to_coord((pos.x as i128) + (half_width as i128)),
                }
            },
        }
    }
}

/// A shape plus a flag marking immovable geometry (walls). Paddle
/// collision response consults the flag; the ball reacts to everything.
#[derive(Copy, Clone, Debug, PartialEq, Eq, Structural)]
pub struct Collider {
    pub collider: ColliderType,
    pub is_static: bool,
}

impl Collider {
    pub open spec fn wf(self) -> bool {
        self.collider.wf()
    }

    pub fn to_bounds(&self, pos: Vec2) -> (b: ColliderBounds)
        requires
            self.wf(),
            pos.in_range(),
        ensures
            b == ColliderBounds::spec_from(self.collider, pos),
            b.wf(),
    {
        ColliderBounds::from(&self.collider, &pos)
    }
}

/// Cross-actor payload: the score pair a scoreboard carries, or the tag
/// that marks a wall as a scoring boundary.
#[derive(Copy, Clone, Debug, PartialEq, Eq, Structural)]
pub enum ActorData {
    Scoreboard(ScoreboardData),
    Wall(WallType),
}

/// A key the paddles read. The escape key ends the program before the
/// core ever sees it, so it has no place here.
#[derive(Copy, Clone, Debug, PartialEq, Eq, Structural)]
pub enum GameKey {
    W,
    S,
    Up,
    Down,
}

/// The derived held-key set: press adds a key, release removes it, and
/// the per-frame actor logic reads the state rather than the events.
#[derive(Copy, Clone, Debug, PartialEq, Eq, Structural, Default)]
pub struct KeysPressed {
    pub w: bool,
    pub s: bool,
    pub up: bool,
    pub down: bool,
}

impl KeysPressed {
    pub open spec fn spec_with(self, key: GameKey, held: bool) -> KeysPressed {
        match key {
            GameKey::W => KeysPressed { w: held, ..self },
            GameKey::S => KeysPressed { s: held, ..self },
            GameKey::Up => KeysPressed { up: held, ..self },
            GameKey::Down => KeysPressed { down: held, ..self },
        }
    }

    pub fn press(&mut self, key: GameKey)
        ensures
            *final(self) == old(self).spec_with(key, true),
    {
        match key {
            GameKey::W => self.w = true,
            GameKey::S => self.s = true,
            GameKey::Up => self.up = true,
            GameKey::Down => self.down = true,
        }
    }

    pub fn release(&mut self, key: GameKey)
        ensures
            *final(self) == old(self).spec_with(key, false),
    {
        match key {
            GameKey::W => self.w = false,
            GameKey::S => self.s = false,
            GameKey::Up => self.up = false,
            GameKey::Down => self.down = false,
        }
    }
}

/// Per-call context for `update` and `fixed_update`: the held-key set and
/// the elapsed time this call covers, in microseconds. The actor
/// collection is passed alongside it, never stored inside.
#[derive(Copy, Clone, Debug, PartialEq, Eq, Structural)]
pub struct UpdateInfo {
    pub keys_pressed: KeysPressed,
    pub elapsed_micros: u64,
}

/// What an actor asks the draw surface to do for it, in whole pixels.
/// The core composes these; the rendering collaborator executes them.
#[derive(Clone, Debug)]
pub enum DrawCmd {
    /// Nothing visible: walls are invisible boundary markers.
    Nothing,
    /// A filled circle around a center.
    Circle { center_x: i64, center_y: i64, radius: i64 },
    /// A filled rectangle from its top-left corner.
    Rect { x: i64, y: i64, width: i64, height: i64 },
    /// A line of ASCII text, centered on a point.
    Text { text: Vec<u8>, center_x: i64, center_y: i64 },
}

/// The closed set of simulated entities. The variant set is known at
/// design time, so the polymorphic interface is a tagged variant rather
/// than open-ended dispatch.
#[derive(Copy, Clone, Debug, PartialEq, Eq, Structural)]
pub enum Actor {
    Ball(Ball),
    PlayerPaddle(PlayerPaddle),
    Wall(Wall),
    Scoreboard(Scoreboard),
}

impl Actor {
    pub open spec fn wf(self) -> bool {
        match self {
            Actor::Ball(b) => b.wf(),
            Actor::PlayerPaddle(p) => p.wf(),
            Actor::Wall(w) => w.wf(),
            Actor::Scoreboard(s) => s.wf(),
        }
    }

    pub open spec fn spec_position(self) -> Vec2 {
        match self {
            Actor::Ball(b) => b.position,
            Actor::PlayerPaddle(p) => p.position,
            Actor::Wall(w) => w.position,
            Actor::Scoreboard(s) => s.position,
        }
    }

    pub open spec fn spec_collider(self) -> Option<Collider> {
        match self {
            Actor::Ball(b) => Some(b.spec_collider()),
            Actor::PlayerPaddle(p) => Some(p.spec_collider()),
            Actor::Wall(w) => Some(w.spec_collider()),
            Actor::Scoreboard(_) => None,
        }
    }

    pub open spec fn spec_data(self) -> Option<ActorData> {
        match self {
            Actor::Ball(_) => None,
            Actor::PlayerPaddle(_) => None,
            Actor::Wall(w) => Some(ActorData::Wall(w.wall_type)),
            Actor::Scoreboard(s) => Some(ActorData::Scoreboard(s.data)),
        }
    }

    /// What `set_data` leaves behind: only a scoreboard accepts a payload,
    /// and only a score pair.
    pub open spec fn spec_with_data(self, data: ActorData) -> Actor {
        match self {
            Actor::Scoreboard(s) => match data {
                ActorData::Scoreboard(d) => Actor::Scoreboard(Scoreboard { data: d, ..s }),
                _ => self,
            },
            _ => self,
        }
    }

    pub fn position(&self) -> (p: &Vec2)
        ensures
            *p == self.spec_position(),
    {
        match self {
            Actor::Ball(b) => b.position(),
            Actor::PlayerPaddle(p) => p.position(),
            Actor::Wall(w) => w.position(),
            Actor::Scoreboard(s) => s.position(),
        }
    }

    pub fn set_position(&mut self, new_pos: &Vec2)
        requires
            new_pos.in_range(),
        ensures
            final(self).spec_position() == *new_pos,
            old(self).wf() ==> final(self).wf(),
            final(self).spec_collider() == old(self).spec_collider(),
            final(self).spec_data() == old(self).spec_data(),
    {
        match self {
            Actor::Ball(b) => b.set_position(new_pos),
            Actor::PlayerPaddle(p) => p.set_position(new_pos),
            Actor::Wall(w) => w.set_position(new_pos),
            Actor::Scoreboard(s) => s.set_position(new_pos),
        }
    }

    pub fn get_collider(&self) -> (c: Option<Collider>)
        ensures
            c == self.spec_collider(),
    {
        match self {
            Actor::Ball(b) => b.get_collider(),
            Actor::PlayerPaddle(p) => p.get_collider(),
            Actor::Wall(w) => w.get_collider(),
            Actor::Scoreboard(s) => s.get_collider(),
        }
    }

    pub fn get_data(&self) -> (d: Option<ActorData>)
        ensures
            d == self.spec_data(),
    {
        match self {
            Actor::Ball(b) => b.get_data(),
            Actor::PlayerPaddle(p) => p.get_data(),
            Actor::Wall(w) => w.get_data(),
            Actor::Scoreboard(s) => s.get_data(),
        }
    }

    pub fn set_data(&mut self, data: ActorData)
        ensures
            *final(self) == old(self).spec_with_data(data),
    {
        match self {
            Actor::Scoreboard(s) => s.set_data(data),
            _ => {},
        }
    }

    /// What this actor asks the draw surface to do. A failed render call
    /// is the surface's affair; composing the command never fails.
    pub fn draw(&self) -> (cmd: DrawCmd)
        requires
            self.wf(),
        ensures
            self matches Actor::Ball(b) ==> cmd == b.spec_draw(),
            self matches Actor::PlayerPaddle(p) ==> cmd == p.spec_draw(),
            self is Wall ==> cmd is Nothing,
            self matches Actor::Scoreboard(s) ==> (cmd matches DrawCmd::Text {
                text,
                center_x,
                center_y,
            } && text@ == spec_score_text(s.data.left_score, s.data.right_score) && center_x
                == crate::math_helper::spec_to_pixels(s.position.x as int) && center_y
                == crate::math_helper::spec_to_pixels(s.position.y as int)),
    {
        match self {
            Actor::Ball(b) => b.draw(),
            Actor::PlayerPaddle(p) => p.draw(),
            Actor::Wall(w) => w.draw(),
            Actor::Scoreboard(s) => s.draw(),
        }
    }
}

} // verus!

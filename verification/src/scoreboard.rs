use vstd::prelude::*;

use crate::actor::{ActorData, Collider, DrawCmd, UpdateInfo, Vec2};
use crate::math_helper::{spec_to_pixels, to_pixels};

verus! {

/// The decimal digits of `n`, most significant first, as ASCII bytes.
pub open spec fn spec_decimal(n: nat) -> Seq<u8>
    decreases n,
{
    if n < 10 {
        seq![(48 + n) as u8]
    } else {
        spec_decimal(n / 10) + seq![(48 + n % 10) as u8]
    }
}

/// The scoreboard's line of text: the left score, a spaced colon, the
/// right score, as ASCII bytes.
pub open spec fn spec_score_text(left: u32, right: u32) -> Seq<u8> {
    spec_decimal(left as nat) + seq![32u8, 58u8, 32u8] + spec_decimal(right as nat)
}

/// Renders `n` in decimal, most significant digit first.
pub fn u32_decimal(n: u32) -> (r: Vec<u8>)
    ensures
        r@ == spec_decimal(n as nat),
    decreases n,
{
    if n < 10 {
        let mut r: Vec<u8> = Vec::new();
        r.push(48 + (n as u8));
        proof {
            assert(r@ =~= spec_decimal(n as nat));
        }
        r
    } else {
        let mut r = u32_decimal(n / 10);
        r.push(48 + ((n % 10) as u8));
        proof {
            assert(r@ =~= spec_decimal(n as nat));
        }
        r
    }
}

/// Composes the score line.
pub fn score_text(left: u32, right: u32) -> (r: Vec<u8>)
    ensures
        r@ == spec_score_text(left, right),
{
    let mut r = u32_decimal(left);
    r.push(32);
    r.push(58);
    r.push(32);
    let mut tail = u32_decimal(right);
    r.append(&mut tail);
    proof {
        assert(r@ =~= spec_score_text(left, right));
    }
    r
}

/// The score pair. Increments saturate at `u32::MAX` instead of
/// overflowing, far beyond any score a game can reach.
#[derive(Copy, Clone, Debug, PartialEq, Eq, Structural)]
pub struct ScoreboardData {
    pub left_score: u32,
    pub right_score: u32,
}

/// A non-colliding display actor holding the score state. Text rendering
/// itself is the draw surface's business; the core only composes the text.
#[derive(Copy, Clone, Debug, PartialEq, Eq, Structural)]
pub struct Scoreboard {
    pub position: Vec2,
    pub data: ScoreboardData,
}

impl Scoreboard {
    pub open spec fn wf(self) -> bool {
        self.position.in_range()
    }

    pub fn new(position: &Vec2) -> (s: Scoreboard)
        requires
            position.in_range(),
        ensures
            s == (Scoreboard {
                position: *position,
                data: ScoreboardData { left_score: 0, right_score: 0 },
            }),
            s.wf(),
    {
        Scoreboard { position: *position, data: ScoreboardData { left_score: 0, right_score: 0 } }
    }

    pub fn position(&self) -> (p: &Vec2)
        ensures
            *p == self.position,
    {
        &self.position
    }

    pub fn set_position(&mut self, new_pos: &Vec2)
        requires
            new_pos.in_range(),
        ensures
            *final(self) == (Scoreboard { position: *new_pos, ..*old(self) }),
    {
        self.position = *new_pos;
    }

    /// The scoreboard is display-only: both updates do nothing.
    pub fn update(&mut self, _info: &UpdateInfo)
        ensures
            *final(self) == *old(self),
    {
    }

    pub fn fixed_update(&mut self, _info: &UpdateInfo)
        ensures
            *final(self) == *old(self),
    {
    }

    pub fn get_collider(&self) -> (c: Option<Collider>)
        ensures
            c == None::<Collider>,
    {
        None
    }

    pub fn get_data(&self) -> (d: Option<ActorData>)
        ensures
            d == Some(ActorData::Scoreboard(self.data)),
    {
        Some(ActorData::Scoreboard(self.data))
    }

    /// What the scoreboard asks the surface to draw: its text, centered
    /// on its position in pixels. The surface centers the rendered
    /// texture itself, since only it knows the texture's size.
    pub fn draw(&self) -> (cmd: DrawCmd)
        requires
            self.wf(),
        ensures
            cmd matches DrawCmd::Text { text, center_x, center_y } && text@ == spec_score_text(
                self.data.left_score,
                self.data.right_score,
            ) && center_x == spec_to_pixels(self.position.x as int) && center_y == spec_to_pixels(
                self.position.y as int,
            ),
    {
        DrawCmd::Text {
            text: score_text(self.data.left_score, self.data.right_score),
            center_x: to_pixels(self.position.x),
            center_y: to_pixels(self.position.y),
        }
    }

    /// Accepts a score pair; any other payload is ignored.
    pub fn set_data(&mut self, data: ActorData)
        ensures
            *final(self) == (match data {
                ActorData::Scoreboard(s) => Scoreboard { data: s, ..*old(self) },
                _ => *old(self),
            }),
    {
        match data {
            ActorData::Scoreboard(s) => {
                self.data = s;
            },
            _ => {},
        }
    }
}

} // verus!

use vstd::prelude::*;

use crate::actor::{ActorData, Collider, ColliderType, DrawCmd, RectangleDefinition, UpdateInfo, Vec2};
use crate::math_helper::COORD_LIMIT;

verus! {

/// `Left` and `Right` tag the side boundaries where the opposite player
/// scores; `Regular` marks the non-scoring top and bottom boundaries.
#[derive(Copy, Clone, Debug, PartialEq, Eq, Structural)]
pub enum WallType {
    Regular,
    Left,
    Right,
}

/// A static rectangle; walls never move and are never drawn.
#[derive(Copy, Clone, Debug, PartialEq, Eq, Structural)]
pub struct Wall {
    pub position: Vec2,
    pub collider: RectangleDefinition,
    pub wall_type: WallType,
}

impl Wall {
    pub open spec fn wf(self) -> bool {
        &&& self.position.in_range()
        &&& self.collider.wf()
    }

    pub fn new(position: &Vec2, width: i64, height: i64, wall_type: WallType) -> (w: Wall)
        requires
            position.in_range(),
            0 <= width <= COORD_LIMIT,
            0 <= height <= COORD_LIMIT,
        ensures
            w == (Wall {
                position: *position,
                collider: RectangleDefinition { height, width },
                wall_type,
            }),
            w.wf(),
    {
        Wall { position: *position, collider: RectangleDefinition { height, width }, wall_type }
    }

    pub fn position(&self) -> (p: &Vec2)
        ensures
            *p == self.position,
    {
        &self.position
    }

    pub fn set_position(&mut self, new_pos: &Vec2)
        requires
            new_pos.in_range(),
        ensures
            *final(self) == (Wall { position: *new_pos, ..*old(self) }),
    {
        self.position = *new_pos;
    }

    /// Walls never move: both updates do nothing.
    pub fn update(&mut self, _info: &UpdateInfo)
        ensures
            *final(self) == *old(self),
    {
    }

    pub fn fixed_update(&mut self, _info: &UpdateInfo)
        ensures
            *final(self) == *old(self),
    {
    }

    /// The shape a wall exposes to collision queries.
    pub open spec fn spec_collider(self) -> Collider {
        Collider { is_static: true, collider: ColliderType::Rectangle(self.collider) }
    }

    pub fn get_collider(&self) -> (c: Option<Collider>)
        ensures
            c == Some(self.spec_collider()),
    {
        Some(Collider { is_static: true, collider: ColliderType::Rectangle(self.collider) })
    }

    pub fn get_data(&self) -> (d: Option<ActorData>)
        ensures
            d == Some(ActorData::Wall(self.wall_type)),
    {
        Some(ActorData::Wall(self.wall_type))
    }

    /// Walls are invisible boundary markers and are never drawn.
    pub fn draw(&self) -> (cmd: DrawCmd)
        ensures
            cmd is Nothing,
    {
        DrawCmd::Nothing
    }
}

} // verus!

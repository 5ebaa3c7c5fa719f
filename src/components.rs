use vstd::prelude::*;

verus! {

/// Fixed-point steps in one world unit.
pub const UNIT: i64 = 1000;

/// Horizontal speed of the player, in steps per second.
pub const PLAYER_SPEED: u32 = 7000;

/// Horizontal speed of a monster, in steps per second.
pub const MONSTER_SPEED: u32 = 3000;

/// Vertical velocity given by a jump, in steps per second.
pub const JUMP_IMPULSE: i64 = 14000;

/// Horizontal speed of a bullet, in steps per second.
pub const BULLET_SPEED: u32 = 14000;

/// The way a character faces.
#[derive(Clone, Copy, Debug, PartialEq, Eq, Structural)]
pub enum GameDirection {
    Left,
    Right,
}

impl GameDirection {
    pub open spec fn flipped(self) -> GameDirection {
        match self {
            GameDirection::Left => GameDirection::Right,
            GameDirection::Right => GameDirection::Left,
        }
    }

    /// -1 for left, +1 for right.
    pub open spec fn sign(self) -> int {
        match self {
            GameDirection::Left => -1,
            GameDirection::Right => 1,
        }
    }

    /// The other direction.
    pub fn flip(self) -> (r: GameDirection)
        ensures
            r == self.flipped(),
    {
        match self {
            GameDirection::Left => GameDirection::Right,
            GameDirection::Right => GameDirection::Left,
        }
    }

    /// `magnitude` pointed along this direction.
    pub fn signed(self, magnitude: u32) -> (r: i64)
        ensures
            r == self.sign() * magnitude,
    {
        match self {
            GameDirection::Left => -(magnitude as i64),
            GameDirection::Right => magnitude as i64,
        }
    }
}

/// A point or a vector of the world, in fixed-point steps.
#[derive(Clone, Copy, Debug, PartialEq, Eq, Structural)]
pub struct Point {
    pub x: i64,
    pub y: i64,
}

/// The player's own facet.
#[derive(Clone, Copy, Debug, PartialEq, Eq, Structural)]
pub struct Player {
    pub speed: u32,
    pub facing_direction: GameDirection,
}

/// Marks a being whose touch hurts the player.
#[derive(Clone, Copy, Debug, PartialEq, Eq, Structural)]
pub struct Enemy;

/// A monster's own facet.
#[derive(Clone, Copy, Debug, PartialEq, Eq, Structural)]
pub struct Monster {
    pub speed: u32,
    pub facing_direction: GameDirection,
}

/// Marks a bullet, which is destroyed on its first contact.
#[derive(Clone, Copy, Debug, PartialEq, Eq, Structural)]
pub struct Bullet;

/// Jumping ability and whether a jump is under way.
#[derive(Clone, Copy, Debug, PartialEq, Eq, Structural)]
pub struct Jumper {
    pub jump_impulse: i64,
    pub is_jumping: bool,
}

/// Marks the static sensor region that ends a level.
#[derive(Clone, Copy, Debug, PartialEq, Eq, Structural)]
pub struct WinningZone;

/// Marks a being that can be hit, can die and dies when it falls too low.
#[derive(Clone, Copy, Debug, PartialEq, Eq, Structural)]
pub struct LivingBeing;

/// Marks a static floor slab.
#[derive(Clone, Copy, Debug, PartialEq, Eq, Structural)]
pub struct Floor;

/// A terrain column drawn on screen, of the given height in whole units.
#[derive(Clone, Copy, Debug, PartialEq, Eq, Structural)]
pub struct Tile {
    pub height: usize,
}

/// Whether the physics layer moves a body.
#[derive(Clone, Copy, Debug, PartialEq, Eq, Structural)]
pub enum BodyKind {
    Static,
    Dynamic,
}

/// A collider shape, centred on the body, with extents in steps.
#[derive(Clone, Copy, Debug, PartialEq, Eq, Structural)]
pub enum Shape {
    Cuboid { half_width: i64, half_height: i64 },
    RoundCuboid { half_width: i64, half_height: i64, radius: i64 },
}

/// How the physics layer is to hold an entity: its rigid body and its
/// collider. Gravity is scaled in tenths of the world's gravity.
#[derive(Clone, Copy, Debug, PartialEq, Eq, Structural)]
pub struct PhysicsBody {
    pub kind: BodyKind,
    pub shape: Shape,
    pub contact_events: bool,
    pub gravity_tenths: u32,
    pub rotation_locked: bool,
    pub can_sleep: bool,
}

} // verus!

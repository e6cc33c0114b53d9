use vstd::prelude::*;
use crate::timer::CooldownTimer;

verus! {

// Geometry is measured in tenths of a world unit, so that every quantity the
// rules need (half sizes, per-tick speeds, spawn bands) is an exact integer.
// Time is measured in milliseconds.
pub const WINDOW_WIDTH: i64 = 6000;
pub const WINDOW_HEIGHT: i64 = 8000;
pub const UNIT_WIDTH: i64 = 600;
pub const UNIT_HEIGHT: i64 = 450;
pub const ENEMY_WIDTH: i64 = 600;
pub const ENEMY_HEIGHT: i64 = 600;
pub const BULLET_WIDTH: i64 = 130;
pub const BULLET_HEIGHT: i64 = 370;
pub const PLAYER_SPAWN_X: i64 = 0;
// Half the player's height above the bottom edge of the window.
pub const PLAYER_SPAWN_Y: i64 = -3775;
pub const PLAYER_MOVE_SPEED: u32 = 35;
pub const ENEMY_MOVE_SPEED: u32 = 4;
pub const PLAYER_BULLET_SPEED: u32 = 20;
pub const ENEMY_BULLET_SPEED: u32 = 20;
pub const PLAYER_WEAPON_COOL_DOWN_MS: u64 = 300;
pub const ENEMY_SHOOT_COOL_DOWN_MS: u64 = 1500;
pub const ENEMY_WAVE_COOL_DOWN_MS: u64 = 3000;
// One enemy height below the top edge of the window.
pub const ENEMY_SPAWN_Y: i64 = 3400;
// Horizontal safe band: half an enemy width inside either side edge. The
// upper bound is exclusive.
pub const ENEMY_SPAWN_X_MIN: i64 = -2700;
pub const ENEMY_SPAWN_X_MAX: i64 = 2700;

// A bullet is reclaimed once its centre passes each edge by half the
// bullet's own size, so it disappears just off-screen: half the window
// extent plus half the bullet extent, on each axis.
pub const BOUNDARY_TOP: i64 = 4185;
pub const BOUNDARY_BOTTOM: i64 = -4185;
pub const BOUNDARY_LEFT: i64 = -3065;
pub const BOUNDARY_RIGHT: i64 = 3065;

// Bullets leave the firing unit's muzzle: half the firer's height plus half
// the bullet's height, upward for the player and downward for enemies.
pub const PLAYER_FIRE_OFFSET: i64 = 410;
pub const ENEMY_FIRE_OFFSET: i64 = 485;

/// Ownership tag of an entity; bullets return to `Neutral` when reclaimed,
/// decoupling "who fired it" from pool membership.
#[derive(Clone, Copy, Debug, PartialEq, Eq, Structural)]
pub enum Faction {
    Player,
    Enemy,
    Neutral,
}

/// Entity category selecting which rules apply: only `Bullet` entities are
/// boundary-checked.
#[derive(Clone, Copy, Debug, PartialEq, Eq, Structural)]
pub enum Kind {
    Item,
    Unit,
    Bullet,
}

/// What the renderer should draw for an entity; the core only selects it.
#[derive(Clone, Copy, Debug, PartialEq, Eq, Structural)]
pub enum Appearance {
    Blank,
    PlayerShip,
    EnemyShip,
    PlayerBullet,
    EnemyBullet,
}

#[derive(Clone, Copy, Debug, PartialEq, Eq, Structural)]
pub struct Vec2i {
    pub x: i64,
    pub y: i64,
}

impl Vec2i {
    pub fn new(x: i64, y: i64) -> (v: Vec2i)
        ensures
            v.x == x,
            v.y == y,
    {
        Vec2i { x, y }
    }
}

pub open spec fn zero_vec() -> Vec2i {
    Vec2i { x: 0, y: 0 }
}

/// Per-tick motion state: a step direction and a scalar speed. A zero
/// direction means stationary regardless of speed.
#[derive(Clone, Copy, Debug, PartialEq, Eq, Structural)]
pub struct Movable {
    pub direction: Vec2i,
    pub speed: u32,
}

impl Movable {
    /// The direction is a unit-or-zero step vector: each component is -1, 0
    /// or 1.
    pub open spec fn wf(self) -> bool {
        &&& -1 <= self.direction.x <= 1
        &&& -1 <= self.direction.y <= 1
    }
}

/// Firing capability: a weapon cooldown plus a flag distinguishing
/// input-gated fire (player) from timer-gated autofire (enemy).
#[derive(Clone, Copy, Debug, PartialEq, Eq, Structural)]
pub struct Shooter {
    pub automatic: bool,
    pub weapon_cool_down: CooldownTimer,
}

/// One record of the arena: everything the engine's entity store would hold
/// for a handle, as plain values.
#[derive(Clone, Copy, Debug, PartialEq, Eq)]
pub struct GameObject {
    pub pos: Vec2i,
    pub visible: bool,
    pub appearance: Appearance,
    pub faction: Faction,
    pub kind: Kind,
    pub movable: Movable,
    pub shooter: Option<Shooter>,
}

impl GameObject {
    pub open spec fn wf(self) -> bool {
        self.movable.wf()
    }
}

/// An inactive enemy unit as the enemy pool pre-creates it: hidden,
/// stationary, automatic shooter with the enemy weapon cooldown.
pub open spec fn pooled_enemy_obj() -> GameObject {
    GameObject {
        pos: Vec2i { x: 0, y: 0 },
        visible: false,
        appearance: Appearance::EnemyShip,
        faction: Faction::Enemy,
        kind: Kind::Unit,
        movable: Movable { direction: Vec2i { x: 0, y: 0 }, speed: ENEMY_MOVE_SPEED },
        shooter: Some(
            Shooter {
                automatic: true,
                weapon_cool_down: CooldownTimer {
                    duration_ms: ENEMY_SHOOT_COOL_DOWN_MS,
                    elapsed_ms: 0,
                },
            },
        ),
    }
}

/// An inactive bullet as the bullet pool pre-creates it: hidden, stationary,
/// neutral, no shooter.
pub open spec fn pooled_bullet_obj() -> GameObject {
    GameObject {
        pos: Vec2i { x: 0, y: 0 },
        visible: false,
        appearance: Appearance::Blank,
        faction: Faction::Neutral,
        kind: Kind::Bullet,
        movable: Movable { direction: Vec2i { x: 0, y: 0 }, speed: PLAYER_BULLET_SPEED },
        shooter: None,
    }
}

/// The player's unit at startup: visible at the spawn point, stationary,
/// manual shooter with the player weapon cooldown.
pub open spec fn player_obj() -> GameObject {
    GameObject {
        pos: Vec2i { x: PLAYER_SPAWN_X, y: PLAYER_SPAWN_Y },
        visible: true,
        appearance: Appearance::PlayerShip,
        faction: Faction::Player,
        kind: Kind::Unit,
        movable: Movable { direction: Vec2i { x: 0, y: 0 }, speed: PLAYER_MOVE_SPEED },
        shooter: Some(
            Shooter {
                automatic: false,
                weapon_cool_down: CooldownTimer {
                    duration_ms: PLAYER_WEAPON_COOL_DOWN_MS,
                    elapsed_ms: 0,
                },
            },
        ),
    }
}

/// The arena of game-object records; a handle is an index into `objects`.
pub struct World {
    pub objects: Vec<GameObject>,
}

impl World {
    pub open spec fn wf(self) -> bool {
        forall|i: int| 0 <= i < self.objects@.len() ==> (#[trigger] self.objects@[i]).wf()
    }

    pub fn new() -> (w: World)
        ensures
            w.objects@.len() == 0,
            w.wf(),
    {
        World { objects: Vec::new() }
    }
}

pub fn make_pooled_enemy() -> (o: GameObject)
    ensures
        o == pooled_enemy_obj(),
{
    GameObject {
        pos: Vec2i { x: 0, y: 0 },
        visible: false,
        appearance: Appearance::EnemyShip,
        faction: Faction::Enemy,
        kind: Kind::Unit,
        movable: Movable { direction: Vec2i { x: 0, y: 0 }, speed: ENEMY_MOVE_SPEED },
        shooter: Some(
            Shooter {
                automatic: true,
                weapon_cool_down: CooldownTimer::new(ENEMY_SHOOT_COOL_DOWN_MS),
            },
        ),
    }
}

pub fn make_pooled_bullet() -> (o: GameObject)
    ensures
        o == pooled_bullet_obj(),
{
    GameObject {
        pos: Vec2i { x: 0, y: 0 },
        visible: false,
        appearance: Appearance::Blank,
        faction: Faction::Neutral,
        kind: Kind::Bullet,
        movable: Movable { direction: Vec2i { x: 0, y: 0 }, speed: PLAYER_BULLET_SPEED },
        shooter: None,
    }
}

pub fn make_player() -> (o: GameObject)
    ensures
        o == player_obj(),
{
    GameObject {
        pos: Vec2i { x: PLAYER_SPAWN_X, y: PLAYER_SPAWN_Y },
        visible: true,
        appearance: Appearance::PlayerShip,
        faction: Faction::Player,
        kind: Kind::Unit,
        movable: Movable { direction: Vec2i { x: 0, y: 0 }, speed: PLAYER_MOVE_SPEED },
        shooter: Some(
            Shooter {
                automatic: false,
                weapon_cool_down: CooldownTimer::new(PLAYER_WEAPON_COOL_DOWN_MS),
            },
        ),
    }
}

} // verus!

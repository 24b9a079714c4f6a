//! The kinds of entity the simulation holds, and the fixed game constants.
use crate::grid::{tile_in_range, world_in_range, GridPosition, WorldPosition, TILE_LIMIT};
use crate::timer::{Timer, TimerMode};
use rand::Rng;
use vstd::prelude::*;

verus! {

/// Milliseconds from placing a bomb to its detonation.
pub const BOMB_TIMER: u64 = 3000;

/// Milliseconds an explosion tile lasts.
pub const EXPLOSION_DURATION: u64 = 500;

/// Tiles a blast reaches in each direction.
pub const EXPLOSION_RANGE: i32 = 2;

/// Player speed in tiles per second.
pub const PLAYER_SPEED: i64 = 3;

/// Milliseconds between two move attempts of an enemy.
pub const ENEMY_MOVE_INTERVAL: u64 = 500;

/// Milliseconds between a win or a loss and the switch of screen.
pub const GAME_OVER_DELAY: u64 = 1000;

/// The player: its tile and its continuous position.
#[derive(Clone, Copy, Debug, PartialEq, Eq, Structural)]
pub struct Player {
    pub pos: GridPosition,
    pub world: WorldPosition,
}

/// Unit step of an enemy along one axis.
#[derive(Clone, Copy, Debug, PartialEq, Eq, Structural)]
pub struct EnemyDirection {
    pub x: i32,
    pub y: i32,
}

/// The timer that paces an enemy's steps.
#[derive(Clone, Copy, Debug, PartialEq, Eq, Structural)]
pub struct EnemyMoveTimer {
    pub timer: Timer,
}

/// An enemy wandering the maze.
#[derive(Clone, Copy, Debug, PartialEq, Eq, Structural)]
pub struct Enemy {
    pub pos: GridPosition,
    pub world: WorldPosition,
    pub direction: EnemyDirection,
    pub move_timer: EnemyMoveTimer,
}

/// A bomb counting down on its tile.
#[derive(Clone, Copy, Debug, PartialEq, Eq, Structural)]
pub struct Bomb {
    pub pos: GridPosition,
    pub timer: Timer,
    pub range: i32,
}

/// One burning tile of a blast.
#[derive(Clone, Copy, Debug, PartialEq, Eq, Structural)]
pub struct Explosion {
    pub pos: GridPosition,
    pub timer: Timer,
}

/// One of the four unit steps along the axes.
pub open spec fn is_cardinal(d: EnemyDirection) -> bool {
    (d.x == 0 && (d.y == 1 || d.y == -1)) || (d.y == 0 && (d.x == 1 || d.x == -1))
}

/// The directions in the order `EnemyDirection::from_index` numbers them:
/// up, down, right, left.
pub open spec fn direction_of(i: int) -> EnemyDirection {
    if i == 0 {
        EnemyDirection { x: 0, y: 1 }
    } else if i == 1 {
        EnemyDirection { x: 0, y: -1i32 }
    } else if i == 2 {
        EnemyDirection { x: 1, y: 0 }
    } else {
        EnemyDirection { x: -1i32, y: 0 }
    }
}

/// Relies on rand's `thread_rng().gen_range(0..4)`: a value drawn from
/// `0..4`, which is not empty, so the call does not panic.
#[verifier::external_body]
fn random_direction_index() -> (r: usize)
    ensures
        r < 4,
{
    rand::thread_rng().gen_range(0..4)
}

impl EnemyDirection {
    /// The direction numbered `i`.
    pub fn from_index(i: usize) -> (r: EnemyDirection)
        requires
            i < 4,
        ensures
            r == direction_of(i as int),
            is_cardinal(r),
    {
        if i == 0 {
            EnemyDirection { x: 0, y: 1 }
        } else if i == 1 {
            EnemyDirection { x: 0, y: -1 }
        } else if i == 2 {
            EnemyDirection { x: 1, y: 0 }
        } else {
            EnemyDirection { x: -1, y: 0 }
        }
    }

    /// A direction drawn at random among the four.
    pub fn random() -> (r: EnemyDirection)
        ensures
            is_cardinal(r),
    {
        EnemyDirection::from_index(random_direction_index())
    }
}

/// A new explosion on tile `p`.
pub open spec fn explosion_at(p: GridPosition) -> Explosion {
    Explosion { pos: p, timer: Timer { duration: EXPLOSION_DURATION, elapsed: 0, mode: TimerMode::Once } }
}

impl Player {
    pub open spec fn wf(self) -> bool {
        tile_in_range(self.pos) && world_in_range(self.world)
    }
}

impl Enemy {
    pub open spec fn wf(self) -> bool {
        &&& tile_in_range(self.pos)
        &&& is_cardinal(self.direction)
        &&& self.move_timer.timer.wf()
        &&& self.move_timer.timer.mode == TimerMode::Repeating
    }
}

impl Bomb {
    pub open spec fn wf(self) -> bool {
        &&& tile_in_range(self.pos)
        &&& 0 <= self.range <= TILE_LIMIT
        &&& self.timer.wf()
        &&& self.timer.mode == TimerMode::Once
    }
}

impl Explosion {
    pub open spec fn wf(self) -> bool {
        self.timer.wf() && self.timer.mode == TimerMode::Once
    }
}

} // verus!

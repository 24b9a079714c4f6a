//! Movement of the player and the enemies, and their collision.
use crate::components::{is_cardinal, Enemy, EnemyDirection, EnemyMoveTimer, Player, PLAYER_SPEED};
use crate::game::{bomb_on, enemy_on, Game, GameView};
use crate::resource::GameEvent;
use crate::grid::{
    grid_of, grid_to_world, tile_in_range, world_in_range, world_of, world_to_grid, GridPosition,
    WorldPosition, CELL_SIZE, TILE_LIMIT, WORLD_LIMIT, WORLD_SCALE,
};
use vstd::prelude::*;

verus! {

/// The arrow keys held during a tick.
#[derive(Clone, Copy, Debug, PartialEq, Eq, Structural)]
pub struct MoveKeys {
    pub up: bool,
    pub down: bool,
    pub left: bool,
    pub right: bool,
}

/// The direction the keys ask for, in world axes (y up): the vertical keys
/// win over the horizontal ones, up over down and left over right.
pub open spec fn key_direction(k: MoveKeys) -> (int, int) {
    if k.up {
        (0, 1)
    } else if k.down {
        (0, -1)
    } else if k.left {
        (-1, 0)
    } else if k.right {
        (1, 0)
    } else {
        (0, 0)
    }
}

/// World sub-units the player covers in `dt` milliseconds.
pub open spec fn player_step(dt: int) -> int {
    PLAYER_SPEED * (CELL_SIZE / WORLD_SCALE) * dt
}

/// `w` moved by `s` along the sign of `d`.
pub open spec fn shift(w: int, d: int, s: int) -> int {
    if d > 0 {
        w + s
    } else if d < 0 {
        w - s
    } else {
        w
    }
}

/// Whether the player may stand on tile `p`: no wall of either kind is on
/// it. Bombs do not block the player.
pub open spec fn open_for_player(v: GameView, p: GridPosition) -> bool {
    !v.wall_on(p)
}

/// Whether an enemy may step onto tile `p`: no wall of either kind and no
/// bomb is on it, and it lies within `TILE_LIMIT`, past which a step would
/// overflow.
pub open spec fn open_for_enemy(v: GameView, p: GridPosition) -> bool {
    tile_in_range(p) && !v.wall_on(p) && !bomb_on(v.bombs, p)
}

/// The game after the player moved for `dt` milliseconds with keys `k`: the
/// candidate point is taken if its tile is open, else the player stays.
pub open spec fn player_moved(v: GameView, k: MoveKeys, dt: int) -> GameView {
    let (dx, dy) = key_direction(k);
    match v.player {
        Some(p) => {
            let wx = shift(p.world.x as int, dx, player_step(dt));
            let wy = shift(p.world.y as int, dy, player_step(dt));
            let (gx, gy) = grid_of(wx, wy);
            if v.paused || (dx == 0 && dy == 0) || !(-WORLD_LIMIT <= wx <= WORLD_LIMIT && -WORLD_LIMIT <= wy
                <= WORLD_LIMIT) {
                v
            } else if !open_for_player(v, GridPosition { x: gx as i32, y: gy as i32 }) {
                v
            } else {
                GameView {
                    player: Some(
                        Player {
                            pos: GridPosition { x: gx as i32, y: gy as i32 },
                            world: WorldPosition { x: wx as i64, y: wy as i64 },
                        },
                    ),
                    ..v
                }
            }
        },
        None => v,
    }
}

/// Centre of tile `p` as a world position.
pub open spec fn centre_of(p: GridPosition) -> WorldPosition {
    WorldPosition { x: world_of(p.x as int, p.y as int).0 as i64, y: world_of(p.x as int, p.y as int).1 as i64 }
}

/// Enemy `e` after `dt` milliseconds: when its timer ends a period it steps
/// on if the next tile is open, else it turns to `reroll`.
pub open spec fn enemy_stepped(v: GameView, e: Enemy, dt: int, reroll: EnemyDirection) -> Enemy {
    let timer = e.move_timer.timer.advanced(dt);
    let next = GridPosition { x: (e.pos.x + e.direction.x) as i32, y: (e.pos.y + e.direction.y) as i32 };
    let e1 = Enemy { move_timer: EnemyMoveTimer { timer }, ..e };
    if !e.move_timer.timer.fires(dt) {
        e1
    } else if open_for_enemy(v, next) {
        Enemy { pos: next, world: centre_of(next), ..e1 }
    } else {
        Enemy { direction: reroll, ..e1 }
    }
}

/// The game after every enemy moved for `dt` milliseconds, enemy `i`
/// turning to `rerolls[i]` when blocked. Nothing moves while paused.
pub open spec fn enemies_moved(v: GameView, dt: int, rerolls: Seq<EnemyDirection>) -> GameView {
    if v.paused {
        v
    } else {
        GameView { enemies: Seq::new(v.enemies.len(), |i: int| enemy_stepped(v, v.enemies[i], dt, rerolls[i])), ..v }
    }
}

/// The game after the collision check: a player sharing a tile with an
/// enemy dies.
pub open spec fn collided(v: GameView) -> GameView {
    match v.player {
        Some(p) => if enemy_on(v.enemies, p.pos) {
            GameView { player: None, events: v.events.push(GameEvent::PlayerKilled), ..v }
        } else {
            v
        },
        None => v,
    }
}

/// The direction asked for by the keys held.
pub fn input_direction(k: MoveKeys) -> (r: (i32, i32))
    ensures
        (r.0 as int, r.1 as int) == key_direction(k),
{
    if k.up {
        (0, 1)
    } else if k.down {
        (0, -1)
    } else if k.left {
        (-1, 0)
    } else if k.right {
        (1, 0)
    } else {
        (0, 0)
    }
}

impl Game {
    /// Whether the player is kept off tile `p`: a wall of either kind is on
    /// it. Bombs do not block the player.
    pub fn is_blocked(&self, p: GridPosition) -> (r: bool)
        ensures
            r == !open_for_player(self@, p),
    {
        self.is_wall(p)
    }

    /// Moves the player for `dt` milliseconds with the keys `k` held.
    pub fn player_movement(&mut self, k: MoveKeys, dt: u64)
        requires
            old(self)@.wf(),
        ensures
            final(self)@ == player_moved(old(self)@, k, dt as int),
            final(self)@.wf(),
    {
        if self.paused.0 {
            return;
        }
        let (dx, dy) = input_direction(k);
        if dx == 0 && dy == 0 {
            return;
        }
        match self.player {
            Some(p) => {
                let rate: i128 = PLAYER_SPEED as i128 * (CELL_SIZE / WORLD_SCALE) as i128;
                assert(0 <= rate * dt <= 180 * 0x1_0000_0000_0000_0000) by (nonlinear_arith)
                    requires
                        rate == 180,
                        0 <= dt < 0x1_0000_0000_0000_0000,
                ;
                let step: i128 = rate * dt as i128;
                let wx: i128 = if dx > 0 {
                    p.world.x as i128 + step
                } else if dx < 0 {
                    p.world.x as i128 - step
                } else {
                    p.world.x as i128
                };
                let wy: i128 = if dy > 0 {
                    p.world.y as i128 + step
                } else if dy < 0 {
                    p.world.y as i128 - step
                } else {
                    p.world.y as i128
                };
                if wx < -(WORLD_LIMIT as i128) || wx > WORLD_LIMIT as i128 || wy < -(WORLD_LIMIT as i128) || wy
                    > WORLD_LIMIT as i128 {
                    return;
                }
                let w = WorldPosition { x: wx as i64, y: wy as i64 };
                let g = world_to_grid(w);
                if !self.is_blocked(g) {
                    self.player = Some(Player { pos: g, world: w });
                }
            },
            None => {},
        }
    }

    /// Whether an enemy is kept off tile `p`: a wall of either kind or a bomb
    /// on it, or a tile past `TILE_LIMIT`.
    pub fn is_blocked_for_enemy(&self, p: GridPosition) -> (r: bool)
        ensures
            r == !open_for_enemy(self@, p),
    {
        !(-TILE_LIMIT <= p.x && p.x <= TILE_LIMIT && -TILE_LIMIT <= p.y && p.y <= TILE_LIMIT) || self.is_wall(p)
            || self.has_bomb(p)
    }

    /// Moves every enemy for `dt` milliseconds; a blocked enemy `i` turns to
    /// `rerolls[i]`.
    pub fn enemy_movement_with(&mut self, dt: u64, rerolls: &Vec<EnemyDirection>)
        requires
            old(self)@.wf(),
            rerolls@.len() == old(self)@.enemies.len(),
            forall|i: int| 0 <= i < rerolls@.len() ==> is_cardinal(#[trigger] rerolls@[i]),
        ensures
            final(self)@ == enemies_moved(old(self)@, dt as int, rerolls@),
            final(self)@.wf(),
    {
        if self.paused.0 {
            return;
        }
        let ghost v = self@;
        let mut moved: Vec<Enemy> = Vec::new();
        let mut k: usize = 0;
        while k < self.enemies.len()
            invariant
                k <= self.enemies.len(),
                self@ == v,
                v.wf(),
                !v.paused,
                rerolls@.len() == v.enemies.len(),
                forall|i: int| 0 <= i < rerolls@.len() ==> is_cardinal(#[trigger] rerolls@[i]),
                moved@.len() == k,
                forall|i: int|
                    0 <= i < k ==> #[trigger] moved@[i] == enemy_stepped(v, v.enemies[i], dt as int, rerolls@[i]),
                forall|i: int| 0 <= i < k ==> (#[trigger] moved@[i]).wf(),
            decreases self.enemies.len() - k,
        {
            let e = self.enemies[k];
            assert(v.enemies[k as int].wf());
            let mut timer = e.move_timer.timer;
            let fired = timer.tick(dt);
            let mut next_e = Enemy { move_timer: EnemyMoveTimer { timer }, ..e };
            if fired {
                let next = GridPosition { x: e.pos.x + e.direction.x, y: e.pos.y + e.direction.y };
                if self.is_blocked_for_enemy(next) {
                    next_e.direction = rerolls[k];
                } else {
                    next_e.pos = next;
                    next_e.world = grid_to_world(next.x, next.y);
                }
            }
            moved.push(next_e);
            k = k + 1;
        }
        self.enemies = moved;
        assert(self@ =~= enemies_moved(v, dt as int, rerolls@));
    }

    /// Moves every enemy for `dt` milliseconds; a blocked enemy turns to a
    /// direction drawn at random.
    pub fn enemy_movement(&mut self, dt: u64)
        requires
            old(self)@.wf(),
        ensures
            exists|rerolls: Seq<EnemyDirection>|
                rerolls.len() == old(self)@.enemies.len() && (forall|i: int|
                    0 <= i < rerolls.len() ==> is_cardinal(#[trigger] rerolls[i])) && final(self)@
                    == enemies_moved(old(self)@, dt as int, rerolls),
            final(self)@.wf(),
    {
        let mut rerolls: Vec<EnemyDirection> = Vec::new();
        let mut k: usize = 0;
        while k < self.enemies.len()
            invariant
                k <= self.enemies.len(),
                rerolls@.len() == k,
                forall|i: int| 0 <= i < k ==> is_cardinal(#[trigger] rerolls@[i]),
            decreases self.enemies.len() - k,
        {
            rerolls.push(EnemyDirection::random());
            k = k + 1;
        }
        self.enemy_movement_with(dt, &rerolls);
    }

    /// Kills the player if it shares a tile with an enemy.
    pub fn check_player_enemy_collision(&mut self)
        requires
            old(self)@.wf(),
        ensures
            final(self)@ == collided(old(self)@),
            final(self)@.wf(),
    {
        match self.player {
            Some(p) => {
                let ghost v = self@;
                let mut k: usize = 0;
                while k < self.enemies.len()
                    invariant
                        self@ == v,
                        v == old(self)@,
                        v.wf(),
                        v.player == Some(p),
                        k <= self.enemies.len(),
                        forall|i: int| 0 <= i < k ==> self.enemies@[i].pos != p.pos,
                    decreases self.enemies.len() - k,
                {
                    if self.enemies[k].pos == p.pos {
                        self.player = None;
                        self.events.push(GameEvent::PlayerKilled);
                        assert(self@ =~= collided(v));
                        return;
                    }
                    k = k + 1;
                }
            },
            None => {},
        }
    }
}

} // verus!

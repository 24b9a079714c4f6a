//! The fixed level: its layout and the entities a round starts with.
use crate::components::{
    is_cardinal, Enemy, EnemyDirection, EnemyMoveTimer, Player, ENEMY_MOVE_INTERVAL,
};
use crate::game::{Game, GameView};
use crate::grid::{grid_to_world, GridPosition, GRID_SIZE};
use crate::movement::centre_of;
use crate::timer::{Timer, TimerMode};
use vstd::prelude::*;

verus! {

/// Layout code of an open tile.
pub const EMPTY_TILE: u8 = 0;

/// Layout code of a solid wall.
pub const SOLID_TILE: u8 = 1;

/// Layout code of a breakable wall.
pub const BREAKABLE_TILE: u8 = 2;

/// The level, row by row from the top: a solid border, solid pillars on
/// every other tile inside, and breakable walls scattered between them.
pub open spec fn layout() -> Seq<Seq<u8>> {
    seq![
        seq![1u8, 1, 1, 1, 1, 1, 1, 1, 1, 1, 1, 1, 1],
        seq![1u8, 0, 0, 2, 0, 2, 0, 0, 2, 0, 0, 0, 1],
        seq![1u8, 0, 1, 0, 1, 0, 1, 2, 1, 0, 1, 0, 1],
        seq![1u8, 0, 2, 0, 0, 0, 0, 0, 0, 2, 0, 0, 1],
        seq![1u8, 0, 1, 0, 1, 0, 1, 0, 1, 2, 1, 0, 1],
        seq![1u8, 2, 0, 0, 2, 0, 0, 0, 0, 0, 2, 0, 1],
        seq![1u8, 0, 1, 0, 1, 0, 1, 2, 1, 0, 1, 2, 1],
        seq![1u8, 0, 0, 2, 0, 0, 0, 2, 0, 0, 0, 0, 1],
        seq![1u8, 2, 1, 2, 1, 0, 1, 0, 1, 0, 1, 0, 1],
        seq![1u8, 0, 0, 0, 0, 2, 0, 0, 0, 2, 2, 0, 1],
        seq![1u8, 0, 1, 0, 1, 0, 1, 0, 1, 2, 1, 0, 1],
        seq![1u8, 0, 0, 0, 2, 0, 0, 2, 0, 0, 0, 0, 1],
        seq![1u8, 1, 1, 1, 1, 1, 1, 1, 1, 1, 1, 1, 1],
    ]
}

/// Layout code of the `i`-th tile in row-major order.
pub open spec fn cell_code(i: int) -> u8 {
    layout()[i / 13][i % 13]
}

/// Tile of the `i`-th cell in row-major order.
pub open spec fn cell_pos(i: int) -> GridPosition {
    GridPosition { x: (i % 13) as i32, y: (i / 13) as i32 }
}

/// The tiles of layout code `kind` among the first `n` cells, in row-major
/// order.
pub open spec fn tiles_of_kind(kind: u8, n: int) -> Seq<GridPosition>
    decreases n,
{
    if n <= 0 {
        Seq::empty()
    } else if cell_code(n - 1) == kind {
        tiles_of_kind(kind, n - 1).push(cell_pos(n - 1))
    } else {
        tiles_of_kind(kind, n - 1)
    }
}

/// The tile where the player starts.
pub open spec fn player_start() -> GridPosition {
    GridPosition { x: 1, y: 1 }
}

/// The tiles where the enemies start, in spawning order.
pub open spec fn enemy_starts() -> Seq<GridPosition> {
    seq![GridPosition { x: 11, y: 1 }, GridPosition { x: 11, y: 11 }, GridPosition { x: 1, y: 11 }]
}

/// A fresh enemy on tile `p` heading `d`.
pub open spec fn enemy_spawned(p: GridPosition, d: EnemyDirection) -> Enemy {
    Enemy {
        pos: p,
        world: centre_of(p),
        direction: d,
        move_timer: EnemyMoveTimer {
            timer: Timer { duration: ENEMY_MOVE_INTERVAL, elapsed: 0, mode: TimerMode::Repeating },
        },
    }
}

/// Row `y` of the layout.
pub fn map_row(y: usize) -> (r: [u8; 13])
    requires
        y < 13,
    ensures
        r@ == layout()[y as int],
{
    if y == 0 {
        [1, 1, 1, 1, 1, 1, 1, 1, 1, 1, 1, 1, 1]
    } else if y == 1 {
        [1, 0, 0, 2, 0, 2, 0, 0, 2, 0, 0, 0, 1]
    } else if y == 2 {
        [1, 0, 1, 0, 1, 0, 1, 2, 1, 0, 1, 0, 1]
    } else if y == 3 {
        [1, 0, 2, 0, 0, 0, 0, 0, 0, 2, 0, 0, 1]
    } else if y == 4 {
        [1, 0, 1, 0, 1, 0, 1, 0, 1, 2, 1, 0, 1]
    } else if y == 5 {
        [1, 2, 0, 0, 2, 0, 0, 0, 0, 0, 2, 0, 1]
    } else if y == 6 {
        [1, 0, 1, 0, 1, 0, 1, 2, 1, 0, 1, 2, 1]
    } else if y == 7 {
        [1, 0, 0, 2, 0, 0, 0, 2, 0, 0, 0, 0, 1]
    } else if y == 8 {
        [1, 2, 1, 2, 1, 0, 1, 0, 1, 0, 1, 0, 1]
    } else if y == 9 {
        [1, 0, 0, 0, 0, 2, 0, 0, 0, 2, 2, 0, 1]
    } else if y == 10 {
        [1, 0, 1, 0, 1, 0, 1, 0, 1, 2, 1, 0, 1]
    } else if y == 11 {
        [1, 0, 0, 0, 2, 0, 0, 2, 0, 0, 0, 0, 1]
    } else {
        [1, 1, 1, 1, 1, 1, 1, 1, 1, 1, 1, 1, 1]
    }
}

impl Game {
    /// Adds a wall on tile `p`: a breakable one if `breakable`, else a solid
    /// one.
    pub fn spawn_wall(&mut self, p: GridPosition, breakable: bool)
        ensures
            final(self)@ == if breakable {
                GameView { breakable_walls: old(self)@.breakable_walls.push(p), ..old(self)@ }
            } else {
                GameView { walls: old(self)@.walls.push(p), ..old(self)@ }
            },
    {
        if breakable {
            self.breakable_walls.push(p);
        } else {
            self.walls.push(p);
        }
        proof {
            if breakable {
                assert(self@ =~= GameView { breakable_walls: old(self)@.breakable_walls.push(p), ..old(self)@ });
            } else {
                assert(self@ =~= GameView { walls: old(self)@.walls.push(p), ..old(self)@ });
            }
        }
    }

    /// Adds the walls of the level: a solid wall on each tile of code
    /// `SOLID_TILE`, a breakable one on each of code `BREAKABLE_TILE`.
    pub fn setup_map(&mut self)
        requires
            old(self)@.wf(),
        ensures
            final(self)@ == (GameView {
                walls: old(self)@.walls + tiles_of_kind(SOLID_TILE, 169),
                breakable_walls: old(self)@.breakable_walls + tiles_of_kind(BREAKABLE_TILE, 169),
                ..old(self)@
            }),
            final(self)@.wf(),
    {
        let ghost v = self@;
        let mut i: i32 = 0;
        while i < GRID_SIZE * GRID_SIZE
            invariant
                0 <= i <= 169,
                self@ == (GameView {
                    walls: v.walls + tiles_of_kind(SOLID_TILE, i as int),
                    breakable_walls: v.breakable_walls + tiles_of_kind(BREAKABLE_TILE, i as int),
                    ..v
                }),
            decreases 169 - i,
        {
            let x: i32 = i % GRID_SIZE;
            let y: i32 = i / GRID_SIZE;
            let row = map_row(y as usize);
            let code: u8 = row[x as usize];
            let p = GridPosition { x, y };
            assert(p == cell_pos(i as int));
            assert(code == cell_code(i as int));
            if code == SOLID_TILE {
                self.spawn_wall(p, false);
            } else if code == BREAKABLE_TILE {
                self.spawn_wall(p, true);
            }
            i = i + 1;
            assert(self@ =~= GameView {
                walls: v.walls + tiles_of_kind(SOLID_TILE, i as int),
                breakable_walls: v.breakable_walls + tiles_of_kind(BREAKABLE_TILE, i as int),
                ..v
            });
        }
    }

    /// Puts the player on its start tile.
    pub fn spawn_player(&mut self)
        requires
            old(self)@.wf(),
        ensures
            final(self)@ == (GameView {
                player: Some(Player { pos: player_start(), world: centre_of(player_start()) }),
                ..old(self)@
            }),
            final(self)@.wf(),
    {
        self.player = Some(Player { pos: GridPosition { x: 1, y: 1 }, world: grid_to_world(1, 1) });
    }

    /// Adds the three enemies on their start tiles, enemy `i` heading
    /// `directions[i]`.
    pub fn spawn_enemies_with(&mut self, directions: &Vec<EnemyDirection>)
        requires
            old(self)@.wf(),
            directions@.len() == 3,
            forall|i: int| 0 <= i < 3 ==> is_cardinal(#[trigger] directions@[i]),
        ensures
            final(self)@ == (GameView {
                enemies: old(self)@.enemies + Seq::new(3, |i: int| enemy_spawned(enemy_starts()[i], directions@[i])),
                ..old(self)@
            }),
            final(self)@.wf(),
    {
        let ghost v = self@;
        let starts: [(i32, i32); 3] = [(11, 1), (11, 11), (1, 11)];
        let mut k: usize = 0;
        while k < 3
            invariant
                k <= 3,
                v.wf(),
                starts@ == seq![(11i32, 1i32), (11i32, 11i32), (1i32, 11i32)],
                directions@.len() == 3,
                forall|i: int| 0 <= i < 3 ==> is_cardinal(#[trigger] directions@[i]),
                self@ =~= (GameView {
                    enemies: v.enemies + Seq::new(k as nat, |i: int| enemy_spawned(enemy_starts()[i], directions@[i])),
                    ..v
                }),
                self@.wf(),
            decreases 3 - k,
        {
            let (x, y) = starts[k];
            let p = GridPosition { x, y };
            self.enemies.push(
                Enemy {
                    pos: p,
                    world: grid_to_world(x, y),
                    direction: directions[k],
                    move_timer: EnemyMoveTimer { timer: Timer::new(ENEMY_MOVE_INTERVAL, TimerMode::Repeating) },
                },
            );
            k = k + 1;
            assert(self@ =~= GameView {
                enemies: v.enemies + Seq::new(k as nat, |i: int| enemy_spawned(enemy_starts()[i], directions@[i])),
                ..v
            });
        }
    }

    /// Adds the three enemies on their start tiles, each heading a direction
    /// drawn at random.
    pub fn spawn_enemies(&mut self)
        requires
            old(self)@.wf(),
        ensures
            exists|directions: Seq<EnemyDirection>|
                directions.len() == 3 && (forall|i: int| 0 <= i < 3 ==> is_cardinal(#[trigger] directions[i]))
                    && final(self)@ == (GameView {
                    enemies: old(self)@.enemies + Seq::new(3, |i: int| enemy_spawned(enemy_starts()[i], directions[i])),
                    ..old(self)@
                }),
            final(self)@.wf(),
    {
        let directions = vec![EnemyDirection::random(), EnemyDirection::random(), EnemyDirection::random()];
        self.spawn_enemies_with(&directions);
    }
}

} // verus!

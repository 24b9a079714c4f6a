//! Tile coordinates and the world-space coordinates the tiles are drawn at.
//!
//! World positions are fixed point: one world unit is `WORLD_SCALE` sub-units,
//! so that movement per millisecond is an exact integer.
use vstd::arithmetic::div_mod::lemma_fundamental_div_mod_converse;
use vstd::prelude::*;

verus! {

/// Number of tiles along each side of the square playfield.
pub const GRID_SIZE: i32 = 13;

/// Sub-units in one world unit.
pub const WORLD_SCALE: i64 = 1000;

/// Width of one tile in world sub-units (60 world units).
pub const CELL_SIZE: i64 = 60000;

/// World sub-unit coordinate of the centre of tile 0: the grid is centred at
/// the origin, `-(GRID_SIZE * CELL_SIZE) / 2 + CELL_SIZE / 2`.
pub const GRID_OFFSET: i64 = -360000;

/// Largest magnitude of a world coordinate that `world_to_grid` accepts.
pub const WORLD_LIMIT: i64 = 1000000000000;

/// Largest magnitude of a tile coordinate that entities may reach: far past
/// the playfield, and small enough that no step or blast overflows an `i32`.
pub const TILE_LIMIT: i32 = 100000000;

/// A tile of the grid; row 0 is the top of the screen.
#[derive(Clone, Copy, Debug, PartialEq, Eq, Structural)]
pub struct GridPosition {
    pub x: i32,
    pub y: i32,
}

/// A point of world space in sub-units; world y grows upwards.
#[derive(Clone, Copy, Debug, PartialEq, Eq, Structural)]
pub struct WorldPosition {
    pub x: i64,
    pub y: i64,
}

impl GridPosition {
    pub fn new(x: i32, y: i32) -> (r: GridPosition)
        ensures
            r == (GridPosition { x, y }),
    {
        GridPosition { x, y }
    }
}

/// Whether a tile lies on the playfield.
pub open spec fn in_grid(p: GridPosition) -> bool {
    0 <= p.x < GRID_SIZE && 0 <= p.y < GRID_SIZE
}

/// Whether a tile lies within `TILE_LIMIT` on both axes.
pub open spec fn tile_in_range(p: GridPosition) -> bool {
    -TILE_LIMIT <= p.x <= TILE_LIMIT && -TILE_LIMIT <= p.y <= TILE_LIMIT
}

/// Whether a world position is small enough to be mapped back to a tile.
pub open spec fn world_in_range(w: WorldPosition) -> bool {
    -WORLD_LIMIT <= w.x <= WORLD_LIMIT && -WORLD_LIMIT <= w.y <= WORLD_LIMIT
}

/// `n / d` rounded to the nearest integer, halves away from zero.
pub open spec fn round_div(n: int, d: int) -> int {
    if n >= 0 {
        (2 * n + d) / (2 * d)
    } else {
        -((-2 * n + d) / (2 * d))
    }
}

/// Centre of tile `(x, y)` in world space.
pub open spec fn world_of(x: int, y: int) -> (int, int) {
    (x * CELL_SIZE + GRID_OFFSET, -(y * CELL_SIZE + GRID_OFFSET))
}

/// Tile whose centre is nearest to the world point `(wx, wy)`.
pub open spec fn grid_of(wx: int, wy: int) -> (int, int) {
    (round_div(wx - GRID_OFFSET, CELL_SIZE as int), round_div(-wy - GRID_OFFSET, CELL_SIZE as int))
}

/// Centre of the tile `(x, y)`.
pub fn grid_to_world(x: i32, y: i32) -> (r: WorldPosition)
    ensures
        (r.x as int, r.y as int) == world_of(x as int, y as int),
{
    let wx: i64 = x as i64 * CELL_SIZE + GRID_OFFSET;
    let wy: i64 = -(y as i64 * CELL_SIZE + GRID_OFFSET);
    WorldPosition { x: wx, y: wy }
}

/// `n / CELL_SIZE` rounded to the nearest integer, halves away from zero.
fn round_to_cell(n: i64) -> (r: i64)
    requires
        -2 * WORLD_LIMIT <= n <= 2 * WORLD_LIMIT,
    ensures
        r == round_div(n as int, CELL_SIZE as int),
        -100000000 <= r <= 100000000,
{
    if n >= 0 {
        (2 * n + CELL_SIZE) / (2 * CELL_SIZE)
    } else {
        -((CELL_SIZE - 2 * n) / (2 * CELL_SIZE))
    }
}

/// Tile nearest to a world position.
pub fn world_to_grid(pos: WorldPosition) -> (r: GridPosition)
    requires
        world_in_range(pos),
    ensures
        (r.x as int, r.y as int) == grid_of(pos.x as int, pos.y as int),
        tile_in_range(r),
{
    let gx: i64 = round_to_cell(pos.x - GRID_OFFSET);
    let gy: i64 = round_to_cell(-pos.y - GRID_OFFSET);
    GridPosition { x: gx as i32, y: gy as i32 }
}

/// Mapping a tile to world space and back gives the same tile.
pub proof fn lemma_coordinate_round_trip(x: i32, y: i32)
    requires
        in_grid(GridPosition { x, y }),
    ensures
        grid_of(world_of(x as int, y as int).0, world_of(x as int, y as int).1) == (x as int, y as int),
{
    lemma_fundamental_div_mod_converse(x * 120000 + 60000, 120000, x as int, 60000);
    lemma_fundamental_div_mod_converse(y * 120000 + 60000, 120000, y as int, 60000);
}

} // verus!

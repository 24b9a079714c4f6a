//! What a renderer needs of a frame: each entity's kind and where to draw it.
use crate::components::{Bomb, Enemy, Explosion};
use crate::game::{Game, GameView};
use crate::grid::{grid_to_world, GridPosition, WorldPosition};
use crate::movement::centre_of;
use vstd::prelude::*;

verus! {

/// The kind of entity a sprite shows.
#[derive(Clone, Copy, Debug, PartialEq, Eq, Structural)]
pub enum SpriteKind {
    Wall,
    BreakableWall,
    Bomb,
    Explosion,
    Enemy,
    Player,
}

/// One entity to draw.
#[derive(Clone, Copy, Debug, PartialEq, Eq, Structural)]
pub struct Sprite {
    pub kind: SpriteKind,
    pub world: WorldPosition,
}

/// A sprite of `kind` at the centre of tile `p`.
pub open spec fn tile_sprite(kind: SpriteKind, p: GridPosition) -> Sprite {
    Sprite { kind, world: centre_of(p) }
}

/// Every entity to draw, walls first and the player last: tiles are drawn at
/// their centres, enemies and the player at their own positions.
pub open spec fn sprites_of(v: GameView) -> Seq<Sprite> {
    v.walls.map_values(|p: GridPosition| tile_sprite(SpriteKind::Wall, p)) + v.breakable_walls.map_values(
        |p: GridPosition| tile_sprite(SpriteKind::BreakableWall, p),
    ) + v.bombs.map_values(|b: Bomb| tile_sprite(SpriteKind::Bomb, b.pos)) + v.explosions.map_values(
        |e: Explosion| tile_sprite(SpriteKind::Explosion, e.pos),
    ) + v.enemies.map_values(|e: Enemy| Sprite { kind: SpriteKind::Enemy, world: e.world }) + match v.player {
        Some(p) => seq![Sprite { kind: SpriteKind::Player, world: p.world }],
        None => Seq::empty(),
    }
}

fn push_tile_sprites(kind: SpriteKind, tiles: &Vec<GridPosition>, out: &mut Vec<Sprite>)
    ensures
        final(out)@ == old(out)@ + tiles@.map_values(|p: GridPosition| tile_sprite(kind, p)),
{
    let ghost start = old(out)@;
    let mut k: usize = 0;
    while k < tiles.len()
        invariant
            k <= tiles.len(),
            out@ =~= start + tiles@.take(k as int).map_values(|p: GridPosition| tile_sprite(kind, p)),
        decreases tiles.len() - k,
    {
        let p = tiles[k];
        out.push(Sprite { kind, world: grid_to_world(p.x, p.y) });
        k = k + 1;
        assert(out@ =~= start + tiles@.take(k as int).map_values(|p: GridPosition| tile_sprite(kind, p)));
    }
    assert(tiles@.take(tiles@.len() as int) =~= tiles@);
}

impl Game {
    /// Every entity to draw, as `sprites_of` lists them.
    pub fn sprites(&self) -> (r: Vec<Sprite>)
        ensures
            r@ == sprites_of(self@),
    {
        let mut out: Vec<Sprite> = Vec::new();
        push_tile_sprites(SpriteKind::Wall, &self.walls, &mut out);
        push_tile_sprites(SpriteKind::BreakableWall, &self.breakable_walls, &mut out);
        let ghost base = out@;
        let mut k: usize = 0;
        while k < self.bombs.len()
            invariant
                k <= self.bombs.len(),
                out@ =~= base + self.bombs@.take(k as int).map_values(|b: Bomb| tile_sprite(SpriteKind::Bomb, b.pos)),
            decreases self.bombs.len() - k,
        {
            let p = self.bombs[k].pos;
            out.push(Sprite { kind: SpriteKind::Bomb, world: grid_to_world(p.x, p.y) });
            k = k + 1;
            assert(out@ =~= base + self.bombs@.take(k as int).map_values(
                |b: Bomb| tile_sprite(SpriteKind::Bomb, b.pos),
            ));
        }
        assert(self.bombs@.take(self.bombs@.len() as int) =~= self.bombs@);
        let ghost base = out@;
        let mut k: usize = 0;
        while k < self.explosions.len()
            invariant
                k <= self.explosions.len(),
                out@ =~= base + self.explosions@.take(k as int).map_values(
                    |e: Explosion| tile_sprite(SpriteKind::Explosion, e.pos),
                ),
            decreases self.explosions.len() - k,
        {
            let p = self.explosions[k].pos;
            out.push(Sprite { kind: SpriteKind::Explosion, world: grid_to_world(p.x, p.y) });
            k = k + 1;
            assert(out@ =~= base + self.explosions@.take(k as int).map_values(
                |e: Explosion| tile_sprite(SpriteKind::Explosion, e.pos),
            ));
        }
        assert(self.explosions@.take(self.explosions@.len() as int) =~= self.explosions@);
        let ghost base = out@;
        let mut k: usize = 0;
        while k < self.enemies.len()
            invariant
                k <= self.enemies.len(),
                out@ =~= base + self.enemies@.take(k as int).map_values(
                    |e: Enemy| Sprite { kind: SpriteKind::Enemy, world: e.world },
                ),
            decreases self.enemies.len() - k,
        {
            out.push(Sprite { kind: SpriteKind::Enemy, world: self.enemies[k].world });
            k = k + 1;
            assert(out@ =~= base + self.enemies@.take(k as int).map_values(
                |e: Enemy| Sprite { kind: SpriteKind::Enemy, world: e.world },
            ));
        }
        assert(self.enemies@.take(self.enemies@.len() as int) =~= self.enemies@);
        if let Some(p) = self.player {
            out.push(Sprite { kind: SpriteKind::Player, world: p.world });
        }
        assert(out@ =~= sprites_of(self@));
        out
    }
}

} // verus!

//! Bombs: placement, countdown, and the blast that spreads from them.
use crate::components::{
    explosion_at, Bomb, Enemy, Explosion, BOMB_TIMER, EXPLOSION_DURATION, EXPLOSION_RANGE, GAME_OVER_DELAY,
};
use crate::game::{bomb_on, contains_pos, Game, GameView};
use crate::resource::{GameEvent, GameOverDelay, GameState};
use crate::grid::{GridPosition, TILE_LIMIT};
use crate::timer::{Timer, TimerMode};
use vstd::prelude::*;

verus! {

/// Largest magnitude of a blast's centre coordinates and range: every tile a
/// blast can reach then fits in an `i32`.
pub const BLAST_LIMIT: i32 = TILE_LIMIT;

/// Tile `i` steps from `c` along walk `dir`: walk 0 stays on the centre, walks
/// 1 to 4 go right, left, down and up.
pub open spec fn ray_tile(c: GridPosition, dir: int, i: int) -> GridPosition {
    if dir == 1 {
        GridPosition { x: (c.x + i) as i32, y: c.y }
    } else if dir == 2 {
        GridPosition { x: (c.x - i) as i32, y: c.y }
    } else if dir == 3 {
        GridPosition { x: c.x, y: (c.y + i) as i32 }
    } else if dir == 4 {
        GridPosition { x: c.x, y: (c.y - i) as i32 }
    } else {
        c
    }
}

/// Number of tiles the walk along `dir` burns from step `i` to step `range`:
/// it ends before a solid wall, and just after a breakable one.
pub open spec fn ray_len(
    walls: Seq<GridPosition>,
    brk: Seq<GridPosition>,
    c: GridPosition,
    dir: int,
    i: int,
    range: int,
) -> int
    decreases range + 1 - i,
{
    if i > range {
        0
    } else if walls.contains(ray_tile(c, dir, i)) {
        0
    } else if brk.contains(ray_tile(c, dir, i)) {
        1
    } else {
        1 + ray_len(walls, brk, c, dir, i + 1, range)
    }
}

/// Number of tiles walk `dir` burns. The centre walk comes first and clears a
/// breakable wall on the centre, so the other four always burn the centre.
pub open spec fn walk_len(
    walls: Seq<GridPosition>,
    brk: Seq<GridPosition>,
    c: GridPosition,
    dir: int,
    range: int,
) -> int {
    if dir == 0 {
        ray_len(walls, brk, c, 0, 0, range)
    } else {
        1 + ray_len(walls, brk, c, dir, 1, range)
    }
}

/// The tiles walk `dir` burns, in order.
pub open spec fn walk(
    walls: Seq<GridPosition>,
    brk: Seq<GridPosition>,
    c: GridPosition,
    dir: int,
    range: int,
) -> Seq<GridPosition> {
    Seq::new(walk_len(walls, brk, c, dir, range) as nat, |i: int| ray_tile(c, dir, i))
}

/// Every explosion tile of a blast at `c`, in the order they appear: nothing
/// on a solid wall, else the five walks one after the other.
pub open spec fn blast(
    walls: Seq<GridPosition>,
    brk: Seq<GridPosition>,
    c: GridPosition,
    range: int,
) -> Seq<GridPosition> {
    if walls.contains(c) {
        Seq::empty()
    } else {
        walk(walls, brk, c, 0, range) + walk(walls, brk, c, 1, range) + walk(walls, brk, c, 2, range)
            + walk(walls, brk, c, 3, range) + walk(walls, brk, c, 4, range)
    }
}

/// Keeps the tiles that are not in `b`.
pub open spec fn tile_spared(b: Seq<GridPosition>) -> spec_fn(GridPosition) -> bool {
    |p: GridPosition| !b.contains(p)
}

/// Keeps the enemies that do not stand in `b`.
pub open spec fn enemy_spared(b: Seq<GridPosition>) -> spec_fn(Enemy) -> bool {
    |e: Enemy| !b.contains(e.pos)
}

/// Picks the enemies that stand in `b`.
pub open spec fn enemy_hit(b: Seq<GridPosition>) -> spec_fn(Enemy) -> bool {
    |e: Enemy| b.contains(e.pos)
}

/// The events of a blast over tiles `b`: one per enemy killed, in store
/// order, then one for the player if it was hit.
pub open spec fn blast_events(v: GameView, b: Seq<GridPosition>) -> Seq<GameEvent> {
    v.enemies.filter(enemy_hit(b)).map_values(|e: Enemy| GameEvent::EnemyKilled) + match v.player {
        Some(p) => if b.contains(p.pos) { seq![GameEvent::PlayerKilled] } else { Seq::empty() },
        None => Seq::empty(),
    }
}

/// The game after a blast of `range` at `c`: an explosion on each blast tile,
/// and every breakable wall, enemy and player on a blast tile removed.
pub open spec fn explode(v: GameView, c: GridPosition, range: int) -> GameView {
    let b = blast(v.walls, v.breakable_walls, c, range);
    GameView {
        events: v.events + blast_events(v, b),
        explosions: v.explosions + b.map_values(|t: GridPosition| explosion_at(t)),
        breakable_walls: v.breakable_walls.filter(tile_spared(b)),
        enemies: v.enemies.filter(enemy_spared(b)),
        player: match v.player {
            Some(p) => if b.contains(p.pos) { None } else { v.player },
            None => None,
        },
        ..v
    }
}

/// Whether a blast of `range` at `c` stays within `BLAST_LIMIT`.
pub open spec fn blast_in_range(c: GridPosition, range: int) -> bool {
    &&& 0 <= range <= BLAST_LIMIT
    &&& -BLAST_LIMIT <= c.x <= BLAST_LIMIT
    &&& -BLAST_LIMIT <= c.y <= BLAST_LIMIT
}

fn ray_step(c: GridPosition, dir: usize, i: i32) -> (t: GridPosition)
    requires
        dir < 5,
        0 <= i <= BLAST_LIMIT,
        blast_in_range(c, 0),
    ensures
        t == ray_tile(c, dir as int, i as int),
{
    if dir == 1 {
        GridPosition { x: c.x + i, y: c.y }
    } else if dir == 2 {
        GridPosition { x: c.x - i, y: c.y }
    } else if dir == 3 {
        GridPosition { x: c.x, y: c.y + i }
    } else if dir == 4 {
        GridPosition { x: c.x, y: c.y - i }
    } else {
        c
    }
}

impl Game {
    /// Number of tiles walk `dir` burns from step `start` on.
    fn ray_length(&self, c: GridPosition, dir: usize, start: i32, range: i32) -> (n: i32)
        requires
            dir < 5,
            0 <= start <= 1,
            blast_in_range(c, range as int),
        ensures
            n == ray_len(self.walls@, self.breakable_walls@, c, dir as int, start as int, range as int),
            0 <= n <= range + 1 - start,
    {
        let ghost walls = self.walls@;
        let ghost brk = self.breakable_walls@;
        let mut i: i32 = start;
        while i <= range
            invariant
                0 <= start <= 1,
                start <= i <= range + 1,
                blast_in_range(c, range as int),
                dir < 5,
                walls == self.walls@,
                brk == self.breakable_walls@,
                ray_len(walls, brk, c, dir as int, start as int, range as int) == (i - start) + ray_len(
                    walls,
                    brk,
                    c,
                    dir as int,
                    i as int,
                    range as int,
                ),
            decreases range + 1 - i,
        {
            let t = ray_step(c, dir, i);
            if contains_pos(&self.walls, t) {
                return i - start;
            }
            if contains_pos(&self.breakable_walls, t) {
                return i - start + 1;
            }
            i = i + 1;
        }
        i - start
    }

    /// Appends the first `n` tiles of walk `dir`.
    fn push_walk(c: GridPosition, dir: usize, n: i32, out: &mut Vec<GridPosition>)
        requires
            dir < 5,
            0 <= n <= BLAST_LIMIT + 1,
            blast_in_range(c, 0),
        ensures
            final(out)@ == old(out)@ + Seq::new(n as nat, |i: int| ray_tile(c, dir as int, i)),
    {
        let ghost start = old(out)@;
        let mut k: i32 = 0;
        while k < n
            invariant
                0 <= k <= n,
                n <= BLAST_LIMIT + 1,
                dir < 5,
                blast_in_range(c, 0),
                out@ =~= start + Seq::new(k as nat, |i: int| ray_tile(c, dir as int, i)),
            decreases n - k,
        {
            let t = ray_step(c, dir, k);
            out.push(t);
            k = k + 1;
            assert(out@ =~= start + Seq::new(k as nat, |i: int| ray_tile(c, dir as int, i)));
        }
    }

    /// The tiles of a blast of `range` at `c`, in order.
    pub fn blast_tiles(&self, c: GridPosition, range: i32) -> (r: Vec<GridPosition>)
        requires
            blast_in_range(c, range as int),
        ensures
            r@ == blast(self.walls@, self.breakable_walls@, c, range as int),
    {
        let mut r: Vec<GridPosition> = Vec::new();
        if contains_pos(&self.walls, c) {
            assert(r@ =~= blast(self.walls@, self.breakable_walls@, c, range as int));
            return r;
        }
        let mut dir: usize = 0;
        while dir < 5
            invariant
                dir <= 5,
                blast_in_range(c, range as int),
                !self.walls@.contains(c),
                r@ =~= if dir == 0 {
                    Seq::empty()
                } else {
                    blast_prefix(self.walls@, self.breakable_walls@, c, range as int, dir as int)
                },
            decreases 5 - dir,
        {
            let n: i32 = if dir == 0 {
                self.ray_length(c, 0, 0, range)
            } else {
                1 + self.ray_length(c, dir, 1, range)
            };
            assert(n == walk_len(self.walls@, self.breakable_walls@, c, dir as int, range as int));
            Game::push_walk(c, dir, n, &mut r);
            dir = dir + 1;
        }
        assert(blast_prefix(self.walls@, self.breakable_walls@, c, range as int, 5) =~= blast(
            self.walls@,
            self.breakable_walls@,
            c,
            range as int,
        )) by {
            reveal_with_fuel(blast_prefix, 5);
        }
        r
    }
}

impl Game {
    /// Adds a fresh explosion on tile `p`.
    pub fn spawn_explosion(&mut self, p: GridPosition)
        ensures
            final(self)@ == (GameView { explosions: old(self)@.explosions.push(explosion_at(p)), ..old(self)@ }),
    {
        self.explosions.push(Explosion { pos: p, timer: Timer::new(EXPLOSION_DURATION, TimerMode::Once) });
        assert(self@ =~= GameView { explosions: old(self)@.explosions.push(explosion_at(p)), ..old(self)@ });
    }

    /// Runs a blast of `range` at `c`: an explosion on each tile of
    /// `blast(..)`, and every breakable wall, enemy and player there removed.
    pub fn create_explosion(&mut self, c: GridPosition, range: i32)
        requires
            blast_in_range(c, range as int),
        ensures
            final(self)@ == explode(old(self)@, c, range as int),
    {
        let b = self.blast_tiles(c, range);
        let ghost v = self@;
        let ghost bs = b@;

        let mut k: usize = 0;
        while k < b.len()
            invariant
                k <= b.len(),
                b@ == bs,
                self@ == (GameView { explosions: self.explosions@, ..v }),
                bs == blast(v.walls, v.breakable_walls, c, range as int),
                self.explosions@ =~= v.explosions + bs.take(k as int).map_values(
                    |t: GridPosition| explosion_at(t),
                ),
            decreases b.len() - k,
        {
            self.spawn_explosion(b[k]);
            k = k + 1;
            assert(bs.take(k as int) =~= bs.take(k - 1).push(bs[k - 1]));
        }
        assert(bs.take(bs.len() as int) =~= bs);

        let mut kept_walls: Vec<GridPosition> = Vec::new();
        let mut k: usize = 0;
        while k < self.breakable_walls.len()
            invariant
                k <= self.breakable_walls.len(),
                b@ == bs,
                self.breakable_walls@ == v.breakable_walls,
                kept_walls@ == v.breakable_walls.take(k as int).filter(tile_spared(bs)),
            decreases self.breakable_walls.len() - k,
        {
            let p = self.breakable_walls[k];
            if !contains_pos(&b, p) {
                kept_walls.push(p);
            }
            k = k + 1;
            assert(v.breakable_walls.take(k as int) =~= v.breakable_walls.take(k - 1).push(p));
            proof { v.breakable_walls.take(k - 1).lemma_filter_push(p, tile_spared(bs)); }
        }
        assert(v.breakable_walls.take(v.breakable_walls.len() as int) =~= v.breakable_walls);
        self.breakable_walls = kept_walls;

        let ghost w = self@;
        let mut kept_enemies: Vec<Enemy> = Vec::new();
        let mut k: usize = 0;
        while k < self.enemies.len()
            invariant
                k <= self.enemies.len(),
                b@ == bs,
                self@ == (GameView { events: self.events@, ..w }),
                w.events == v.events,
                self.enemies@ == v.enemies,
                kept_enemies@ == v.enemies.take(k as int).filter(enemy_spared(bs)),
                self.events@ == v.events + v.enemies.take(k as int).filter(enemy_hit(bs)).map_values(
                    |e: Enemy| GameEvent::EnemyKilled,
                ),
            decreases self.enemies.len() - k,
        {
            let e = self.enemies[k];
            if !contains_pos(&b, e.pos) {
                kept_enemies.push(e);
            } else {
                self.events.push(GameEvent::EnemyKilled);
            }
            k = k + 1;
            assert(v.enemies.take(k as int) =~= v.enemies.take(k - 1).push(e));
            proof {
                v.enemies.take(k - 1).lemma_filter_push(e, enemy_spared(bs));
                v.enemies.take(k - 1).lemma_filter_push(e, enemy_hit(bs));
            }
            assert(self.events@ =~= v.events + v.enemies.take(k as int).filter(enemy_hit(bs)).map_values(
                |e: Enemy| GameEvent::EnemyKilled,
            ));
        }
        assert(v.enemies.take(v.enemies.len() as int) =~= v.enemies);
        self.enemies = kept_enemies;

        let ghost kills = v.enemies.filter(enemy_hit(bs)).map_values(|e: Enemy| GameEvent::EnemyKilled);
        assert(self.events@ == v.events + kills);
        if let Some(p) = self.player {
            if contains_pos(&b, p.pos) {
                self.player = None;
                self.events.push(GameEvent::PlayerKilled);
            }
        }
        assert(self.events@ =~= v.events + blast_events(v, bs));
        assert(self@ =~= explode(v, c, range as int));
    }
}

/// A bomb just placed on tile `p`.
pub open spec fn bomb_at(p: GridPosition) -> Bomb {
    Bomb { pos: p, timer: Timer { duration: BOMB_TIMER, elapsed: 0, mode: TimerMode::Once }, range: EXPLOSION_RANGE }
}

/// Whether a bomb may be placed: a player that is not frozen, on a tile free
/// of bombs.
pub open spec fn can_place_bomb(v: GameView) -> bool {
    v.player matches Some(p) && !v.paused && !bomb_on(v.bombs, p.pos)
}

/// A bomb after `dt` milliseconds.
pub open spec fn bomb_advanced(b: Bomb, dt: int) -> Bomb {
    Bomb { timer: b.timer.advanced(dt), ..b }
}

/// The explosion tile after `dt` milliseconds.
pub open spec fn explosion_advanced(e: Explosion, dt: int) -> Explosion {
    Explosion { timer: e.timer.advanced(dt), ..e }
}

/// The bombs, advanced by `dt`, that have not gone off.
pub open spec fn bombs_left(bombs: Seq<Bomb>, dt: int) -> Seq<Bomb>
    decreases bombs.len(),
{
    if bombs.len() == 0 {
        bombs
    } else {
        let rest = bombs_left(bombs.drop_last(), dt);
        let b = bomb_advanced(bombs.last(), dt);
        if b.timer.is_finished() { rest } else { rest.push(b) }
    }
}

/// The bombs, advanced by `dt`, that go off, in order.
pub open spec fn bombs_fired(bombs: Seq<Bomb>, dt: int) -> Seq<Bomb>
    decreases bombs.len(),
{
    if bombs.len() == 0 {
        bombs
    } else {
        let rest = bombs_fired(bombs.drop_last(), dt);
        let b = bomb_advanced(bombs.last(), dt);
        if b.timer.is_finished() { rest.push(b) } else { rest }
    }
}

/// The explosion tiles, advanced by `dt`, that still burn.
pub open spec fn explosions_left(es: Seq<Explosion>, dt: int) -> Seq<Explosion>
    decreases es.len(),
{
    if es.len() == 0 {
        es
    } else {
        let rest = explosions_left(es.drop_last(), dt);
        let e = explosion_advanced(es.last(), dt);
        if e.timer.is_finished() { rest } else { rest.push(e) }
    }
}

/// The game after the blasts of `fired`, one after the other.
pub open spec fn detonate_all(v: GameView, fired: Seq<Bomb>) -> GameView
    decreases fired.len(),
{
    if fired.len() == 0 {
        v
    } else {
        let b = fired.last();
        let w = detonate_all(v, fired.drop_last());
        explode(GameView { events: w.events.push(GameEvent::BombExploded), ..w }, b.pos, b.range as int)
    }
}

/// The game after the bombs' countdown of `dt`: bombs that run out are
/// removed and go off in the order they were placed, each recording
/// `BombExploded` before its blast. Nothing moves while
/// paused.
pub open spec fn bombs_ticked(v: GameView, dt: int) -> GameView {
    if v.paused {
        v
    } else {
        detonate_all(GameView { bombs: bombs_left(v.bombs, dt), ..v }, bombs_fired(v.bombs, dt))
    }
}

/// The game after the explosions' countdown of `dt`.
pub open spec fn explosions_ticked(v: GameView, dt: int) -> GameView {
    if v.paused {
        v
    } else {
        GameView { explosions: explosions_left(v.explosions, dt), ..v }
    }
}

/// A delay of one second towards `s`.
pub open spec fn delay_to(s: GameState) -> GameOverDelay {
    GameOverDelay { timer: Timer { duration: GAME_OVER_DELAY, elapsed: 0, mode: TimerMode::Once }, next_state: s }
}

/// The game after the win/loss check: with no delay armed, a missing player
/// arms one towards `GameOver`; otherwise no enemy left arms one towards
/// `Victory`. A loss takes precedence over a win.
pub open spec fn game_over_checked(v: GameView) -> GameView {
    if v.delay is Some {
        v
    } else if v.player is None {
        GameView { delay: Some(delay_to(GameState::GameOver)), ..v }
    } else if v.enemies.len() == 0 {
        GameView { delay: Some(delay_to(GameState::Victory)), ..v }
    } else {
        v
    }
}

/// The game after the armed delay ran `dt`: once it runs out it is dropped
/// and its target queued. The delay runs on while paused.
pub open spec fn delay_ticked(v: GameView, dt: int) -> GameView {
    match v.delay {
        Some(d) => {
            let t = d.timer.advanced(dt);
            if t.is_finished() {
                GameView { delay: None, next_state: Some(d.next_state), ..v }
            } else {
                GameView { delay: Some(GameOverDelay { timer: t, ..d }), ..v }
            }
        },
        None => v,
    }
}

/// A blast keeps the game well formed.
pub proof fn lemma_explode_wf(v: GameView, c: GridPosition, range: int)
    requires
        v.wf(),
    ensures
        explode(v, c, range).wf(),
{
    let b = blast(v.walls, v.breakable_walls, c, range);
    let r = explode(v, c, range);
    assert forall|i: int| 0 <= i < r.enemies.len() implies (#[trigger] r.enemies[i]).wf() by {
        v.enemies.lemma_filter_contains_rev(enemy_spared(b), r.enemies[i]);
    }
    assert forall|i: int| 0 <= i < r.explosions.len() implies (#[trigger] r.explosions[i]).wf() by {
        if i >= v.explosions.len() {
            assert(r.explosions[i] == explosion_at(b[i - v.explosions.len()]));
        }
    }
}

proof fn lemma_detonate_all_wf(v: GameView, fired: Seq<Bomb>)
    requires
        v.wf(),
    ensures
        detonate_all(v, fired).wf(),
    decreases fired.len(),
{
    if fired.len() > 0 {
        lemma_detonate_all_wf(v, fired.drop_last());
        let w = detonate_all(v, fired.drop_last());
        lemma_explode_wf(
            GameView { events: w.events.push(GameEvent::BombExploded), ..w },
            fired.last().pos,
            fired.last().range as int,
        );
    }
}

impl Game {
    /// Places a bomb on the player's tile, if `can_place_bomb` allows it.
    pub fn place_bomb(&mut self) -> (placed: bool)
        requires
            old(self)@.wf(),
        ensures
            placed == can_place_bomb(old(self)@),
            final(self)@ == if placed {
                GameView {
                    bombs: old(self)@.bombs.push(bomb_at(old(self)@.player.unwrap().pos)),
                    events: old(self)@.events.push(GameEvent::BombPlaced),
                    ..old(self)@
                }
            } else {
                old(self)@
            },
            final(self)@.wf(),
    {
        if self.paused.0 {
            return false;
        }
        match self.player {
            Some(p) => {
                if self.has_bomb(p.pos) {
                    false
                } else {
                    let b = Bomb {
                        pos: p.pos,
                        timer: Timer::new(BOMB_TIMER, TimerMode::Once),
                        range: EXPLOSION_RANGE,
                    };
                    let ghost v = self@;
                    self.bombs.push(b);
                    self.events.push(GameEvent::BombPlaced);
                    assert(self@ =~= GameView {
                        bombs: v.bombs.push(bomb_at(p.pos)),
                        events: v.events.push(GameEvent::BombPlaced),
                        ..v
                    });
                    assert(forall|i: int| 0 <= i < self.bombs@.len() ==> (#[trigger] self.bombs@[i]).wf()) by {
                        assert(forall|i: int| 0 <= i < v.bombs.len() ==> self.bombs@[i] == v.bombs[i]);
                    }
                    assert forall|i: int, j: int| 0 <= i < j < self.bombs@.len() implies (#[trigger] self.bombs@[i]).pos
                        != (#[trigger] self.bombs@[j]).pos by {
                        assert(self.bombs@[i] == v.bombs[i]);
                        if j == v.bombs.len() {
                            assert(!bomb_on(v.bombs, p.pos));
                        } else {
                            assert(self.bombs@[j] == v.bombs[j]);
                        }
                    }
                    true
                }
            },
            None => false,
        }
    }

    /// Counts down every bomb by `dt` milliseconds and sets off those that
    /// run out.
    pub fn bomb_timer(&mut self, dt: u64)
        requires
            old(self)@.wf(),
        ensures
            final(self)@ == bombs_ticked(old(self)@, dt as int),
            final(self)@.wf(),
    {
        if self.paused.0 {
            return;
        }
        let ghost v = self@;
        let mut left: Vec<Bomb> = Vec::new();
        let mut fired: Vec<Bomb> = Vec::new();
        let mut k: usize = 0;
        while k < self.bombs.len()
            invariant
                k <= self.bombs.len(),
                self@ == v,
                v.wf(),
                left@ == bombs_left(v.bombs.take(k as int), dt as int),
                fired@ == bombs_fired(v.bombs.take(k as int), dt as int),
                forall|i: int| 0 <= i < left@.len() ==> (#[trigger] left@[i]).wf(),
                forall|i: int| 0 <= i < fired@.len() ==> (#[trigger] fired@[i]).wf(),
                forall|i: int|
                    0 <= i < left@.len() ==> exists|j: int| 0 <= j < k && (#[trigger] left@[i]).pos == v.bombs[j].pos,
                forall|i: int, j: int| 0 <= i < j < left@.len() ==> (#[trigger] left@[i]).pos != (#[trigger] left@[j]).pos,
            decreases self.bombs.len() - k,
        {
            let mut b = self.bombs[k];
            assert(v.bombs[k as int].wf());
            b.timer.tick(dt);
            let ghost pre = v.bombs.take(k + 1);
            assert(pre.drop_last() =~= v.bombs.take(k as int));
            if b.timer.finished() {
                fired.push(b);
            } else {
                assert forall|i: int| 0 <= i < left@.len() implies left@[i].pos != b.pos by {
                    let j = choose|j: int| 0 <= j < k && left@[i].pos == v.bombs[j].pos;
                    assert(v.bombs[j].pos != v.bombs[k as int].pos);
                }
                left.push(b);
                assert forall|i: int| 0 <= i < left@.len() implies exists|j: int|
                    0 <= j < k + 1 && (#[trigger] left@[i]).pos == v.bombs[j].pos by {
                    if i == left@.len() - 1 {
                        assert(left@[i].pos == v.bombs[k as int].pos);
                    } else {
                        let j = choose|j: int| 0 <= j < k && left@[i].pos == v.bombs[j].pos;
                        assert(left@[i].pos == v.bombs[j].pos);
                    }
                }
            }
            k = k + 1;
        }
        assert(v.bombs.take(v.bombs.len() as int) =~= v.bombs);
        self.bombs = left;
        let ghost base = GameView { bombs: bombs_left(v.bombs, dt as int), ..v };
        assert(self@ =~= base);
        let mut k: usize = 0;
        while k < fired.len()
            invariant
                k <= fired.len(),
                base.wf(),
                fired@ == bombs_fired(v.bombs, dt as int),
                forall|i: int| 0 <= i < fired@.len() ==> (#[trigger] fired@[i]).wf(),
                self@ == detonate_all(base, fired@.take(k as int)),
            decreases fired.len() - k,
        {
            let b = fired[k];
            assert(fired@[k as int].wf());
            self.events.push(GameEvent::BombExploded);
            self.create_explosion(b.pos, b.range);
            k = k + 1;
            assert(fired@.take(k as int).drop_last() =~= fired@.take(k - 1));
        }
        assert(fired@.take(fired@.len() as int) =~= fired@);
        proof {
            lemma_detonate_all_wf(base, fired@);
        }
    }

    /// Counts down every explosion tile by `dt` milliseconds and removes
    /// those that run out.
    pub fn explosion_timer(&mut self, dt: u64)
        requires
            old(self)@.wf(),
        ensures
            final(self)@ == explosions_ticked(old(self)@, dt as int),
            final(self)@.wf(),
    {
        if self.paused.0 {
            return;
        }
        let ghost v = self@;
        let mut left: Vec<Explosion> = Vec::new();
        let mut k: usize = 0;
        while k < self.explosions.len()
            invariant
                k <= self.explosions.len(),
                self@ == v,
                v.wf(),
                left@ == explosions_left(v.explosions.take(k as int), dt as int),
                forall|i: int| 0 <= i < left@.len() ==> (#[trigger] left@[i]).wf(),
            decreases self.explosions.len() - k,
        {
            let mut e = self.explosions[k];
            assert(v.explosions[k as int].wf());
            e.timer.tick(dt);
            assert(v.explosions.take(k + 1).drop_last() =~= v.explosions.take(k as int));
            if !e.timer.finished() {
                left.push(e);
            }
            k = k + 1;
        }
        assert(v.explosions.take(v.explosions.len() as int) =~= v.explosions);
        self.explosions = left;
        assert(self@ =~= explosions_ticked(v, dt as int));
    }

    /// Arms the delayed switch to `GameOver` or `Victory` when the round is
    /// decided.
    pub fn check_game_over(&mut self)
        requires
            old(self)@.wf(),
        ensures
            final(self)@ == game_over_checked(old(self)@),
            final(self)@.wf(),
    {
        if self.delay.is_some() {
            return;
        }
        if self.player.is_none() {
            self.delay = Some(GameOverDelay {
                timer: Timer::new(GAME_OVER_DELAY, TimerMode::Once),
                next_state: GameState::GameOver,
            });
        } else if self.enemies.len() == 0 {
            self.delay = Some(GameOverDelay {
                timer: Timer::new(GAME_OVER_DELAY, TimerMode::Once),
                next_state: GameState::Victory,
            });
        }
    }

    /// Runs the armed delay for `dt` milliseconds; when it runs out, drops it
    /// and queues its target state.
    pub fn game_over_delay_timer(&mut self, dt: u64)
        requires
            old(self)@.wf(),
        ensures
            final(self)@ == delay_ticked(old(self)@, dt as int),
            final(self)@.wf(),
    {
        match self.delay {
            Some(d) => {
                let mut t = d.timer;
                t.tick(dt);
                if t.finished() {
                    self.delay = None;
                    self.next_state = Some(d.next_state);
                } else {
                    self.delay = Some(GameOverDelay { timer: t, next_state: d.next_state });
                }
            },
            None => {},
        }
    }
}

/// The first `k` walks of a blast, joined.
pub open spec fn blast_prefix(
    walls: Seq<GridPosition>,
    brk: Seq<GridPosition>,
    c: GridPosition,
    range: int,
    k: int,
) -> Seq<GridPosition>
    decreases k,
{
    if k <= 1 {
        walk(walls, brk, c, 0, range)
    } else {
        blast_prefix(walls, brk, c, range, k - 1) + walk(walls, brk, c, k - 1, range)
    }
}

} // verus!

verus! {

proof fn lemma_ray_len_bounds(
    walls: Seq<GridPosition>,
    brk: Seq<GridPosition>,
    c: GridPosition,
    dir: int,
    i: int,
    range: int,
)
    ensures
        0 <= ray_len(walls, brk, c, dir, i, range),
        i <= range + 1 ==> ray_len(walls, brk, c, dir, i, range) <= range + 1 - i,
        i > range ==> ray_len(walls, brk, c, dir, i, range) == 0,
    decreases range + 1 - i,
{
    if i <= range {
        lemma_ray_len_bounds(walls, brk, c, dir, i + 1, range);
    }
}

/// Along a walk whose steps `i..k` are clear, the walk from `i` burns up to
/// step `k`: up to and excluding a solid wall there, up to and including a
/// breakable one.
proof fn lemma_ray_len_clear_until(
    walls: Seq<GridPosition>,
    brk: Seq<GridPosition>,
    c: GridPosition,
    dir: int,
    i: int,
    k: int,
    range: int,
)
    requires
        i <= k <= range,
        forall|j: int| i <= j < k ==> !walls.contains(#[trigger] ray_tile(c, dir, j)) && !brk.contains(ray_tile(c, dir, j)),
        walls.contains(ray_tile(c, dir, k)) || brk.contains(ray_tile(c, dir, k)),
    ensures
        ray_len(walls, brk, c, dir, i, range) == k - i + if walls.contains(ray_tile(c, dir, k)) { 0int } else { 1int },
    decreases k - i,
{
    if i < k {
        assert(!walls.contains(ray_tile(c, dir, i)) && !brk.contains(ray_tile(c, dir, i)));
        lemma_ray_len_clear_until(walls, brk, c, dir, i + 1, k, range);
    }
}

/// Every tile of a blast is step `m` of some walk `d`, with `m` below that
/// walk's length.
proof fn lemma_blast_index(walls: Seq<GridPosition>, brk: Seq<GridPosition>, c: GridPosition, range: int, idx: int)
    requires
        !walls.contains(c),
        0 <= idx < blast(walls, brk, c, range).len(),
    ensures
        exists|d: int, m: int|
            0 <= d < 5 && 0 <= m < walk_len(walls, brk, c, d, range) && blast(walls, brk, c, range)[idx]
                == #[trigger] ray_tile(c, d, m),
{
    let w0 = walk(walls, brk, c, 0, range);
    let w1 = walk(walls, brk, c, 1, range);
    let w2 = walk(walls, brk, c, 2, range);
    let w3 = walk(walls, brk, c, 3, range);
    let w4 = walk(walls, brk, c, 4, range);
    let b = blast(walls, brk, c, range);
    lemma_ray_len_bounds(walls, brk, c, 0, 0, range);
    lemma_ray_len_bounds(walls, brk, c, 1, 1, range);
    lemma_ray_len_bounds(walls, brk, c, 2, 1, range);
    lemma_ray_len_bounds(walls, brk, c, 3, 1, range);
    lemma_ray_len_bounds(walls, brk, c, 4, 1, range);
    let l0 = w0.len() as int;
    let l1 = w1.len() as int;
    let l2 = w2.len() as int;
    let l3 = w3.len() as int;
    if idx < l0 {
        assert(b[idx] == ray_tile(c, 0, idx));
    } else if idx < l0 + l1 {
        assert(b[idx] == ray_tile(c, 1, idx - l0));
    } else if idx < l0 + l1 + l2 {
        assert(b[idx] == ray_tile(c, 2, idx - l0 - l1));
    } else if idx < l0 + l1 + l2 + l3 {
        assert(b[idx] == ray_tile(c, 3, idx - l0 - l1 - l2));
    } else {
        assert(b[idx] == ray_tile(c, 4, idx - l0 - l1 - l2 - l3));
    }
}

/// A blast burns no tile of walk `dir` (one of the four directions) at or
/// past the walk's length.
proof fn lemma_blast_excludes(
    walls: Seq<GridPosition>,
    brk: Seq<GridPosition>,
    c: GridPosition,
    range: int,
    dir: int,
    j: int,
)
    requires
        1 <= dir <= 4,
        blast_in_range(c, range),
        walk_len(walls, brk, c, dir, range) <= j <= BLAST_LIMIT,
        1 <= j,
    ensures
        !blast(walls, brk, c, range).contains(ray_tile(c, dir, j)),
{
    let b = blast(walls, brk, c, range);
    if !walls.contains(c) {
        assert forall|idx: int| 0 <= idx < b.len() implies b[idx] != ray_tile(c, dir, j) by {
            lemma_blast_index(walls, brk, c, range, idx);
            let (d, m) = choose|d: int, m: int|
                0 <= d < 5 && 0 <= m < walk_len(walls, brk, c, d, range) && b[idx] == #[trigger] ray_tile(c, d, m);
            lemma_ray_len_bounds(walls, brk, c, d, if d == 0 { 0 } else { 1 }, range);
        }
    }
}

/// A blast burns every tile of walk `dir` below the walk's length.
proof fn lemma_blast_includes(
    walls: Seq<GridPosition>,
    brk: Seq<GridPosition>,
    c: GridPosition,
    range: int,
    dir: int,
    i: int,
)
    requires
        0 <= dir <= 4,
        !walls.contains(c),
        0 <= i < walk_len(walls, brk, c, dir, range),
    ensures
        blast(walls, brk, c, range).contains(ray_tile(c, dir, i)),
{
    let w0 = walk(walls, brk, c, 0, range);
    let w1 = walk(walls, brk, c, 1, range);
    let w2 = walk(walls, brk, c, 2, range);
    let w3 = walk(walls, brk, c, 3, range);
    let w4 = walk(walls, brk, c, 4, range);
    let b = blast(walls, brk, c, range);
    let l0 = w0.len() as int;
    let l1 = w1.len() as int;
    let l2 = w2.len() as int;
    let l3 = w3.len() as int;
    let idx = if dir == 0 {
        i
    } else if dir == 1 {
        l0 + i
    } else if dir == 2 {
        l0 + l1 + i
    } else if dir == 3 {
        l0 + l1 + l2 + i
    } else {
        l0 + l1 + l2 + l3 + i
    };
    assert(b[idx] == ray_tile(c, dir, i));
}

/// A solid wall stops a blast: when step `k` of walk `dir` (one of the four
/// directions, `1 <= k <= range`) is a solid wall and the steps before it
/// hold no wall of either kind, the blast burns every tile before the wall
/// and none from the wall on, and the wall stays.
pub proof fn lemma_blast_stops_at_solid_wall(v: GameView, c: GridPosition, range: int, dir: int, k: int)
    requires
        1 <= dir <= 4,
        1 <= k <= range,
        blast_in_range(c, range),
        !v.walls.contains(c),
        v.walls.contains(ray_tile(c, dir, k)),
        forall|i: int|
            1 <= i < k ==> !v.walls.contains(#[trigger] ray_tile(c, dir, i)) && !v.breakable_walls.contains(
                ray_tile(c, dir, i),
            ),
    ensures
        forall|i: int|
            0 <= i < k ==> blast(v.walls, v.breakable_walls, c, range).contains(#[trigger] ray_tile(c, dir, i)),
        forall|j: int|
            k <= j <= BLAST_LIMIT ==> !blast(v.walls, v.breakable_walls, c, range).contains(
                #[trigger] ray_tile(c, dir, j),
            ),
        explode(v, c, range).walls == v.walls,
{
    let walls = v.walls;
    let brk = v.breakable_walls;
    lemma_ray_len_clear_until(walls, brk, c, dir, 1, k, range);
    assert forall|i: int| 0 <= i < k implies blast(walls, brk, c, range).contains(#[trigger] ray_tile(c, dir, i)) by {
        lemma_blast_includes(walls, brk, c, range, dir, i);
    }
    assert forall|j: int| k <= j <= BLAST_LIMIT implies !blast(walls, brk, c, range).contains(
        #[trigger] ray_tile(c, dir, j),
    ) by {
        lemma_blast_excludes(walls, brk, c, range, dir, j);
    }
}

/// A breakable wall stops a blast after burning: when step 1 of walk `dir`
/// (one of the four directions) is a breakable wall and not a solid one, a
/// blast of range at least 1 burns that tile, destroys the wall, and burns
/// nothing further along that walk; so an enemy, the player or a breakable
/// wall two steps out survives.
pub proof fn lemma_blast_stops_after_breakable_wall(v: GameView, c: GridPosition, range: int, dir: int)
    requires
        1 <= dir <= 4,
        1 <= range,
        blast_in_range(c, range),
        !v.walls.contains(c),
        v.breakable_walls.contains(ray_tile(c, dir, 1)),
        !v.walls.contains(ray_tile(c, dir, 1)),
    ensures
        blast(v.walls, v.breakable_walls, c, range).contains(ray_tile(c, dir, 1)),
        !explode(v, c, range).breakable_walls.contains(ray_tile(c, dir, 1)),
        forall|j: int|
            2 <= j <= BLAST_LIMIT ==> !blast(v.walls, v.breakable_walls, c, range).contains(
                #[trigger] ray_tile(c, dir, j),
            ),
        forall|i: int|
            0 <= i < v.enemies.len() && (#[trigger] v.enemies[i]).pos == ray_tile(c, dir, 2)
                ==> explode(v, c, range).enemies.contains(v.enemies[i]),
        (v.player matches Some(p) && p.pos == ray_tile(c, dir, 2)) ==> explode(v, c, range).player == v.player,
        v.breakable_walls.contains(ray_tile(c, dir, 2)) ==> explode(v, c, range).breakable_walls.contains(
            ray_tile(c, dir, 2),
        ),
{
    let b = blast(v.walls, v.breakable_walls, c, range);
    let t = ray_tile(c, dir, 1);
    let t2 = ray_tile(c, dir, 2);
    lemma_ray_len_clear_until(v.walls, v.breakable_walls, c, dir, 1, 1, range);
    lemma_blast_includes(v.walls, v.breakable_walls, c, range, dir, 1);
    assert forall|j: int| 2 <= j <= BLAST_LIMIT implies !b.contains(#[trigger] ray_tile(c, dir, j)) by {
        lemma_blast_excludes(v.walls, v.breakable_walls, c, range, dir, j);
    }
    assert(!b.contains(t2));
    let kept = v.breakable_walls.filter(tile_spared(b));
    if kept.contains(t) {
        let i = choose|i: int| 0 <= i < kept.len() && kept[i] == t;
        v.breakable_walls.lemma_filter_pred(tile_spared(b), i);
    }
    assert forall|i: int|
        0 <= i < v.enemies.len() && (#[trigger] v.enemies[i]).pos == t2 implies explode(
        v,
        c,
        range,
    ).enemies.contains(v.enemies[i]) by {
        v.enemies.lemma_filter_contains(enemy_spared(b), i);
    }
    if v.breakable_walls.contains(t2) {
        let i = choose|i: int| 0 <= i < v.breakable_walls.len() && v.breakable_walls[i] == t2;
        v.breakable_walls.lemma_filter_contains(tile_spared(b), i);
    }
}

/// One bomb per tile: right after a bomb was placed, placing another on the
/// same tile is refused.
pub proof fn lemma_single_bomb_per_tile(v: GameView)
    requires
        can_place_bomb(v),
    ensures
        !can_place_bomb(GameView { bombs: v.bombs.push(bomb_at(v.player.unwrap().pos)), ..v }),
{
    let w = GameView { bombs: v.bombs.push(bomb_at(v.player.unwrap().pos)), ..v };
    assert(w.bombs[v.bombs.len() as int].pos == v.player.unwrap().pos);
}

/// Total of the frame lengths `dts`.
pub open spec fn total(dts: Seq<int>) -> int
    decreases dts.len(),
{
    if dts.len() == 0 {
        0
    } else {
        total(dts.drop_last()) + dts.last()
    }
}

/// The game after the bombs' countdown over the frames `dts`, in order.
pub open spec fn bombs_run(v: GameView, dts: Seq<int>) -> GameView
    decreases dts.len(),
{
    if dts.len() == 0 {
        v
    } else {
        bombs_ticked(bombs_run(v, dts.drop_last()), dts.last())
    }
}

/// A lone bomb over one frame of `dt`: it stays, `dt` further on, while its
/// timer has not run out; otherwise it is removed and goes off.
pub proof fn lemma_lone_bomb_frame(v: GameView, dt: int)
    requires
        !v.paused,
        v.bombs.len() == 1,
        0 <= dt,
    ensures
        bombs_ticked(v, dt) == if !bomb_advanced(v.bombs[0], dt).timer.is_finished() {
            GameView { bombs: seq![bomb_advanced(v.bombs[0], dt)], ..v }
        } else {
            explode(
                GameView { bombs: Seq::empty(), events: v.events.push(GameEvent::BombExploded), ..v },
                v.bombs[0].pos,
                v.bombs[0].range as int,
            )
        },
{
    let b = v.bombs[0];
    let nb = bomb_advanced(b, dt);
    assert(v.bombs.drop_last() =~= Seq::<Bomb>::empty());
    assert(bombs_left(v.bombs.drop_last(), dt) =~= Seq::<Bomb>::empty());
    assert(bombs_fired(v.bombs.drop_last(), dt) =~= Seq::<Bomb>::empty());
    if nb.timer.is_finished() {
        let fired = bombs_fired(v.bombs, dt);
        assert(fired =~= seq![nb]);
        assert(fired.drop_last() =~= Seq::<Bomb>::empty());
        assert(bombs_left(v.bombs, dt) =~= Seq::<Bomb>::empty());
        let base = GameView { bombs: bombs_left(v.bombs, dt), ..v };
        assert(detonate_all(base, fired.drop_last()) == base);
        assert(GameView { events: base.events.push(GameEvent::BombExploded), ..base } =~= GameView {
            bombs: Seq::empty(),
            events: v.events.push(GameEvent::BombExploded),
            ..v
        });
    } else {
        assert(bombs_left(v.bombs, dt) =~= seq![nb]);
        assert(bombs_fired(v.bombs, dt) =~= Seq::<Bomb>::empty());
    }
}

/// A lone bomb placed with a fresh countdown lies in place over any frames
/// whose lengths add up to less than its timer, its timer then at that total;
/// the first frame that brings the total to the timer's duration sets it off.
pub proof fn lemma_lone_bomb_countdown(v: GameView, dts: Seq<int>, dt: int)
    requires
        !v.paused,
        v.bombs.len() == 1,
        v.bombs[0].wf(),
        v.bombs[0].timer.elapsed == 0,
        forall|i: int| 0 <= i < dts.len() ==> 0 <= #[trigger] dts[i],
        total(dts) < v.bombs[0].timer.duration,
        0 <= dt,
    ensures
        bombs_run(v, dts) == (GameView {
            bombs: seq![Bomb { timer: Timer { elapsed: total(dts) as u64, ..v.bombs[0].timer }, ..v.bombs[0] }],
            ..v
        }),
        total(dts) + dt >= v.bombs[0].timer.duration ==> bombs_ticked(bombs_run(v, dts), dt) == explode(
            GameView { bombs: Seq::empty(), events: v.events.push(GameEvent::BombExploded), ..v },
            v.bombs[0].pos,
            v.bombs[0].range as int,
        ),
    decreases dts.len(),
{
    let b = v.bombs[0];
    if dts.len() > 0 {
        let pre = dts.drop_last();
        assert forall|i: int| 0 <= i < pre.len() implies 0 <= #[trigger] pre[i] by {
            assert(pre[i] == dts[i]);
        }
        assert(0 <= dts[dts.len() - 1]);
        lemma_total_nonneg(pre);
        lemma_lone_bomb_countdown(v, pre, dts.last());
        let w = bombs_run(v, pre);
        lemma_lone_bomb_frame(w, dts.last());
        assert(bombs_run(v, dts) =~= GameView {
            bombs: seq![Bomb { timer: Timer { elapsed: total(dts) as u64, ..b.timer }, ..b }],
            ..v
        });
    } else {
        assert(bombs_run(v, dts) =~= v);
        assert(v.bombs =~= seq![Bomb { timer: Timer { elapsed: 0, ..b.timer }, ..b }]);
    }
    let u = bombs_run(v, dts);
    lemma_lone_bomb_frame(u, dt);
    assert(GameView { bombs: Seq::empty(), events: u.events.push(GameEvent::BombExploded), ..u } =~= GameView {
        bombs: Seq::empty(),
        events: v.events.push(GameEvent::BombExploded),
        ..v
    });
}

proof fn lemma_total_nonneg(dts: Seq<int>)
    requires
        forall|i: int| 0 <= i < dts.len() ==> 0 <= #[trigger] dts[i],
    ensures
        0 <= total(dts),
    decreases dts.len(),
{
    if dts.len() > 0 {
        let pre = dts.drop_last();
        assert forall|i: int| 0 <= i < pre.len() implies 0 <= #[trigger] pre[i] by {
            assert(pre[i] == dts[i]);
        }
        assert(0 <= dts[dts.len() - 1]);
        lemma_total_nonneg(pre);
    }
}

} // verus!

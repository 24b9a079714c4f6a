//! The entity store: every live entity of a round, with the game's state.
use crate::components::{Bomb, Enemy, Explosion, Player};
use crate::grid::GridPosition;
use crate::resource::{GameEvent, GameOverDelay, GamePaused, GameState};
use crate::timer::TimerMode;
use vstd::prelude::*;

verus! {

/// The simulation: screen state, pause flag, armed delay, queued switch of
/// screen, the entities of the round, and the events not yet handed out.
/// Lookups by tile treat every entity there alike (a blast removes every
/// enemy on its tiles), so no tie-break is needed; no two bombs share a tile.
pub struct Game {
    pub state: GameState,
    pub paused: GamePaused,
    pub delay: Option<GameOverDelay>,
    pub next_state: Option<GameState>,
    pub walls: Vec<GridPosition>,
    pub breakable_walls: Vec<GridPosition>,
    pub player: Option<Player>,
    pub enemies: Vec<Enemy>,
    pub bombs: Vec<Bomb>,
    pub explosions: Vec<Explosion>,
    pub events: Vec<GameEvent>,
}

/// The contents of a `Game` as mathematical values.
#[verifier::ext_equal]
pub struct GameView {
    pub state: GameState,
    pub paused: bool,
    pub delay: Option<GameOverDelay>,
    pub next_state: Option<GameState>,
    pub walls: Seq<GridPosition>,
    pub breakable_walls: Seq<GridPosition>,
    pub player: Option<Player>,
    pub enemies: Seq<Enemy>,
    pub bombs: Seq<Bomb>,
    pub explosions: Seq<Explosion>,
    pub events: Seq<GameEvent>,
}

impl View for Game {
    type V = GameView;

    open spec fn view(&self) -> GameView {
        GameView {
            state: self.state,
            paused: self.paused.0,
            delay: self.delay,
            next_state: self.next_state,
            walls: self.walls@,
            breakable_walls: self.breakable_walls@,
            player: self.player,
            enemies: self.enemies@,
            bombs: self.bombs@,
            explosions: self.explosions@,
            events: self.events@,
        }
    }
}

/// Whether some enemy stands on tile `p`.
pub open spec fn enemy_on(enemies: Seq<Enemy>, p: GridPosition) -> bool {
    exists|i: int| 0 <= i < enemies.len() && (#[trigger] enemies[i]).pos == p
}

/// Whether some bomb lies on tile `p`.
pub open spec fn bomb_on(bombs: Seq<Bomb>, p: GridPosition) -> bool {
    exists|i: int| 0 <= i < bombs.len() && (#[trigger] bombs[i]).pos == p
}

impl GameView {
    /// Every entity is well formed, and so is the armed delay; no two bombs
    /// lie on one tile.
    pub open spec fn wf(self) -> bool {
        &&& forall|i: int| 0 <= i < self.enemies.len() ==> (#[trigger] self.enemies[i]).wf()
        &&& forall|i: int| 0 <= i < self.bombs.len() ==> (#[trigger] self.bombs[i]).wf()
        &&& forall|i: int, j: int|
            0 <= i < j < self.bombs.len() ==> (#[trigger] self.bombs[i]).pos != (#[trigger] self.bombs[j]).pos
        &&& forall|i: int| 0 <= i < self.explosions.len() ==> (#[trigger] self.explosions[i]).wf()
        &&& (self.player matches Some(p) ==> p.wf())
        &&& (self.delay matches Some(d) ==> d.timer.wf() && d.timer.mode == TimerMode::Once)
    }

    /// Whether a tile holds a wall of either kind.
    pub open spec fn wall_on(self, p: GridPosition) -> bool {
        self.walls.contains(p) || self.breakable_walls.contains(p)
    }
}

/// Whether `s` holds the tile `p`.
pub fn contains_pos(s: &Vec<GridPosition>, p: GridPosition) -> (r: bool)
    ensures
        r == s@.contains(p),
{
    let mut i: usize = 0;
    while i < s.len()
        invariant
            i <= s.len(),
            forall|k: int| 0 <= k < i ==> s@[k] != p,
        decreases s.len() - i,
    {
        if s[i] == p {
            return true;
        }
        i = i + 1;
    }
    false
}

impl Game {
    /// A game on the welcome screen, with no entity.
    pub fn new() -> (r: Game)
        ensures
            r@ == (GameView {
                state: GameState::Welcome,
                paused: false,
                delay: None,
                next_state: None,
                walls: Seq::empty(),
                breakable_walls: Seq::empty(),
                player: None,
                enemies: Seq::empty(),
                bombs: Seq::empty(),
                explosions: Seq::empty(),
                events: Seq::empty(),
            }),
            r@.wf(),
    {
        let r = Game {
            state: GameState::Welcome,
            paused: GamePaused(false),
            delay: None,
            next_state: None,
            walls: Vec::new(),
            breakable_walls: Vec::new(),
            player: None,
            enemies: Vec::new(),
            bombs: Vec::new(),
            explosions: Vec::new(),
            events: Vec::new(),
        };
        assert(r@ =~= GameView {
            state: GameState::Welcome,
            paused: false,
            delay: None,
            next_state: None,
            walls: Seq::empty(),
            breakable_walls: Seq::empty(),
            player: None,
            enemies: Seq::empty(),
            bombs: Seq::empty(),
            explosions: Seq::empty(),
            events: Seq::empty(),
        });
        r
    }

    /// Hands out the events recorded so far and forgets them.
    pub fn take_events(&mut self) -> (r: Vec<GameEvent>)
        ensures
            r@ == old(self)@.events,
            final(self)@ == (GameView { events: Seq::empty(), ..old(self)@ }),
    {
        let mut r: Vec<GameEvent> = Vec::new();
        std::mem::swap(&mut r, &mut self.events);
        assert(self@ =~= GameView { events: Seq::empty(), ..old(self)@ });
        r
    }

    /// Whether a bomb lies on tile `p`.
    pub fn has_bomb(&self, p: GridPosition) -> (r: bool)
        ensures
            r == bomb_on(self.bombs@, p),
    {
        let mut i: usize = 0;
        while i < self.bombs.len()
            invariant
                i <= self.bombs.len(),
                forall|k: int| 0 <= k < i ==> self.bombs@[k].pos != p,
            decreases self.bombs.len() - i,
        {
            if self.bombs[i].pos == p {
                return true;
            }
            i = i + 1;
        }
        false
    }

    /// Whether a wall of either kind stands on tile `p`.
    pub fn is_wall(&self, p: GridPosition) -> (r: bool)
        ensures
            r == self@.wall_on(p),
    {
        contains_pos(&self.walls, p) || contains_pos(&self.breakable_walls, p)
    }
}

} // verus!

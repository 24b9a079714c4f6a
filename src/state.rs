//! The screen state machine, the pause overlay, and the per-frame update.
use crate::bomb::{
    bomb_at, bombs_ticked, can_place_bomb, delay_ticked, delay_to, explosions_ticked, game_over_checked,
};
use crate::components::GAME_OVER_DELAY;
use crate::components::{is_cardinal, EnemyDirection, Player};
use crate::game::{Game, GameView};
use crate::map::{enemy_spawned, enemy_starts, player_start, tiles_of_kind, BREAKABLE_TILE, SOLID_TILE};
use crate::movement::{centre_of, collided, enemies_moved, player_moved, MoveKeys};
use crate::resource::{GameEvent, GamePaused, GameState};
use vstd::prelude::*;

verus! {

/// What the player did during one frame: the keys pressed this frame and
/// the arrow keys held.
#[derive(Clone, Copy, Debug, PartialEq, Eq, Structural)]
pub struct TickInput {
    pub confirm: bool,
    pub place_bomb: bool,
    pub toggle_pause: bool,
    pub resume: bool,
    pub cancel: bool,
    pub keys: MoveKeys,
}

/// The game after the pause keys: the toggle flips the flag, then resume
/// clears it, then cancel, if still paused, clears it and queues `Welcome`.
pub open spec fn pause_handled(v: GameView, toggle: bool, resume: bool, cancel: bool) -> GameView {
    let flipped = if toggle { !v.paused } else { v.paused };
    let resumed = if flipped && resume { false } else { flipped };
    if resumed && cancel {
        GameView { paused: false, next_state: Some(GameState::Welcome), ..v }
    } else {
        GameView { paused: resumed, ..v }
    }
}

/// The game after the confirm key: from the welcome, victory or game-over
/// screen a new round is queued.
pub open spec fn confirmed(v: GameView) -> GameView {
    if v.state == GameState::Welcome || v.state == GameState::Victory || v.state == GameState::GameOver {
        GameView { next_state: Some(GameState::InGame), ..v }
    } else {
        v
    }
}

/// The game after the place-bomb key.
pub open spec fn bomb_placed(v: GameView) -> GameView {
    if can_place_bomb(v) {
        GameView {
            bombs: v.bombs.push(bomb_at(v.player.unwrap().pos)),
            events: v.events.push(GameEvent::BombPlaced),
            ..v
        }
    } else {
        v
    }
}

/// The game with every entity of the round removed, the delay disarmed and
/// the pause flag cleared.
pub open spec fn cleared(v: GameView) -> GameView {
    GameView {
        paused: false,
        delay: None,
        walls: Seq::empty(),
        breakable_walls: Seq::empty(),
        player: None,
        enemies: Seq::empty(),
        bombs: Seq::empty(),
        explosions: Seq::empty(),
        ..v
    }
}

/// The game with the round's starting entities added, enemy `i` heading
/// `directions[i]`.
pub open spec fn round_started(v: GameView, directions: Seq<EnemyDirection>) -> GameView {
    GameView {
        walls: v.walls + tiles_of_kind(SOLID_TILE, 169),
        breakable_walls: v.breakable_walls + tiles_of_kind(BREAKABLE_TILE, 169),
        player: Some(Player { pos: player_start(), world: centre_of(player_start()) }),
        enemies: v.enemies + Seq::new(3, |i: int| enemy_spawned(enemy_starts()[i], directions[i])),
        ..v
    }
}

/// The event recorded on entering screen `s`, if any.
pub open spec fn entry_events(s: GameState) -> Seq<GameEvent> {
    if s == GameState::Victory {
        seq![GameEvent::Victory]
    } else if s == GameState::GameOver {
        seq![GameEvent::GameOver]
    } else {
        Seq::empty()
    }
}

/// The game after the queued switch of screen, if any: the round is reset,
/// entering `InGame` starts a new one, and entering `Victory` or `GameOver`
/// is recorded as an event.
pub open spec fn transition_applied(v: GameView, directions: Seq<EnemyDirection>) -> GameView {
    match v.next_state {
        Some(s) => {
            let c = cleared(GameView { state: s, next_state: None, events: v.events + entry_events(s), ..v });
            if s == GameState::InGame {
                round_started(c, directions)
            } else {
                c
            }
        },
        None => v,
    }
}

/// One frame of `dt` milliseconds in play: input, movement, bombs,
/// explosions, collision, the armed delay, then the win/loss check, in that
/// order; a delay armed in this frame starts running in the next.
pub open spec fn play_ticked(v: GameView, input: TickInput, dt: int, rerolls: Seq<EnemyDirection>) -> GameView {
    let a = pause_handled(v, input.toggle_pause, input.resume, input.cancel);
    let b = if input.place_bomb { bomb_placed(a) } else { a };
    let c = player_moved(b, input.keys, dt);
    let d = enemies_moved(c, dt, rerolls);
    let e = explosions_ticked(bombs_ticked(d, dt), dt);
    game_over_checked(delay_ticked(collided(e), dt))
}

/// One frame of `dt` milliseconds: the play step in `InGame`, the confirm
/// key elsewhere, then the queued switch of screen.
pub open spec fn ticked(
    v: GameView,
    input: TickInput,
    dt: int,
    rerolls: Seq<EnemyDirection>,
    directions: Seq<EnemyDirection>,
) -> GameView {
    let w = if v.state == GameState::InGame {
        play_ticked(v, input, dt, rerolls)
    } else if input.confirm {
        confirmed(v)
    } else {
        v
    };
    transition_applied(w, directions)
}

/// Enemy headings usable for a frame.
pub open spec fn rerolls_ok(rerolls: Seq<EnemyDirection>, n: int) -> bool {
    rerolls.len() == n && forall|i: int| 0 <= i < rerolls.len() ==> is_cardinal(#[trigger] rerolls[i])
}

impl Game {
    /// Applies the pause keys pressed this frame.
    pub fn handle_pause_toggle(&mut self, toggle: bool, resume: bool, cancel: bool)
        requires
            old(self)@.wf(),
        ensures
            final(self)@ == pause_handled(old(self)@, toggle, resume, cancel),
            final(self)@.wf(),
    {
        if toggle {
            self.paused = GamePaused(!self.paused.0);
        }
        if self.paused.0 && resume {
            self.paused = GamePaused(false);
        }
        if self.paused.0 && cancel {
            self.paused = GamePaused(false);
            self.next_state = Some(GameState::Welcome);
        }
    }

    /// Applies the confirm key: starts a round from any screen but play.
    pub fn handle_confirm(&mut self)
        requires
            old(self)@.wf(),
        ensures
            final(self)@ == confirmed(old(self)@),
            final(self)@.wf(),
    {
        match self.state {
            GameState::Welcome | GameState::Victory | GameState::GameOver => {
                self.next_state = Some(GameState::InGame);
            },
            _ => {},
        }
    }

    /// Removes every entity of the round, disarms the delay and clears the
    /// pause flag.
    pub fn cleanup_game_entities(&mut self)
        requires
            old(self)@.wf(),
        ensures
            final(self)@ == cleared(old(self)@),
            final(self)@.wf(),
    {
        self.paused = GamePaused(false);
        self.delay = None;
        self.walls = Vec::new();
        self.breakable_walls = Vec::new();
        self.player = None;
        self.enemies = Vec::new();
        self.bombs = Vec::new();
        self.explosions = Vec::new();
        assert(self@ =~= cleared(old(self)@));
    }

    /// Performs the queued switch of screen, if any; a new round's enemy `i`
    /// heads `directions[i]`.
    pub fn apply_state_transition_with(&mut self, directions: &Vec<EnemyDirection>)
        requires
            old(self)@.wf(),
            rerolls_ok(directions@, 3),
        ensures
            final(self)@ == transition_applied(old(self)@, directions@),
            final(self)@.wf(),
    {
        match self.next_state {
            Some(s) => {
                self.state = s;
                self.next_state = None;
                match s {
                    GameState::Victory => self.events.push(GameEvent::Victory),
                    GameState::GameOver => self.events.push(GameEvent::GameOver),
                    _ => {},
                }
                self.cleanup_game_entities();
                if s == GameState::InGame {
                    self.setup_map();
                    self.spawn_player();
                    self.spawn_enemies_with(directions);
                }
                assert(self@ =~= transition_applied(old(self)@, directions@));
            },
            None => {},
        }
    }

    /// Runs one frame of `dt` milliseconds; blocked enemy `i` turns to
    /// `rerolls[i]`, and enemy `i` of a new round heads `directions[i]`.
    pub fn tick_with(
        &mut self,
        input: TickInput,
        dt: u64,
        rerolls: &Vec<EnemyDirection>,
        directions: &Vec<EnemyDirection>,
    )
        requires
            old(self)@.wf(),
            rerolls_ok(rerolls@, old(self)@.enemies.len() as int),
            rerolls_ok(directions@, 3),
        ensures
            final(self)@ == ticked(old(self)@, input, dt as int, rerolls@, directions@),
            final(self)@.wf(),
    {
        if self.state == GameState::InGame {
            self.handle_pause_toggle(input.toggle_pause, input.resume, input.cancel);
            if input.place_bomb {
                self.place_bomb();
            }
            self.player_movement(input.keys, dt);
            self.enemy_movement_with(dt, rerolls);
            self.bomb_timer(dt);
            self.explosion_timer(dt);
            self.check_player_enemy_collision();
            self.game_over_delay_timer(dt);
            self.check_game_over();
        } else if input.confirm {
            self.handle_confirm();
        }
        self.apply_state_transition_with(directions);
    }

    /// Runs one frame of `dt` milliseconds, drawing at random the heading of
    /// each blocked enemy and of each enemy of a new round.
    pub fn tick(&mut self, input: TickInput, dt: u64)
        requires
            old(self)@.wf(),
        ensures
            exists|rerolls: Seq<EnemyDirection>, directions: Seq<EnemyDirection>|
                rerolls_ok(rerolls, old(self)@.enemies.len() as int) && rerolls_ok(directions, 3)
                    && final(self)@ == ticked(old(self)@, input, dt as int, rerolls, directions),
            final(self)@.wf(),
    {
        let mut rerolls: Vec<EnemyDirection> = Vec::new();
        let mut k: usize = 0;
        while k < self.enemies.len()
            invariant
                k <= self.enemies.len(),
                rerolls@.len() == k,
                forall|i: int| 0 <= i < k ==> is_cardinal(#[trigger] rerolls@[i]),
            decreases self.enemies.len() - k,
        {
            rerolls.push(EnemyDirection::random());
            k = k + 1;
        }
        let directions = vec![EnemyDirection::random(), EnemyDirection::random(), EnemyDirection::random()];
        self.tick_with(input, dt, &rerolls, &directions);
    }
}

/// Pausing and unpausing with no time in between changes nothing: every
/// timer keeps its value and play is no longer frozen.
pub proof fn lemma_pause_round_trip(v: GameView)
    requires
        !v.paused,
    ensures
        pause_handled(pause_handled(v, true, false, false), true, false, false) == v,
{
    assert(pause_handled(pause_handled(v, true, false, false), true, false, false) =~= v);
}

/// While paused, a frame leaves every bomb, explosion and enemy as it was
/// (the collision check and the armed delay still run).
pub proof fn lemma_pause_freezes(v: GameView, input: TickInput, dt: int, rerolls: Seq<EnemyDirection>)
    requires
        v.paused,
        !input.toggle_pause,
        !input.resume,
        !input.cancel,
    ensures
        play_ticked(v, input, dt, rerolls).bombs == v.bombs,
        play_ticked(v, input, dt, rerolls).explosions == v.explosions,
        play_ticked(v, input, dt, rerolls).enemies == v.enemies,
{
}

/// Once the last enemy is gone with the player alive, exactly one delay is
/// armed, towards `Victory`; it queues `Victory` exactly when the frames
/// after it add up to a second, and applying it goes straight to `Victory`.
pub proof fn lemma_victory_after_delay(v: GameView, dt1: int, dt2: int, directions: Seq<EnemyDirection>)
    requires
        v.delay is None,
        v.next_state is None,
        v.player is Some,
        v.enemies.len() == 0,
        0 <= dt1,
        0 <= dt2,
    ensures
        game_over_checked(v).delay == Some(delay_to(GameState::Victory)),
        delay_ticked(game_over_checked(v), dt1).next_state == if dt1 >= GAME_OVER_DELAY {
            Some(GameState::Victory)
        } else {
            None
        },
        dt1 < GAME_OVER_DELAY ==> delay_ticked(delay_ticked(game_over_checked(v), dt1), dt2).next_state == if dt1
            + dt2 >= GAME_OVER_DELAY {
            Some(GameState::Victory)
        } else {
            None
        },
        dt1 >= GAME_OVER_DELAY ==> transition_applied(delay_ticked(game_over_checked(v), dt1), directions).state
            == GameState::Victory,
{
}

} // verus!

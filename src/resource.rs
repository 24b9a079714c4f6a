//! Process-wide game state: the screen being shown and the armed delay.
use crate::timer::Timer;
use vstd::prelude::*;

verus! {

/// The screen the game is on. `Paused` is kept for completeness: pausing is a
/// flag over `InGame`, not a state of its own.
#[derive(Clone, Copy, Debug, PartialEq, Eq, Structural)]
pub enum GameState {
    Welcome,
    InGame,
    Paused,
    Victory,
    GameOver,
}

/// Something that happened during a frame, for sound or display to react to.
#[derive(Clone, Copy, Debug, PartialEq, Eq, Structural)]
pub enum GameEvent {
    BombPlaced,
    BombExploded,
    EnemyKilled,
    PlayerKilled,
    Victory,
    GameOver,
}

/// A switch of screen that waits for its timer.
#[derive(Clone, Copy, Debug, PartialEq, Eq, Structural)]
pub struct GameOverDelay {
    pub timer: Timer,
    pub next_state: GameState,
}

/// Whether play is frozen while in `InGame`.
#[derive(Clone, Copy, Debug, PartialEq, Eq, Structural)]
pub struct GamePaused(pub bool);

} // verus!

use bomberman::components::{
    Bomb, Enemy, EnemyDirection, EnemyMoveTimer, Explosion, Player, BOMB_TIMER, ENEMY_MOVE_INTERVAL,
    EXPLOSION_DURATION, EXPLOSION_RANGE,
};
use bomberman::game::Game;
use bomberman::grid::{grid_to_world, world_to_grid, GridPosition, WorldPosition, GRID_SIZE};
use bomberman::map::map_row;
use bomberman::movement::{input_direction, MoveKeys};
use bomberman::resource::{GameEvent, GameOverDelay, GameState};
use bomberman::sprites::{Sprite, SpriteKind};
use bomberman::state::TickInput;
use bomberman::timer::{Timer, TimerMode};

fn gp(x: i32, y: i32) -> GridPosition {
    GridPosition::new(x, y)
}

fn no_keys() -> MoveKeys {
    MoveKeys { up: false, down: false, left: false, right: false }
}

fn idle() -> TickInput {
    TickInput { confirm: false, place_bomb: false, toggle_pause: false, resume: false, cancel: false, keys: no_keys() }
}

fn player_at(x: i32, y: i32) -> Player {
    Player { pos: gp(x, y), world: grid_to_world(x, y) }
}

fn enemy_at(x: i32, y: i32, dx: i32, dy: i32) -> Enemy {
    Enemy {
        pos: gp(x, y),
        world: grid_to_world(x, y),
        direction: EnemyDirection { x: dx, y: dy },
        move_timer: EnemyMoveTimer { timer: Timer::new(ENEMY_MOVE_INTERVAL, TimerMode::Repeating) },
    }
}

fn in_game() -> Game {
    let mut g = Game::new();
    g.state = GameState::InGame;
    g
}

fn explosion_tiles(g: &Game) -> Vec<GridPosition> {
    g.explosions.iter().map(|e| e.pos).collect()
}

#[test]
fn coordinate_round_trip_on_every_tile() {
    for x in 0..GRID_SIZE {
        for y in 0..GRID_SIZE {
            assert_eq!(world_to_grid(grid_to_world(x, y)), gp(x, y));
        }
    }
}

#[test]
fn grid_to_world_exact_values() {
    assert_eq!(grid_to_world(0, 0), WorldPosition { x: -360000, y: 360000 });
    assert_eq!(grid_to_world(6, 6), WorldPosition { x: 0, y: 0 });
    assert_eq!(grid_to_world(12, 12), WorldPosition { x: 360000, y: -360000 });
    assert_eq!(grid_to_world(1, 1), WorldPosition { x: -300000, y: 300000 });
}

#[test]
fn world_to_grid_rounds_half_away_from_zero() {
    assert_eq!(world_to_grid(WorldPosition { x: -330000, y: 330000 }), gp(1, 1));
    assert_eq!(world_to_grid(WorldPosition { x: -330001, y: 330001 }), gp(0, 0));
    assert_eq!(world_to_grid(WorldPosition { x: -390000, y: 390000 }), gp(-1, -1));
    assert_eq!(world_to_grid(WorldPosition { x: -389999, y: 0 }), gp(0, 6));
}

#[test]
fn one_shot_timer_stops_at_its_duration() {
    let mut t = Timer::new(1000, TimerMode::Once);
    assert!(!t.tick(400));
    assert_eq!(t.remaining(), 600);
    assert!(t.tick(700));
    assert_eq!(t.elapsed, 1000);
    assert!(t.finished());
}

#[test]
fn repeating_timer_wraps() {
    let mut t = Timer::new(500, TimerMode::Repeating);
    assert!(!t.tick(300));
    assert!(t.tick(300));
    assert_eq!(t.elapsed, 100);
    assert!(t.tick(1400));
    assert_eq!(t.elapsed, 0);
}

#[test]
fn vertical_keys_take_precedence() {
    assert_eq!(input_direction(MoveKeys { up: true, down: true, left: true, right: true }), (0, 1));
    assert_eq!(input_direction(MoveKeys { up: false, down: true, left: true, right: false }), (0, -1));
    assert_eq!(input_direction(MoveKeys { up: false, down: false, left: true, right: true }), (-1, 0));
    assert_eq!(input_direction(MoveKeys { up: false, down: false, left: false, right: true }), (1, 0));
    assert_eq!(input_direction(no_keys()), (0, 0));
}

#[test]
fn direction_indices() {
    assert_eq!(EnemyDirection::from_index(0), EnemyDirection { x: 0, y: 1 });
    assert_eq!(EnemyDirection::from_index(1), EnemyDirection { x: 0, y: -1 });
    assert_eq!(EnemyDirection::from_index(2), EnemyDirection { x: 1, y: 0 });
    assert_eq!(EnemyDirection::from_index(3), EnemyDirection { x: -1, y: 0 });
}

#[test]
fn random_direction_is_cardinal() {
    let all = [(0, 1), (0, -1), (1, 0), (-1, 0)];
    for _ in 0..100 {
        let d = EnemyDirection::random();
        assert!(all.contains(&(d.x, d.y)));
    }
}

#[test]
fn map_layout_counts() {
    let mut g = in_game();
    g.setup_map();
    assert_eq!(g.walls.len(), 73);
    assert_eq!(g.breakable_walls.len(), 22);
    assert!(g.walls.contains(&gp(0, 0)));
    assert!(g.walls.contains(&gp(2, 2)));
    assert!(g.breakable_walls.contains(&gp(3, 1)));
    assert!(!g.walls.contains(&gp(1, 1)));
    assert_eq!(map_row(1), [1, 0, 0, 2, 0, 2, 0, 0, 2, 0, 0, 0, 1]);
}

#[test]
fn blast_stops_before_solid_wall() {
    let mut g = in_game();
    g.walls.push(gp(4, 3));
    g.create_explosion(gp(3, 3), 2);
    let tiles = explosion_tiles(&g);
    assert!(tiles.contains(&gp(3, 3)));
    assert!(!tiles.contains(&gp(4, 3)));
    assert!(!tiles.contains(&gp(5, 3)));
    assert!(tiles.contains(&gp(2, 3)));
    assert!(tiles.contains(&gp(1, 3)));
}

#[test]
fn blast_burns_then_stops_at_breakable_wall() {
    let mut g = in_game();
    g.breakable_walls.push(gp(3, 4));
    g.breakable_walls.push(gp(3, 5));
    g.create_explosion(gp(3, 3), 2);
    let tiles = explosion_tiles(&g);
    assert!(tiles.contains(&gp(3, 4)));
    assert!(!tiles.contains(&gp(3, 5)));
    assert_eq!(g.breakable_walls, vec![gp(3, 5)]);
}

#[test]
fn blast_on_solid_wall_does_nothing() {
    let mut g = in_game();
    g.walls.push(gp(3, 3));
    g.enemies.push(enemy_at(3, 3, 1, 0));
    g.create_explosion(gp(3, 3), 2);
    assert!(g.explosions.is_empty());
    assert_eq!(g.enemies.len(), 1);
}

#[test]
fn blast_kills_enemies_and_player_on_its_tiles() {
    let mut g = in_game();
    g.player = Some(player_at(3, 5));
    g.enemies.push(enemy_at(5, 3, 1, 0));
    g.enemies.push(enemy_at(5, 3, 0, 1));
    g.enemies.push(enemy_at(6, 3, 1, 0));
    g.create_explosion(gp(3, 3), 2);
    assert!(g.player.is_none());
    assert_eq!(g.enemies.len(), 1);
    assert_eq!(g.enemies[0].pos, gp(6, 3));
    assert_eq!(g.take_events(), vec![GameEvent::EnemyKilled, GameEvent::EnemyKilled, GameEvent::PlayerKilled]);
    assert!(g.events.is_empty());
}

#[test]
fn second_bomb_on_same_tile_is_rejected() {
    let mut g = in_game();
    g.player = Some(player_at(1, 1));
    assert!(g.place_bomb());
    assert!(!g.place_bomb());
    assert_eq!(g.bombs.iter().filter(|b| b.pos == gp(1, 1)).count(), 1);
    assert_eq!(g.bombs[0].range, EXPLOSION_RANGE);
    assert_eq!(g.bombs[0].timer.remaining(), BOMB_TIMER);
    assert_eq!(g.events, vec![GameEvent::BombPlaced]);
}

#[test]
fn no_bomb_while_paused_or_dead() {
    let mut g = in_game();
    assert!(!g.place_bomb());
    g.player = Some(player_at(1, 1));
    g.handle_pause_toggle(true, false, false);
    assert!(!g.place_bomb());
    assert!(g.bombs.is_empty());
}

#[test]
fn pause_toggle_twice_changes_nothing() {
    let mut g = in_game();
    g.player = Some(player_at(1, 1));
    assert!(g.place_bomb());
    g.bomb_timer(1200);
    g.enemies.push(enemy_at(5, 5, 1, 0));
    g.handle_pause_toggle(true, false, false);
    assert!(g.paused.0);
    g.handle_pause_toggle(true, false, false);
    assert!(!g.paused.0);
    assert_eq!(g.bombs[0].timer.elapsed, 1200);
    assert_eq!(g.enemies[0].move_timer.timer.elapsed, 0);
}

#[test]
fn paused_timers_do_not_advance() {
    let mut g = in_game();
    g.player = Some(player_at(1, 1));
    g.place_bomb();
    g.handle_pause_toggle(true, false, false);
    g.bomb_timer(5000);
    assert_eq!(g.bombs.len(), 1);
    assert_eq!(g.bombs[0].timer.elapsed, 0);
}

#[test]
fn resume_and_cancel_keys() {
    let mut g = in_game();
    g.handle_pause_toggle(false, true, false);
    assert!(!g.paused.0);
    g.handle_pause_toggle(true, true, false);
    assert!(!g.paused.0);
    g.handle_pause_toggle(false, false, true);
    assert_eq!(g.next_state, None);
    g.handle_pause_toggle(true, false, true);
    assert!(!g.paused.0);
    assert_eq!(g.next_state, Some(GameState::Welcome));
}

#[test]
fn killing_all_enemies_leads_to_victory_after_one_second() {
    let mut g = in_game();
    g.player = Some(player_at(1, 1));
    g.enemies.push(enemy_at(3, 2, 0, -1));
    g.enemies.push(enemy_at(3, 4, 0, 1));
    g.enemies.push(enemy_at(4, 3, 1, 0));
    g.walls.push(gp(3, 1));
    g.walls.push(gp(3, 5));
    g.walls.push(gp(5, 3));
    g.bombs.push(Bomb { pos: gp(3, 3), timer: Timer::new(BOMB_TIMER, TimerMode::Once), range: 2 });
    let stay = vec![EnemyDirection { x: 0, y: -1 }, EnemyDirection { x: 0, y: 1 }, EnemyDirection { x: 1, y: 0 }];
    g.tick_with(idle(), 1500, &stay, &vec![]);
    assert_eq!(g.enemies.len(), 3);
    g.tick_with(idle(), 1500, &stay, &vec![]);
    assert!(g.enemies.is_empty());
    assert_eq!(g.delay, Some(GameOverDelay { timer: Timer { duration: 1000, elapsed: 0, mode: TimerMode::Once }, next_state: GameState::Victory }));
    assert_eq!(g.state, GameState::InGame);
    let dirs = vec![EnemyDirection { x: 1, y: 0 }; 3];
    for _ in 0..3 {
        g.tick_with(idle(), 300, &vec![], &dirs);
        assert_eq!(g.state, GameState::InGame);
    }
    g.tick_with(idle(), 100, &vec![], &dirs);
    assert_eq!(g.state, GameState::Victory);
    assert_eq!(
        g.events,
        vec![
            GameEvent::BombExploded,
            GameEvent::EnemyKilled,
            GameEvent::EnemyKilled,
            GameEvent::EnemyKilled,
            GameEvent::Victory
        ]
    );
    assert!(g.delay.is_none());
    assert!(g.player.is_none());
    assert!(g.walls.is_empty());
}

#[test]
fn loss_takes_precedence_over_win() {
    let mut g = in_game();
    g.check_game_over();
    assert_eq!(g.delay.map(|d| d.next_state), Some(GameState::GameOver));
    let mut g = in_game();
    g.player = Some(player_at(1, 1));
    g.enemies.push(enemy_at(5, 5, 1, 0));
    g.check_game_over();
    assert!(g.delay.is_none());
}

#[test]
fn armed_delay_is_not_replaced() {
    let mut g = in_game();
    g.player = Some(player_at(1, 1));
    g.check_game_over();
    assert_eq!(g.delay.map(|d| d.next_state), Some(GameState::Victory));
    g.player = None;
    g.game_over_delay_timer(400);
    g.check_game_over();
    assert_eq!(g.delay.map(|d| d.next_state), Some(GameState::Victory));
    assert_eq!(g.delay.map(|d| d.timer.elapsed), Some(400));
    g.game_over_delay_timer(600);
    assert!(g.delay.is_none());
    assert_eq!(g.next_state, Some(GameState::Victory));
}

#[test]
fn player_moves_right_then_is_stopped_by_wall() {
    let mut g = in_game();
    g.setup_map();
    g.player = Some(player_at(1, 1));
    g.player_movement(MoveKeys { up: false, down: false, left: false, right: true }, 167);
    let p = g.player.unwrap();
    assert_eq!(p.pos, gp(2, 1));
    assert_eq!(p.world, WorldPosition { x: -269940, y: 300000 });
    g.player_movement(MoveKeys { up: true, down: false, left: false, right: false }, 167);
    let q = g.player.unwrap();
    assert_eq!(q.pos, gp(2, 1));
    assert_eq!(q.world, WorldPosition { x: -269940, y: 300000 });
}

#[test]
fn player_moves_within_tile() {
    let mut g = in_game();
    g.setup_map();
    g.player = Some(player_at(1, 1));
    g.player_movement(MoveKeys { up: false, down: true, left: false, right: false }, 100);
    let p = g.player.unwrap();
    assert_eq!(p.pos, gp(1, 1));
    assert_eq!(p.world, WorldPosition { x: -300000, y: 282000 });
}

#[test]
fn player_ignores_bombs_when_moving() {
    let mut g = in_game();
    g.player = Some(player_at(3, 3));
    g.bombs.push(Bomb { pos: gp(4, 3), timer: Timer::new(BOMB_TIMER, TimerMode::Once), range: 2 });
    g.player_movement(MoveKeys { up: false, down: false, left: false, right: true }, 334);
    assert_eq!(g.player.unwrap().pos, gp(4, 3));
}

#[test]
fn bomb_explodes_after_three_seconds_in_a_cross() {
    let mut g = in_game();
    g.bombs.push(Bomb { pos: gp(3, 3), timer: Timer::new(BOMB_TIMER, TimerMode::Once), range: 2 });
    g.bomb_timer(2999);
    assert_eq!(g.bombs.len(), 1);
    assert!(g.explosions.is_empty());
    g.bomb_timer(1);
    assert!(g.bombs.is_empty());
    assert_eq!(g.events, vec![GameEvent::BombExploded]);
    let tiles = explosion_tiles(&g);
    let expected = [(3, 3), (4, 3), (5, 3), (2, 3), (1, 3), (3, 4), (3, 5), (3, 2), (3, 1)];
    for (x, y) in expected {
        assert!(tiles.contains(&gp(x, y)));
    }
    assert!(tiles.iter().all(|t| expected.contains(&(t.x, t.y))));
    assert_eq!(tiles.len(), 15);
    assert!(g.explosions.iter().all(|e| e.timer.remaining() == EXPLOSION_DURATION));
    g.explosion_timer(499);
    assert_eq!(g.explosions.len(), 15);
    g.explosion_timer(1);
    assert!(g.explosions.is_empty());
}

#[test]
fn explosion_tile_order() {
    let mut g = in_game();
    g.create_explosion(gp(3, 3), 1);
    let tiles = explosion_tiles(&g);
    assert_eq!(tiles, vec![gp(3, 3), gp(3, 3), gp(3, 3), gp(4, 3), gp(3, 3), gp(2, 3), gp(3, 3), gp(3, 4), gp(3, 3), gp(3, 2)]);
    assert_eq!(g.explosions[0], Explosion { pos: gp(3, 3), timer: Timer::new(EXPLOSION_DURATION, TimerMode::Once) });
}

#[test]
fn enemy_steps_every_half_second() {
    let mut g = in_game();
    g.enemies.push(enemy_at(5, 5, 1, 0));
    g.enemy_movement_with(499, &vec![EnemyDirection { x: 0, y: 1 }]);
    assert_eq!(g.enemies[0].pos, gp(5, 5));
    g.enemy_movement_with(1, &vec![EnemyDirection { x: 0, y: 1 }]);
    assert_eq!(g.enemies[0].pos, gp(6, 5));
    assert_eq!(g.enemies[0].world, grid_to_world(6, 5));
}

#[test]
fn blocked_enemy_turns() {
    let mut g = in_game();
    g.enemies.push(enemy_at(5, 5, 1, 0));
    g.bombs.push(Bomb { pos: gp(6, 5), timer: Timer::new(BOMB_TIMER, TimerMode::Once), range: 2 });
    g.enemy_movement_with(500, &vec![EnemyDirection { x: 0, y: -1 }]);
    assert_eq!(g.enemies[0].pos, gp(5, 5));
    assert_eq!(g.enemies[0].direction, EnemyDirection { x: 0, y: -1 });
    let mut h = in_game();
    h.enemies.push(enemy_at(12, 5, 1, 0));
    h.enemy_movement(500);
    assert_eq!(h.enemies[0].pos, gp(13, 5));
    assert_eq!(h.enemies[0].direction, EnemyDirection { x: 1, y: 0 });
}

#[test]
fn player_may_leave_the_grid_where_no_wall_stands() {
    let mut g = in_game();
    g.player = Some(player_at(12, 5));
    g.player_movement(MoveKeys { up: false, down: false, left: false, right: true }, 200);
    let p = g.player.unwrap();
    assert_eq!(p.pos, gp(13, 5));
    assert_eq!(p.world, WorldPosition { x: 396000, y: 60000 });
}

#[test]
fn enemy_frozen_while_paused() {
    let mut g = in_game();
    g.enemies.push(enemy_at(5, 5, 1, 0));
    g.handle_pause_toggle(true, false, false);
    g.enemy_movement_with(500, &vec![EnemyDirection { x: 0, y: 1 }]);
    assert_eq!(g.enemies[0].pos, gp(5, 5));
    assert_eq!(g.enemies[0].move_timer.timer.elapsed, 0);
}

#[test]
fn player_dies_on_enemy_tile() {
    let mut g = in_game();
    g.player = Some(player_at(5, 5));
    g.enemies.push(enemy_at(4, 5, 1, 0));
    g.check_player_enemy_collision();
    assert!(g.player.is_some());
    g.enemies.push(enemy_at(5, 5, 1, 0));
    g.check_player_enemy_collision();
    assert!(g.player.is_none());
    assert_eq!(g.events, vec![GameEvent::PlayerKilled]);
}

#[test]
fn confirm_starts_a_round() {
    let mut g = Game::new();
    assert_eq!(g.state, GameState::Welcome);
    let dirs = vec![EnemyDirection { x: 1, y: 0 }, EnemyDirection { x: 0, y: 1 }, EnemyDirection { x: -1, y: 0 }];
    g.tick_with(idle(), 16, &vec![], &dirs);
    assert_eq!(g.state, GameState::Welcome);
    let mut input = idle();
    input.confirm = true;
    g.tick_with(input, 16, &vec![], &dirs);
    assert_eq!(g.state, GameState::InGame);
    assert_eq!(g.player.unwrap().pos, gp(1, 1));
    let starts: Vec<GridPosition> = g.enemies.iter().map(|e| e.pos).collect();
    assert_eq!(starts, vec![gp(11, 1), gp(11, 11), gp(1, 11)]);
    assert_eq!(g.enemies[1].direction, EnemyDirection { x: 0, y: 1 });
    assert_eq!(g.walls.len(), 73);
}

#[test]
fn random_round_start() {
    let mut g = Game::new();
    let mut input = idle();
    input.confirm = true;
    g.tick(input, 16);
    assert_eq!(g.state, GameState::InGame);
    assert_eq!(g.enemies.len(), 3);
    g.tick(idle(), 600);
    assert_eq!(g.state, GameState::InGame);
}

#[test]
fn cancel_while_paused_returns_to_welcome() {
    let mut g = Game::new();
    let mut input = idle();
    input.confirm = true;
    g.tick(input, 16);
    let mut pause = idle();
    pause.toggle_pause = true;
    g.tick(pause, 16);
    assert!(g.paused.0);
    let mut cancel = idle();
    cancel.cancel = true;
    g.tick(cancel, 16);
    assert_eq!(g.state, GameState::Welcome);
    assert!(!g.paused.0);
    assert!(g.player.is_none());
    assert!(g.enemies.is_empty());
}

#[test]
fn game_over_then_retry() {
    let mut g = in_game();
    g.enemies.push(enemy_at(5, 5, 1, 0));
    let dirs = vec![EnemyDirection { x: 1, y: 0 }; 3];
    g.tick_with(idle(), 16, &vec![EnemyDirection { x: 1, y: 0 }], &dirs);
    assert_eq!(g.state, GameState::InGame);
    assert_eq!(g.delay.map(|d| d.next_state), Some(GameState::GameOver));
    g.tick_with(idle(), 1000, &vec![EnemyDirection { x: 1, y: 0 }], &dirs);
    assert_eq!(g.state, GameState::GameOver);
    assert!(g.enemies.is_empty());
    let mut input = idle();
    input.confirm = true;
    g.tick_with(input, 16, &vec![], &dirs);
    assert_eq!(g.state, GameState::InGame);
    assert!(g.player.is_some());
}

#[test]
fn spawn_wall_kinds() {
    let mut g = in_game();
    g.spawn_wall(gp(2, 3), false);
    g.spawn_wall(gp(4, 5), true);
    assert_eq!(g.walls, vec![gp(2, 3)]);
    assert_eq!(g.breakable_walls, vec![gp(4, 5)]);
    assert!(g.is_blocked(gp(2, 3)));
    assert!(g.is_blocked(gp(4, 5)));
    assert!(!g.is_blocked(gp(13, 5)));
    assert!(!g.is_blocked(gp(5, 5)));
}

#[test]
fn game_over_event_on_loss() {
    let mut g = in_game();
    g.enemies.push(enemy_at(5, 5, 1, 0));
    let dirs = vec![EnemyDirection { x: 1, y: 0 }; 3];
    g.tick_with(idle(), 16, &vec![EnemyDirection { x: 1, y: 0 }], &dirs);
    g.tick_with(idle(), 1000, &vec![EnemyDirection { x: 1, y: 0 }], &dirs);
    assert_eq!(g.take_events(), vec![GameEvent::GameOver]);
}

#[test]
fn sprites_list_every_entity() {
    let mut g = in_game();
    g.spawn_wall(gp(0, 0), false);
    g.spawn_wall(gp(2, 1), true);
    g.player = Some(player_at(1, 1));
    g.place_bomb();
    g.enemies.push(enemy_at(5, 5, 1, 0));
    g.spawn_explosion(gp(3, 3));
    let s = g.sprites();
    assert_eq!(
        s,
        vec![
            Sprite { kind: SpriteKind::Wall, world: WorldPosition { x: -360000, y: 360000 } },
            Sprite { kind: SpriteKind::BreakableWall, world: WorldPosition { x: -240000, y: 300000 } },
            Sprite { kind: SpriteKind::Bomb, world: WorldPosition { x: -300000, y: 300000 } },
            Sprite { kind: SpriteKind::Explosion, world: WorldPosition { x: -180000, y: 180000 } },
            Sprite { kind: SpriteKind::Enemy, world: WorldPosition { x: -60000, y: 60000 } },
            Sprite { kind: SpriteKind::Player, world: WorldPosition { x: -300000, y: 300000 } },
        ]
    );
}

#[test]
fn armed_delay_runs_while_paused() {
    let mut g = in_game();
    g.enemies.push(enemy_at(5, 5, 1, 0));
    let dirs = vec![EnemyDirection { x: 1, y: 0 }; 3];
    let rr = vec![EnemyDirection { x: 1, y: 0 }];
    g.tick_with(idle(), 16, &rr, &dirs);
    let mut pause = idle();
    pause.toggle_pause = true;
    g.tick_with(pause, 600, &rr, &dirs);
    assert!(g.paused.0);
    assert_eq!(g.delay.map(|d| d.timer.elapsed), Some(600));
    assert_eq!(g.enemies[0].move_timer.timer.elapsed, 16);
    g.tick_with(idle(), 400, &rr, &dirs);
    assert_eq!(g.state, GameState::GameOver);
    assert!(!g.paused.0);
}

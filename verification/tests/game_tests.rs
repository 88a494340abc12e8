use std::collections::HashMap;
use std::collections::VecDeque;

use snake_rs::game::{
    step_duration_for_score, ComboState, Direction, Game, GameConfig, GameMode, HighScoreKey, Point,
    RunStats, TickOutcome, MIN_STEP_MICROS,
};

/// Seconds as microseconds.
fn micros(seconds: f64) -> u64 {
    (seconds * 1_000_000.0).round() as u64
}

fn cfg(mode: GameMode, width: i32, height: i32) -> GameConfig {
    GameConfig {
        grid_width: width,
        grid_height: height,
        mode,
        base_step_seconds: 110_000,
        difficulty_enabled: true,
    }
}

#[test]
fn classic_wall_collision_ends_run() {
    let mut game = Game::new(cfg(GameMode::Classic, 4, 4), micros(0.0));
    let _ = game.tick(micros(0.2));
    let out = game.tick(micros(0.4));
    assert!(game.is_over());
    assert!(out.died);
}

#[test]
fn wrap_mode_crosses_edge_without_death() {
    let mut game = Game::new(cfg(GameMode::Wrap, 4, 4), micros(0.0));
    let _ = game.tick(micros(0.2));
    let out = game.tick(micros(0.4));
    let head = game.snake().front().copied().expect("head exists");
    assert_eq!(head.x, 0);
    assert!(!game.is_over());
    assert!(!out.died);
}

#[test]
fn zen_mode_allows_self_overlap() {
    let mut game = Game::new(cfg(GameMode::Zen, 5, 5), micros(0.0));
    game.set_position(
        VecDeque::from(vec![
            Point { x: 1, y: 1 },
            Point { x: 1, y: 2 },
            Point { x: 2, y: 2 },
            Point { x: 2, y: 1 },
        ]),
        Direction::Down,
    );
    let _ = game.tick(micros(0.5));
    assert!(!game.is_over());
}

#[test]
fn combo_increments_and_resets_by_time_window() {
    let mut game = Game::new(cfg(GameMode::Classic, 10, 10), micros(0.0));

    let head = *game.snake().front().expect("head exists");
    game.set_food(Point { x: head.x + 1, y: head.y });
    let first = game.tick(micros(0.5));

    let head = *game.snake().front().expect("head exists");
    game.set_food(Point { x: head.x + 1, y: head.y });
    let second = game.tick(micros(2.0));

    let head = *game.snake().front().expect("head exists");
    game.set_food(Point { x: head.x + 1, y: head.y });
    let third = game.tick(micros(5.5));

    assert_eq!(first.combo_multiplier, 1);
    assert_eq!(second.combo_multiplier, 2);
    assert_eq!(third.combo_multiplier, 1);
}

#[test]
fn combo_multiplier_is_capped_at_five() {
    let mut combo = ComboState::new();
    let mut value = 0;
    for i in 0..10 {
        value = combo.register_food(micros(1.0 + i as f64 * 0.2));
    }
    assert_eq!(value, 5);
    assert_eq!(combo.max_multiplier, 5);
}

#[test]
fn difficulty_curve_is_monotonic_and_has_floor() {
    let config = cfg(GameMode::Classic, 12, 12);
    let game = Game::new(config, micros(0.0));
    let mut previous = game.effective_step_seconds();
    for score in 1..500 {
        let current = step_duration_for_score(&config, score);
        assert!(current <= previous);
        assert!(current >= MIN_STEP_MICROS);
        previous = current;
    }
}

#[test]
fn high_score_keys_are_separate_by_mode_and_grid() {
    let mut map: HashMap<HighScoreKey, u32> = HashMap::new();
    map.insert(HighScoreKey::new(GameMode::Classic, 32, 22), 10);
    map.insert(HighScoreKey::new(GameMode::Wrap, 32, 22), 20);
    map.insert(HighScoreKey::new(GameMode::Classic, 40, 28), 30);

    assert_eq!(map.len(), 3);
    assert_eq!(map.get(&HighScoreKey::new(GameMode::Classic, 32, 22)), Some(&10));
    assert_eq!(map.get(&HighScoreKey::new(GameMode::Wrap, 32, 22)), Some(&20));
    assert_eq!(map.get(&HighScoreKey::new(GameMode::Classic, 40, 28)), Some(&30));
}

#[test]
fn new_game_starts_in_the_middle_heading_right() {
    let game = Game::new(cfg(GameMode::Classic, 10, 8), 7);
    let snake: Vec<Point> = game.snake().iter().copied().collect();
    assert_eq!(snake, vec![Point { x: 5, y: 4 }, Point { x: 4, y: 4 }, Point { x: 3, y: 4 }]);
    assert_eq!(game.preview_direction(), Direction::Right);
    assert_eq!(game.score(), 0);
    assert!(!game.is_over());
    assert!(!game.is_won());
    assert_eq!(game.run_stats().start_time, 7);
    let food = game.food();
    assert!(food.x >= 0 && food.x < 10 && food.y >= 0 && food.y < 8);
    assert!(!snake.contains(&food));
}

#[test]
fn food_never_spawns_on_the_snake() {
    // A 2x2 board with a three-cell snake leaves exactly one free cell.
    for _ in 0..50 {
        let game = Game::new(cfg(GameMode::Wrap, 2, 2), 0);
        let snake: Vec<Point> = game.snake().iter().copied().collect();
        let food = game.food();
        assert!(food.x >= 0 && food.x < 2 && food.y >= 0 && food.y < 2);
        assert!(!snake.contains(&food));
    }
}

#[test]
fn turns_never_reverse_and_queue_holds_two() {
    let mut game = Game::new(cfg(GameMode::Classic, 20, 20), 0);
    game.set_direction(Direction::Left);
    assert_eq!(game.preview_direction(), Direction::Right);
    game.set_direction(Direction::Right);
    game.set_direction(Direction::Up);
    game.set_direction(Direction::Up);
    game.set_direction(Direction::Down);
    game.set_direction(Direction::Left);
    game.set_direction(Direction::Down);
    assert_eq!(game.preview_direction(), Direction::Up);
    let _ = game.tick(1);
    assert_eq!(game.snake().front().copied(), Some(Point { x: 10, y: 9 }));
    let _ = game.tick(2);
    assert_eq!(game.snake().front().copied(), Some(Point { x: 9, y: 9 }));
    let _ = game.tick(3);
    assert_eq!(game.snake().front().copied(), Some(Point { x: 8, y: 9 }));
}

#[test]
fn moving_into_the_tail_is_allowed_unless_growing() {
    let square = VecDeque::from(vec![
        Point { x: 1, y: 1 },
        Point { x: 2, y: 1 },
        Point { x: 2, y: 2 },
        Point { x: 1, y: 2 },
    ]);
    let mut game = Game::new(cfg(GameMode::Classic, 6, 6), 0);
    game.set_position(square.clone(), Direction::Down);
    game.set_food(Point { x: 5, y: 5 });
    assert!(!game.next_move_would_collide());
    let out = game.tick(1);
    assert_eq!(out, TickOutcome::default());
    assert!(!game.is_over());

    let mut game = Game::new(cfg(GameMode::Classic, 6, 6), 0);
    game.set_position(square, Direction::Down);
    game.set_food(Point { x: 1, y: 2 });
    assert!(game.next_move_would_collide());
    let out = game.tick(1);
    assert!(out.died);
    assert!(game.is_over());
}

#[test]
fn filling_the_board_wins() {
    let mut game = Game::new(cfg(GameMode::Classic, 2, 3), 0);
    game.set_position(
        VecDeque::from(vec![
            Point { x: 0, y: 1 },
            Point { x: 0, y: 0 },
            Point { x: 1, y: 0 },
            Point { x: 1, y: 1 },
            Point { x: 1, y: 2 },
        ]),
        Direction::Down,
    );
    game.set_food(Point { x: 0, y: 2 });
    let out = game.tick(1_000_000);
    assert!(out.ate_food && out.won && !out.died);
    assert_eq!(out.points_gained, 1);
    assert!(game.is_over() && game.is_won());
    assert_eq!(game.score(), 1);
    assert_eq!(game.snake().len(), 6);
    assert_eq!(game.run_stats().end_time, Some(1_000_000));
    assert_eq!(game.run_stats().final_score, 1);
    assert_eq!(game.run_stats().foods_eaten, 1);
    let after = game.tick(2_000_000);
    assert_eq!(after, TickOutcome::default());
    assert_eq!(game.snake().len(), 6);
}

#[test]
fn eating_scores_the_combo_and_grows() {
    let mut game = Game::new(cfg(GameMode::Classic, 10, 10), 0);
    game.set_food(Point { x: 6, y: 5 });
    let out = game.tick(100);
    assert!(out.ate_food);
    assert_eq!(out.points_gained, 1);
    assert_eq!(game.score(), 1);
    assert_eq!(game.snake().len(), 4);
    assert_eq!(game.combo_state().current_multiplier, 1);
    assert_eq!(game.run_stats().foods_eaten, 1);
    let food = game.food();
    assert!(!game.snake().contains(&food));
}

#[test]
fn wrap_axis_goes_around_both_edges() {
    let mut game = Game::new(cfg(GameMode::Wrap, 5, 3), 0);
    game.set_position(VecDeque::from(vec![Point { x: 0, y: 0 }]), Direction::Up);
    game.set_food(Point { x: 4, y: 4 });
    let _ = game.tick(1);
    assert_eq!(game.snake().front().copied(), Some(Point { x: 0, y: 2 }));
    game.set_position(VecDeque::from(vec![Point { x: 0, y: 0 }]), Direction::Left);
    let _ = game.tick(2);
    assert_eq!(game.snake().front().copied(), Some(Point { x: 4, y: 0 }));
}

#[test]
fn reset_and_set_config_start_over() {
    let mut game = Game::new(cfg(GameMode::Classic, 4, 4), 0);
    let _ = game.tick(1);
    let _ = game.tick(2);
    assert!(game.is_over());
    game.reset(5);
    assert!(!game.is_over());
    assert_eq!(game.snake().len(), 3);
    assert_eq!(game.run_stats().start_time, 5);
    game.set_config(cfg(GameMode::Zen, 9, 7), 6);
    assert_eq!(game.mode(), GameMode::Zen);
    assert_eq!(game.grid_width(), 9);
    assert_eq!(game.grid_height(), 7);
    assert_eq!(game.snake().front().copied(), Some(Point { x: 4, y: 3 }));
}

#[test]
fn step_duration_values() {
    let mut config = cfg(GameMode::Classic, 12, 12);
    assert_eq!(step_duration_for_score(&config, 0), 110_000);
    // 110000 * 0.985 = 108350, then 106724.75 (rounded down).
    assert_eq!(step_duration_for_score(&config, 1), 108_350);
    assert_eq!(step_duration_for_score(&config, 2), 106_724);
    // 110000 * 0.985^10 = 94570.35..., within a microsecond.
    assert_eq!(step_duration_for_score(&config, 10), 94_570);
    assert_eq!(step_duration_for_score(&config, 1000), MIN_STEP_MICROS);
    assert_eq!(step_duration_for_score(&config, u32::MAX), MIN_STEP_MICROS);
    config.difficulty_enabled = false;
    assert_eq!(step_duration_for_score(&config, 1000), 110_000);
}

#[test]
fn direction_and_mode_cycles() {
    assert_eq!(Direction::Up.delta(), (0, -1));
    assert_eq!(Direction::Right.delta(), (1, 0));
    assert!(Direction::Up.is_opposite(Direction::Down));
    assert!(Direction::Left.is_opposite(Direction::Right));
    assert!(!Direction::Up.is_opposite(Direction::Up));
    assert!(!Direction::Up.is_opposite(Direction::Left));
    for mode in [GameMode::Classic, GameMode::Wrap, GameMode::Zen] {
        assert_eq!(mode.next().previous(), mode);
        assert_eq!(mode.next().next().next(), mode);
    }
    assert_eq!(GameMode::Classic.next(), GameMode::Wrap);
    assert_eq!(GameMode::Zen.next(), GameMode::Classic);
    assert_eq!(GameMode::Wrap.label(), "Wrap");
}

#[test]
fn combo_resets_after_the_window() {
    let mut combo = ComboState::new();
    assert_eq!(combo.register_food(0), 1);
    assert_eq!(combo.register_food(2_500_000), 2);
    assert_eq!(combo.register_food(5_000_001), 1);
    assert_eq!(combo.max_multiplier, 2);
    assert_eq!(combo.last_food_time, Some(5_000_001));
}

#[test]
fn run_stats_record_and_elapsed() {
    let mut stats = RunStats::new(1_000_000);
    assert_eq!(stats.elapsed_seconds(), 0);
    stats.record_food(3);
    stats.record_food(2);
    assert_eq!(stats.foods_eaten, 2);
    assert_eq!(stats.max_combo, 3);
    stats.finalize(31_000_000, 7);
    assert_eq!(stats.elapsed_seconds(), 30_000_000);
    assert_eq!(stats.final_score, 7);
    assert_eq!(stats.end_time, Some(31_000_000));
    let mut short = RunStats::new(10);
    short.record_food(1);
    short.finalize(5, 1);
    assert_eq!(short.elapsed_seconds(), -5);
}

#[test]
fn segments_stay_distinct_outside_zen() {
    let mut game = Game::new(cfg(GameMode::Wrap, 7, 5), 0);
    let turns = [Direction::Down, Direction::Left, Direction::Up, Direction::Right];
    for step in 0..40u64 {
        if game.is_over() {
            break;
        }
        if step % 3 == 0 {
            game.set_direction(turns[(step as usize / 3) % 4]);
        }
        let _ = game.tick(step * 100_000);
        let snake: Vec<Point> = game.snake().iter().copied().collect();
        for i in 0..snake.len() {
            for j in (i + 1)..snake.len() {
                assert_ne!(snake[i], snake[j]);
            }
        }
        let head = snake[0];
        assert!(head.x >= 0 && head.x < 7 && head.y >= 0 && head.y < 5);
    }
}

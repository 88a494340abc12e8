use snake_rs::game::{GameMode, HighScoreKey, Point};
use snake_rs::menu::MenuReturnState;
use snake_rs::persistence::HighScoreMap;
use snake_rs::session::{countdown_shown, Session, SessionState, SoundCue, RESUME_COUNTDOWN_MICROS};
use snake_rs::settings::{GridPreset, Settings, ThemeMode};

fn fresh() -> Session {
    Session::new(Settings::default(), HighScoreMap::new())
}

#[test]
fn new_session_runs_with_sanitized_settings() {
    let s = Session::new(Settings { base_speed: 1, ..Settings::default() }, HighScoreMap::new());
    assert_eq!(s.settings.base_speed, 70_000);
    assert_eq!(s.state, SessionState::Running);
    assert!(!s.menu.open);
    assert_eq!(s.game.grid_width(), 32);
    assert_eq!(s.game.grid_height(), 22);
    assert_eq!(s.high_score(), 0);
    assert!(!s.bgm_ducked());
}

#[test]
fn escape_quits_unless_the_menu_is_open() {
    let mut s = fresh();
    assert_eq!(s.press_escape(), (true, None));
    assert!(s.quit_key_quits());
    assert_eq!(s.press_tab(), Some(SoundCue::Pause));
    assert!(s.menu.open);
    assert_eq!(s.state, SessionState::Paused);
    assert!(!s.quit_key_quits());
    assert!(s.bgm_ducked());
    assert_eq!(s.press_escape(), (false, Some(SoundCue::Resume)));
    assert!(!s.menu.open);
    assert_eq!(s.state, SessionState::ResumeCountdown { remaining: RESUME_COUNTDOWN_MICROS });
}

#[test]
fn pause_then_countdown_then_run() {
    let mut s = fresh();
    assert_eq!(s.press_pause(), Some(SoundCue::Pause));
    assert_eq!(s.state, SessionState::Paused);
    s.advance_clock(1_000_000);
    assert_eq!(s.game_clock, 0);
    assert_eq!(s.run_due_tick(), None);
    assert_eq!(s.press_pause(), Some(SoundCue::Resume));
    assert_eq!(s.press_pause(), None);
    s.count_down(1_000_000);
    assert_eq!(s.state, SessionState::ResumeCountdown { remaining: 2_000_000 });
    s.count_down(2_500_000);
    assert_eq!(s.state, SessionState::Running);
    assert_eq!(s.accumulator, 0);
}

#[test]
fn time_drives_moves() {
    let mut s = fresh();
    s.game.set_food(Point { x: 0, y: 0 });
    s.advance_clock(100_000);
    assert_eq!(s.run_due_tick(), None);
    s.advance_clock(15_000);
    assert_eq!(s.game_clock, 115_000);
    let report = s.run_due_tick().expect("a move is due");
    assert!(!report.eat_sound && !report.death_sound && !report.persist);
    assert_eq!(s.accumulator, 5_000);
    assert_eq!(s.game.snake().front().copied(), Some(Point { x: 17, y: 11 }));
    assert_eq!(s.run_due_tick(), None);
}

#[test]
fn game_over_records_the_high_score() {
    let mut s = Session::new(
        Settings { grid_preset: GridPreset::Small, ..Settings::default() },
        HighScoreMap::new(),
    );
    // Eat the food right ahead, then run into the right wall.
    let head = *s.game.snake().front().unwrap();
    s.game.set_food(Point { x: head.x + 1, y: head.y });
    s.advance_clock(10_000_000);
    let mut ate = false;
    let mut died = false;
    let mut persisted = false;
    while let Some(report) = s.run_due_tick() {
        ate |= report.eat_sound;
        died |= report.death_sound;
        persisted |= report.persist;
    }
    assert!(ate && died && persisted);
    assert_eq!(s.state, SessionState::GameOver);
    let key = HighScoreKey::new(GameMode::Classic, 24, 16);
    assert_eq!(s.high_scores.get(&key), Some(&s.game.score()));
    assert_eq!(s.high_score(), s.game.score());
    s.press_restart();
    assert_eq!(s.state, SessionState::Running);
    assert_eq!(s.game.score(), 0);
    assert_eq!(s.game_clock, 0);
    assert!(s.high_score() >= 1);
}

#[test]
fn menu_changes_apply_at_once_or_on_enter() {
    let mut s = fresh();
    s.press_tab();
    // Down to the base speed row, then right.
    assert!(!s.menu_keys(false, true, false, false, false));
    assert!(!s.menu_keys(false, true, false, false, false));
    assert!(s.menu_keys(false, false, false, true, false));
    assert_eq!(s.settings.base_speed, 115_000);
    // Up to the board row; a change waits for Enter.
    assert!(!s.menu_keys(true, false, false, true, false));
    assert_eq!(s.menu.draft.grid_preset, GridPreset::Large);
    assert_eq!(s.settings.grid_preset, GridPreset::Medium);
    assert!(s.menu.has_pending_reset_fields(&s.settings));
    assert!(s.menu_keys(false, false, false, false, true));
    assert_eq!(s.settings.grid_preset, GridPreset::Large);
    assert_eq!(s.game.grid_width(), 40);
    assert_eq!(s.state, SessionState::Paused);
    assert_eq!(s.menu.return_state, MenuReturnState::Running);
    assert_eq!(s.press_tab(), Some(SoundCue::Resume));
}

#[test]
fn theme_key_switches_and_saves() {
    let mut s = fresh();
    assert!(s.press_theme());
    assert_eq!(s.theme_mode, ThemeMode::Dark);
    assert_eq!(s.settings.theme_default, ThemeMode::Dark);
    assert_eq!(s.menu.draft.theme_default, ThemeMode::Dark);
    s.press_tab();
    assert!(!s.press_theme());
    assert_eq!(s.theme_mode, ThemeMode::Dark);
}

#[test]
fn steering_only_while_playing() {
    let mut s = fresh();
    s.steer(true, false, false, false);
    assert_eq!(s.game.preview_direction(), snake_rs::game::Direction::Up);
    let mut paused = fresh();
    paused.press_pause();
    paused.steer(true, false, false, false);
    assert_eq!(paused.game.preview_direction(), snake_rs::game::Direction::Right);
}

#[test]
fn no_moves_while_the_menu_is_open() {
    let mut s = fresh();
    s.press_tab();
    let head = *s.game.snake().front().unwrap();
    s.advance_clock(5_000_000);
    s.count_down(5_000_000);
    assert_eq!(s.run_due_tick(), None);
    assert_eq!(*s.game.snake().front().unwrap(), head);
    assert_eq!(s.accumulator, 0);
}

#[test]
fn countdown_shows_whole_seconds_left() {
    assert_eq!(countdown_shown(3_000_000), 3);
    assert_eq!(countdown_shown(2_000_001), 3);
    assert_eq!(countdown_shown(2_000_000), 2);
    assert_eq!(countdown_shown(1), 1);
    assert_eq!(countdown_shown(0), 1);
    assert_eq!(countdown_shown(9_000_000), 3);
}

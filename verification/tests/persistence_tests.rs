use snake_rs::game::{GameMode, HighScoreKey};
use snake_rs::persistence::{
    map_to_scores, mode_sort_key, restore_persisted, scores_to_map, to_persisted, HighScoreMap,
    PersistedData, PersistedHighScore,
};
use snake_rs::settings::{GridPreset, Settings};

fn entry(mode: GameMode, w: i32, h: i32, score: u32) -> PersistedHighScore {
    PersistedHighScore { mode, grid_width: w, grid_height: h, score }
}

#[test]
fn load_missing_file_returns_defaults() {
    let (settings, high_scores) = restore_persisted(None);
    assert_eq!(settings.mode, Settings::default().mode);
    assert!(high_scores.is_empty());
}

#[test]
fn persisted_round_trip_works() {
    let mut map = HighScoreMap::new();
    map.insert(HighScoreKey::new(GameMode::Classic, 32, 22), 42);
    let settings = Settings::default();

    let saved = to_persisted(&settings, &map);
    let (loaded_settings, loaded_map) = restore_persisted(Some(saved));

    assert_eq!(loaded_settings.mode, settings.mode);
    assert_eq!(loaded_map.len(), 1);
    assert_eq!(loaded_map.get(&HighScoreKey::new(GameMode::Classic, 32, 22)), Some(&42));
}

#[test]
fn high_score_map_keeps_keys_apart() {
    let mut map = HighScoreMap::new();
    assert_eq!(map.insert(HighScoreKey::new(GameMode::Classic, 32, 22), 10), None);
    assert_eq!(map.insert(HighScoreKey::new(GameMode::Wrap, 32, 22), 20), None);
    assert_eq!(map.insert(HighScoreKey::new(GameMode::Classic, 40, 28), 30), None);
    assert_eq!(map.len(), 3);
    assert_eq!(map.get(&HighScoreKey::new(GameMode::Classic, 32, 22)), Some(&10));
    assert_eq!(map.get(&HighScoreKey::new(GameMode::Wrap, 32, 22)), Some(&20));
    assert_eq!(map.get(&HighScoreKey::new(GameMode::Classic, 40, 28)), Some(&30));
    assert_eq!(map.get(&HighScoreKey::new(GameMode::Zen, 32, 22)), None);
    assert_eq!(map.insert(HighScoreKey::new(GameMode::Wrap, 32, 22), 25), Some(20));
    assert_eq!(map.len(), 3);
    assert_eq!(map.get(&HighScoreKey::new(GameMode::Wrap, 32, 22)), Some(&25));
}

#[test]
fn saved_order_is_mode_then_board() {
    let mut map = HighScoreMap::new();
    map.insert(HighScoreKey::new(GameMode::Zen, 24, 16), 1);
    map.insert(HighScoreKey::new(GameMode::Classic, 40, 28), 2);
    map.insert(HighScoreKey::new(GameMode::Wrap, 24, 16), 3);
    map.insert(HighScoreKey::new(GameMode::Classic, 32, 22), 4);
    map.insert(HighScoreKey::new(GameMode::Classic, 32, 16), 5);
    let saved = map_to_scores(&map);
    assert_eq!(
        saved,
        vec![
            entry(GameMode::Classic, 32, 16, 5),
            entry(GameMode::Classic, 32, 22, 4),
            entry(GameMode::Classic, 40, 28, 2),
            entry(GameMode::Wrap, 24, 16, 3),
            entry(GameMode::Zen, 24, 16, 1),
        ]
    );
    assert_eq!(mode_sort_key(GameMode::Classic), 0);
    assert_eq!(mode_sort_key(GameMode::Zen), 2);
}

#[test]
fn loading_keeps_the_best_score_and_drops_zero() {
    let saved = vec![
        entry(GameMode::Classic, 32, 22, 10),
        entry(GameMode::Classic, 32, 22, 30),
        entry(GameMode::Classic, 32, 22, 20),
        entry(GameMode::Wrap, 24, 16, 0),
    ];
    let map = scores_to_map(&saved);
    assert_eq!(map.len(), 1);
    assert_eq!(map.get(&HighScoreKey::new(GameMode::Classic, 32, 22)), Some(&30));
    assert_eq!(map.get(&HighScoreKey::new(GameMode::Wrap, 24, 16)), None);
}

#[test]
fn saved_settings_are_brought_into_range() {
    let settings = Settings { base_speed: 5, music_volume: 250, grid_preset: GridPreset::Large, ..Settings::default() };
    let saved = to_persisted(&settings, &HighScoreMap::new());
    assert_eq!(saved.settings.base_speed, 70_000);
    assert_eq!(saved.settings.music_volume, 100);
    assert!(saved.high_scores.is_empty());
    let loaded = restore_persisted(Some(PersistedData { settings, high_scores: Vec::new() }));
    assert_eq!(loaded.0, settings.sanitized());
    let defaults = PersistedData::default();
    assert_eq!(defaults.settings, Settings::default());
}

#[test]
fn saving_and_loading_drops_zero_scores() {
    let mut map = HighScoreMap::new();
    map.insert(HighScoreKey::new(GameMode::Classic, 32, 22), 0);
    map.insert(HighScoreKey::new(GameMode::Zen, 40, 28), 7);
    let (_, loaded) = restore_persisted(Some(to_persisted(&Settings::default(), &map)));
    assert_eq!(loaded.len(), 1);
    assert_eq!(loaded.get(&HighScoreKey::new(GameMode::Classic, 32, 22)), None);
    assert_eq!(loaded.get(&HighScoreKey::new(GameMode::Zen, 40, 28)), Some(&7));
}

#[test]
fn extreme_board_sizes_keep_their_keys() {
    let mut map = HighScoreMap::new();
    map.insert(HighScoreKey::new(GameMode::Zen, i32::MIN, i32::MAX), 3);
    map.insert(HighScoreKey::new(GameMode::Zen, i32::MAX, i32::MIN), 4);
    map.insert(HighScoreKey::new(GameMode::Wrap, -1, 0), 5);
    map.insert(HighScoreKey::new(GameMode::Classic, 0, -1), 6);
    assert_eq!(map.len(), 4);
    assert_eq!(map.get(&HighScoreKey::new(GameMode::Zen, i32::MIN, i32::MAX)), Some(&3));
    assert_eq!(map.get(&HighScoreKey::new(GameMode::Zen, i32::MAX, i32::MIN)), Some(&4));
    assert_eq!(map.get(&HighScoreKey::new(GameMode::Wrap, 0, -1)), None);
    let saved = map_to_scores(&map);
    assert_eq!(
        saved,
        vec![
            entry(GameMode::Classic, 0, -1, 6),
            entry(GameMode::Wrap, -1, 0, 5),
            entry(GameMode::Zen, i32::MIN, i32::MAX, 3),
            entry(GameMode::Zen, i32::MAX, i32::MIN, 4),
        ]
    );
}

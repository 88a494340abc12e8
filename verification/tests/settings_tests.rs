use snake_rs::game::GameMode;
use snake_rs::menu::{MenuReturnState, SettingsMenu};
use snake_rs::text::format_duration;
use snake_rs::settings::{
    adjust_setting, format_field_value, AdjustmentDirection, GridPreset, SettingField, Settings,
    ThemeMode, ALL_SETTING_FIELDS,
};

#[test]
fn defaults_and_labels() {
    let s = Settings::default();
    assert_eq!(s.mode, GameMode::Classic);
    assert_eq!(s.grid_preset, GridPreset::Medium);
    assert_eq!(s.base_speed, 110_000);
    assert_eq!(s.music_volume, 65);
    assert_eq!(s.sfx_volume, 75);
    assert_eq!(s.sanitized(), s);
    assert_eq!(GridPreset::Large.dimensions(), (40, 28));
    assert_eq!(GridPreset::Small.label(), "Small (24x16)");
    assert_eq!(SettingField::Difficulty.label(), "Difficulty Ramp");
    assert_eq!(ThemeMode::Dark.label(), "Dark");
    assert!(SettingField::Mode.requires_enter_apply());
    assert!(SettingField::GridPreset.requires_enter_apply());
    assert!(!SettingField::BaseSpeed.requires_enter_apply());
    assert_eq!(ALL_SETTING_FIELDS.len(), 8);
    assert_eq!(ALL_SETTING_FIELDS[7], SettingField::SfxVolume);
}

#[test]
fn choices_cycle() {
    let mut t = ThemeMode::Light;
    t.toggle();
    assert_eq!(t, ThemeMode::Dark);
    t.toggle();
    assert_eq!(t, ThemeMode::Light);
    assert_eq!(ThemeMode::Light.previous(), ThemeMode::Dark);
    for g in [GridPreset::Small, GridPreset::Medium, GridPreset::Large] {
        assert_eq!(g.next().previous(), g);
        assert_eq!(g.next().next().next(), g);
    }
}

#[test]
fn sanitized_clamps_speed_and_volumes() {
    let s = Settings { base_speed: 10, music_volume: 200, sfx_volume: 101, ..Settings::default() };
    let c = s.sanitized();
    assert_eq!(c.base_speed, 70_000);
    assert_eq!(c.music_volume, 100);
    assert_eq!(c.sfx_volume, 100);
    assert_eq!(c.sanitized(), c);
    let fast = Settings { base_speed: 900_000, ..Settings::default() }.sanitized();
    assert_eq!(fast.base_speed, 200_000);
}

#[test]
fn to_game_config_uses_the_preset() {
    let s = Settings { grid_preset: GridPreset::Small, mode: GameMode::Zen, ..Settings::default() };
    let c = s.to_game_config();
    assert_eq!((c.grid_width, c.grid_height), (24, 16));
    assert_eq!(c.mode, GameMode::Zen);
    assert_eq!(c.base_step_seconds, 110_000);
    assert!(c.difficulty_enabled);
}

#[test]
fn adjust_moves_one_step_within_range() {
    let mut s = Settings::default();
    assert!(adjust_setting(&mut s, SettingField::BaseSpeed, AdjustmentDirection::Increase));
    assert_eq!(s.base_speed, 115_000);
    for _ in 0..40 {
        adjust_setting(&mut s, SettingField::BaseSpeed, AdjustmentDirection::Increase);
    }
    assert_eq!(s.base_speed, 200_000);
    assert!(!adjust_setting(&mut s, SettingField::BaseSpeed, AdjustmentDirection::Increase));
    for _ in 0..40 {
        adjust_setting(&mut s, SettingField::BaseSpeed, AdjustmentDirection::Decrease);
    }
    assert_eq!(s.base_speed, 70_000);

    s.music_volume = 97;
    assert!(adjust_setting(&mut s, SettingField::MusicVolume, AdjustmentDirection::Increase));
    assert_eq!(s.music_volume, 100);
    assert!(!adjust_setting(&mut s, SettingField::MusicVolume, AdjustmentDirection::Increase));
    s.sfx_volume = 3;
    assert!(adjust_setting(&mut s, SettingField::SfxVolume, AdjustmentDirection::Decrease));
    assert_eq!(s.sfx_volume, 0);
    assert!(!adjust_setting(&mut s, SettingField::SfxVolume, AdjustmentDirection::Decrease));

    assert!(adjust_setting(&mut s, SettingField::Difficulty, AdjustmentDirection::Decrease));
    assert!(!s.difficulty_enabled);
    assert!(adjust_setting(&mut s, SettingField::AudioEnabled, AdjustmentDirection::Increase));
    assert!(!s.audio_enabled);
    assert!(adjust_setting(&mut s, SettingField::Mode, AdjustmentDirection::Decrease));
    assert_eq!(s.mode, GameMode::Zen);
    assert!(adjust_setting(&mut s, SettingField::GridPreset, AdjustmentDirection::Increase));
    assert_eq!(s.grid_preset, GridPreset::Large);
    assert!(adjust_setting(&mut s, SettingField::Theme, AdjustmentDirection::Decrease));
    assert_eq!(s.theme_default, ThemeMode::Dark);
}

#[test]
fn decrease_undoes_increase() {
    let start = Settings::default();
    for field in ALL_SETTING_FIELDS {
        let mut s = start;
        adjust_setting(&mut s, field, AdjustmentDirection::Increase);
        adjust_setting(&mut s, field, AdjustmentDirection::Decrease);
        assert_eq!(s, start);
    }
}

#[test]
fn field_values_as_text() {
    let mut s = Settings::default();
    assert_eq!(format_field_value(&s, SettingField::Mode), "Classic");
    assert_eq!(format_field_value(&s, SettingField::GridPreset), "Medium (32x22)");
    assert_eq!(format_field_value(&s, SettingField::BaseSpeed), "0.110s");
    assert_eq!(format_field_value(&s, SettingField::Difficulty), "On");
    assert_eq!(format_field_value(&s, SettingField::Theme), "Light");
    assert_eq!(format_field_value(&s, SettingField::AudioEnabled), "On");
    assert_eq!(format_field_value(&s, SettingField::MusicVolume), "65%");
    assert_eq!(format_field_value(&s, SettingField::SfxVolume), "75%");
    s.base_speed = 70_000;
    s.music_volume = 0;
    s.sfx_volume = 100;
    s.audio_enabled = false;
    assert_eq!(format_field_value(&s, SettingField::BaseSpeed), "0.070s");
    assert_eq!(format_field_value(&s, SettingField::MusicVolume), "0%");
    assert_eq!(format_field_value(&s, SettingField::SfxVolume), "100%");
    assert_eq!(format_field_value(&s, SettingField::AudioEnabled), "Off");
    s.base_speed = 1_234_567;
    assert_eq!(format_field_value(&s, SettingField::BaseSpeed), "1.235s");
}

#[test]
fn base_speed_text_at_half_milliseconds() {
    let mut s = Settings::default();
    // 0.1125 s is stored as the float just below it, 0.1105 s as the one just above.
    s.base_speed = 112_500;
    assert_eq!(format_field_value(&s, SettingField::BaseSpeed), "0.112s");
    s.base_speed = 110_500;
    assert_eq!(format_field_value(&s, SettingField::BaseSpeed), "0.111s");
    // 0.1875 s is exact, and the half goes to the even digit.
    s.base_speed = 187_500;
    assert_eq!(format_field_value(&s, SettingField::BaseSpeed), "0.188s");
    s.base_speed = 0;
    assert_eq!(format_field_value(&s, SettingField::BaseSpeed), "0.000s");
    s.base_speed = u32::MAX;
    assert_eq!(format_field_value(&s, SettingField::BaseSpeed), "4294.967s");
}

#[test]
fn menu_selection_wraps() {
    let mut menu = SettingsMenu::new(&Settings::default());
    assert!(!menu.open);
    assert_eq!(menu.selected_field(), SettingField::Mode);
    menu.move_selection(-1);
    assert_eq!(menu.selected_index, 7);
    assert_eq!(menu.selected_field(), SettingField::SfxVolume);
    menu.move_selection(1);
    assert_eq!(menu.selected_index, 0);
    menu.move_selection(11);
    assert_eq!(menu.selected_index, 3);
    menu.move_selection(-20);
    assert_eq!(menu.selected_index, 7);
}

#[test]
fn menu_open_close_and_pending() {
    let active = Settings::default();
    let mut menu = SettingsMenu::new(&active);
    menu.open(&active, MenuReturnState::GameOver);
    assert!(menu.open);
    assert!(!menu.has_pending_reset_fields(&active));
    menu.draft.grid_preset = GridPreset::Small;
    assert!(menu.has_pending_reset_fields(&active));
    assert!(menu.field_pending(&active, SettingField::GridPreset));
    assert!(!menu.field_pending(&active, SettingField::Mode));
    assert!(!menu.field_pending(&active, SettingField::BaseSpeed));
    assert_eq!(menu.close(), MenuReturnState::GameOver);
    assert!(!menu.open);
}

#[test]
fn durations_as_text() {
    assert_eq!(format_duration(0), "00:00");
    assert_eq!(format_duration(65_999_999), "01:05");
    assert_eq!(format_duration(-3_000_000), "00:00");
    assert_eq!(format_duration(6_000_000_000), "100:00");
    assert_eq!(format_duration(599_000_000), "09:59");
}

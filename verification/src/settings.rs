//! The player's settings, how the settings screen changes them, and how it
//! shows them.

use vstd::prelude::*;

use crate::game::{spec_mode_label, spec_mode_next, spec_mode_previous, GameConfig, GameMode};
use crate::text::{push_decimal, push_three_digits, spec_decimal, spec_digit};

verus! {

#[derive(Clone, Copy, PartialEq, Eq, Debug, Structural)]
pub enum ThemeMode {
    Light,
    Dark,
}

pub open spec fn spec_theme_other(t: ThemeMode) -> ThemeMode {
    match t {
        ThemeMode::Light => ThemeMode::Dark,
        ThemeMode::Dark => ThemeMode::Light,
    }
}

pub open spec fn spec_theme_label(t: ThemeMode) -> Seq<char> {
    match t {
        ThemeMode::Light => "Light"@,
        ThemeMode::Dark => "Dark"@,
    }
}

impl ThemeMode {
    /// Switches to the other theme.
    pub fn toggle(&mut self)
        ensures
            *final(self) == spec_theme_other(*old(self)),
    {
        *self = match *self {
            ThemeMode::Light => ThemeMode::Dark,
            ThemeMode::Dark => ThemeMode::Light,
        };
    }

    pub fn label(self) -> (r: &'static str)
        ensures
            r@ == spec_theme_label(self),
    {
        match self {
            ThemeMode::Light => "Light",
            ThemeMode::Dark => "Dark",
        }
    }

    pub fn next(self) -> (r: Self)
        ensures
            r == spec_theme_other(self),
    {
        match self {
            ThemeMode::Light => ThemeMode::Dark,
            ThemeMode::Dark => ThemeMode::Light,
        }
    }

    /// With two themes, the previous one is the next one.
    pub fn previous(self) -> (r: Self)
        ensures
            r == spec_theme_other(self),
    {
        self.next()
    }
}

/// The board sizes on offer.
#[derive(Clone, Copy, PartialEq, Eq, Debug, Structural)]
pub enum GridPreset {
    Small,
    Medium,
    Large,
}

pub open spec fn spec_grid_dimensions(g: GridPreset) -> (i32, i32) {
    match g {
        GridPreset::Small => (24, 16),
        GridPreset::Medium => (32, 22),
        GridPreset::Large => (40, 28),
    }
}

pub open spec fn spec_grid_label(g: GridPreset) -> Seq<char> {
    match g {
        GridPreset::Small => "Small (24x16)"@,
        GridPreset::Medium => "Medium (32x22)"@,
        GridPreset::Large => "Large (40x28)"@,
    }
}

/// The cyclic order Small -> Medium -> Large -> Small.
pub open spec fn spec_grid_next(g: GridPreset) -> GridPreset {
    match g {
        GridPreset::Small => GridPreset::Medium,
        GridPreset::Medium => GridPreset::Large,
        GridPreset::Large => GridPreset::Small,
    }
}

pub open spec fn spec_grid_previous(g: GridPreset) -> GridPreset {
    match g {
        GridPreset::Small => GridPreset::Large,
        GridPreset::Medium => GridPreset::Small,
        GridPreset::Large => GridPreset::Medium,
    }
}

impl GridPreset {
    /// `(width, height)` in cells.
    pub fn dimensions(self) -> (r: (i32, i32))
        ensures
            r == spec_grid_dimensions(self),
    {
        match self {
            GridPreset::Small => (24, 16),
            GridPreset::Medium => (32, 22),
            GridPreset::Large => (40, 28),
        }
    }

    pub fn label(self) -> (r: &'static str)
        ensures
            r@ == spec_grid_label(self),
    {
        match self {
            GridPreset::Small => "Small (24x16)",
            GridPreset::Medium => "Medium (32x22)",
            GridPreset::Large => "Large (40x28)",
        }
    }

    pub fn next(self) -> (r: Self)
        ensures
            r == spec_grid_next(self),
    {
        match self {
            GridPreset::Small => GridPreset::Medium,
            GridPreset::Medium => GridPreset::Large,
            GridPreset::Large => GridPreset::Small,
        }
    }

    pub fn previous(self) -> (r: Self)
        ensures
            r == spec_grid_previous(self),
    {
        match self {
            GridPreset::Small => GridPreset::Large,
            GridPreset::Medium => GridPreset::Small,
            GridPreset::Large => GridPreset::Medium,
        }
    }
}

/// The slowest and fastest base speeds (duration of a move, microseconds),
/// and the step by which the settings screen changes it.
pub const MIN_BASE_SPEED_MICROS: u32 = 70_000;

pub const MAX_BASE_SPEED_MICROS: u32 = 200_000;

pub const BASE_SPEED_STEP_MICROS: u32 = 5_000;

/// Volumes are percentages, changed in steps of 5.
pub const MAX_VOLUME: u8 = 100;

pub const VOLUME_STEP: u8 = 5;

/// The player's settings. `base_speed` is the duration of one move in
/// microseconds; volumes are percentages.
#[derive(Clone, Copy, Debug, PartialEq, Eq, Structural)]
pub struct Settings {
    pub mode: GameMode,
    pub grid_preset: GridPreset,
    pub base_speed: u32,
    pub difficulty_enabled: bool,
    pub theme_default: ThemeMode,
    pub audio_enabled: bool,
    pub music_volume: u8,
    pub sfx_volume: u8,
}

/// `v` limited to `[lo, hi]`.
pub open spec fn spec_clamp(v: int, lo: int, hi: int) -> int {
    if v < lo {
        lo
    } else if v > hi {
        hi
    } else {
        v
    }
}

impl Settings {
    pub open spec fn spec_default() -> Settings {
        Settings {
            mode: GameMode::Classic,
            grid_preset: GridPreset::Medium,
            base_speed: 110_000,
            difficulty_enabled: true,
            theme_default: ThemeMode::Light,
            audio_enabled: true,
            music_volume: 65,
            sfx_volume: 75,
        }
    }

    /// The settings with the base speed and the volumes brought into range.
    pub open spec fn spec_sanitized(self) -> Settings {
        Settings {
            base_speed: spec_clamp(
                self.base_speed as int,
                MIN_BASE_SPEED_MICROS as int,
                MAX_BASE_SPEED_MICROS as int,
            ) as u32,
            music_volume: if self.music_volume > MAX_VOLUME { MAX_VOLUME } else { self.music_volume },
            sfx_volume: if self.sfx_volume > MAX_VOLUME { MAX_VOLUME } else { self.sfx_volume },
            ..self
        }
    }

    /// The base speed and the volumes are in range.
    pub open spec fn is_sanitized(self) -> bool {
        &&& MIN_BASE_SPEED_MICROS <= self.base_speed <= MAX_BASE_SPEED_MICROS
        &&& self.music_volume <= MAX_VOLUME
        &&& self.sfx_volume <= MAX_VOLUME
    }

    pub open spec fn spec_game_config(self) -> GameConfig {
        GameConfig {
            grid_width: spec_grid_dimensions(self.grid_preset).0,
            grid_height: spec_grid_dimensions(self.grid_preset).1,
            mode: self.mode,
            base_step_seconds: self.base_speed,
            difficulty_enabled: self.difficulty_enabled,
        }
    }

    pub fn sanitized(self) -> (r: Self)
        ensures
            r == self.spec_sanitized(),
    {
        let mut s = self;
        if s.base_speed < MIN_BASE_SPEED_MICROS {
            s.base_speed = MIN_BASE_SPEED_MICROS;
        } else if s.base_speed > MAX_BASE_SPEED_MICROS {
            s.base_speed = MAX_BASE_SPEED_MICROS;
        }
        if s.music_volume > MAX_VOLUME {
            s.music_volume = MAX_VOLUME;
        }
        if s.sfx_volume > MAX_VOLUME {
            s.sfx_volume = MAX_VOLUME;
        }
        s
    }

    /// The run parameters these settings call for; always a valid board.
    pub fn to_game_config(&self) -> (r: GameConfig)
        ensures
            r == self.spec_game_config(),
            r.valid(),
    {
        let (grid_width, grid_height) = self.grid_preset.dimensions();
        proof {
            let (w, h) = (grid_width as int, grid_height as int);
            assert(w * h == 384 || w * h == 704 || w * h == 1120) by (nonlinear_arith)
                requires
                    (w == 24 && h == 16) || (w == 32 && h == 22) || (w == 40 && h == 28),
            ;
        }
        GameConfig {
            grid_width,
            grid_height,
            mode: self.mode,
            base_step_seconds: self.base_speed,
            difficulty_enabled: self.difficulty_enabled,
        }
    }
}

impl Default for Settings {
    fn default() -> (r: Self)
        ensures
            r == Settings::spec_default(),
    {
        Settings {
            mode: GameMode::Classic,
            grid_preset: GridPreset::Medium,
            base_speed: 110_000,
            difficulty_enabled: true,
            theme_default: ThemeMode::Light,
            audio_enabled: true,
            music_volume: 65,
            sfx_volume: 75,
        }
    }
}


/// A row of the settings screen.
#[derive(Clone, Copy, PartialEq, Eq, Debug, Structural)]
pub enum SettingField {
    Mode,
    GridPreset,
    BaseSpeed,
    Difficulty,
    Theme,
    AudioEnabled,
    MusicVolume,
    SfxVolume,
}

pub open spec fn spec_field_label(f: SettingField) -> Seq<char> {
    match f {
        SettingField::Mode => "Mode"@,
        SettingField::GridPreset => "Grid"@,
        SettingField::BaseSpeed => "Base Speed"@,
        SettingField::Difficulty => "Difficulty Ramp"@,
        SettingField::Theme => "Theme"@,
        SettingField::AudioEnabled => "Audio"@,
        SettingField::MusicVolume => "Music Vol"@,
        SettingField::SfxVolume => "SFX Vol"@,
    }
}

/// Changes of mode and board restart the run, so they wait for Enter.
pub open spec fn spec_requires_enter_apply(f: SettingField) -> bool {
    f == SettingField::Mode || f == SettingField::GridPreset
}

impl SettingField {
    pub fn label(self) -> (r: &'static str)
        ensures
            r@ == spec_field_label(self),
    {
        match self {
            SettingField::Mode => "Mode",
            SettingField::GridPreset => "Grid",
            SettingField::BaseSpeed => "Base Speed",
            SettingField::Difficulty => "Difficulty Ramp",
            SettingField::Theme => "Theme",
            SettingField::AudioEnabled => "Audio",
            SettingField::MusicVolume => "Music Vol",
            SettingField::SfxVolume => "SFX Vol",
        }
    }

    pub fn requires_enter_apply(self) -> (r: bool)
        ensures
            r == spec_requires_enter_apply(self),
    {
        match self {
            SettingField::Mode => true,
            SettingField::GridPreset => true,
            _ => false,
        }
    }
}

/// The rows of the settings screen, top to bottom.
pub const ALL_SETTING_FIELDS: [SettingField; 8] = [
    SettingField::Mode,
    SettingField::GridPreset,
    SettingField::BaseSpeed,
    SettingField::Difficulty,
    SettingField::Theme,
    SettingField::AudioEnabled,
    SettingField::MusicVolume,
    SettingField::SfxVolume,
];

/// Left (decrease) or right (increase) on a row of the settings screen.
#[derive(Clone, Copy, PartialEq, Eq, Debug, Structural)]
pub enum AdjustmentDirection {
    Decrease,
    Increase,
}

/// A volume one step up (capped at 100) or down (not below 0).
pub open spec fn spec_volume_step(v: u8, dir: AdjustmentDirection) -> u8 {
    match dir {
        AdjustmentDirection::Increase => if v + VOLUME_STEP > MAX_VOLUME {
            MAX_VOLUME
        } else {
            (v + VOLUME_STEP) as u8
        },
        AdjustmentDirection::Decrease => if v < VOLUME_STEP {
            0
        } else {
            (v - VOLUME_STEP) as u8
        },
    }
}

/// The base speed one step up or down, kept in range.
pub open spec fn spec_speed_step(v: u32, dir: AdjustmentDirection) -> u32 {
    let moved: int = match dir {
        AdjustmentDirection::Increase => v + BASE_SPEED_STEP_MICROS,
        AdjustmentDirection::Decrease => v - BASE_SPEED_STEP_MICROS,
    };
    spec_clamp(moved, MIN_BASE_SPEED_MICROS as int, MAX_BASE_SPEED_MICROS as int) as u32
}

/// The settings after one adjustment of `field` in direction `dir`: cyclic
/// choices move to the next or previous option, switches flip whatever the
/// direction, the base speed and the volumes move by one step within range.
pub open spec fn spec_adjusted(s: Settings, field: SettingField, dir: AdjustmentDirection) -> Settings {
    let up = dir == AdjustmentDirection::Increase;
    match field {
        SettingField::Mode => Settings {
            mode: if up { spec_mode_next(s.mode) } else { spec_mode_previous(s.mode) },
            ..s
        },
        SettingField::GridPreset => Settings {
            grid_preset: if up {
                spec_grid_next(s.grid_preset)
            } else {
                spec_grid_previous(s.grid_preset)
            },
            ..s
        },
        SettingField::BaseSpeed => Settings { base_speed: spec_speed_step(s.base_speed, dir), ..s },
        SettingField::Difficulty => Settings { difficulty_enabled: !s.difficulty_enabled, ..s },
        SettingField::Theme => Settings { theme_default: spec_theme_other(s.theme_default), ..s },
        SettingField::AudioEnabled => Settings { audio_enabled: !s.audio_enabled, ..s },
        SettingField::MusicVolume => Settings {
            music_volume: spec_volume_step(s.music_volume, dir),
            ..s
        },
        SettingField::SfxVolume => Settings { sfx_volume: spec_volume_step(s.sfx_volume, dir), ..s },
    }
}

fn volume_step(v: u8, direction: AdjustmentDirection) -> (r: u8)
    ensures
        r == spec_volume_step(v, direction),
{
    match direction {
        AdjustmentDirection::Increase => {
            let raised = v.saturating_add(VOLUME_STEP);
            if raised > MAX_VOLUME {
                MAX_VOLUME
            } else {
                raised
            }
        },
        AdjustmentDirection::Decrease => v.saturating_sub(VOLUME_STEP),
    }
}

fn speed_step(v: u32, direction: AdjustmentDirection) -> (r: u32)
    ensures
        r == spec_speed_step(v, direction),
{
    match direction {
        AdjustmentDirection::Increase => {
            if v >= MAX_BASE_SPEED_MICROS - BASE_SPEED_STEP_MICROS {
                MAX_BASE_SPEED_MICROS
            } else if v + BASE_SPEED_STEP_MICROS < MIN_BASE_SPEED_MICROS {
                MIN_BASE_SPEED_MICROS
            } else {
                v + BASE_SPEED_STEP_MICROS
            }
        },
        AdjustmentDirection::Decrease => {
            if v <= MIN_BASE_SPEED_MICROS + BASE_SPEED_STEP_MICROS {
                MIN_BASE_SPEED_MICROS
            } else if v - BASE_SPEED_STEP_MICROS > MAX_BASE_SPEED_MICROS {
                MAX_BASE_SPEED_MICROS
            } else {
                v - BASE_SPEED_STEP_MICROS
            }
        },
    }
}

/// Adjusts `field` of `settings` one step in `direction`; returns whether
/// anything changed.
pub fn adjust_setting(settings: &mut Settings, field: SettingField, direction: AdjustmentDirection) -> (r: bool)
    ensures
        *final(settings) == spec_adjusted(*old(settings), field, direction),
        r == (*final(settings) != *old(settings)),
{
    let before = *settings;
    let up = direction == AdjustmentDirection::Increase;
    match field {
        SettingField::Mode => {
            settings.mode = if up { settings.mode.next() } else { settings.mode.previous() };
        },
        SettingField::GridPreset => {
            settings.grid_preset = if up {
                settings.grid_preset.next()
            } else {
                settings.grid_preset.previous()
            };
        },
        SettingField::BaseSpeed => {
            settings.base_speed = speed_step(settings.base_speed, direction);
        },
        SettingField::Difficulty => {
            settings.difficulty_enabled = !settings.difficulty_enabled;
        },
        SettingField::Theme => {
            settings.theme_default = if up {
                settings.theme_default.next()
            } else {
                settings.theme_default.previous()
            };
        },
        SettingField::AudioEnabled => {
            settings.audio_enabled = !settings.audio_enabled;
        },
        SettingField::MusicVolume => {
            settings.music_volume = volume_step(settings.music_volume, direction);
        },
        SettingField::SfxVolume => {
            settings.sfx_volume = volume_step(settings.sfx_volume, direction);
        },
    }
    *settings != before
}

/// `2^23 * 10^6`. A count of microseconds at or above it, read as seconds,
/// has 24 binary digits before the point: as many as a single-precision
/// float keeps.
pub const SINGLE_PRECISION_FLOOR: u64 = 8_388_608_000_000;

/// `n / d` rounded to the nearest integer, halves to the even one.
pub open spec fn spec_round_half_even(n: int, d: int) -> int {
    let q = n / d;
    let r = n % d;
    if 2 * r < d {
        q
    } else if 2 * r > d {
        q + 1
    } else if q % 2 == 0 {
        q
    } else {
        q + 1
    }
}

/// `(x * 2^k, scale * 2^k)` for the least `k` that brings a positive `x` to
/// at least `SINGLE_PRECISION_FLOOR`; `x` and `scale` as they are otherwise.
pub open spec fn spec_normalized(x: int, scale: int) -> (int, int)
    decreases (if x >= SINGLE_PRECISION_FLOOR { 0 } else { SINGLE_PRECISION_FLOOR - x }),
{
    if x <= 0 || x >= SINGLE_PRECISION_FLOOR {
        (x, scale)
    } else {
        spec_normalized(2 * x, 2 * scale)
    }
}

/// The base speed in whole milliseconds as it is shown: `micros / 10^6`
/// seconds is first taken to the nearest single-precision float
/// (`mantissa / scale`, 24 binary digits, halves to even), and that value is
/// rounded to the nearest thousandth, halves to even.
pub open spec fn spec_speed_millis(micros: u32) -> int {
    let (x, scale) = spec_normalized(micros as int, 1);
    let mantissa = spec_round_half_even(x, 1_000_000);
    spec_round_half_even(mantissa * 1000, scale)
}

/// The base speed as seconds with three decimals, followed by `s`.
pub open spec fn spec_speed_text(micros: u32) -> Seq<char> {
    let ms = spec_speed_millis(micros);
    let frac = ms % 1000;
    spec_decimal((ms / 1000) as nat) + seq!['.'] + seq![
        spec_digit(frac / 100),
        spec_digit(frac / 10 % 10),
        spec_digit(frac % 10),
    ] + seq!['s']
}

fn round_half_even(n: u64, d: u64) -> (r: u64)
    requires
        d >= 1,
        n < u64::MAX,
    ensures
        r == spec_round_half_even(n as int, d as int),
{
    let q = n / d;
    let rem = n % d;
    assert(q <= n) by (nonlinear_arith)
        requires
            d >= 1,
            q == n / d,
    ;
    if rem < d - rem {
        q
    } else if rem > d - rem {
        q + 1
    } else if q % 2 == 0 {
        q
    } else {
        q + 1
    }
}

fn speed_millis(micros: u32) -> (r: u64)
    ensures
        r == spec_speed_millis(micros),
{
    let mut x: u64 = micros as u64;
    let mut scale: u64 = 1;
    while 0 < x && x < SINGLE_PRECISION_FLOOR
        invariant
            spec_normalized(x as int, scale as int) == spec_normalized(micros as int, 1),
            x < 2 * SINGLE_PRECISION_FLOOR,
            1 <= scale,
            x == 0 || scale <= x,
        decreases (if x >= SINGLE_PRECISION_FLOOR { 0 } else { SINGLE_PRECISION_FLOOR - x }),
    {
        x = 2 * x;
        scale = 2 * scale;
    }
    assert(spec_normalized(x as int, scale as int) == (x as int, scale as int));
    let mantissa = round_half_even(x, 1_000_000);
    assert(mantissa <= 2 * SINGLE_PRECISION_FLOOR / 1_000_000 + 1);
    round_half_even(mantissa * 1000, scale)
}

pub open spec fn spec_on_off(b: bool) -> Seq<char> {
    if b {
        "On"@
    } else {
        "Off"@
    }
}

/// The value shown on the row of `field`.
pub open spec fn spec_field_text(s: Settings, field: SettingField) -> Seq<char> {
    match field {
        SettingField::Mode => spec_mode_label(s.mode),
        SettingField::GridPreset => spec_grid_label(s.grid_preset),
        SettingField::BaseSpeed => spec_speed_text(s.base_speed),
        SettingField::Difficulty => spec_on_off(s.difficulty_enabled),
        SettingField::Theme => spec_theme_label(s.theme_default),
        SettingField::AudioEnabled => spec_on_off(s.audio_enabled),
        SettingField::MusicVolume => spec_decimal(s.music_volume as nat) + seq!['%'],
        SettingField::SfxVolume => spec_decimal(s.sfx_volume as nat) + seq!['%'],
    }
}

fn on_off(b: bool) -> (r: &'static str)
    ensures
        r@ == spec_on_off(b),
{
    if b {
        "On"
    } else {
        "Off"
    }
}

/// The text of the value on the row of `field`, such as `0.110s` or `65%`.
pub fn format_field_value(settings: &Settings, field: SettingField) -> (r: String)
    ensures
        r@ == spec_field_text(*settings, field),
{
    let mut text = String::new();
    match field {
        SettingField::Mode => text.append(settings.mode.label()),
        SettingField::GridPreset => text.append(settings.grid_preset.label()),
        SettingField::BaseSpeed => {
            let ms: u64 = speed_millis(settings.base_speed);
            push_decimal(&mut text, (ms / 1000) as u128);
            text.append(".");
            push_three_digits(&mut text, ms % 1000);
            text.append("s");
            proof {
                reveal_strlit(".");
                reveal_strlit("s");
                assert(text@ =~= spec_speed_text(settings.base_speed));
            }
        },
        SettingField::Difficulty => text.append(on_off(settings.difficulty_enabled)),
        SettingField::Theme => text.append(settings.theme_default.label()),
        SettingField::AudioEnabled => text.append(on_off(settings.audio_enabled)),
        SettingField::MusicVolume => {
            push_decimal(&mut text, settings.music_volume as u128);
            text.append("%");
            proof {
                reveal_strlit("%");
                assert(text@ =~= spec_decimal(settings.music_volume as nat) + seq!['%']);
            }
        },
        SettingField::SfxVolume => {
            push_decimal(&mut text, settings.sfx_volume as u128);
            text.append("%");
            proof {
                reveal_strlit("%");
                assert(text@ =~= spec_decimal(settings.sfx_volume as nat) + seq!['%']);
            }
        },
    }
    proof {
        assert(text@ =~= spec_field_text(*settings, field));
    }
    text
}

} // verus!

verus! {

// Laws of the settings.

/// Toggling the theme twice changes nothing; `next` and `previous` of the
/// board sizes undo each other and cycle through the three sizes.
pub proof fn lemma_choices_cycle(t: ThemeMode, g: GridPreset)
    ensures
        spec_theme_other(spec_theme_other(t)) == t,
        spec_theme_other(t) != t,
        spec_grid_previous(spec_grid_next(g)) == g,
        spec_grid_next(spec_grid_previous(g)) == g,
        spec_grid_next(spec_grid_next(spec_grid_next(g))) == g,
{
}

/// Sanitized settings are in range, sanitizing twice is sanitizing once, and
/// settings already in range are left as they are.
pub proof fn lemma_sanitized_idempotent(s: Settings)
    ensures
        s.spec_sanitized().is_sanitized(),
        s.spec_sanitized().spec_sanitized() == s.spec_sanitized(),
        s.is_sanitized() ==> s.spec_sanitized() == s,
        Settings::spec_default().is_sanitized(),
{
}

/// Adjusting settings that are in range keeps them in range.
pub proof fn lemma_adjust_keeps_sanitized(s: Settings, field: SettingField, dir: AdjustmentDirection)
    requires
        s.is_sanitized(),
    ensures
        spec_adjusted(s, field, dir).is_sanitized(),
{
}

/// A decrease undoes an increase (and the other way round) on the cyclic
/// choices and the switches, and on the base speed and volumes unless the
/// first step hit the end of their range.
pub proof fn lemma_adjust_undo(s: Settings, field: SettingField)
    requires
        s.is_sanitized(),
    ensures
        field != SettingField::BaseSpeed && field != SettingField::MusicVolume && field
            != SettingField::SfxVolume ==> spec_adjusted(
            spec_adjusted(s, field, AdjustmentDirection::Increase),
            field,
            AdjustmentDirection::Decrease,
        ) == s && spec_adjusted(
            spec_adjusted(s, field, AdjustmentDirection::Decrease),
            field,
            AdjustmentDirection::Increase,
        ) == s,
        field == SettingField::BaseSpeed && s.base_speed + BASE_SPEED_STEP_MICROS
            <= MAX_BASE_SPEED_MICROS ==> spec_adjusted(
            spec_adjusted(s, field, AdjustmentDirection::Increase),
            field,
            AdjustmentDirection::Decrease,
        ) == s,
        field == SettingField::MusicVolume && s.music_volume + VOLUME_STEP <= MAX_VOLUME
            ==> spec_adjusted(
            spec_adjusted(s, field, AdjustmentDirection::Increase),
            field,
            AdjustmentDirection::Decrease,
        ) == s,
        field == SettingField::SfxVolume && s.sfx_volume + VOLUME_STEP <= MAX_VOLUME
            ==> spec_adjusted(
            spec_adjusted(s, field, AdjustmentDirection::Increase),
            field,
            AdjustmentDirection::Decrease,
        ) == s,
{
}

} // verus!

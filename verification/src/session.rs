//! The decisions of a play session between frames: keys open and close the
//! settings screen, pause, resume after a countdown, restart, steer, and the
//! clock drives the moves. The caller reads the keys, plays the sounds,
//! saves when asked, draws the screen and runs the loop of due moves.

use vstd::prelude::*;

use crate::game::{
    lemma_step_duration_floor, Direction, Game, GameView, HighScoreKey, TickOutcome, MIN_STEP_MICROS,
};
use crate::menu::{spec_field_at, MenuReturnState, SettingsMenu, SETTING_ROWS};
use crate::persistence::HighScoreMap;
use crate::settings::{
    spec_adjusted, spec_requires_enter_apply, spec_theme_other, adjust_setting,
    AdjustmentDirection, SettingField, Settings, ThemeMode, MIN_BASE_SPEED_MICROS,
};

verus! {

/// After a pause, play resumes when this countdown (microseconds) runs out.
pub const RESUME_COUNTDOWN_MICROS: u64 = 3_000_000;

/// What the session is doing.
#[derive(Clone, Copy, PartialEq, Eq, Debug, Structural)]
pub enum SessionState {
    Running,
    Paused,
    /// Counting down to play; `remaining` is in microseconds.
    ResumeCountdown { remaining: u64 },
    GameOver,
}

/// The number a countdown with `remaining` microseconds left shows: the
/// whole seconds left, rounded up, between 1 and 3.
pub open spec fn spec_countdown_shown(remaining: u64) -> int {
    let up = (remaining + 999_999) / 1_000_000;
    if up < 1 {
        1
    } else if up > 3 {
        3
    } else {
        up
    }
}

pub fn countdown_shown(remaining: u64) -> (r: u64)
    ensures
        r == spec_countdown_shown(remaining),
{
    let up: u64 = remaining / 1_000_000 + if remaining % 1_000_000 == 0 { 0 } else { 1 };
    proof {
        let q = remaining as int / 1_000_000;
        let m = remaining as int % 1_000_000;
        vstd::arithmetic::div_mod::lemma_fundamental_div_mod(remaining as int, 1_000_000);
        vstd::arithmetic::div_mod::lemma_mod_bound(remaining as int, 1_000_000);
        vstd::arithmetic::div_mod::lemma_fundamental_div_mod_converse_div(
            remaining + 999_999,
            1_000_000,
            if m == 0 { q } else { q + 1 },
            if m == 0 { 999_999 } else { m - 1 },
        );
    }
    if up < 1 {
        1
    } else if up > 3 {
        3
    } else {
        up
    }
}

/// A sound the caller should play.
#[derive(Clone, Copy, PartialEq, Eq, Debug, Structural)]
pub enum SoundCue {
    Eat,
    Death,
    Pause,
    Resume,
}

/// What a move did: its outcome, the sounds to play (eat before death), and
/// whether to save the settings and high scores.
#[derive(Clone, Copy, PartialEq, Eq, Debug, Structural)]
pub struct MoveReport {
    pub outcome: TickOutcome,
    pub eat_sound: bool,
    pub death_sound: bool,
    pub persist: bool,
}

/// A play session. `game_clock` and `accumulator` (time not yet spent on
/// moves) are microseconds.
pub struct Session {
    pub settings: Settings,
    pub high_scores: HighScoreMap,
    pub game: Game,
    pub theme_mode: ThemeMode,
    pub menu: SettingsMenu,
    pub state: SessionState,
    pub game_clock: u64,
    pub accumulator: u64,
}

/// The mathematical state of a session.
#[verifier::ext_equal]
pub struct SessionView {
    pub settings: Settings,
    pub high_scores: Map<HighScoreKey, u32>,
    pub game: GameView,
    pub theme_mode: ThemeMode,
    pub menu: SettingsMenu,
    pub state: SessionState,
    pub game_clock: u64,
    pub accumulator: u64,
}

impl View for Session {
    type V = SessionView;

    open spec fn view(&self) -> SessionView {
        SessionView {
            settings: self.settings,
            high_scores: self.high_scores@,
            game: self.game@,
            theme_mode: self.theme_mode,
            menu: self.menu,
            state: self.state,
            game_clock: self.game_clock,
            accumulator: self.accumulator,
        }
    }
}

/// The run after the direction keys are pressed: turns up, down, left and
/// right are requested in that order, for each key pressed.
pub open spec fn spec_steered(g: GameView, up: bool, down: bool, left: bool, right: bool) -> GameView {
    let g1 = if up { g.with_turn(Direction::Up) } else { g };
    let g2 = if down { g1.with_turn(Direction::Down) } else { g1 };
    let g3 = if left { g2.with_turn(Direction::Left) } else { g2 };
    if right { g3.with_turn(Direction::Right) } else { g3 }
}

/// The high-score key of the run's mode and board.
pub open spec fn spec_run_key(g: GameView) -> HighScoreKey {
    HighScoreKey {
        mode: g.config.mode,
        grid_width: g.config.grid_width,
        grid_height: g.config.grid_height,
    }
}

/// The state closing the settings screen leads to.
pub open spec fn spec_return_state(r: MenuReturnState) -> SessionState {
    match r {
        MenuReturnState::Running => SessionState::ResumeCountdown { remaining: RESUME_COUNTDOWN_MICROS },
        MenuReturnState::Paused => SessionState::Paused,
        MenuReturnState::GameOver => SessionState::GameOver,
    }
}

impl SessionView {
    /// The invariant of a session: the run is sound, the settings are in
    /// range, moves take time, the selected row exists, and the run is
    /// stopped while the settings screen is open.
    pub open spec fn wf(self) -> bool {
        &&& self.game.wf()
        &&& self.settings.is_sanitized()
        &&& self.game.config.base_step_seconds >= MIN_BASE_SPEED_MICROS
        &&& self.menu.selected_index < SETTING_ROWS
        &&& self.menu.open ==> (self.state == SessionState::Paused || self.state
            == SessionState::GameOver)
    }

    /// The session after the settings screen opens: the first row is
    /// selected, the draft is the active settings, a running game pauses,
    /// and the screen remembers where it was opened from.
    pub open spec fn menu_opened(self) -> SessionView {
        SessionView {
            menu: SettingsMenu {
                open: true,
                selected_index: 0,
                draft: self.settings,
                return_state: match self.state {
                    SessionState::Running => MenuReturnState::Running,
                    SessionState::Paused => MenuReturnState::Paused,
                    _ => MenuReturnState::GameOver,
                },
            },
            state: if self.state == SessionState::Running {
                SessionState::Paused
            } else {
                self.state
            },
            ..self
        }
    }

    /// `w` and `persist` are what the keys of the open settings screen do to
    /// this session: Up and Down move the selection, Left and Right adjust
    /// the selected field of the draft; a change to a field that needs no
    /// Enter is applied at once (brought into range, theme followed) and
    /// saved; Enter on the mode or board row applies a changed mode or board
    /// and restarts the run paused at time 0.
    pub open spec fn keys_handled(
        self,
        up: bool,
        down: bool,
        left: bool,
        right: bool,
        enter: bool,
        w: SessionView,
        persist: bool,
    ) -> bool {
        let v = self;
        let sel = v.selection_after(up, down);
        let field = spec_field_at(sel);
        let draft = v.draft_after(field, left, right);
        let changed = v.draft_changed(field, left, right);
        let immediate = changed && !spec_requires_enter_apply(field);
        let settings1 = if immediate { draft.spec_sanitized() } else { v.settings };
        let theme1 = if immediate { settings1.theme_default } else { v.theme_mode };
        let reset = enter && spec_requires_enter_apply(field) && (settings1.mode != draft.mode
            || settings1.grid_preset != draft.grid_preset);
        if reset {
            let applied = (Settings {
                mode: draft.mode,
                grid_preset: draft.grid_preset,
                ..settings1
            }).spec_sanitized();
            &&& w.settings == applied
            &&& w.theme_mode == theme1
            &&& w.menu == (SettingsMenu {
                open: true,
                selected_index: sel as usize,
                draft: applied,
                return_state: MenuReturnState::Running,
            })
            &&& w.game.is_fresh(applied.spec_game_config(), 0)
            &&& w.state == SessionState::Paused
            &&& w.game_clock == 0
            &&& w.accumulator == 0
            &&& w.high_scores == v.high_scores
            &&& persist
        } else {
            &&& w == (SessionView {
                settings: settings1,
                theme_mode: theme1,
                menu: SettingsMenu { selected_index: sel as usize, draft, ..v.menu },
                ..v
            })
            &&& persist == immediate
        }
    }

    /// The session after the settings screen closes.
    pub open spec fn menu_closed(self) -> SessionView {
        SessionView {
            menu: SettingsMenu { open: false, ..self.menu },
            state: spec_return_state(self.menu.return_state),
            ..self
        }
    }

    /// The selected row after the Up and Down keys (Up first), wrapping.
    pub open spec fn selection_after(self, up: bool, down: bool) -> int {
        let a: int = if up {
            (self.menu.selected_index - 1) % (SETTING_ROWS as int)
        } else {
            self.menu.selected_index as int
        };
        if down {
            (a + 1) % (SETTING_ROWS as int)
        } else {
            a
        }
    }

    /// The draft after Left (decrease) and then Right (increase) on `field`.
    pub open spec fn draft_after(self, field: SettingField, left: bool, right: bool) -> Settings {
        let d1 = if left {
            spec_adjusted(self.menu.draft, field, AdjustmentDirection::Decrease)
        } else {
            self.menu.draft
        };
        if right {
            spec_adjusted(d1, field, AdjustmentDirection::Increase)
        } else {
            d1
        }
    }

    /// Whether the last adjustment (Right if pressed, else Left) changed the
    /// draft.
    pub open spec fn draft_changed(self, field: SettingField, left: bool, right: bool) -> bool {
        let d1 = if left {
            spec_adjusted(self.menu.draft, field, AdjustmentDirection::Decrease)
        } else {
            self.menu.draft
        };
        if right {
            spec_adjusted(d1, field, AdjustmentDirection::Increase) != d1
        } else if left {
            d1 != self.menu.draft
        } else {
            false
        }
    }

    /// The sound closing the settings screen makes: resuming play counts down.
    pub open spec fn close_sound(self) -> Option<SoundCue> {
        if self.menu.return_state == MenuReturnState::Running {
            Some(SoundCue::Resume)
        } else {
            None
        }
    }
}

impl Session {
    /// A session with `settings` (brought into range) and `high_scores`,
    /// playing a fresh run at time 0.
    pub fn new(settings: Settings, high_scores: HighScoreMap) -> (r: Self)
        ensures
            r@.wf(),
            r@.settings == settings.spec_sanitized(),
            r@.high_scores == high_scores@,
            r@.game.is_fresh(settings.spec_sanitized().spec_game_config(), 0),
            r@.theme_mode == settings.spec_sanitized().theme_default,
            !r@.menu.open,
            r@.menu.selected_index == 0,
            r@.menu.draft == settings.spec_sanitized(),
            r@.menu.return_state == MenuReturnState::Paused,
            r@.state == SessionState::Running,
            r@.game_clock == 0,
            r@.accumulator == 0,
    {
        let settings = settings.sanitized();
        let game = Game::new(settings.to_game_config(), 0);
        let menu = SettingsMenu::new(&settings);
        Session {
            settings,
            high_scores,
            game,
            theme_mode: settings.theme_default,
            menu,
            state: SessionState::Running,
            game_clock: 0,
            accumulator: 0,
        }
    }

    fn close_menu(&mut self) -> (r: Option<SoundCue>)
        requires
            old(self)@.wf(),
            old(self).menu.open,
        ensures
            final(self)@ == old(self)@.menu_closed(),
            r == old(self)@.close_sound(),
    {
        let target = self.menu.close();
        match target {
            MenuReturnState::Running => {
                self.state = SessionState::ResumeCountdown { remaining: RESUME_COUNTDOWN_MICROS };
                Some(SoundCue::Resume)
            },
            MenuReturnState::Paused => {
                self.state = SessionState::Paused;
                None
            },
            MenuReturnState::GameOver => {
                self.state = SessionState::GameOver;
                None
            },
        }
    }

    /// Escape closes the settings screen if it is open (returns `false` and
    /// the sound to play); otherwise it quits (returns `true`).
    pub fn press_escape(&mut self) -> (r: (bool, Option<SoundCue>))
        requires
            old(self)@.wf(),
        ensures
            final(self)@.wf(),
            old(self).menu.open ==> final(self)@ == old(self)@.menu_closed() && r == (
            false,
            old(self)@.close_sound(),
            ),
            !old(self).menu.open ==> final(self)@ == old(self)@ && r == (true, None::<SoundCue>),
    {
        if self.menu.open {
            let sound = self.close_menu();
            (false, sound)
        } else {
            (true, None)
        }
    }

    /// Whether the quit key quits: only while the settings screen is closed.
    pub fn quit_key_quits(&self) -> (r: bool)
        ensures
            r == !self.menu.open,
    {
        !self.menu.open
    }

    /// Tab closes the settings screen if it is open; otherwise it opens it
    /// (pausing a running game) unless a countdown is under way. Returns the
    /// sound to play.
    pub fn press_tab(&mut self) -> (r: Option<SoundCue>)
        requires
            old(self)@.wf(),
        ensures
            final(self)@.wf(),
            old(self).menu.open ==> final(self)@ == old(self)@.menu_closed() && r == old(
                self,
            )@.close_sound(),
            !old(self).menu.open ==> match old(self).state {
                SessionState::ResumeCountdown { .. } => final(self)@ == old(self)@ && r.is_none(),
                _ => {
                    &&& final(self)@ == old(self)@.menu_opened()
                    &&& r == (if old(self).state == SessionState::Running {
                        Some(SoundCue::Pause)
                    } else {
                        None
                    })
                },
            },
    {
        if self.menu.open {
            return self.close_menu();
        }
        match self.state {
            SessionState::Running => {
                self.state = SessionState::Paused;
                self.menu.open(&self.settings, MenuReturnState::Running);
                Some(SoundCue::Pause)
            },
            SessionState::Paused => {
                self.menu.open(&self.settings, MenuReturnState::Paused);
                None
            },
            SessionState::GameOver => {
                self.menu.open(&self.settings, MenuReturnState::GameOver);
                None
            },
            SessionState::ResumeCountdown { .. } => None,
        }
    }

    /// The keys of the open settings screen: Up and Down move the selection,
    /// Left and Right adjust the selected field of the draft. A change to a
    /// field that needs no Enter takes effect at once (settings brought into
    /// range, theme followed); Enter on the mode or board row applies a
    /// changed mode or board, which restarts the run paused at time 0.
    /// Returns whether to save. Nothing happens while the screen is closed.
    #[verifier::rlimit(50)]
    pub fn menu_keys(&mut self, up: bool, down: bool, left: bool, right: bool, enter: bool) -> (persist: bool)
        requires
            old(self)@.wf(),
        ensures
            final(self)@.wf(),
            !old(self).menu.open ==> final(self)@ == old(self)@ && !persist,
            old(self).menu.open ==> old(self)@.keys_handled(up, down, left, right, enter, final(self)@, persist),
    {
        if !self.menu.open {
            return false;
        }
        let (field, changed) = self.select_and_adjust(up, down, left, right);
        let immediate = self.apply_immediate_change(field, changed);
        let reset = self.apply_on_enter(field, enter);
        immediate || reset
    }

    fn select_and_adjust(&mut self, up: bool, down: bool, left: bool, right: bool) -> (r: (
        SettingField,
        bool,
    ))
        requires
            old(self)@.wf(),
            old(self).menu.open,
        ensures
            final(self)@.wf(),
            r.0 == spec_field_at(old(self)@.selection_after(up, down)),
            r.1 == old(self)@.draft_changed(r.0, left, right),
            final(self)@ == (SessionView {
                menu: SettingsMenu {
                    selected_index: old(self)@.selection_after(up, down) as usize,
                    draft: old(self)@.draft_after(r.0, left, right),
                    ..old(self).menu
                },
                ..old(self)@
            }),
    {
        if up {
            self.menu.move_selection(-1);
        }
        if down {
            self.menu.move_selection(1);
        }
        let field = self.menu.selected_field();
        let mut changed = false;
        if left {
            changed = adjust_setting(&mut self.menu.draft, field, AdjustmentDirection::Decrease);
        }
        if right {
            changed = adjust_setting(&mut self.menu.draft, field, AdjustmentDirection::Increase);
        }
        (field, changed)
    }

    /// A changed field that needs no Enter takes effect at once.
    fn apply_immediate_change(&mut self, field: SettingField, changed: bool) -> (r: bool)
        requires
            old(self)@.wf(),
            old(self).menu.open,
        ensures
            final(self)@.wf(),
            r == (changed && !spec_requires_enter_apply(field)),
            final(self)@ == (if r {
                SessionView {
                    settings: old(self).menu.draft.spec_sanitized(),
                    theme_mode: old(self).menu.draft.spec_sanitized().theme_default,
                    ..old(self)@
                }
            } else {
                old(self)@
            }),
    {
        if changed && !field.requires_enter_apply() {
            self.settings = self.menu.draft.sanitized();
            self.theme_mode = self.settings.theme_default;
            true
        } else {
            false
        }
    }

    /// Enter on the mode or board row applies a changed mode or board and
    /// restarts the run, paused, at time 0.
    fn apply_on_enter(&mut self, field: SettingField, enter: bool) -> (r: bool)
        requires
            old(self)@.wf(),
            old(self).menu.open,
        ensures
            final(self)@.wf(),
            r == (enter && spec_requires_enter_apply(field) && (old(self).settings.mode
                != old(self).menu.draft.mode || old(self).settings.grid_preset
                != old(self).menu.draft.grid_preset)),
            !r ==> final(self)@ == old(self)@,
            r ==> {
                let applied = (Settings {
                    mode: old(self).menu.draft.mode,
                    grid_preset: old(self).menu.draft.grid_preset,
                    ..old(self).settings
                }).spec_sanitized();
                let w = final(self)@;
                &&& w.settings == applied
                &&& w.theme_mode == old(self).theme_mode
                &&& w.menu == (SettingsMenu {
                    draft: applied,
                    return_state: MenuReturnState::Running,
                    ..old(self).menu
                })
                &&& w.game.is_fresh(applied.spec_game_config(), 0)
                &&& w.state == SessionState::Paused
                &&& w.game_clock == 0
                &&& w.accumulator == 0
                &&& w.high_scores == old(self)@.high_scores
            },
    {
        if !(enter && field.requires_enter_apply()) {
            return false;
        }
        let mut reset_required = false;
        if self.settings.mode != self.menu.draft.mode {
            self.settings.mode = self.menu.draft.mode;
            reset_required = true;
        }
        if self.settings.grid_preset != self.menu.draft.grid_preset {
            self.settings.grid_preset = self.menu.draft.grid_preset;
            reset_required = true;
        }
        if reset_required {
            self.settings = self.settings.sanitized();
            self.menu.draft = self.settings;
            self.menu.return_state = MenuReturnState::Running;
            self.game_clock = 0;
            self.accumulator = 0;
            self.game.set_config(self.settings.to_game_config(), 0);
            self.state = SessionState::Paused;
        }
        reset_required
    }

    /// The theme key (while the settings screen is closed) switches the
    /// theme and makes it the saved default. Returns whether to save.
    pub fn press_theme(&mut self) -> (persist: bool)
        requires
            old(self)@.wf(),
        ensures
            final(self)@.wf(),
            persist == !old(self).menu.open,
            !persist ==> final(self)@ == old(self)@,
            persist ==> {
                let t = spec_theme_other(old(self).theme_mode);
                final(self)@ == (SessionView {
                    theme_mode: t,
                    settings: Settings { theme_default: t, ..old(self).settings },
                    menu: SettingsMenu {
                        draft: Settings { theme_default: t, ..old(self).menu.draft },
                        ..old(self).menu
                    },
                    ..old(self)@
                })
            },
    {
        if self.menu.open {
            return false;
        }
        self.theme_mode.toggle();
        self.settings.theme_default = self.theme_mode;
        self.menu.draft.theme_default = self.theme_mode;
        true
    }

    /// The pause key (while the settings screen is closed) pauses a running
    /// game, or starts the countdown of a paused one. Returns the sound to
    /// play.
    pub fn press_pause(&mut self) -> (r: Option<SoundCue>)
        requires
            old(self)@.wf(),
        ensures
            final(self)@.wf(),
            !old(self).menu.open && old(self).state == SessionState::Running ==> final(self)@
                == (SessionView { state: SessionState::Paused, ..old(self)@ }) && r == Some(
                SoundCue::Pause,
            ),
            !old(self).menu.open && old(self).state == SessionState::Paused ==> final(self)@
                == (SessionView {
                state: SessionState::ResumeCountdown { remaining: RESUME_COUNTDOWN_MICROS },
                ..old(self)@
            }) && r == Some(SoundCue::Resume),
            old(self).menu.open || (old(self).state != SessionState::Running && old(self).state
                != SessionState::Paused) ==> final(self)@ == old(self)@ && r.is_none(),
    {
        if self.menu.open {
            return None;
        }
        match self.state {
            SessionState::Running => {
                self.state = SessionState::Paused;
                Some(SoundCue::Pause)
            },
            SessionState::Paused => {
                self.state = SessionState::ResumeCountdown { remaining: RESUME_COUNTDOWN_MICROS };
                Some(SoundCue::Resume)
            },
            _ => None,
        }
    }

    /// The restart key, after a game over and while the settings screen is
    /// closed, starts a fresh run at time 0.
    pub fn press_restart(&mut self)
        requires
            old(self)@.wf(),
        ensures
            final(self)@.wf(),
            !old(self).menu.open && old(self).state == SessionState::GameOver ==> {
                let w = final(self)@;
                &&& w.game.is_fresh(old(self)@.game.config, 0)
                &&& w.state == SessionState::Running
                &&& w.game_clock == 0
                &&& w.accumulator == 0
                &&& w == (SessionView {
                    game: w.game,
                    state: SessionState::Running,
                    game_clock: 0,
                    accumulator: 0,
                    ..old(self)@
                })
            },
            old(self).menu.open || old(self).state != SessionState::GameOver ==> final(self)@ == old(
                self,
            )@,
    {
        if !self.menu.open && self.state == SessionState::GameOver {
            self.game_clock = 0;
            self.accumulator = 0;
            self.game.reset(0);
            self.state = SessionState::Running;
        }
    }

    /// The direction keys, while the game runs or counts down and the
    /// settings screen is closed, queue turns: up, down, left, right, in
    /// that order.
    pub fn steer(&mut self, up: bool, down: bool, left: bool, right: bool)
        requires
            old(self)@.wf(),
        ensures
            final(self)@.wf(),
            final(self)@ == (SessionView {
                game: if !old(self).menu.open && (old(self).state == SessionState::Running
                    || old(self).state is ResumeCountdown) {
                    spec_steered(old(self)@.game, up, down, left, right)
                } else {
                    old(self)@.game
                },
                ..old(self)@
            }),
    {
        let steering = match self.state {
            SessionState::Running => true,
            SessionState::ResumeCountdown { .. } => true,
            _ => false,
        };
        if self.menu.open || !steering {
            return;
        }
        if up {
            self.game.set_direction(Direction::Up);
        }
        if down {
            self.game.set_direction(Direction::Down);
        }
        if left {
            self.game.set_direction(Direction::Left);
        }
        if right {
            self.game.set_direction(Direction::Right);
        }
    }

    /// Time passes on the game clock and the move budget only while the game
    /// runs (both saturate at the largest `u64`).
    pub fn advance_clock(&mut self, frame_micros: u64)
        requires
            old(self)@.wf(),
        ensures
            final(self)@.wf(),
            old(self).state == SessionState::Running ==> final(self)@ == (SessionView {
                game_clock: if old(self).game_clock + frame_micros > u64::MAX {
                    u64::MAX
                } else {
                    (old(self).game_clock + frame_micros) as u64
                },
                accumulator: if old(self).accumulator + frame_micros > u64::MAX {
                    u64::MAX
                } else {
                    (old(self).accumulator + frame_micros) as u64
                },
                ..old(self)@
            }),
            old(self).state != SessionState::Running ==> final(self)@ == old(self)@,
    {
        if self.state == SessionState::Running {
            self.game_clock = self.game_clock.saturating_add(frame_micros);
            self.accumulator = self.accumulator.saturating_add(frame_micros);
        }
    }

    /// A countdown runs down by the frame's time; when it runs out the game
    /// runs again with no time banked for moves.
    pub fn count_down(&mut self, frame_micros: u64)
        requires
            old(self)@.wf(),
        ensures
            final(self)@.wf(),
            match old(self).state {
                SessionState::ResumeCountdown { remaining } => if frame_micros >= remaining {
                    final(self)@ == (SessionView {
                        state: SessionState::Running,
                        accumulator: 0,
                        ..old(self)@
                    })
                } else {
                    final(self)@ == (SessionView {
                        state: SessionState::ResumeCountdown {
                            remaining: (remaining - frame_micros) as u64,
                        },
                        ..old(self)@
                    })
                },
                _ => final(self)@ == old(self)@,
            },
    {
        match self.state {
            SessionState::ResumeCountdown { remaining } => {
                if frame_micros >= remaining {
                    self.state = SessionState::Running;
                    self.accumulator = 0;
                } else {
                    self.state = SessionState::ResumeCountdown { remaining: remaining - frame_micros };
                }
            },
            _ => {},
        }
    }

    /// The background music is turned down while the settings screen is
    /// open, the game is paused, or a countdown runs.
    pub fn bgm_ducked(&self) -> (r: bool)
        ensures
            r == (self.menu.open || self.state == SessionState::Paused || self.state
                is ResumeCountdown),
    {
        self.menu.open || match self.state {
            SessionState::Paused => true,
            SessionState::ResumeCountdown { .. } => true,
            _ => false,
        }
    }

    /// The high score of the current mode and board (0 if none).
    pub fn high_score(&self) -> (r: u32)
        ensures
            r == (if self@.high_scores.contains_key(spec_run_key(self@.game)) {
                self@.high_scores[spec_run_key(self@.game)]
            } else {
                0
            }),
    {
        let key = HighScoreKey::new(self.game.mode(), self.game.grid_width(), self.game.grid_height());
        match self.high_scores.get(&key) {
            Some(v) => *v,
            None => 0,
        }
    }

    /// Makes one move if the game runs and enough time is banked for it:
    /// the move spends its duration from the bank. When the move ends the
    /// run, the session is over, and a score above the high score of the
    /// mode and board replaces it (and asks to save). Returns `None`, having
    /// changed nothing, when no move is due; each move spends at least
    /// `MIN_STEP_MICROS`, so calling this until it returns `None` ends.
    pub fn run_due_tick(&mut self) -> (r: Option<MoveReport>)
        requires
            old(self)@.wf(),
        ensures
            final(self)@.wf(),
            forall|k: HighScoreKey| #[trigger]
                old(self)@.high_scores.contains_key(k) ==> final(self)@.high_scores.contains_key(k)
                    && final(self)@.high_scores[k] >= old(self)@.high_scores[k],
            old(self).state != SessionState::Running || old(self).accumulator < old(
                self,
            )@.game.step_duration() ==> final(self)@ == old(self)@ && r.is_none(),
            old(self).state == SessionState::Running && old(self).accumulator >= old(
                self,
            )@.game.step_duration() ==> {
                let v = old(self)@;
                let w = final(self)@;
                let ended = w.game.over;
                let key = spec_run_key(v.game);
                let best: u32 = if v.high_scores.contains_key(key) {
                    v.high_scores[key]
                } else {
                    0
                };
                let record = ended && w.game.score > best;
                &&& r.is_some()
                &&& v.game.ticked(v.game_clock, w.game, r.unwrap().outcome)
                &&& w.accumulator == v.accumulator - v.game.step_duration()
                &&& w.accumulator + MIN_STEP_MICROS <= v.accumulator
                &&& w.state == (if ended {
                    SessionState::GameOver
                } else {
                    SessionState::Running
                })
                &&& w.high_scores == (if record {
                    v.high_scores.insert(key, w.game.score)
                } else {
                    v.high_scores
                })
                &&& r.unwrap().eat_sound == r.unwrap().outcome.ate_food
                &&& r.unwrap().death_sound == ended
                &&& r.unwrap().persist == record
                &&& w == (SessionView {
                    game: w.game,
                    accumulator: w.accumulator,
                    state: w.state,
                    high_scores: w.high_scores,
                    ..v
                })
            },
    {
        if self.state != SessionState::Running {
            return None;
        }
        let step = self.game.effective_step_seconds();
        if (self.accumulator as u64) < step as u64 {
            return None;
        }
        proof {
            if self.game@.config.difficulty_enabled {
                lemma_step_duration_floor(self.game@.config, self.game@.score as nat);
            }
        }
        let outcome = self.game.tick(self.game_clock);
        self.accumulator = self.accumulator - step as u64;
        let mut persist = false;
        let ended = self.game.is_over();
        if ended {
            self.state = SessionState::GameOver;
            let key = HighScoreKey::new(self.game.mode(), self.game.grid_width(), self.game.grid_height());
            let best = match self.high_scores.get(&key) {
                Some(v) => *v,
                None => 0,
            };
            if self.game.score() > best {
                self.high_scores.insert(key, self.game.score());
                persist = true;
            }
        }
        Some(MoveReport { outcome, eat_sound: outcome.ate_food, death_sound: ended, persist })
    }
}

} // verus!

verus! {

/// Closing the settings screen returns to where it was opened from: a
/// screen opened from a paused or finished run leaves it paused or finished,
/// silently; only a screen opened from a running game counts down to play,
/// with the resume sound. The run and the settings are untouched.
pub proof fn lemma_menu_close_returns(v: SessionView)
    requires
        !v.menu.open,
        !(v.state is ResumeCountdown),
    ensures
        ({
            let opened = v.menu_opened();
            let closed = opened.menu_closed();
            &&& opened.menu.open
            &&& !closed.menu.open
            &&& closed.state == (if v.state == SessionState::Running {
                SessionState::ResumeCountdown { remaining: RESUME_COUNTDOWN_MICROS }
            } else {
                v.state
            })
            &&& opened.close_sound() == (if v.state == SessionState::Running {
                Some(SoundCue::Resume)
            } else {
                None
            })
            &&& closed.game == v.game
            &&& closed.settings == v.settings
        }),
{
}

/// Only the mode and board rows wait for Enter: a change on any other row
/// (speed, ramp, theme, audio, volumes) is applied to the active settings
/// in the same call and asks to save; a mode or board change without Enter
/// leaves the active settings as they were.
pub proof fn lemma_menu_changes_apply_at_once(
    v: SessionView,
    up: bool,
    down: bool,
    left: bool,
    right: bool,
    enter: bool,
    w: SessionView,
    persist: bool,
)
    requires
        v.wf(),
        v.menu.open,
        v.keys_handled(up, down, left, right, enter, w, persist),
    ensures
        ({
            let field = spec_field_at(v.selection_after(up, down));
            &&& field != SettingField::Mode && field != SettingField::GridPreset && v.draft_changed(
                field,
                left,
                right,
            ) ==> w.settings == v.draft_after(field, left, right).spec_sanitized() && persist
                && w.theme_mode == w.settings.theme_default
            &&& (field == SettingField::Mode || field == SettingField::GridPreset) && !enter
                ==> w.settings == v.settings && !persist
        }),
{
}

/// While the settings screen is open the run is stopped: it is paused or
/// over, so no move is due and no countdown runs.
pub proof fn lemma_menu_open_stops_run(v: SessionView)
    requires
        v.wf(),
        v.menu.open,
    ensures
        v.state != SessionState::Running,
        !(v.state is ResumeCountdown),
{
}

} // verus!

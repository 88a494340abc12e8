//! The settings screen: which row is selected, the draft being edited, and
//! where the player returns when it closes.

use vstd::prelude::*;

use crate::settings::{SettingField, Settings, ALL_SETTING_FIELDS};

verus! {

/// Where closing the settings screen leads.
#[derive(Clone, Copy, PartialEq, Eq, Debug, Structural)]
pub enum MenuReturnState {
    Running,
    Paused,
    GameOver,
}

/// The number of rows of the settings screen.
pub const SETTING_ROWS: usize = 8;

/// The field on row `i` of the settings screen.
pub open spec fn spec_field_at(i: int) -> SettingField {
    if i == 0 {
        SettingField::Mode
    } else if i == 1 {
        SettingField::GridPreset
    } else if i == 2 {
        SettingField::BaseSpeed
    } else if i == 3 {
        SettingField::Difficulty
    } else if i == 4 {
        SettingField::Theme
    } else if i == 5 {
        SettingField::AudioEnabled
    } else if i == 6 {
        SettingField::MusicVolume
    } else {
        SettingField::SfxVolume
    }
}

/// The settings screen. Edits go to `draft`; `return_state` is where closing
/// leads.
#[derive(Clone, Copy, Debug)]
pub struct SettingsMenu {
    pub open: bool,
    pub selected_index: usize,
    pub draft: Settings,
    pub return_state: MenuReturnState,
}

impl SettingsMenu {
    /// A closed screen on the first row, with a draft of `settings`.
    pub fn new(settings: &Settings) -> (r: Self)
        ensures
            !r.open,
            r.selected_index == 0,
            r.draft == *settings,
            r.return_state == MenuReturnState::Paused,
    {
        SettingsMenu {
            open: false,
            selected_index: 0,
            draft: *settings,
            return_state: MenuReturnState::Paused,
        }
    }

    /// Opens the screen on the first row with a fresh draft of `settings`.
    pub fn open(&mut self, settings: &Settings, return_state: MenuReturnState)
        ensures
            final(self).open,
            final(self).selected_index == 0,
            final(self).draft == *settings,
            final(self).return_state == return_state,
    {
        self.open = true;
        self.selected_index = 0;
        self.draft = *settings;
        self.return_state = return_state;
    }

    /// Closes the screen and says where to return.
    pub fn close(&mut self) -> (r: MenuReturnState)
        ensures
            *final(self) == (SettingsMenu { open: false, ..*old(self) }),
            r == old(self).return_state,
    {
        self.open = false;
        self.return_state
    }

    /// The field on the selected row.
    pub fn selected_field(&self) -> (r: SettingField)
        requires
            self.selected_index < SETTING_ROWS,
        ensures
            r == spec_field_at(self.selected_index as int),
    {
        ALL_SETTING_FIELDS[self.selected_index]
    }

    /// Moves the selection by `delta` rows, wrapping around at both ends.
    pub fn move_selection(&mut self, delta: i32)
        requires
            old(self).selected_index < SETTING_ROWS,
            old(self).selected_index + delta <= i32::MAX,
        ensures
            final(self).selected_index == (old(self).selected_index + delta) % (SETTING_ROWS as int),
            *final(self) == (SettingsMenu { selected_index: final(self).selected_index, ..*old(self) }),
    {
        let moved: i32 = self.selected_index as i32 + delta;
        let rows: i32 = SETTING_ROWS as i32;
        let index: i32 = if moved >= 0 {
            moved % rows
        } else {
            let m: i32 = -(moved + 1);
            let r = rows - 1 - m % rows;
            proof {
                let v = moved as int;
                let q = m as int / 8;
                vstd::arithmetic::div_mod::lemma_fundamental_div_mod(m as int, 8);
                vstd::arithmetic::div_mod::lemma_mod_bound(m as int, 8);
                vstd::arithmetic::div_mod::lemma_fundamental_div_mod_converse_mod(
                    v,
                    8,
                    -q - 1,
                    7 - (m as int) % 8,
                );
            }
            r
        };
        self.selected_index = index as usize;
    }

    /// Whether the draft changes the mode or the board, which waits for Enter.
    pub fn has_pending_reset_fields(&self, active: &Settings) -> (r: bool)
        ensures
            r == (self.draft.mode != active.mode || self.draft.grid_preset != active.grid_preset),
    {
        self.draft.mode != active.mode || self.draft.grid_preset != active.grid_preset
    }

    /// Whether the row of `field` shows a change that waits for Enter.
    pub fn field_pending(&self, active: &Settings, field: SettingField) -> (r: bool)
        ensures
            r == match field {
                SettingField::Mode => self.draft.mode != active.mode,
                SettingField::GridPreset => self.draft.grid_preset != active.grid_preset,
                _ => false,
            },
    {
        match field {
            SettingField::Mode => self.draft.mode != active.mode,
            SettingField::GridPreset => self.draft.grid_preset != active.grid_preset,
            _ => false,
        }
    }
}

} // verus!

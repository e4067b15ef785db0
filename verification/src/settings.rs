//! User settings.
//!
//! The settings record and its in-memory holder; reading and writing the
//! settings file is plain I/O and lives outside the library.

use vstd::prelude::*;

use crate::text::lit_string;

verus! {

/// The user-facing preferences.
pub struct Settings {
    pub external_player: String,
    pub remember_preferences: bool,
    pub show_skip_prompts: bool,
}

impl Settings {
    /// Field-for-field copy.
    pub fn clone_settings(&self) -> (r: Settings)
        ensures
            r == *self,
    {
        Settings {
            external_player: self.external_player.clone(),
            remember_preferences: self.remember_preferences,
            show_skip_prompts: self.show_skip_prompts,
        }
    }
}

impl Default for Settings {
    /// Fresh installations play in `mpv`, remember track preferences, and
    /// show skip prompts.
    fn default() -> (r: Settings)
        ensures
            r.external_player@ == "mpv"@,
            r.remember_preferences,
            r.show_skip_prompts,
    {
        Settings {
            external_player: lit_string("mpv"),
            remember_preferences: true,
            show_skip_prompts: true,
        }
    }
}

/// In-memory holder of the current settings.
pub struct SettingsManager {
    pub data: Settings,
}

impl SettingsManager {
    /// A holder carrying the given settings (as loaded, or the default).
    pub fn new(data: Settings) -> (r: Self)
        ensures
            r.data == data,
    {
        SettingsManager { data }
    }

    /// Replace the settings.
    pub fn save(&mut self, settings: Settings)
        ensures
            final(self).data == settings,
    {
        self.data = settings;
    }

    /// The current settings.
    pub fn get(&self) -> (r: Settings)
        ensures
            r == self.data,
    {
        self.data.clone_settings()
    }
}

} // verus!

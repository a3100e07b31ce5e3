//! Application settings and their stored text.
//!
//! The settings are kept as one line `show_week_numbers=<true|false>`; the
//! application reads and writes that text, this module turns it into values.

use vstd::prelude::*;
use crate::text::text_eq;

verus! {

/// Preferences of the user.
#[derive(Clone, Copy, Debug, PartialEq, Eq, Structural)]
pub struct AppSettings {
    pub show_week_numbers: bool,
}

impl AppSettings {
    /// The settings of a fresh installation.
    pub fn defaults() -> (r: AppSettings)
        ensures
            r == default_settings(),
    {
        AppSettings { show_week_numbers: false }
    }
}

impl Default for AppSettings {
    fn default() -> (r: AppSettings)
        ensures
            r == default_settings(),
    {
        AppSettings { show_week_numbers: false }
    }
}

pub open spec fn default_settings() -> AppSettings {
    AppSettings { show_week_numbers: false }
}

/// Why a settings operation failed.
#[derive(Debug)]
pub enum SettingsError {
    LoadError(String),
    SaveError(String),
    ValidationError(String),
}

impl SettingsError {
    /// The text shown for this error.
    pub fn message(&self) -> (r: String)
        ensures
            r@ == match self {
                SettingsError::LoadError(m) => "Failed to load settings: "@ + m@,
                SettingsError::SaveError(m) => "Failed to save settings: "@ + m@,
                SettingsError::ValidationError(m) => "Invalid setting: "@ + m@,
            },
    {
        match self {
            SettingsError::LoadError(m) => String::from_str("Failed to load settings: ").concat(m.as_str()),
            SettingsError::SaveError(m) => String::from_str("Failed to save settings: ").concat(m.as_str()),
            SettingsError::ValidationError(m) => String::from_str("Invalid setting: ").concat(m.as_str()),
        }
    }
}

/// The stored text of `s`.
pub open spec fn settings_text(s: AppSettings) -> Seq<char> {
    if s.show_week_numbers {
        "show_week_numbers=true"@
    } else {
        "show_week_numbers=false"@
    }
}

/// Settings operations.
pub struct SettingsHandler;

impl SettingsHandler {
    /// The settings stored as `stored`; the defaults when nothing is stored.
    pub fn load(stored: Option<&str>) -> (r: Result<AppSettings, SettingsError>)
        ensures
            stored is None ==> r == Ok::<AppSettings, SettingsError>(default_settings()),
            stored matches Some(t) ==> (r is Ok <==> exists|s: AppSettings| settings_text(s) == t@),
            stored matches Some(t) ==> forall|s: AppSettings| settings_text(s) == t@ ==> r == Ok::<AppSettings, SettingsError>(s),
            r matches Err(e) ==> e is LoadError,
    {
        proof {
            reveal_strlit("show_week_numbers=true");
            reveal_strlit("show_week_numbers=false");
            assert("show_week_numbers=true"@.len() != "show_week_numbers=false"@.len());
        }
        match stored {
            None => Ok(AppSettings::defaults()),
            Some(t) => {
                if text_eq(t, "show_week_numbers=true") {
                    proof {
                        assert(settings_text(AppSettings { show_week_numbers: true }) == t@);
                    }
                    Ok(AppSettings { show_week_numbers: true })
                } else if text_eq(t, "show_week_numbers=false") {
                    proof {
                        assert(settings_text(AppSettings { show_week_numbers: false }) == t@);
                    }
                    Ok(AppSettings { show_week_numbers: false })
                } else {
                    proof {
                        assert forall|s: AppSettings| settings_text(s) != t@ by {}
                    }
                    Err(SettingsError::LoadError(String::from_str("unreadable settings")))
                }
            },
        }
    }

    /// The text that stores `settings`.
    pub fn save(settings: &AppSettings) -> (r: Result<String, SettingsError>)
        ensures
            r matches Ok(t) && t@ == settings_text(*settings),
    {
        if settings.show_week_numbers {
            Ok(String::from_str("show_week_numbers=true"))
        } else {
            Ok(String::from_str("show_week_numbers=false"))
        }
    }

    /// Flips whether week numbers are shown; returns the text to store.
    pub fn toggle_week_numbers(settings: &mut AppSettings) -> (r: Result<String, SettingsError>)
        ensures
            final(settings).show_week_numbers == !old(settings).show_week_numbers,
            r matches Ok(t) && t@ == settings_text(*final(settings)),
    {
        settings.show_week_numbers = !settings.show_week_numbers;
        Self::save(settings)
    }

    /// Sets whether week numbers are shown; returns the text to store.
    pub fn set_week_numbers(settings: &mut AppSettings, show: bool) -> (r: Result<String, SettingsError>)
        ensures
            final(settings).show_week_numbers == show,
            r matches Ok(t) && t@ == settings_text(*final(settings)),
    {
        settings.show_week_numbers = show;
        Self::save(settings)
    }

    /// The default settings, to be stored in place of the current ones.
    pub fn reset_to_defaults() -> (r: Result<AppSettings, SettingsError>)
        ensures
            r == Ok::<AppSettings, SettingsError>(default_settings()),
    {
        Ok(AppSettings::defaults())
    }
}

/// Different settings are stored as different texts, so loading what
/// saving wrote gives back the same settings.
pub proof fn lemma_settings_round_trip(s: AppSettings)
    ensures
        forall|t: AppSettings| settings_text(t) == settings_text(s) ==> t == s,
{
    reveal_strlit("show_week_numbers=true");
    reveal_strlit("show_week_numbers=false");
    assert("show_week_numbers=true"@.len() != "show_week_numbers=false"@.len());
}

} // verus!

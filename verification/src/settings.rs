//! Application settings.
//!
//! The values themselves and the rules for updating them and for choosing
//! the effective recordings directory; reading and writing the settings
//! file is the shell's business.

use vstd::prelude::*;
use vstd::string::StringExecFns;

verus! {

/// The default shortcut that starts a recording.
pub fn default_record_shortcut() -> (r: String)
    ensures
        r@ == "ctrl+r"@,
{
    String::from_str("ctrl+r")
}

/// The default shortcut that stops a recording.
pub fn default_stop_shortcut() -> (r: String)
    ensures
        r@ == "ctrl+s"@,
{
    String::from_str("ctrl+s")
}

/// The configurable global shortcuts.
#[derive(Debug, Clone)]
pub struct ShortcutConfig {
    pub record: String,
    pub stop: String,
}

impl Default for ShortcutConfig {
    /// The default shortcuts.
    fn default() -> (r: ShortcutConfig)
        ensures
            r.record@ == "ctrl+r"@,
            r.stop@ == "ctrl+s"@,
    {
        ShortcutConfig { record: default_record_shortcut(), stop: default_stop_shortcut() }
    }
}

/// Everything the application persists between runs.
#[derive(Debug, Clone)]
pub struct AppSettings {
    pub output_dir: Option<String>,
    pub silence_trim: bool,
    pub max_duration_secs: Option<u32>,
    pub shortcuts: ShortcutConfig,
    pub notify_on_record: bool,
}

impl Default for AppSettings {
    /// Fresh settings: no custom directory, no trimming, no duration cap,
    /// default shortcuts, no notification.
    fn default() -> (r: AppSettings)
        ensures
            r.output_dir is None,
            !r.silence_trim,
            r.max_duration_secs is None,
            r.shortcuts.record@ == "ctrl+r"@,
            r.shortcuts.stop@ == "ctrl+s"@,
            !r.notify_on_record,
    {
        AppSettings {
            output_dir: None,
            silence_trim: false,
            max_duration_secs: None,
            shortcuts: ShortcutConfig {
                record: default_record_shortcut(),
                stop: default_stop_shortcut(),
            },
            notify_on_record: false,
        }
    }
}

impl AppSettings {
    /// Turn silence trimming on or off.
    pub fn set_silence_trim(&mut self, enabled: bool)
        ensures
            final(self).silence_trim == enabled,
            final(self).output_dir == old(self).output_dir,
            final(self).max_duration_secs == old(self).max_duration_secs,
            final(self).shortcuts == old(self).shortcuts,
            final(self).notify_on_record == old(self).notify_on_record,
    {
        self.silence_trim = enabled;
    }

    /// Set or clear the automatic maximum recording duration.
    pub fn set_max_duration(&mut self, seconds: Option<u32>)
        ensures
            final(self).max_duration_secs == seconds,
            final(self).output_dir == old(self).output_dir,
            final(self).silence_trim == old(self).silence_trim,
            final(self).shortcuts == old(self).shortcuts,
            final(self).notify_on_record == old(self).notify_on_record,
    {
        self.max_duration_secs = seconds;
    }

    /// Turn the on-record notification on or off.
    pub fn set_notify_on_record(&mut self, enabled: bool)
        ensures
            final(self).notify_on_record == enabled,
            final(self).output_dir == old(self).output_dir,
            final(self).silence_trim == old(self).silence_trim,
            final(self).max_duration_secs == old(self).max_duration_secs,
            final(self).shortcuts == old(self).shortcuts,
    {
        self.notify_on_record = enabled;
    }

    /// Replace the global shortcuts.
    pub fn set_shortcuts(&mut self, record: String, stop: String)
        ensures
            final(self).shortcuts.record == record,
            final(self).shortcuts.stop == stop,
            final(self).output_dir == old(self).output_dir,
            final(self).silence_trim == old(self).silence_trim,
            final(self).max_duration_secs == old(self).max_duration_secs,
            final(self).notify_on_record == old(self).notify_on_record,
    {
        self.shortcuts = ShortcutConfig { record, stop };
    }

    /// Set or clear the custom output directory.
    pub fn set_output_dir(&mut self, path: Option<String>)
        ensures
            final(self).output_dir == path,
            final(self).silence_trim == old(self).silence_trim,
            final(self).max_duration_secs == old(self).max_duration_secs,
            final(self).shortcuts == old(self).shortcuts,
            final(self).notify_on_record == old(self).notify_on_record,
    {
        self.output_dir = path;
    }

    /// Whether a non-empty custom output directory is set.
    pub fn output_dir_is_custom(&self) -> (r: bool)
        ensures
            r == (self.output_dir matches Some(d) && d@.len() > 0),
    {
        match &self.output_dir {
            Some(d) => !d.as_str().is_empty(),
            None => false,
        }
    }
}

/// The effective recordings directory: the custom one when it is set,
/// non-empty, and usable on disk; otherwise the platform default handed
/// in by the caller.
pub fn choose_recordings_dir(
    custom: &Option<String>,
    custom_usable: bool,
    default_dir: String,
) -> (r: String)
    ensures
        r@ == if (custom matches Some(c) && c@.len() > 0) && custom_usable {
            custom.unwrap()@
        } else {
            default_dir@
        },
{
    match custom {
        Some(c) => {
            if !c.as_str().is_empty() && custom_usable {
                c.clone()
            } else {
                default_dir
            }
        },
        None => default_dir,
    }
}

} // verus!

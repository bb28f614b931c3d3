//! The verified core of ReaLingo, a desktop simultaneous interpreter: the logic between
//! the audio devices, the realtime translation endpoint and the user interface.

pub mod audio;
pub mod config;
pub mod history;
pub mod json;
pub mod pcm;
pub mod pulse;
pub mod realtime;
pub mod resample;
pub mod secret;
pub mod text;
pub mod tray;

use vstd::prelude::*;
use crate::config::Settings;

verus! {

/// Where the audio of a run comes from.
pub enum Source {
    /// A capture device, by the id under which it was offered.
    Device { id: String },
    /// A local audio file.
    File { path: String },
}

/// What the host platform can and cannot do, so the UI can say why a list is empty.
pub struct Platform {
    pub os: &'static str,
    pub loopback: bool,
    /// False on a Linux box with no Secret Service provider: the key then stays in
    /// settings.json, and the settings page says so.
    pub keyring: bool,
}

/// The settings a run uses: the key in the credential store wins over whatever the
/// front end sent, so on a machine that has one the key never travels through the front
/// end at all.
pub fn with_stored_key(settings: Settings, stored: Option<String>) -> (r: Settings)
    ensures
        r.api_key == (match stored {
            Some(k) => k,
            None => settings.api_key,
        }),
        r.workspace_id == settings.workspace_id,
        r.region == settings.region,
        r.source_lang == settings.source_lang,
        r.target_lang == settings.target_lang,
{
    let mut s = settings;
    if let Some(k) = stored {
        s.api_key = k;
    }
    s
}

} // verus!

use vstd::prelude::*;

verus! {

/// The per-key settings of a Play Audio key, as the Property Inspector stores them.
#[derive(Clone)]
pub struct AudioSettings {
    /// The audio file to play; empty when none is configured.
    pub path: String,
    /// The sink to route to; empty for the system default.
    pub device: String,
    /// "restart", "stack", "hold" or "loop"; any other value acts as "restart".
    pub playback_mode: String,
    /// The volume in percent, as the slider writes it (0 to 100).
    pub volume: String,
}

impl Default for AudioSettings {
    /// Every field empty.
    fn default() -> (settings: Self)
        ensures
            settings.path@.len() == 0,
            settings.device@.len() == 0,
            settings.playback_mode@.len() == 0,
            settings.volume@.len() == 0,
    {
        AudioSettings {
            path: String::new(),
            device: String::new(),
            playback_mode: String::new(),
            volume: String::new(),
        }
    }
}

impl AudioSettings {
    /// Whether a file is configured for the key.
    pub fn has_audio_path(&self) -> (configured: bool)
        ensures
            configured == (self.path@.len() > 0),
    {
        !self.path.as_str().is_empty()
    }
}

/// The playback mode a key has when its settings leave it out.
pub fn default_playback_mode() -> (mode: String)
    ensures
        mode@ == "restart"@,
{
    "restart".to_owned()
}

/// The volume a key has when its settings leave it out.
pub fn default_volume() -> (volume: String)
    ensures
        volume@ == "100"@,
{
    "100".to_owned()
}

/// The settings of a Stop Audio key: there are none.
#[derive(Clone, Default, Debug)]
pub struct StopAudioSettings {}

} // verus!

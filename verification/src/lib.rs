//! Playback decisions, the player registry and the device list of a Stream
//! Deck soundboard that plays audio files on chosen PipeWire/PulseAudio sinks.

mod text;

pub mod actions;
pub mod decision;
pub mod laws;
pub mod registry;
pub mod settings;
pub mod sinks;

pub use actions::{KeyDownOutcome, PlayAudioAction, PluginRequest, StopAudioAction};
pub use decision::{decide_key_down, decide_key_up, KeyDownDecision};
pub use registry::PlayerRegistry;
pub use settings::{default_playback_mode, default_volume, AudioSettings, StopAudioSettings};

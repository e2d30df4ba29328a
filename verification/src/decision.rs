use vstd::prelude::*;

use crate::text::same_text;

verus! {

/// What `key_down` should do, given the playback mode and whether this
/// button instance already has audio playing.
#[derive(Debug, PartialEq, Eq, Structural, Clone, Copy)]
pub enum KeyDownDecision {
    /// Stop this instance's players and start nothing new (loop toggle, second press).
    StopOnly,
    /// Do nothing at all (no file configured, nothing playing).
    DoNothing,
    /// Start a new playback.
    Play {
        /// Stop this instance's existing players first.
        stop_existing: bool,
        /// Repeat the source until it is stopped.
        looping: bool,
    },
}

/// The decision a key press takes, by playback mode.
///
/// A second press on a running loop stops it; this is checked before the
/// path, so clearing the path never leaves a loop that its own button cannot
/// stop. Without a path nothing else happens. "loop" starts a looping
/// playback, "stack" layers a new one over the others, and "restart",
/// "hold" and any other mode replace what the instance was playing.
pub open spec fn key_down_decision(mode: Seq<char>, has_active_players: bool, has_audio_path: bool) -> KeyDownDecision {
    if mode == "loop"@ && has_active_players {
        KeyDownDecision::StopOnly
    } else if !has_audio_path {
        KeyDownDecision::DoNothing
    } else if mode == "loop"@ {
        KeyDownDecision::Play { stop_existing: false, looping: true }
    } else if mode == "stack"@ {
        KeyDownDecision::Play { stop_existing: false, looping: false }
    } else {
        KeyDownDecision::Play { stop_existing: true, looping: false }
    }
}

/// Whether releasing the key stops the instance's players: only in "hold" mode.
pub open spec fn key_up_stops(mode: Seq<char>) -> bool {
    mode == "hold"@
}

/// Decides what `key_down` does for a given playback mode.
pub fn decide_key_down(playback_mode: &str, has_active_players: bool, has_audio_path: bool) -> (decision: KeyDownDecision)
    ensures
        decision == key_down_decision(playback_mode@, has_active_players, has_audio_path),
{
    let is_loop = same_text(playback_mode, "loop");
    if is_loop && has_active_players {
        KeyDownDecision::StopOnly
    } else if !has_audio_path {
        KeyDownDecision::DoNothing
    } else if is_loop {
        KeyDownDecision::Play { stop_existing: false, looping: true }
    } else if same_text(playback_mode, "stack") {
        KeyDownDecision::Play { stop_existing: false, looping: false }
    } else {
        KeyDownDecision::Play { stop_existing: true, looping: false }
    }
}

/// Whether `key_up` should stop this instance's players.
pub fn decide_key_up(playback_mode: &str) -> (stops: bool)
    ensures
        stops == key_up_stops(playback_mode@),
{
    same_text(playback_mode, "hold")
}

} // verus!

use vstd::prelude::*;

use crate::decision::{decide_key_down, decide_key_up, key_down_decision, key_up_stops, KeyDownDecision};
use crate::registry::{
    attached_among, counter_advanced, drops_oldest, has_players, owned_by, registry_inv, same_counter, PlayerRegistry,
    RegistryView,
};
use crate::settings::AudioSettings;
use crate::text::same_text;

verus! {

/// The Play Audio key: plays one file on its press, by its playback mode.
pub struct PlayAudioAction;

/// The Stop Audio key: stops everything this plugin is playing.
pub struct StopAudioAction;

/// What a press of a Play Audio key did to the registry, and what is left
/// for the caller to do.
pub struct KeyDownOutcome {
    /// The decision the press took.
    pub decision: KeyDownDecision,
    /// Slots that were removed with a player attached: the caller stops those players.
    pub stopped: Vec<u64>,
    /// The slot reserved for the new playback, if one starts: the caller opens
    /// the sink and attaches the player to it.
    pub slot: Option<u64>,
}

/// A request the Property Inspector sends to the plugin.
#[derive(Debug, PartialEq, Eq, Structural, Clone, Copy)]
pub enum PluginRequest {
    /// List the output devices.
    ListDevices,
    /// Open a file picker for an audio file.
    PickFile,
    /// Anything else: nothing to do.
    Ignore,
}

/// The request a Property Inspector command stands for.
pub open spec fn plugin_request(command: Option<Seq<char>>) -> PluginRequest {
    match command {
        Some(c) => if c == "get_devices"@ {
            PluginRequest::ListDevices
        } else if c == "open_file_picker"@ {
            PluginRequest::PickFile
        } else {
            PluginRequest::Ignore
        },
        None => PluginRequest::Ignore,
    }
}

/// The characters of an optional command.
pub open spec fn command_text(command: Option<&str>) -> Option<Seq<char>> {
    match command {
        Some(c) => Some(c@),
        None => None,
    }
}

/// What a press of a Play Audio key does to the registry.
///
/// The press takes `key_down_decision` on whether the instance has any slot.
/// Doing nothing leaves the registry as it was. Stopping removes every slot of
/// the instance. A playback that replaces the current one removes those slots
/// too, then reserves a fresh slot. A stacking press first drops the oldest
/// slots of the instance beyond the cap, then reserves; a loop only reserves.
/// `stopped` are the removed slots that had a player attached.
pub open spec fn key_down_post(
    before: RegistryView,
    after: RegistryView,
    instance_id: Seq<char>,
    mode: Seq<char>,
    has_audio_path: bool,
    decision: KeyDownDecision,
    stopped: Set<u64>,
    slot: Option<u64>,
) -> bool {
    let d = key_down_decision(mode, has_players(before.slots, instance_id), has_audio_path);
    let mine = owned_by(before.slots, instance_id);
    let fresh = (instance_id, false);
    &&& decision == d
    &&& match d {
        KeyDownDecision::DoNothing => {
            &&& after == before
            &&& stopped.is_empty()
            &&& slot is None
        },
        KeyDownDecision::StopOnly => {
            &&& after.slots == before.slots.remove_keys(mine)
            &&& same_counter(before, after)
            &&& stopped == attached_among(before.slots, mine)
            &&& slot is None
        },
        KeyDownDecision::Play { stop_existing, looping: _ } => {
            &&& slot == Some(before.next_slot)
            &&& counter_advanced(before, after)
            &&& if stop_existing {
                &&& after.slots == before.slots.remove_keys(mine).insert(before.next_slot, fresh)
                &&& stopped == attached_among(before.slots, mine)
            } else if mode == "stack"@ {
                exists|dropped: Set<u64>|
                    #![trigger drops_oldest(before.slots, instance_id, dropped)]
                    drops_oldest(before.slots, instance_id, dropped)
                    && after.slots == before.slots.remove_keys(dropped).insert(before.next_slot, fresh)
                    && stopped == attached_among(before.slots, dropped)
            } else {
                &&& after.slots == before.slots.insert(before.next_slot, fresh)
                &&& stopped.is_empty()
            }
        },
    }
}

impl PlayAudioAction {
    /// Handles a press of the key: decides by the playback mode, stops what
    /// has to stop, and reserves the slot of the new playback, if any.
    ///
    /// The slot is reserved before the sink is opened, so a second press
    /// during start-up sees this instance as busy instead of starting a second,
    /// never-ending loop.
    pub fn key_down(&self, registry: &mut PlayerRegistry, instance_id: &str, settings: &AudioSettings) -> (outcome: KeyDownOutcome)
        ensures
            key_down_post(
                old(registry)@,
                final(registry)@,
                instance_id@,
                settings.playback_mode@,
                settings.path@.len() > 0,
                outcome.decision,
                outcome.stopped@.to_set(),
                outcome.slot,
            ),
            outcome.stopped@.no_duplicates(),
            registry_inv(old(registry)@),
            registry_inv(final(registry)@),
    {
        let mode = settings.playback_mode.as_str();
        let has_audio_path = settings.has_audio_path();
        let has_active_players = registry.instance_has_players(instance_id);
        let decision = decide_key_down(mode, has_active_players, has_audio_path);
        match decision {
            KeyDownDecision::DoNothing => {
                KeyDownOutcome { decision, stopped: Vec::new(), slot: None }
            },
            KeyDownDecision::StopOnly => {
                let stopped = registry.stop_instance_players(instance_id);
                KeyDownOutcome { decision, stopped, slot: None }
            },
            KeyDownDecision::Play { stop_existing, looping: _ } => {
                let stopped = if stop_existing {
                    registry.stop_instance_players(instance_id)
                } else if same_text(mode, "stack") {
                    registry.drop_oldest_stacked(instance_id)
                } else {
                    Vec::new()
                };
                let slot = registry.reserve_player_slot(instance_id);
                KeyDownOutcome { decision, stopped, slot: Some(slot) }
            },
        }
    }

    /// Handles the release of the key: in "hold" mode it stops every playback
    /// of the instance, in any other mode it changes nothing.
    /// Returns the slots whose players the caller stops.
    pub fn key_up(&self, registry: &mut PlayerRegistry, instance_id: &str, settings: &AudioSettings) -> (stopped: Vec<u64>)
        ensures
            same_counter(old(registry)@, final(registry)@),
            registry_inv(final(registry)@),
            stopped@.no_duplicates(),
            key_up_stops(settings.playback_mode@) ==> final(registry)@.slots == old(registry)@.slots.remove_keys(owned_by(old(registry)@.slots, instance_id@)),
            key_up_stops(settings.playback_mode@) ==> stopped@.to_set() == attached_among(old(registry)@.slots, owned_by(old(registry)@.slots, instance_id@)),
            !key_up_stops(settings.playback_mode@) ==> final(registry)@ == old(registry)@,
            !key_up_stops(settings.playback_mode@) ==> stopped@.len() == 0,
    {
        proof {
            use_type_invariant(&*registry);
        }
        if decide_key_up(settings.playback_mode.as_str()) {
            registry.stop_instance_players(instance_id)
        } else {
            Vec::new()
        }
    }

    /// Tells what a command from the Property Inspector asks for.
    pub fn send_to_plugin(&self, command: Option<&str>) -> (request: PluginRequest)
        ensures
            request == plugin_request(command_text(command)),
    {
        match command {
            Some(c) => if same_text(c, "get_devices") {
                PluginRequest::ListDevices
            } else if same_text(c, "open_file_picker") {
                PluginRequest::PickFile
            } else {
                PluginRequest::Ignore
            },
            None => PluginRequest::Ignore,
        }
    }
}

impl StopAudioAction {
    /// Handles a press of the key: removes every slot of every instance.
    /// Returns the slots whose players the caller stops.
    pub fn key_down(&self, registry: &mut PlayerRegistry) -> (stopped: Vec<u64>)
        ensures
            final(registry)@.slots.dom().is_empty(),
            same_counter(old(registry)@, final(registry)@),
            registry_inv(final(registry)@),
            stopped@.no_duplicates(),
            stopped@.to_set() == attached_among(old(registry)@.slots, old(registry)@.slots.dom()),
    {
        registry.stop_all_players()
    }
}

} // verus!

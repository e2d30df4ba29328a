use pwsounddeck::{
    default_playback_mode, default_volume, AudioSettings, KeyDownDecision, PlayAudioAction, PlayerRegistry,
    PluginRequest, StopAudioAction, StopAudioSettings,
};

fn settings(path: &str, mode: &str) -> AudioSettings {
    AudioSettings {
        path: path.to_string(),
        device: String::new(),
        playback_mode: mode.to_string(),
        volume: "100".to_string(),
    }
}

#[test]
fn default_settings_are_empty() {
    let s = AudioSettings::default();
    assert_eq!(s.path, "");
    assert_eq!(s.device, "");
    assert_eq!(s.playback_mode, "");
    assert_eq!(s.volume, "");
    let _ = StopAudioSettings::default();
}

#[test]
fn serde_defaults_are_restart_and_full_volume() {
    assert_eq!(default_playback_mode(), "restart");
    assert_eq!(default_volume(), "100");
}

#[test]
fn a_key_without_a_file_has_no_audio_path() {
    assert!(!settings("", "restart").has_audio_path());
    assert!(settings("/tmp/a.ogg", "restart").has_audio_path());
}

#[test]
fn loop_key_toggles_on_press() {
    let action = PlayAudioAction;
    let mut registry = PlayerRegistry::new();
    let s = settings("/tmp/a.ogg", "loop");

    let first = action.key_down(&mut registry, "k", &s);
    assert_eq!(first.decision, KeyDownDecision::Play { stop_existing: false, looping: true });
    assert_eq!(first.slot, Some(0));
    assert!(first.stopped.is_empty());
    assert!(registry.attach_player(0));

    let second = action.key_down(&mut registry, "k", &s);
    assert_eq!(second.decision, KeyDownDecision::StopOnly);
    assert_eq!(second.slot, None);
    assert_eq!(second.stopped, vec![0]);
    assert!(!registry.instance_has_players("k"));
}

#[test]
fn loop_key_stops_after_its_path_was_cleared() {
    let action = PlayAudioAction;
    let mut registry = PlayerRegistry::new();
    action.key_down(&mut registry, "k", &settings("/tmp/a.ogg", "loop"));
    let out = action.key_down(&mut registry, "k", &settings("", "loop"));
    assert_eq!(out.decision, KeyDownDecision::StopOnly);
    assert!(!registry.instance_has_players("k"));
}

#[test]
fn a_press_without_a_file_changes_nothing() {
    let action = PlayAudioAction;
    let mut registry = PlayerRegistry::new();
    let out = action.key_down(&mut registry, "k", &settings("", "restart"));
    assert_eq!(out.decision, KeyDownDecision::DoNothing);
    assert_eq!(out.slot, None);
    assert!(out.stopped.is_empty());
    assert!(!registry.instance_has_players("k"));
    assert_eq!(registry.reserve_player_slot("k"), 0);
}

#[test]
fn restart_key_replaces_its_playback_and_spares_other_keys() {
    let action = PlayAudioAction;
    let mut registry = PlayerRegistry::new();
    let s = settings("/tmp/a.ogg", "restart");
    action.key_down(&mut registry, "other", &s);
    let first = action.key_down(&mut registry, "k", &s);
    assert_eq!(first.slot, Some(1));
    assert!(registry.attach_player(1));
    let second = action.key_down(&mut registry, "k", &s);
    assert_eq!(second.decision, KeyDownDecision::Play { stop_existing: true, looping: false });
    assert_eq!(second.stopped, vec![1]);
    assert_eq!(second.slot, Some(2));
    assert_eq!(registry.slots_of("k"), vec![2]);
    assert_eq!(registry.slots_of("other"), vec![0]);
}

#[test]
fn stack_key_layers_at_most_ten_sounds() {
    let action = PlayAudioAction;
    let mut registry = PlayerRegistry::new();
    let s = settings("/tmp/a.ogg", "stack");
    for press in 0..10u64 {
        let out = action.key_down(&mut registry, "k", &s);
        assert_eq!(out.slot, Some(press));
        assert!(out.stopped.is_empty());
        assert!(registry.attach_player(press));
    }
    assert_eq!(registry.slots_of("k").len(), 10);

    let eleventh = action.key_down(&mut registry, "k", &s);
    assert_eq!(eleventh.decision, KeyDownDecision::Play { stop_existing: false, looping: false });
    assert_eq!(eleventh.stopped, vec![0]);
    assert_eq!(eleventh.slot, Some(10));
    let mut mine = registry.slots_of("k");
    mine.sort();
    assert_eq!(mine, vec![1, 2, 3, 4, 5, 6, 7, 8, 9, 10]);
}

#[test]
fn hold_key_stops_on_release_only() {
    let action = PlayAudioAction;
    let mut registry = PlayerRegistry::new();
    let hold = settings("/tmp/a.ogg", "hold");
    let out = action.key_down(&mut registry, "k", &hold);
    assert_eq!(out.slot, Some(0));
    assert!(registry.attach_player(0));
    assert_eq!(action.key_up(&mut registry, "k", &hold), vec![0]);
    assert!(!registry.instance_has_players("k"));

    let restart = settings("/tmp/a.ogg", "restart");
    action.key_down(&mut registry, "k", &restart);
    assert!(action.key_up(&mut registry, "k", &restart).is_empty());
    assert!(registry.instance_has_players("k"));
}

#[test]
fn stop_audio_stops_every_key() {
    let play = PlayAudioAction;
    let stop = StopAudioAction;
    let mut registry = PlayerRegistry::new();
    play.key_down(&mut registry, "a", &settings("/tmp/a.ogg", "loop"));
    play.key_down(&mut registry, "b", &settings("/tmp/b.ogg", "stack"));
    assert!(registry.attach_player(1));
    let stopped = stop.key_down(&mut registry);
    assert_eq!(stopped, vec![1]);
    assert!(!registry.instance_has_players("a"));
    assert!(!registry.instance_has_players("b"));
}

#[test]
fn property_inspector_commands() {
    let action = PlayAudioAction;
    assert_eq!(action.send_to_plugin(Some("get_devices")), PluginRequest::ListDevices);
    assert_eq!(action.send_to_plugin(Some("open_file_picker")), PluginRequest::PickFile);
    assert_eq!(action.send_to_plugin(Some("refresh")), PluginRequest::Ignore);
    assert_eq!(action.send_to_plugin(None), PluginRequest::Ignore);
}

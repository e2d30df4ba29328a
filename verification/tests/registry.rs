use pwsounddeck::{decide_key_down, KeyDownDecision, PlayerRegistry};

#[test]
fn a_reserved_slot_makes_the_instance_active_before_audio_starts() {
    let mut registry = PlayerRegistry::new();
    let id = "test-instance-reserve";
    assert!(!registry.instance_has_players(id));

    let slot = registry.reserve_player_slot(id);

    assert!(
        registry.instance_has_players(id),
        "a slot must count as active while the audio thread is still opening the sink"
    );
    assert!(registry.slot_is_live(slot));
    registry.stop_instance_players(id);
}

#[test]
fn a_second_press_while_the_loop_is_starting_up_stops_it_instead_of_stacking() {
    let mut registry = PlayerRegistry::new();
    let id = "test-instance-race";
    registry.reserve_player_slot(id);

    assert_eq!(
        decide_key_down("loop", registry.instance_has_players(id), true),
        KeyDownDecision::StopOnly
    );
    registry.stop_instance_players(id);
}

#[test]
fn stopping_an_instance_cancels_a_slot_that_has_not_started_yet() {
    let mut registry = PlayerRegistry::new();
    let id = "test-instance-cancel";
    let slot = registry.reserve_player_slot(id);

    registry.stop_instance_players(id);

    assert!(!registry.slot_is_live(slot));
    assert!(!registry.instance_has_players(id));
}

#[test]
fn stopping_one_instance_leaves_other_instances_playing() {
    let mut registry = PlayerRegistry::new();
    let a = "test-instance-a";
    let b = "test-instance-b";
    registry.reserve_player_slot(b);
    registry.reserve_player_slot(a);

    registry.stop_instance_players(a);

    assert!(!registry.instance_has_players(a));
    assert!(
        registry.instance_has_players(b),
        "stopping one button must not touch another button's audio"
    );
    registry.stop_instance_players(b);
}

#[test]
fn slot_ids_count_up_from_zero() {
    let mut registry = PlayerRegistry::new();
    assert_eq!(registry.reserve_player_slot("a"), 0);
    assert_eq!(registry.reserve_player_slot("b"), 1);
    assert_eq!(registry.reserve_player_slot("a"), 2);
}

#[test]
fn stopping_returns_only_slots_with_an_attached_player() {
    let mut registry = PlayerRegistry::new();
    let first = registry.reserve_player_slot("a");
    let second = registry.reserve_player_slot("a");
    let other = registry.reserve_player_slot("b");
    assert!(registry.attach_player(second));
    assert!(registry.attach_player(other));

    let stopped = registry.stop_instance_players("a");

    assert_eq!(stopped, vec![second]);
    assert!(!registry.slot_is_live(first));
    assert!(!registry.slot_is_live(second));
    assert!(registry.slot_is_live(other));
}

#[test]
fn a_player_for_a_stopped_slot_is_not_attached() {
    let mut registry = PlayerRegistry::new();
    let slot = registry.reserve_player_slot("a");
    registry.stop_instance_players("a");
    assert!(!registry.attach_player(slot));
    assert!(!registry.slot_is_live(slot));
}

#[test]
fn attaching_keeps_the_slot_with_its_instance() {
    let mut registry = PlayerRegistry::new();
    let slot = registry.reserve_player_slot("a");
    assert!(registry.attach_player(slot));
    assert!(registry.slot_is_live(slot));
    assert!(registry.instance_has_players("a"));
    assert!(!registry.instance_has_players("b"));
}

#[test]
fn slots_of_lists_each_slot_of_the_instance() {
    let mut registry = PlayerRegistry::new();
    let x = registry.reserve_player_slot("a");
    registry.reserve_player_slot("b");
    let y = registry.reserve_player_slot("a");
    let mut mine = registry.slots_of("a");
    mine.sort();
    assert_eq!(mine, vec![x, y]);
    assert!(registry.slots_of("c").is_empty());
}

#[test]
fn finishing_a_slot_removes_it_once() {
    let mut registry = PlayerRegistry::new();
    let slot = registry.reserve_player_slot("a");
    assert!(registry.finish_slot(slot));
    assert!(!registry.finish_slot(slot));
    assert!(!registry.instance_has_players("a"));
}

#[test]
fn playback_is_awaited_while_the_slot_lives_and_sound_is_queued() {
    let mut registry = PlayerRegistry::new();
    let slot = registry.reserve_player_slot("a");
    // Not attached yet: nothing to wait on, but the slot lives.
    assert!(registry.keep_playing(slot, true));
    assert!(registry.attach_player(slot));
    assert!(registry.keep_playing(slot, false));
    assert!(!registry.keep_playing(slot, true));
    registry.stop_instance_players("a");
    assert!(!registry.keep_playing(slot, false));
}

#[test]
fn stacking_keeps_the_newest_sounds_under_the_cap() {
    let mut registry = PlayerRegistry::new();
    for _ in 0..10 {
        registry.reserve_player_slot("s");
    }
    registry.reserve_player_slot("other");
    let stopped = registry.drop_oldest_stacked("s");
    assert!(stopped.is_empty());
    let mut mine = registry.slots_of("s");
    mine.sort();
    assert_eq!(mine, vec![1, 2, 3, 4, 5, 6, 7, 8, 9]);
    assert!(registry.slot_is_live(10));
}

#[test]
fn stacking_below_the_cap_drops_nothing() {
    let mut registry = PlayerRegistry::new();
    for _ in 0..9 {
        registry.reserve_player_slot("s");
    }
    registry.attach_player(0);
    let stopped = registry.drop_oldest_stacked("s");
    assert!(stopped.is_empty());
    assert_eq!(registry.slots_of("s").len(), 9);
}

#[test]
fn stacking_over_the_cap_drops_all_the_overage() {
    let mut registry = PlayerRegistry::new();
    for _ in 0..12 {
        registry.reserve_player_slot("s");
    }
    for slot in 0..12 {
        assert!(registry.attach_player(slot));
    }
    let mut stopped = registry.drop_oldest_stacked("s");
    stopped.sort();
    assert_eq!(stopped, vec![0, 1, 2]);
    let mut mine = registry.slots_of("s");
    mine.sort();
    assert_eq!(mine, vec![3, 4, 5, 6, 7, 8, 9, 10, 11]);
}

#[test]
fn stopping_everything_empties_the_registry() {
    let mut registry = PlayerRegistry::new();
    let a = registry.reserve_player_slot("a");
    let b = registry.reserve_player_slot("b");
    registry.attach_player(b);
    let stopped = registry.stop_all_players();
    assert_eq!(stopped, vec![b]);
    assert!(!registry.slot_is_live(a));
    assert!(!registry.instance_has_players("a"));
    assert!(!registry.instance_has_players("b"));
    assert_eq!(registry.reserve_player_slot("a"), 2);
}

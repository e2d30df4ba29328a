use pwsounddeck::{decide_key_down, decide_key_up, KeyDownDecision};

#[test]
fn loop_mode_starts_a_looping_playback_when_nothing_is_playing() {
    assert_eq!(
        decide_key_down("loop", false, true),
        KeyDownDecision::Play { stop_existing: false, looping: true }
    );
}

#[test]
fn loop_mode_stops_playback_on_second_press() {
    assert_eq!(decide_key_down("loop", true, true), KeyDownDecision::StopOnly);
}

#[test]
fn loop_mode_does_not_stop_on_key_up() {
    assert!(!decide_key_up("loop"));
}

#[test]
fn restart_mode_replaces_the_current_playback() {
    assert_eq!(
        decide_key_down("restart", true, true),
        KeyDownDecision::Play { stop_existing: true, looping: false }
    );
}

#[test]
fn stack_mode_adds_a_playback_without_stopping_the_others() {
    assert_eq!(
        decide_key_down("stack", true, true),
        KeyDownDecision::Play { stop_existing: false, looping: false }
    );
}

#[test]
fn hold_mode_replaces_on_press_and_stops_on_release() {
    assert_eq!(
        decide_key_down("hold", true, true),
        KeyDownDecision::Play { stop_existing: true, looping: false }
    );
    assert!(decide_key_up("hold"));
}

#[test]
fn a_running_loop_can_be_stopped_even_after_the_path_was_cleared() {
    assert_eq!(
        decide_key_down("loop", true, false),
        KeyDownDecision::StopOnly
    );
}

#[test]
fn without_a_path_and_without_playback_nothing_happens() {
    assert_eq!(
        decide_key_down("loop", false, false),
        KeyDownDecision::DoNothing
    );
    assert_eq!(
        decide_key_down("restart", false, false),
        KeyDownDecision::DoNothing
    );
}

#[test]
fn unknown_mode_falls_back_to_restart_behaviour() {
    assert_eq!(
        decide_key_down("something-else", true, true),
        KeyDownDecision::Play { stop_existing: true, looping: false }
    );
    assert!(!decide_key_up("something-else"));
}

#[test]
fn stack_without_a_path_does_nothing_even_when_playing() {
    assert_eq!(decide_key_down("stack", true, false), KeyDownDecision::DoNothing);
    assert_eq!(decide_key_down("hold", true, false), KeyDownDecision::DoNothing);
}

#[test]
fn restart_with_nothing_playing_starts_a_playback() {
    assert_eq!(
        decide_key_down("restart", false, true),
        KeyDownDecision::Play { stop_existing: true, looping: false }
    );
    assert_eq!(
        decide_key_down("", false, true),
        KeyDownDecision::Play { stop_existing: true, looping: false }
    );
}

#[test]
fn only_hold_stops_on_key_up() {
    assert!(!decide_key_up("restart"));
    assert!(!decide_key_up("stack"));
    assert!(!decide_key_up(""));
    assert!(!decide_key_up("Hold"));
}

#[test]
fn mode_names_are_matched_exactly() {
    assert_eq!(
        decide_key_down("loops", true, true),
        KeyDownDecision::Play { stop_existing: true, looping: false }
    );
    assert_eq!(
        decide_key_down("Loop", true, true),
        KeyDownDecision::Play { stop_existing: true, looping: false }
    );
}

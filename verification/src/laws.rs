use vstd::prelude::*;

use crate::actions::key_down_post;
use crate::decision::{key_down_decision, key_up_stops, KeyDownDecision};
use crate::sinks::sink_entry;
use crate::registry::{
    attached_among, counter_advanced, counter_moves_on, drops_oldest, has_players, owned_by, registry_inv,
    stack_overage, RegistryView, MAX_STACKED,
};

verus! {

/// The mode names differ from one another.
proof fn lemma_mode_names_differ()
    ensures
        "loop"@ != "stack"@,
        "loop"@ != "hold"@,
        "loop"@ != "restart"@,
        "stack"@ != "hold"@,
        "stack"@ != "restart"@,
        "hold"@ != "restart"@,
{
    reveal_strlit("loop");
    reveal_strlit("stack");
    reveal_strlit("hold");
    reveal_strlit("restart");
    assert("loop"@[0] != "stack"@[0]);
    assert("loop"@[0] != "hold"@[0]);
    assert("loop"@[0] != "restart"@[0]);
    assert("stack"@[0] != "hold"@[0]);
    assert("stack"@[0] != "restart"@[0]);
    assert("hold"@[0] != "restart"@[0]);
}

/// The slots an instance holds after some of the registry's slots are
/// removed and one slot is put in for it.
proof fn lemma_owned_after(slots: Map<u64, (Seq<char>, bool)>, gone: Set<u64>, instance_id: Seq<char>, slot: u64)
    ensures
        owned_by(slots.remove_keys(gone).insert(slot, (instance_id, false)), instance_id)
            =~= owned_by(slots, instance_id).difference(gone).insert(slot),
{
}

/// Pressing a "loop" key twice toggles: the first press on an idle key with a
/// file starts a looping playback and reserves its slot at once; the second
/// press, with or without a file, stops it, so the key has nothing left, even
/// when the audio has not started yet.
pub proof fn loop_key_toggles(
    r0: RegistryView,
    r1: RegistryView,
    r2: RegistryView,
    instance_id: Seq<char>,
    has_path_second: bool,
    first: KeyDownDecision,
    stopped_first: Set<u64>,
    slot_first: Option<u64>,
    second: KeyDownDecision,
    stopped_second: Set<u64>,
    slot_second: Option<u64>,
)
    requires
        !has_players(r0.slots, instance_id),
        key_down_post(r0, r1, instance_id, "loop"@, true, first, stopped_first, slot_first),
        key_down_post(r1, r2, instance_id, "loop"@, has_path_second, second, stopped_second, slot_second),
    ensures
        first == (KeyDownDecision::Play { stop_existing: false, looping: true }),
        slot_first == Some(r0.next_slot),
        has_players(r1.slots, instance_id),
        r1.slots.contains_key(r0.next_slot),
        second == KeyDownDecision::StopOnly,
        slot_second is None,
        !has_players(r2.slots, instance_id),
        !r2.slots.contains_key(r0.next_slot),
{
    lemma_mode_names_differ();
    assert(r1.slots.contains_key(r0.next_slot) && r1.slots[r0.next_slot].0 == instance_id);
    assert(owned_by(r1.slots, instance_id).contains(r0.next_slot));
}

/// A press in "restart" mode, and in "hold" or any mode other than "loop" and
/// "stack", replaces the key's playback: afterwards the key holds exactly the
/// one new slot. Until the id counter wraps, the new id is fresh and no other
/// key's slots change.
pub proof fn replacing_press_leaves_one_playback(
    before: RegistryView,
    after: RegistryView,
    instance_id: Seq<char>,
    mode: Seq<char>,
    decision: KeyDownDecision,
    stopped: Set<u64>,
    slot: Option<u64>,
)
    requires
        mode != "loop"@,
        mode != "stack"@,
        registry_inv(before),
        key_down_post(before, after, instance_id, mode, true, decision, stopped, slot),
    ensures
        decision == (KeyDownDecision::Play { stop_existing: true, looping: false }),
        slot == Some(before.next_slot),
        owned_by(after.slots, instance_id) == set![before.next_slot],
        stopped == attached_among(before.slots, owned_by(before.slots, instance_id)),
        !before.wrapped ==> !before.slots.contains_key(before.next_slot),
        !before.wrapped ==> forall|s: u64| before.slots.contains_key(s) && before.slots[s].0 != instance_id
            ==> after.slots.contains_key(s) && after.slots[s] == before.slots[s],
{
    let mine = owned_by(before.slots, instance_id);
    lemma_owned_after(before.slots, mine, instance_id, before.next_slot);
    assert(owned_by(after.slots, instance_id) =~= set![before.next_slot]);
}

/// A press in "stack" mode layers a new sound over the ones already playing
/// but leaves at most `MAX_STACKED` per key: below the cap no running sound
/// of the key is dropped; at the cap exactly the oldest are dropped to make
/// room, and every kept one is newer than every dropped one. Until the id
/// counter wraps, the new id is fresh, so below the cap the key gains exactly
/// one sound, at the cap it holds exactly `MAX_STACKED`, and no other key's
/// slots change.
pub proof fn stacking_press_is_capped(
    before: RegistryView,
    after: RegistryView,
    instance_id: Seq<char>,
    decision: KeyDownDecision,
    stopped: Set<u64>,
    slot: Option<u64>,
)
    requires
        registry_inv(before),
        key_down_post(before, after, instance_id, "stack"@, true, decision, stopped, slot),
    ensures
        decision == (KeyDownDecision::Play { stop_existing: false, looping: false }),
        slot == Some(before.next_slot),
        owned_by(after.slots, instance_id).contains(before.next_slot),
        owned_by(after.slots, instance_id).len() <= MAX_STACKED,
        owned_by(before.slots, instance_id).len() < MAX_STACKED ==>
            owned_by(before.slots, instance_id).subset_of(owned_by(after.slots, instance_id)),
        forall|gone: u64, kept: u64|
            #![trigger owned_by(before.slots, instance_id).contains(gone), owned_by(after.slots, instance_id).contains(kept)]
            owned_by(before.slots, instance_id).contains(gone) && !owned_by(after.slots, instance_id).contains(gone)
                && owned_by(after.slots, instance_id).contains(kept) && kept != before.next_slot ==> gone < kept,
        exists|dropped: Set<u64>|
            #![trigger drops_oldest(before.slots, instance_id, dropped)]
            drops_oldest(before.slots, instance_id, dropped) && stopped == attached_among(before.slots, dropped),
        !before.wrapped && owned_by(before.slots, instance_id).len() < MAX_STACKED ==>
            owned_by(after.slots, instance_id) == owned_by(before.slots, instance_id).insert(before.next_slot),
        !before.wrapped && owned_by(before.slots, instance_id).len() >= MAX_STACKED ==>
            owned_by(after.slots, instance_id).len() == MAX_STACKED,
        !before.wrapped ==> forall|s: u64| before.slots.contains_key(s) && before.slots[s].0 != instance_id
            ==> after.slots.contains_key(s) && after.slots[s] == before.slots[s],
{
    lemma_mode_names_differ();
    let mine = owned_by(before.slots, instance_id);
    assert(decision == KeyDownDecision::Play { stop_existing: false, looping: false });
    assert(exists|dropped: Set<u64>|
        #![trigger drops_oldest(before.slots, instance_id, dropped)]
        drops_oldest(before.slots, instance_id, dropped)
        && after.slots == before.slots.remove_keys(dropped).insert(before.next_slot, (instance_id, false))
        && stopped == attached_among(before.slots, dropped));
    let dropped = choose|dropped: Set<u64>|
        #![trigger drops_oldest(before.slots, instance_id, dropped)]
        drops_oldest(before.slots, instance_id, dropped)
        && after.slots == before.slots.remove_keys(dropped).insert(before.next_slot, (instance_id, false))
        && stopped == attached_among(before.slots, dropped);
    lemma_owned_after(before.slots, dropped, instance_id, before.next_slot);
    assert(mine.subset_of(before.slots.dom()));
    assert(mine.finite());
    vstd::set_lib::lemma_set_difference_len(mine, dropped);
    assert(mine.intersect(dropped) =~= dropped);
    let kept = mine.difference(dropped);
    assert(kept.len() == mine.len() - stack_overage(mine.len()));
    assert(owned_by(after.slots, instance_id) == kept.insert(before.next_slot));
    assert(kept.insert(before.next_slot).len() <= kept.len() + 1);
    if mine.len() < MAX_STACKED {
        assert(dropped =~= Set::empty()) by {
            vstd::set_lib::lemma_set_empty_equivalency_len(dropped);
        }
        assert(kept =~= mine);
    }
    if !before.wrapped {
        assert(!kept.contains(before.next_slot));
    }
    assert forall|gone: u64, k: u64|
        mine.contains(gone) && !owned_by(after.slots, instance_id).contains(gone)
            && owned_by(after.slots, instance_id).contains(k) && k != before.next_slot implies gone < k by {
        assert(dropped.contains(gone));
        assert(kept.contains(k));
    }
}

/// A press of one key, in any mode, stops only that key's playbacks and adds
/// none to another key; until the id counter wraps it leaves every other
/// key's playbacks as they were.
pub proof fn a_press_only_touches_its_own_key(
    before: RegistryView,
    after: RegistryView,
    instance_id: Seq<char>,
    mode: Seq<char>,
    has_audio_path: bool,
    decision: KeyDownDecision,
    stopped: Set<u64>,
    slot: Option<u64>,
)
    requires
        registry_inv(before),
        key_down_post(before, after, instance_id, mode, has_audio_path, decision, stopped, slot),
    ensures
        !before.wrapped ==> forall|s: u64| before.slots.contains_key(s) && before.slots[s].0 != instance_id
            ==> after.slots.contains_key(s) && after.slots[s] == before.slots[s],
        forall|s: u64| after.slots.contains_key(s) && after.slots[s].0 != instance_id ==> before.slots.contains_key(s),
        stopped.subset_of(owned_by(before.slots, instance_id)),
{
    let mine = owned_by(before.slots, instance_id);
    if decision is Play && !decision->stop_existing && mode == "stack"@ {
        let dropped = choose|dropped: Set<u64>|
            #![trigger drops_oldest(before.slots, instance_id, dropped)]
            drops_oldest(before.slots, instance_id, dropped)
            && after.slots == before.slots.remove_keys(dropped).insert(before.next_slot, (instance_id, false))
            && stopped == attached_among(before.slots, dropped);
        assert(dropped.subset_of(mine));
    }
}

/// Releasing a "hold" key stops everything the key plays; releasing a key in
/// any other mode changes nothing.
pub proof fn only_hold_stops_on_release(mode: Seq<char>)
    ensures
        key_up_stops(mode) <==> mode == "hold"@,
        key_up_stops("hold"@),
        !key_up_stops("loop"@),
        !key_up_stops("restart"@),
        !key_up_stops("stack"@),
{
    lemma_mode_names_differ();
}

/// A key in "hold" mode plays like a walkie-talkie: a press with a file
/// starts a playback, and stopping the key on its release leaves it nothing.
pub proof fn hold_key_plays_while_held(
    r0: RegistryView,
    r1: RegistryView,
    instance_id: Seq<char>,
    decision: KeyDownDecision,
    stopped: Set<u64>,
    slot: Option<u64>,
)
    requires
        key_down_post(r0, r1, instance_id, "hold"@, true, decision, stopped, slot),
    ensures
        slot == Some(r0.next_slot),
        has_players(r1.slots, instance_id),
        key_up_stops("hold"@),
        !has_players(r1.slots.remove_keys(owned_by(r1.slots, instance_id)), instance_id),
{
    lemma_mode_names_differ();
    assert(r1.slots.contains_key(r0.next_slot) && r1.slots[r0.next_slot].0 == instance_id);
}

/// Without a file and without a running loop a press does nothing at all;
/// a press on a running loop stops it even after its file was cleared.
pub proof fn press_without_path(mode: Seq<char>, has_active_players: bool)
    ensures
        !(mode == "loop"@ && has_active_players) ==> key_down_decision(mode, has_active_players, false) == KeyDownDecision::DoNothing,
        key_down_decision("loop"@, true, false) == KeyDownDecision::StopOnly,
{
}

/// What a press decides, by mode: a press on a running loop stops it, with or
/// without a file; otherwise a press without a file does nothing; with a
/// file, "loop" starts a looping playback next to nothing, "stack" adds one
/// without stopping the others, and every other mode replaces what the key
/// plays. No press both stops and starts a loop.
pub proof fn press_decision_by_mode(mode: Seq<char>, has_active_players: bool, has_audio_path: bool)
    ensures
        mode == "loop"@ && has_active_players ==>
            key_down_decision(mode, has_active_players, has_audio_path) == KeyDownDecision::StopOnly,
        !(mode == "loop"@ && has_active_players) && !has_audio_path ==>
            key_down_decision(mode, has_active_players, has_audio_path) == KeyDownDecision::DoNothing,
        mode == "loop"@ && !has_active_players && has_audio_path ==>
            key_down_decision(mode, has_active_players, has_audio_path) == (KeyDownDecision::Play { stop_existing: false, looping: true }),
        mode == "stack"@ && has_audio_path ==>
            key_down_decision(mode, has_active_players, has_audio_path) == (KeyDownDecision::Play { stop_existing: false, looping: false }),
        mode != "loop"@ && mode != "stack"@ && has_audio_path ==>
            key_down_decision(mode, has_active_players, has_audio_path) == (KeyDownDecision::Play { stop_existing: true, looping: false }),
        key_down_decision(mode, has_active_players, has_audio_path) matches KeyDownDecision::Play { looping: true, .. }
            ==> mode == "loop"@ && !has_active_players,
{
    lemma_mode_names_differ();
}

/// A press that does nothing leaves the registry exactly as it was and
/// stops no player, whatever the key is playing: in particular a press on a
/// key whose file was cleared, in any mode but a running "loop", lets its
/// running sounds play on and reserves no slot.
pub proof fn idle_press_changes_nothing(
    before: RegistryView,
    after: RegistryView,
    instance_id: Seq<char>,
    mode: Seq<char>,
    has_audio_path: bool,
    decision: KeyDownDecision,
    stopped: Set<u64>,
    slot: Option<u64>,
)
    requires
        key_down_post(before, after, instance_id, mode, has_audio_path, decision, stopped, slot),
    ensures
        decision == KeyDownDecision::DoNothing ==> after == before && stopped.is_empty() && slot is None,
        !has_audio_path && !(mode == "loop"@ && has_players(before.slots, instance_id)) ==> {
            &&& decision == KeyDownDecision::DoNothing
            &&& after.slots == before.slots
            &&& after.next_slot == before.next_slot
            &&& after.wrapped == before.wrapped
            &&& forall|s: u64| !stopped.contains(s)
            &&& slot is None
        },
        slot is None ==> after.next_slot == before.next_slot,
{
}

/// The players a press stops are exactly those attached to the slots it
/// removes: until the id counter wraps, a slot's player is stopped if and
/// only if the slot had a player attached before the press and is gone after
/// it, and a press whose decision is to play stops nothing of another key.
pub proof fn a_press_stops_exactly_the_removed_players(
    before: RegistryView,
    after: RegistryView,
    instance_id: Seq<char>,
    mode: Seq<char>,
    has_audio_path: bool,
    decision: KeyDownDecision,
    stopped: Set<u64>,
    slot: Option<u64>,
)
    requires
        registry_inv(before),
        !before.wrapped,
        key_down_post(before, after, instance_id, mode, has_audio_path, decision, stopped, slot),
    ensures
        forall|s: u64| stopped.contains(s) <==>
            (before.slots.contains_key(s) && before.slots[s].1 && !after.slots.contains_key(s)),
        forall|s: u64| before.slots.contains_key(s) && !after.slots.contains_key(s) ==> before.slots[s].0 == instance_id,
{
    if decision is Play && !decision->stop_existing && mode == "stack"@ {
        let dropped = choose|dropped: Set<u64>|
            #![trigger drops_oldest(before.slots, instance_id, dropped)]
            drops_oldest(before.slots, instance_id, dropped)
            && after.slots == before.slots.remove_keys(dropped).insert(before.next_slot, (instance_id, false))
            && stopped == attached_among(before.slots, dropped);
        assert(dropped.subset_of(owned_by(before.slots, instance_id)));
    }
}

/// What the registry's words mean, slot by slot: a key owns the live slots
/// recorded under its id; it is busy exactly when it owns one; and the
/// players stopped with a set of slots are those of its slots that are live
/// with a player attached.
pub proof fn registry_vocabulary(slots: Map<u64, (Seq<char>, bool)>, instance_id: Seq<char>, chosen: Set<u64>)
    ensures
        forall|s: u64| owned_by(slots, instance_id).contains(s) <==> (slots.contains_key(s) && slots[s].0 == instance_id),
        has_players(slots, instance_id) <==> exists|s: u64| owned_by(slots, instance_id).contains(s),
        forall|s: u64| attached_among(slots, chosen).contains(s) <==> (chosen.contains(s) && slots.contains_key(s) && slots[s].1),
        attached_among(slots, chosen).subset_of(chosen),
{
    if has_players(slots, instance_id) {
        let s = choose|s: u64| slots.contains_key(s) && slots[s].0 == instance_id;
        assert(owned_by(slots, instance_id).contains(s));
    }
}

/// Stopping one key removes exactly its slots: every other key keeps its
/// playbacks, and no slot of the stopped key stays live, so a player that is
/// still starting up for it will find its slot gone.
pub proof fn stopping_a_key_spares_the_others(slots: Map<u64, (Seq<char>, bool)>, instance_id: Seq<char>)
    ensures
        !has_players(slots.remove_keys(owned_by(slots, instance_id)), instance_id),
        forall|s: u64| owned_by(slots, instance_id).contains(s) ==> !slots.remove_keys(owned_by(slots, instance_id)).contains_key(s),
        forall|s: u64| slots.contains_key(s) && slots[s].0 != instance_id
            ==> slots.remove_keys(owned_by(slots, instance_id)).contains_key(s)
                && slots.remove_keys(owned_by(slots, instance_id))[s] == slots[s],
        forall|other: Seq<char>| other != instance_id ==>
            owned_by(slots.remove_keys(owned_by(slots, instance_id)), other) == owned_by(slots, other),
{
    assert forall|other: Seq<char>| other != instance_id implies
        owned_by(slots.remove_keys(owned_by(slots, instance_id)), other) == owned_by(slots, other) by {
        assert(owned_by(slots.remove_keys(owned_by(slots, instance_id)), other) =~= owned_by(slots, other));
    }
}

/// A reserved slot makes its key busy and is live until it is stopped; until
/// the id counter wraps it never takes over a slot that is still live, and
/// the registry keeps its invariant.
pub proof fn reserved_slot_is_fresh_and_busy(before: RegistryView, after: RegistryView, instance_id: Seq<char>)
    requires
        registry_inv(before),
        after.slots == before.slots.insert(before.next_slot, (instance_id, false)),
        counter_advanced(before, after),
    ensures
        has_players(after.slots, instance_id),
        after.slots.contains_key(before.next_slot),
        !before.wrapped ==> !before.slots.contains_key(before.next_slot),
        registry_inv(after),
{
    assert(after.slots.contains_key(before.next_slot) && after.slots[before.next_slot].0 == instance_id);
}

/// Slot ids grow with the time of reservation: of two reservations, the
/// later one gets the larger id, whatever happened in between, as long as the
/// id counter has not wrapped by the second one.
pub proof fn later_reservations_get_larger_ids(
    r0: RegistryView,
    r1: RegistryView,
    r2: RegistryView,
    r3: RegistryView,
)
    requires
        counter_advanced(r0, r1),
        counter_moves_on(r1, r2),
        counter_advanced(r2, r3),
        !r3.wrapped,
    ensures
        r0.next_slot < r2.next_slot,
{
}

/// Every change of the registry moves its id counter on: a reservation
/// advances it, every other operation leaves it.
pub proof fn the_counter_moves_on(r0: RegistryView, r1: RegistryView, r2: RegistryView)
    ensures
        counter_advanced(r0, r1) ==> counter_moves_on(r0, r1),
        r1.next_slot == r0.next_slot && r1.wrapped == r0.wrapped ==> counter_moves_on(r0, r1),
        counter_moves_on(r0, r1) && counter_moves_on(r1, r2) ==> counter_moves_on(r0, r2),
{
}

/// Stop Audio silences every key at once.
pub proof fn stop_audio_silences_every_key(after: RegistryView)
    requires
        after.slots.dom().is_empty(),
    ensures
        forall|instance_id: Seq<char>| !has_players(after.slots, instance_id),
{
}

/// Whether a label is a string worth showing: not empty and not the
/// literal "(null)" that pactl prints for a missing one.
pub open spec fn shows(label: Option<Seq<char>>) -> bool {
    label matches Some(l) && l.len() > 0 && l != "(null)"@
}

/// A listed sink appears in the device list exactly when it has a name, under
/// that name. It is shown with its description when that is a non-empty
/// string other than "(null)"; failing that with its device description
/// under the same test; failing both, with its name. So the shown
/// description is never empty and never "(null)" unless the name itself is.
pub proof fn sink_is_shown_by_its_best_label(raw: (Option<Seq<char>>, Option<Seq<char>>, Option<Seq<char>>))
    ensures
        sink_entry(raw) is Some <==> raw.0 is Some,
        sink_entry(raw) matches Some(entry) ==> raw.0 == Some(entry.0),
        sink_entry(raw) matches Some(entry) ==>
            entry.1 == entry.0 || (entry.1.len() > 0 && entry.1 != "(null)"@),
        sink_entry(raw) matches Some(entry) ==> (shows(raw.1) ==> Some(entry.1) == raw.1),
        sink_entry(raw) matches Some(entry) ==> (!shows(raw.1) && shows(raw.2) ==> Some(entry.1) == raw.2),
        sink_entry(raw) matches Some(entry) ==> (!shows(raw.1) && !shows(raw.2) ==> entry.1 == entry.0),
{
}

} // verus!

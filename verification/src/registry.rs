use vstd::prelude::*;

use dashmap::DashMap;

use crate::text::same_text;

verus! {

/// The concurrent map that holds the registry's slots.
#[verifier::external_type_specification]
#[verifier::external_body]
#[verifier::reject_recursive_types(K)]
#[verifier::reject_recursive_types(V)]
#[verifier::reject_recursive_types(S)]
pub struct ExDashMap<K, V, S>(DashMap<K, V, S>);

/// The entries of a slot table: slot id to the owning instance id and
/// whether a player has been attached to the slot.
///
/// `DashMap` changes through `&self`; here every change goes through a
/// wrapper that takes `&mut`, on a map that only the registry holds, so the
/// entries are a function of the map's value.
pub uninterp spec fn slot_table(table: DashMap<u64, (String, bool)>) -> Map<u64, (Seq<char>, bool)>;

/// `DashMap::new`: the new map holds no entry.
#[verifier::external_body]
fn table_new() -> (fresh: DashMap<u64, (String, bool)>)
    ensures
        slot_table(fresh).dom().is_empty(),
{
    DashMap::new()
}

/// `DashMap::insert`: afterwards `slot` maps to the given entry, whatever it
/// held before, and no other key changes. It does not unwind: hashing a `u64`
/// and taking the shard's lock cannot panic, and growing the shard's table
/// either succeeds or aborts on a failed allocation; its capacity-overflow
/// panic needs more entries than memory can hold.
#[verifier::external_body]
fn table_insert(table: &mut DashMap<u64, (String, bool)>, slot: u64, instance_id: String, started: bool)
    ensures
        slot_table(*final(table)) == slot_table(*old(table)).insert(slot, (instance_id@, started)),
    no_unwind
{
    table.insert(slot, (instance_id, started));
}

/// `DashMap::remove`: the key leaves the map; the result tells whether it
/// was there, and if so whether its entry had a player attached. It does not
/// unwind: hashing a `u64`, taking the shard's lock and removing from the
/// shard's table cannot panic, and nothing is allocated.
#[verifier::external_body]
fn table_remove(table: &mut DashMap<u64, (String, bool)>, slot: u64) -> (removed: Option<bool>)
    ensures
        slot_table(*final(table)) == slot_table(*old(table)).remove(slot),
        removed is Some == slot_table(*old(table)).contains_key(slot),
        removed is Some ==> removed->0 == slot_table(*old(table))[slot].1,
    no_unwind
{
    table.remove(&slot).map(|(_, (_, started))| started)
}

/// `DashMap::get`: a copy of the entry under `slot`, if there is one.
#[verifier::external_body]
fn table_get(table: &DashMap<u64, (String, bool)>, slot: u64) -> (entry: Option<(String, bool)>)
    ensures
        entry is Some == slot_table(*table).contains_key(slot),
        entry matches Some(e) ==> e.0@ == slot_table(*table)[slot].0 && e.1 == slot_table(*table)[slot].1,
{
    table.get(&slot).map(|e| e.value().clone())
}

/// `DashMap::contains_key`: whether `slot` is a key of the map.
#[verifier::external_body]
fn table_contains(table: &DashMap<u64, (String, bool)>, slot: u64) -> (live: bool)
    ensures
        live == slot_table(*table).contains_key(slot),
{
    table.contains_key(&slot)
}

/// `DashMap::iter`, keeping the keys: every key of the map once, in the
/// order the shards are walked, which nothing here relies on.
#[verifier::external_body]
fn table_slots(table: &DashMap<u64, (String, bool)>) -> (slots: Vec<u64>)
    ensures
        slots@.no_duplicates(),
        slots@.to_set() == slot_table(*table).dom(),
{
    table.iter().map(|e| *e.key()).collect()
}

/// The abstract state of a player registry.
pub struct RegistryView {
    /// Slot id to the owning button instance and whether a player is attached.
    pub slots: Map<u64, (Seq<char>, bool)>,
    /// The id the next reserved slot receives.
    pub next_slot: u64,
    /// Whether the id counter has ever wrapped past `u64::MAX`.
    pub wrapped: bool,
}

/// The slots that belong to one button instance.
pub open spec fn owned_by(slots: Map<u64, (Seq<char>, bool)>, instance_id: Seq<char>) -> Set<u64> {
    slots.dom().filter(|s: u64| slots[s].0 == instance_id)
}

/// Whether a button instance has any playback running or starting up.
pub open spec fn has_players(slots: Map<u64, (Seq<char>, bool)>, instance_id: Seq<char>) -> bool {
    exists|s: u64| slots.contains_key(s) && slots[s].0 == instance_id
}

/// Those of `chosen` that hold a slot with a player attached: the players
/// that are stopped when these slots are removed.
pub open spec fn attached_among(slots: Map<u64, (Seq<char>, bool)>, chosen: Set<u64>) -> Set<u64> {
    chosen.filter(|s: u64| slots.contains_key(s) && slots[s].1)
}

/// The id after `slot`, wrapping as an atomic counter does.
pub open spec fn following_slot(slot: u64) -> u64 {
    if slot == u64::MAX { 0 } else { (slot + 1) as u64 }
}

/// Whether every live slot id was handed out before the counter's current
/// value, so that the next reserved id is fresh.
pub open spec fn ids_below_next(r: RegistryView) -> bool {
    forall|s: u64| #[trigger] r.slots.contains_key(s) ==> s < r.next_slot
}

/// What holds of every registry: finitely many slots, and, until the id
/// counter wraps, every live id below the next one, so that reserved ids are
/// fresh and grow with the time of reservation.
pub open spec fn registry_inv(r: RegistryView) -> bool {
    &&& r.slots.dom().finite()
    &&& !r.wrapped ==> ids_below_next(r)
}

/// The id counter did not move.
pub open spec fn same_counter(before: RegistryView, after: RegistryView) -> bool {
    &&& after.next_slot == before.next_slot
    &&& after.wrapped == before.wrapped
}

/// The id counter advanced by one reservation.
pub open spec fn counter_advanced(before: RegistryView, after: RegistryView) -> bool {
    &&& after.next_slot == following_slot(before.next_slot)
    &&& after.wrapped == (before.wrapped || before.next_slot == u64::MAX)
}

/// The id counter only moves forwards: once wrapped it stays wrapped, and
/// until then it never decreases.
pub open spec fn counter_moves_on(before: RegistryView, after: RegistryView) -> bool {
    &&& before.wrapped ==> after.wrapped
    &&& !after.wrapped ==> before.next_slot <= after.next_slot
}

/// The most sounds one instance keeps stacked at a time.
pub const MAX_STACKED: usize = 10;

/// How many of `count` stacked slots are dropped to make room for one more
/// under the cap.
pub open spec fn stack_overage(count: nat) -> nat {
    if count >= MAX_STACKED { (count - (MAX_STACKED - 1)) as nat } else { 0 }
}

/// `dropped` is the oldest part of an instance's stack that must go to make
/// room for one more sound: the right number of its slots, each older
/// (smaller id) than every slot of the instance that stays.
pub open spec fn drops_oldest(slots: Map<u64, (Seq<char>, bool)>, instance_id: Seq<char>, dropped: Set<u64>) -> bool {
    let mine = owned_by(slots, instance_id);
    &&& dropped.finite()
    &&& dropped.subset_of(mine)
    &&& dropped.len() == stack_overage(mine.len())
    &&& forall|a: u64, b: u64|
        #![trigger dropped.contains(a), mine.contains(b)]
        dropped.contains(a) && mine.contains(b) && !dropped.contains(b) ==> a < b
}

/// Removing the element at `i` of a sequence without duplicates removes
/// exactly that element from its set.
proof fn lemma_remove_unique(s: Seq<u64>, i: int)
    requires
        s.no_duplicates(),
        0 <= i < s.len(),
    ensures
        s.remove(i).no_duplicates(),
        s.remove(i).to_set() == s.to_set().remove(s[i]),
{
    s.remove_ensures(i);
    let r = s.remove(i);
    assert forall|a: int, b: int| 0 <= a < r.len() && 0 <= b < r.len() && a != b implies r[a] != r[b] by {
        let sa = if a < i { a } else { a + 1 };
        let sb = if b < i { b } else { b + 1 };
        assert(r[a] == s[sa] && r[b] == s[sb]);
    }
    assert forall|t: u64| r.to_set().contains(t) <==> s.to_set().remove(s[i]).contains(t) by {
        if r.contains(t) {
            let a = choose|a: int| 0 <= a < r.len() && r[a] == t;
            let sa = if a < i { a } else { a + 1 };
            assert(s[sa] == t && sa != i);
        }
        if s.contains(t) && t != s[i] {
            let k = choose|k: int| 0 <= k < s.len() && s[k] == t;
            if k < i {
                assert(r[k] == t);
            } else {
                assert(k != i);
                assert(r[k - 1] == t);
            }
        }
    }
    assert(r.to_set() =~= s.to_set().remove(s[i]));
}

/// The position of the smallest id in a non-empty list.
fn index_of_least(ids: &Vec<u64>) -> (least: usize)
    requires
        ids.len() > 0,
    ensures
        least < ids.len(),
        forall|j: int| 0 <= j < ids.len() ==> ids[least as int] <= ids[j],
{
    let mut least: usize = 0;
    let mut i: usize = 1;
    while i < ids.len()
        invariant
            0 < i <= ids.len(),
            least < i,
            forall|j: int| 0 <= j < i ==> ids[least as int] <= ids[j],
        decreases ids.len() - i,
    {
        if ids[i] < ids[least] {
            least = i;
        }
        i = i + 1;
    }
    least
}

/// The registry of playbacks: one slot per press that is starting or playing.
///
/// A slot is reserved before the audio is opened, so that a second press that
/// lands while the sink is still opening already sees the instance as busy.
pub struct PlayerRegistry {
    table: DashMap<u64, (String, bool)>,
    next_slot: u64,
    wrapped: Ghost<bool>,
}

impl View for PlayerRegistry {
    type V = RegistryView;

    closed spec fn view(&self) -> RegistryView {
        RegistryView { slots: slot_table(self.table), next_slot: self.next_slot, wrapped: self.wrapped@ }
    }
}

impl PlayerRegistry {
    /// Every registry satisfies `registry_inv`.
    #[verifier::type_invariant]
    pub open spec fn well_formed(self) -> bool {
        registry_inv(self@)
    }

    /// An empty registry whose first slot id is 0.
    pub fn new() -> (registry: PlayerRegistry)
        ensures
            registry@.slots.dom().is_empty(),
            registry@.next_slot == 0,
            !registry@.wrapped,
            registry_inv(registry@),
    {
        PlayerRegistry { table: table_new(), next_slot: 0, wrapped: Ghost(false) }
    }

    /// Reserves a registry slot for a press that is about to start playing.
    ///
    /// The slot is inserted before the audio thread is spawned, so a second press
    /// arriving while the sink is still opening already sees the instance as busy.
    pub fn reserve_player_slot(&mut self, instance_id: &str) -> (slot: u64)
        ensures
            slot == old(self)@.next_slot,
            counter_advanced(old(self)@, final(self)@),
            final(self)@.slots == old(self)@.slots.insert(slot, (instance_id@, false)),
            !old(self)@.wrapped ==> !old(self)@.slots.contains_key(slot),
            !old(self)@.wrapped ==> forall|s: u64| #[trigger] old(self)@.slots.contains_key(s) ==> s < slot,
            registry_inv(old(self)@),
            registry_inv(final(self)@),
    {
        proof {
            use_type_invariant(&*self);
        }
        let slot = self.next_slot;
        if slot == u64::MAX {
            self.wrapped = Ghost(true);
            self.next_slot = 0;
        } else {
            self.next_slot = slot + 1;
        }
        table_insert(&mut self.table, slot, instance_id.to_owned(), false);
        proof {
            use_type_invariant(&*self);
        }
        slot
    }

    /// The slots of one button instance, each once.
    pub fn slots_of(&self, instance_id: &str) -> (owned: Vec<u64>)
        ensures
            owned@.no_duplicates(),
            owned@.to_set() == owned_by(self@.slots, instance_id@),
    {
        let all = table_slots(&self.table);
        let ghost slots = self@.slots;
        let ghost mine = |s: u64| slots[s].0 == instance_id@;
        let mut owned: Vec<u64> = Vec::new();
        let mut i: usize = 0;
        while i < all.len()
            invariant
                slots == self@.slots,
                mine == (|s: u64| slots[s].0 == instance_id@),
                all@.no_duplicates(),
                all@.to_set() == slots.dom(),
                i <= all.len(),
                owned@.no_duplicates(),
                owned@.to_set() == all@.take(i as int).to_set().filter(mine),
            decreases all.len() - i,
        {
            let s = all[i];
            assert(all@.take(i as int + 1) == all@.take(i as int).push(s));
            proof {
                all@.take(i as int).lemma_push_to_set_commute(s);
            }
            assert(all@.to_set().contains(s));
            let entry = table_get(&self.table, s);
            match entry {
                Some(e) => {
                    if same_text(e.0.as_str(), instance_id) {
                        assert(!owned@.contains(s)) by {
                            if owned@.contains(s) {
                                assert(owned@.to_set().contains(s));
                                assert(all@.take(i as int).contains(s));
                                let j = choose|j: int| 0 <= j < i && all@.take(i as int)[j] == s;
                                assert(all@[j] == all@[i as int]);
                            }
                        }
                        proof {
                            owned@.lemma_push_to_set_commute(s);
                        }
                        owned.push(s);
                        assert(owned@.to_set() =~= all@.take(i as int + 1).to_set().filter(mine));
                    } else {
                        assert(owned@.to_set() =~= all@.take(i as int + 1).to_set().filter(mine));
                    }
                },
                None => {
                    assert(false);
                },
            }
            i = i + 1;
        }
        assert(all@.take(all@.len() as int) == all@);
        assert(owned@.to_set() =~= owned_by(slots, instance_id@));
        owned
    }

    /// Whether this button instance has any playback running *or starting up*.
    pub fn instance_has_players(&self, instance_id: &str) -> (busy: bool)
        ensures
            busy == has_players(self@.slots, instance_id@),
            registry_inv(self@),
    {
        proof {
            use_type_invariant(&*self);
        }

        let owned = self.slots_of(instance_id);
        proof {
            if has_players(self@.slots, instance_id@) {
                let s = choose|s: u64| self@.slots.contains_key(s) && self@.slots[s].0 == instance_id@;
                assert(owned_by(self@.slots, instance_id@).contains(s));
                assert(owned@.to_set().contains(s));
            }
            if owned.len() > 0 {
                assert(owned@.to_set().contains(owned@[0]));
            }
        }
        owned.len() > 0
    }

    /// Whether a reserved slot is still live, i.e. it has not been stopped.
    pub fn slot_is_live(&self, slot: u64) -> (live: bool)
        ensures
            live == self@.slots.contains_key(slot),
    {
        table_contains(&self.table, slot)
    }

    /// Marks a freshly built player as attached to its reserved slot.
    ///
    /// Returns `false` if the slot was stopped while the audio was starting up,
    /// in which case nothing changes and the caller stops the player rather
    /// than leave it running unreferenced.
    pub fn attach_player(&mut self, slot: u64) -> (attached: bool)
        ensures
            attached == old(self)@.slots.contains_key(slot),
            same_counter(old(self)@, final(self)@),
            registry_inv(final(self)@),
            attached ==> final(self)@.slots == old(self)@.slots.insert(slot, (old(self)@.slots[slot].0, true)),
            !attached ==> final(self)@.slots == old(self)@.slots,
    {
        proof {
            use_type_invariant(&*self);
        }
        match table_get(&self.table, slot) {
            Some(entry) => {
                table_insert(&mut self.table, slot, entry.0, true);
                proof {
                    use_type_invariant(&*self);
                }
                true
            },
            None => false,
        }
    }

    /// Removes the given slots; returns those of them that had a player
    /// attached, whose players the caller stops.
    fn remove_slots(&mut self, chosen: &Vec<u64>) -> (stopped: Vec<u64>)
        requires
            chosen@.no_duplicates(),
        ensures
            final(self)@.slots == old(self)@.slots.remove_keys(chosen@.to_set()),
            same_counter(old(self)@, final(self)@),
            registry_inv(final(self)@),
            stopped@.no_duplicates(),
            stopped@.to_set() == attached_among(old(self)@.slots, chosen@.to_set()),
    {
        proof {
            use_type_invariant(&*self);
        }
        let ghost before = self@.slots;
        let mut stopped: Vec<u64> = Vec::new();
        let mut i: usize = 0;
        while i < chosen.len()
            invariant
                chosen@.no_duplicates(),
                i <= chosen.len(),
                same_counter(old(self)@, self@),
                registry_inv(self@),
                before == old(self)@.slots,
                self@.slots == before.remove_keys(chosen@.take(i as int).to_set()),
                stopped@.no_duplicates(),
                stopped@.to_set() == attached_among(before, chosen@.take(i as int).to_set()),
            decreases chosen.len() - i,
        {
            let s = chosen[i];
            assert(chosen@.take(i as int + 1) == chosen@.take(i as int).push(s));
            proof {
                chosen@.take(i as int).lemma_push_to_set_commute(s);
            }
            assert(!chosen@.take(i as int).to_set().contains(s)) by {
                if chosen@.take(i as int).contains(s) {
                    let j = choose|j: int| 0 <= j < i && chosen@.take(i as int)[j] == s;
                    assert(chosen@[j] == chosen@[i as int]);
                }
            }
            let removed = table_remove(&mut self.table, s);
            if removed == Some(true) {
                assert(!stopped@.contains(s)) by {
                    if stopped@.contains(s) {
                        assert(stopped@.to_set().contains(s));
                    }
                }
                proof {
                    stopped@.lemma_push_to_set_commute(s);
                }
                stopped.push(s);
            }
            assert(self@.slots =~= before.remove_keys(chosen@.take(i as int + 1).to_set()));
            assert(stopped@.to_set() =~= attached_among(before, chosen@.take(i as int + 1).to_set()));
            i = i + 1;
        }
        assert(chosen@.take(chosen@.len() as int) == chosen@);
        proof {
            use_type_invariant(&*self);
        }
        stopped
    }

    /// Stops and removes every slot belonging to one button instance.
    ///
    /// Removing a slot that has not started yet is enough: the audio thread
    /// checks whether its slot still exists and gives up if it does not.
    /// Returns the slots whose players the caller stops.
    pub fn stop_instance_players(&mut self, instance_id: &str) -> (stopped: Vec<u64>)
        ensures
            final(self)@.slots == old(self)@.slots.remove_keys(owned_by(old(self)@.slots, instance_id@)),
            same_counter(old(self)@, final(self)@),
            registry_inv(final(self)@),
            stopped@.no_duplicates(),
            stopped@.to_set() == attached_among(old(self)@.slots, owned_by(old(self)@.slots, instance_id@)),
    {
        let owned = self.slots_of(instance_id);
        self.remove_slots(&owned)
    }

    /// Stops and removes every slot of every instance.
    /// Returns the slots whose players the caller stops.
    pub fn stop_all_players(&mut self) -> (stopped: Vec<u64>)
        ensures
            final(self)@.slots.dom().is_empty(),
            same_counter(old(self)@, final(self)@),
            registry_inv(final(self)@),
            stopped@.no_duplicates(),
            stopped@.to_set() == attached_among(old(self)@.slots, old(self)@.slots.dom()),
    {
        let all = table_slots(&self.table);
        let stopped = self.remove_slots(&all);
        assert(self@.slots.dom() =~= Set::empty());
        stopped
    }

    /// Takes a slot out of the registry once its playback has ended or failed
    /// to start. Returns whether the slot was still there.
    pub fn finish_slot(&mut self, slot: u64) -> (was_live: bool)
        ensures
            was_live == old(self)@.slots.contains_key(slot),
            final(self)@.slots == old(self)@.slots.remove(slot),
            same_counter(old(self)@, final(self)@),
            registry_inv(final(self)@),
    {
        proof {
            use_type_invariant(&*self);
        }
        let was_live = table_remove(&mut self.table, slot).is_some();
        proof {
            use_type_invariant(&*self);
        }
        was_live
    }

    /// Whether the audio thread of `slot` keeps waiting on its playback: only
    /// while the slot is live and, once a player is attached, that player
    /// still has sound queued. A looping source never runs empty, so a loop
    /// ends only when its slot is removed.
    pub fn keep_playing(&self, slot: u64, player_empty: bool) -> (keep: bool)
        ensures
            keep == (self@.slots.contains_key(slot) && !(self@.slots[slot].1 && player_empty)),
    {
        match table_get(&self.table, slot) {
            Some(entry) => !(entry.1 && player_empty),
            None => false,
        }
    }

    /// Keeps at most `MAX_STACKED` sounds of a stacking instance once one
    /// more starts: when the instance already holds that many or more, its
    /// oldest slots are removed until one fewer than the cap remains.
    /// Returns the removed slots whose players the caller stops.
    pub fn drop_oldest_stacked(&mut self, instance_id: &str) -> (stopped: Vec<u64>)
        ensures
            same_counter(old(self)@, final(self)@),
            registry_inv(final(self)@),
            stopped@.no_duplicates(),
            exists|dropped: Set<u64>|
                #![trigger drops_oldest(old(self)@.slots, instance_id@, dropped)]
                drops_oldest(old(self)@.slots, instance_id@, dropped)
                && final(self)@.slots == old(self)@.slots.remove_keys(dropped)
                && stopped@.to_set() == attached_among(old(self)@.slots, dropped),
    {
        let mut remaining = self.slots_of(instance_id);
        let ghost mine = owned_by(self@.slots, instance_id@);
        let n = remaining.len();
        proof {
            remaining@.unique_seq_to_set();
        }
        let mut dropped: Vec<u64> = Vec::new();
        if n >= MAX_STACKED {
            let overage = n - (MAX_STACKED - 1);
            while dropped.len() < overage
                invariant
                    overage == n - (MAX_STACKED - 1),
                    n >= MAX_STACKED,
                    dropped.len() <= overage,
                    remaining.len() + dropped.len() == n,
                    remaining@.no_duplicates(),
                    dropped@.no_duplicates(),
                    forall|t: u64| mine.contains(t) <==> (remaining@.to_set().contains(t) || dropped@.to_set().contains(t)),
                    forall|t: u64| !(remaining@.to_set().contains(t) && dropped@.to_set().contains(t)),
                    forall|a: u64, b: u64|
                        #![trigger dropped@.to_set().contains(a), remaining@.to_set().contains(b)]
                        dropped@.to_set().contains(a) && remaining@.to_set().contains(b) ==> a < b,
                decreases overage - dropped.len(),
            {
                let k = index_of_least(&remaining);
                let ghost before = remaining@;
                let ghost dropped_before = dropped@;
                proof {
                    lemma_remove_unique(before, k as int);
                }
                let x = remaining.remove(k);
                assert(before.to_set().contains(x));
                assert(!dropped@.contains(x)) by {
                    if dropped@.contains(x) {
                        assert(dropped@.to_set().contains(x));
                    }
                }
                proof {
                    dropped@.lemma_push_to_set_commute(x);
                }
                dropped.push(x);
                assert forall|a: u64, b: u64|
                    dropped@.to_set().contains(a) && remaining@.to_set().contains(b) implies a < b by {
                    assert(before.to_set().contains(b));
                    if a == x {
                        let j = choose|j: int| 0 <= j < before.len() && before[j] == b;
                        assert(x <= before[j]);
                    } else {
                        assert(dropped_before.to_set().contains(a));
                    }
                }
            }
        }
        proof {
            dropped@.unique_seq_to_set();
            remaining@.unique_seq_to_set();
            assert(mine =~= remaining@.to_set() + dropped@.to_set());
            assert(remaining@.to_set().disjoint(dropped@.to_set()));
            vstd::set_lib::lemma_set_disjoint_lens(remaining@.to_set(), dropped@.to_set());
            if n < MAX_STACKED {
                assert(dropped@.len() == 0);
            }
            assert(drops_oldest(old(self)@.slots, instance_id@, dropped@.to_set()));
        }
        self.remove_slots(&dropped)
    }
}

} // verus!

//! A session: the party, the cooldown record of each of its characters, and
//! the input state that steers them, advanced one tick at a time.

use vstd::prelude::*;
use crate::clock::Moment;
use crate::cooldown::{has_zero_length, is_least, no_variants, CoolDown, TableError};
use crate::gauge::GaugeReading;
use crate::input::{
    chosen_slot, hold_after, released_hold, resolve_slot, resolve_visibility, track_hold,
    visible_after, ActivationEvent, KeySnapshot,
};
use crate::loading::{names_view, AbilityEntry};
use crate::tables::{has_entry, merged_variants, variants_for};

verus! {

/// The most characters that a party can hold.
pub const MAX_PARTY: usize = 4;

/// Why a party and an ability table do not make a session.
#[derive(Clone, Copy, Debug, PartialEq, Eq, Structural)]
pub enum ConfigError {
    /// The party has more than `MAX_PARTY` characters.
    TooManyCharacters,
    /// No row of the table is about the character in `slot`.
    UnknownCharacter { slot: usize },
    /// The rows about the character in `slot` hold no variant.
    NoVariants { slot: usize },
    /// A variant of the character in `slot` has a cooldown of zero seconds.
    ZeroCooldown { slot: usize },
}

/// What is wrong with the character in `slot`, if anything: that the table
/// does not know it, else that it has no variant, else that one of its
/// variants takes no time.
pub open spec fn slot_fault(entries: Seq<AbilityEntry>, names: Seq<Seq<char>>, slot: int) -> Option<
    ConfigError,
> {
    let table = merged_variants(entries, names[slot]);
    if !has_entry(entries, names[slot]) {
        Some(ConfigError::UnknownCharacter { slot: slot as usize })
    } else if no_variants(table) {
        Some(ConfigError::NoVariants { slot: slot as usize })
    } else if has_zero_length(table, table.dom()) {
        Some(ConfigError::ZeroCooldown { slot: slot as usize })
    } else {
        None
    }
}

/// Whether `record` is a record over `table` that was never activated: it is
/// ready, and has its smallest selector in force.
pub open spec fn is_fresh(record: CoolDown, table: Map<u32, u32>) -> bool {
    &&& record.variants() == table
    &&& is_least(table.dom(), Some(record.spec_current()))
    &&& record.spec_last_used() is None
    &&& record.spec_ready_in() == 0
}

/// The first slot at or after `from` that holds the name of `slot`.
spec fn owner_from(names: Seq<Seq<char>>, slot: int, from: int) -> int
    decreases slot - from,
{
    if from >= slot {
        slot
    } else if names[from] == names[slot] {
        from
    } else {
        owner_from(names, slot, from + 1)
    }
}

/// The first slot that holds the name of `slot`. The record of a character
/// is kept there, so that slots of one name share one record.
spec fn owner(names: Seq<Seq<char>>, slot: int) -> int {
    owner_from(names, slot, 0)
}

/// Whether `first` is the first slot that holds the name of `slot`.
spec fn is_owner(names: Seq<Seq<char>>, slot: int, first: int) -> bool {
    &&& 0 <= first <= slot
    &&& names[first] == names[slot]
    &&& forall|i: int| 0 <= i < first ==> names[i] != names[slot]
}

/// `owner_from` finds the first slot with the name of `slot`, where no slot
/// before `from` has it.
proof fn lemma_owner_from(names: Seq<Seq<char>>, slot: int, from: int)
    requires
        0 <= from <= slot < names.len(),
        forall|i: int| 0 <= i < from ==> names[i] != names[slot],
    ensures
        is_owner(names, slot, owner_from(names, slot, from)),
    decreases slot - from,
{
    if from < slot && names[from] != names[slot] {
        lemma_owner_from(names, slot, from + 1);
    }
}

/// Two slots have the same owner exactly when they hold the same name.
proof fn lemma_owner(names: Seq<Seq<char>>, a: int, b: int)
    requires
        0 <= a < names.len(),
        0 <= b < names.len(),
    ensures
        is_owner(names, a, owner(names, a)),
        is_owner(names, b, owner(names, b)),
        owner(names, a) == owner(names, b) <==> names[a] == names[b],
{
    lemma_owner_from(names, a, 0);
    lemma_owner_from(names, b, 0);
}

/// The state of one running display.
#[derive(Debug)]
pub struct Session {
    party: Vec<String>,
    /// One record per slot; the one that counts for a slot is that of the
    /// first slot with the same name. That makes the records a map from name
    /// to record, kept in a vector because vstd models the hashing of
    /// integer keys only, so that nothing could be proved of a hash map
    /// keyed by `String`.
    records: Vec<CoolDown>,
    active_slot: usize,
    key_down_since: Option<Moment>,
    hud_visible: bool,
}

impl Session {
    /// The names of the party, by slot.
    pub closed spec fn names(&self) -> Seq<Seq<char>> {
        names_view(self.party@)
    }

    /// The cooldown record of the character in `slot`.
    pub closed spec fn record(&self, slot: int) -> CoolDown {
        self.records@[owner(self.names(), slot)]
    }

    /// The slot that activations go to.
    pub closed spec fn spec_active_slot(&self) -> nat {
        self.active_slot as nat
    }

    /// Since when the activation key is held, if it is.
    pub closed spec fn spec_key_down_since(&self) -> Option<Moment> {
        self.key_down_since
    }

    /// Whether the display shows.
    pub closed spec fn spec_hud_visible(&self) -> bool {
        self.hud_visible
    }

    /// The party has at most `MAX_PARTY` characters, each with a record, and
    /// the active slot is one of the party, or slot 0 in an empty one.
    #[verifier::type_invariant]
    pub closed spec fn wf(&self) -> bool {
        &&& self.records.len() == self.party.len()
        &&& self.party.len() <= MAX_PARTY
        &&& self.active_slot == 0 || self.active_slot < self.party.len()
    }

    /// What `wf` says, over the public names.
    pub proof fn lemma_wf(&self)
        requires
            self.wf(),
        ensures
            self.names().len() <= MAX_PARTY,
            self.spec_active_slot() == 0 || self.spec_active_slot() < self.names().len(),
    {
    }

    /// Slots that hold the same name show the same record.
    pub proof fn lemma_shared_record(&self, a: int, b: int)
        requires
            0 <= a < self.names().len(),
            0 <= b < self.names().len(),
            self.names()[a] == self.names()[b],
        ensures
            self.record(a) == self.record(b),
    {
        lemma_owner(self.names(), a, b);
    }

    /// A slot key whose slot the party does not have selects nothing: when
    /// every slot key that a poll finds down is such a key, the active slot
    /// after the poll is the one before it.
    pub proof fn lemma_missing_slot_selects_nothing(
        &self,
        before: &Session,
        keys: KeySnapshot,
        now: Moment,
    )
        requires
            self.sampled_from(before, keys, now),
            forall|k: int| 0 <= k < 4 && keys.select[k] ==> k >= before.names().len(),
        ensures
            self.spec_active_slot() == before.spec_active_slot(),
    {
    }

    /// Sets a session up for `party`, with the variants of each character
    /// taken from the rows of `entries`. Every record starts ready, slot 0 is
    /// active, the activation key counts as up and the display shows. A
    /// party that is too large is refused, and so is one with a character
    /// that `slot_fault` finds fault with: the error names the first such
    /// slot.
    pub fn new(entries: &Vec<AbilityEntry>, party: Vec<String>) -> (made: Result<
        Session,
        ConfigError,
    >)
        ensures
            made is Ok <==> party.len() <= MAX_PARTY && forall|slot: int|
                0 <= slot < party.len() ==> #[trigger] slot_fault(
                    entries@,
                    names_view(party@),
                    slot,
                ) is None,
            match made {
                Ok(session) => {
                    &&& party.len() <= MAX_PARTY
                    &&& session.wf()
                    &&& session.names() == names_view(party@)
                    &&& forall|slot: int|
                        0 <= slot < party.len() ==> #[trigger] slot_fault(
                            entries@,
                            names_view(party@),
                            slot,
                        ) is None
                    &&& forall|slot: int|
                        0 <= slot < party.len() ==> (#[trigger] session.record(slot)).wf()
                            && is_fresh(
                            session.record(slot),
                            merged_variants(entries@, party[slot]@),
                        )
                    &&& session.spec_active_slot() == 0
                    &&& session.spec_key_down_since() is None
                    &&& session.spec_hud_visible()
                },
                Err(ConfigError::TooManyCharacters) => party.len() > MAX_PARTY,
                Err(fault) => {
                    &&& party.len() <= MAX_PARTY
                    &&& exists|slot: int|
                        {
                            &&& 0 <= slot < party.len()
                            &&& #[trigger] slot_fault(entries@, names_view(party@), slot) == Some(
                                fault,
                            )
                            &&& forall|earlier: int|
                                0 <= earlier < slot ==> slot_fault(
                                    entries@,
                                    names_view(party@),
                                    earlier,
                                ) is None
                        }
                },
            },
    {
        if party.len() > MAX_PARTY {
            return Err(ConfigError::TooManyCharacters);
        }
        let ghost names = names_view(party@);
        let mut records: Vec<CoolDown> = Vec::new();
        let mut slot: usize = 0;
        while slot < party.len()
            invariant
                slot <= party.len() <= MAX_PARTY,
                names == names_view(party@),
                records.len() == slot,
                forall|j: int| 0 <= j < slot ==> slot_fault(entries@, names, j) is None,
                forall|j: int|
                    0 <= j < slot ==> (#[trigger] records[j]).wf() && is_fresh(
                        records[j],
                        merged_variants(entries@, names[j]),
                    ),
            decreases party.len() - slot,
        {
            let (found, table) = variants_for(entries, &party[slot]);
            if !found {
                return Err(ConfigError::UnknownCharacter { slot });
            }
            match CoolDown::new(table) {
                Ok(record) => {
                    records.push(record);
                },
                Err(TableError::Empty) => {
                    return Err(ConfigError::NoVariants { slot });
                },
                Err(TableError::ZeroLength) => {
                    assert(slot_fault(entries@, names, slot as int) == Some(
                        ConfigError::ZeroCooldown { slot },
                    ));
                    return Err(ConfigError::ZeroCooldown { slot });
                },
            }
            slot = slot + 1;
        }
        let session = Session {
            party,
            records,
            active_slot: 0,
            key_down_since: None,
            hud_visible: true,
        };
        proof {
            assert forall|s: int| 0 <= s < session.party.len() implies (#[trigger] session.record(
                s,
            )).wf() && is_fresh(session.record(s), merged_variants(entries@, session.party[s]@)) by {
                lemma_owner(names, s, s);
            }
        }
        Ok(session)
    }

    /// The party, by slot.
    pub fn party(&self) -> (party: &Vec<String>)
        ensures
            names_view(party@) == self.names(),
    {
        &self.party
    }

    /// The slot that activations go to.
    pub fn active_slot(&self) -> (slot: usize)
        ensures
            slot == self.spec_active_slot(),
            slot == 0 || slot < self.names().len(),
    {
        proof {
            use_type_invariant(self);
        }
        self.active_slot
    }

    /// Since when the activation key is held, if it is.
    pub fn key_down_since(&self) -> (since: Option<Moment>)
        ensures
            since == self.spec_key_down_since(),
    {
        self.key_down_since
    }

    /// Whether the display shows.
    pub fn hud_visible(&self) -> (visible: bool)
        ensures
            visible == self.spec_hud_visible(),
    {
        self.hud_visible
    }

    /// The slot whose record counts for `slot`.
    fn owner_of(&self, slot: usize) -> (first: usize)
        requires
            slot < self.party.len(),
        ensures
            first == owner(self.names(), slot as int),
            first <= slot,
    {
        let mut from: usize = 0;
        while from < slot
            invariant
                from <= slot < self.party.len(),
                owner(self.names(), slot as int) == owner_from(self.names(), slot as int, from as int),
            decreases slot - from,
        {
            if self.party[from] == self.party[slot] {
                return from;
            }
            from = from + 1;
        }
        slot
    }

    /// Whether `self` differs from `before` at most in its records.
    pub open spec fn same_input_state(&self, before: &Session) -> bool {
        &&& self.names() == before.names()
        &&& self.spec_active_slot() == before.spec_active_slot()
        &&& self.spec_key_down_since() == before.spec_key_down_since()
        &&& self.spec_hud_visible() == before.spec_hud_visible()
    }

    /// Whether `self` is `before` after the poll `keys` at `now`, as far as
    /// the input state goes: the active slot follows the slot keys, the
    /// display the show and hide keys, and the hold the activation key.
    pub open spec fn sampled_from(&self, before: &Session, keys: KeySnapshot, now: Moment) -> bool {
        &&& self.names() == before.names()
        &&& self.spec_active_slot() == chosen_slot(
            keys,
            before.names().len(),
            before.spec_active_slot(),
        )
        &&& self.spec_key_down_since() == hold_after(keys, before.spec_key_down_since(), now)
        &&& self.spec_hud_visible() == visible_after(keys, before.spec_hud_visible())
    }

    /// The activation that the poll `keys` at `now` gives rise to in
    /// `before`: none unless it found a hold ended, else one of the length
    /// of that hold, for the slot that is active after the poll.
    pub open spec fn is_emitted(
        before: &Session,
        keys: KeySnapshot,
        now: Moment,
        event: Option<ActivationEvent>,
    ) -> bool {
        match event {
            Some(e) => {
                &&& released_hold(keys, before.spec_key_down_since(), now) == Some(e.held_ms as nat)
                &&& e.slot == chosen_slot(keys, before.names().len(), before.spec_active_slot())
            },
            None => released_hold(keys, before.spec_key_down_since(), now) is None,
        }
    }

    /// Whether the activation `event` at `now` reaches the character in
    /// `slot`: the event's slot is one of the party and holds the same name.
    pub open spec fn is_hit(&self, event: ActivationEvent, slot: int) -> bool {
        event.slot < self.names().len() && self.names()[slot] == self.names()[event.slot as int]
    }

    /// Reads one poll of the keyboard, taken at `now`. The slot keys move the
    /// active slot, the show and hide keys set whether the display shows, and
    /// the activation key is followed from going down to coming up. When it
    /// comes up, the hold is handed back as an activation of the slot that
    /// is active by then. No record changes.
    pub fn sample_input(&mut self, keys: &KeySnapshot, now: Moment) -> (event: Option<
        ActivationEvent,
    >)
        ensures
            final(self).wf(),
            final(self).sampled_from(old(self), *keys, now),
            Self::is_emitted(old(self), *keys, now, event),
            forall|slot: int| final(self).record(slot) == old(self).record(slot),
    {
        proof {
            use_type_invariant(&*self);
        }
        let slot = resolve_slot(keys, self.party.len(), self.active_slot);
        self.active_slot = slot;
        self.hud_visible = resolve_visibility(keys, self.hud_visible);
        let (since, held) = track_hold(keys, self.key_down_since, now);
        self.key_down_since = since;
        match held {
            Some(held_ms) => Some(ActivationEvent { slot, held_ms }),
            None => None,
        }
    }

    /// Restarts, at `now`, the cooldown of the character that `event` is
    /// for: see `CoolDown::activate`. An event for a slot that the party
    /// does not have changes nothing.
    pub fn apply_activation(&mut self, event: ActivationEvent, now: Moment)
        ensures
            final(self).wf(),
            final(self).same_input_state(old(self)),
            forall|slot: int|
                0 <= slot < old(self).names().len() ==> if old(self).is_hit(event, slot) {
                    (#[trigger] final(self).record(slot)).activated_from(
                        &old(self).record(slot),
                        event.held_ms as nat,
                        now,
                    )
                } else {
                    final(self).record(slot) == old(self).record(slot)
                },
    {
        proof {
            use_type_invariant(&*self);
        }
        if event.slot < self.party.len() {
            let first = self.owner_of(event.slot);
            self.records[first].activate(event.held_ms, now);
            proof {
                assert forall|slot: int| 0 <= slot < old(self).names().len() implies if old(
                    self,
                ).is_hit(event, slot) {
                    (#[trigger] self.record(slot)).activated_from(
                        &old(self).record(slot),
                        event.held_ms as nat,
                        now,
                    )
                } else {
                    self.record(slot) == old(self).record(slot)
                } by {
                    lemma_owner(self.names(), slot, event.slot as int);
                }
            }
        }
    }

    /// Brings the time until ready of every character up to the reading
    /// `now`: see `CoolDown::refresh`.
    pub fn refresh(&mut self, now: Moment)
        ensures
            final(self).wf(),
            final(self).same_input_state(old(self)),
            forall|slot: int|
                0 <= slot < old(self).names().len() ==> (#[trigger] final(self).record(slot)).wf()
                    && final(self).record(slot).refreshed_from(&old(self).record(slot), now),
    {
        proof {
            use_type_invariant(&*self);
        }
        let mut i: usize = 0;
        while i < self.records.len()
            invariant
                self.wf(),
                self.party == old(self).party,
                self.active_slot == old(self).active_slot,
                self.key_down_since == old(self).key_down_since,
                self.hud_visible == old(self).hud_visible,
                i <= self.records.len() == old(self).records.len(),
                forall|k: int|
                    0 <= k < i ==> (#[trigger] self.records[k]).wf()
                        && self.records[k].refreshed_from(&old(self).records[k], now),
                forall|k: int|
                    i <= k < self.records.len() ==> #[trigger] self.records[k] == old(
                        self,
                    ).records[k],
            decreases self.records.len() - i,
        {
            self.records[i].refresh(now);
            i = i + 1;
        }
        proof {
            assert forall|slot: int| 0 <= slot < old(self).names().len() implies (
            #[trigger] self.record(slot)).wf() && self.record(slot).refreshed_from(
                &old(self).record(slot),
                now,
            ) by {
                lemma_owner(self.names(), slot, slot);
            }
        }
    }

    /// One tick at the reading `now`: reads the poll `keys`, applies the
    /// activation that it gives rise to, if any, and brings every record up
    /// to `now`. The activation is handed back for the host to note.
    pub fn tick(&mut self, keys: &KeySnapshot, now: Moment) -> (event: Option<ActivationEvent>)
        ensures
            final(self).wf(),
            final(self).sampled_from(old(self), *keys, now),
            Self::is_emitted(old(self), *keys, now, event),
            forall|slot: int|
                0 <= slot < old(self).names().len() ==> (#[trigger] final(self).record(slot)).wf()
                    && match event {
                    Some(e) if old(self).is_hit(e, slot) => {
                        final(self).record(slot).activated_from(
                            &old(self).record(slot),
                            e.held_ms as nat,
                            now,
                        )
                    },
                    _ => final(self).record(slot).refreshed_from(&old(self).record(slot), now),
                },
    {
        let event = self.sample_input(keys, now);
        match event {
            Some(e) => {
                self.apply_activation(e, now);
            },
            None => {},
        }
        self.refresh(now);
        event
    }

    /// The cooldown record of the character in `slot`; nothing for a slot
    /// that the party does not have.
    pub fn cooldown(&self, slot: usize) -> (found: Option<&CoolDown>)
        ensures
            found is Some <==> slot < self.names().len(),
            found matches Some(record) ==> *record == self.record(slot as int) && record.wf(),
    {
        proof {
            use_type_invariant(self);
        }
        if slot < self.party.len() {
            let first = self.owner_of(slot);
            let record = &self.records[first];
            proof {
                use_type_invariant(record);
            }
            Some(record)
        } else {
            None
        }
    }

    /// What the gauge of the character in `slot` shows, as of the last tick;
    /// nothing for a slot that the party does not have.
    pub fn reading(&self, slot: usize) -> (shown: Option<GaugeReading>)
        ensures
            shown is Some <==> slot < self.names().len(),
            shown matches Some(gauge) ==> gauge.is_reading_of(&self.record(slot as int)),
    {
        match self.cooldown(slot) {
            Some(record) => Some(GaugeReading::of(record)),
            None => None,
        }
    }
}

} // verus!

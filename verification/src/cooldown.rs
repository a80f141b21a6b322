//! The cooldown record of one character.

use vstd::prelude::*;
use std::collections::HashMap;
use crate::clock::{millis_between, Moment, NANOS_PER_MILLI};
use crate::prefix::lemma_prefix_sets;

verus! {

broadcast use vstd::std_specs::hash::group_hash_axioms;

/// Milliseconds in one second.
pub const MILLIS_PER_SECOND: u128 = 1000;

/// Why a table of variants cannot back a cooldown record.
#[derive(Clone, Copy, Debug, PartialEq, Eq, Structural)]
pub enum TableError {
    /// The table has no variant at all.
    Empty,
    /// Some variant has a cooldown of zero seconds.
    ZeroLength,
}

/// The part of a cooldown that is still to run: `remaining` out of `total`
/// milliseconds. All of it remains right after an activation, none of it once
/// the ability is ready.
#[derive(Clone, Copy, Debug, PartialEq, Eq, Structural)]
pub struct Ratio {
    remaining: u128,
    total: u128,
}

impl Ratio {
    /// Milliseconds still to run.
    pub closed spec fn spec_remaining(self) -> nat {
        self.remaining as nat
    }

    /// Milliseconds of the whole cooldown.
    pub closed spec fn spec_total(self) -> nat {
        self.total as nat
    }

    /// The whole is positive and the part does not exceed it, so the ratio
    /// lies between zero and one.
    #[verifier::type_invariant]
    pub closed spec fn wf(self) -> bool {
        0 < self.total && self.remaining <= self.total
    }

    /// What `wf` says, over the public names.
    pub proof fn lemma_wf(self)
        requires
            self.wf(),
        ensures
            0 < self.spec_total(),
            self.spec_remaining() <= self.spec_total(),
    {
    }

    /// The ratio of a whole to itself: one.
    pub fn whole() -> (ratio: Ratio)
        ensures
            ratio.wf(),
            ratio.spec_remaining() == 1,
            ratio.spec_total() == 1,
    {
        Ratio { remaining: 1, total: 1 }
    }

    /// Milliseconds still to run.
    pub fn remaining(&self) -> (ms: u128)
        ensures
            ms == self.spec_remaining(),
            ms <= self.spec_total(),
    {
        proof {
            use_type_invariant(self);
        }
        self.remaining
    }

    /// Milliseconds of the whole cooldown; never zero.
    pub fn total(&self) -> (ms: u128)
        ensures
            ms == self.spec_total(),
            ms > 0,
    {
        proof {
            use_type_invariant(self);
        }
        self.total
    }
}

/// What is left of a cooldown of `length_ms` milliseconds once `elapsed_ms`
/// of them have passed.
pub open spec fn remaining_after(length_ms: nat, elapsed_ms: nat) -> nat {
    if elapsed_ms >= length_ms {
        0
    } else {
        (length_ms - elapsed_ms) as nat
    }
}

/// Whether `pick` is the smallest of `selectors`, or nothing where there are
/// none.
pub open spec fn is_least(selectors: Set<u32>, pick: Option<u32>) -> bool {
    match pick {
        Some(s) => selectors.contains(s) && forall|t: u32| selectors.contains(t) ==> s <= t,
        None => forall|t: u32| !selectors.contains(t),
    }
}

/// Whether the table has no variant at all.
pub open spec fn no_variants(variants: Map<u32, u32>) -> bool {
    forall|k: u32| !variants.contains_key(k)
}

/// Whether one of the variants `among` has a cooldown of zero seconds.
pub open spec fn has_zero_length(variants: Map<u32, u32>, among: Set<u32>) -> bool {
    exists|k: u32| among.contains(k) && variants[k] == 0
}

/// What keeps a table of variants from backing a cooldown record, if
/// anything: that it is empty, else that a variant of it takes no time.
pub open spec fn table_fault(variants: Map<u32, u32>) -> Option<TableError> {
    if no_variants(variants) {
        Some(TableError::Empty)
    } else if has_zero_length(variants, variants.dom()) {
        Some(TableError::ZeroLength)
    } else {
        None
    }
}

/// Whether `pick` is what a hold of `held_ms` milliseconds selects among the
/// thresholds `selectors`: the largest threshold that the hold reaches, or
/// nothing when it reaches none.
pub open spec fn is_selection(selectors: Set<u32>, held_ms: nat, pick: Option<u32>) -> bool {
    match pick {
        Some(s) => {
            &&& selectors.contains(s)
            &&& s <= held_ms
            &&& forall|t: u32| selectors.contains(t) && t <= held_ms ==> t <= s
        },
        None => forall|t: u32| selectors.contains(t) ==> t > held_ms,
    }
}

/// Whether `next` is the variant in force after a hold of `held_ms`
/// milliseconds, where `previous` was in force before it: what the hold
/// selects, or `previous` where it selects nothing.
pub open spec fn is_variant_after(selectors: Set<u32>, held_ms: nat, previous: u32, next: u32) -> bool {
    ||| is_selection(selectors, held_ms, Some(next))
    ||| (is_selection(selectors, held_ms, None) && next == previous)
}

/// Picks the variant that a hold of `held_ms` milliseconds selects.
pub fn select_variant(available: &HashMap<u32, u32>, held_ms: u128) -> (pick: Option<u32>)
    ensures
        is_selection(available@.dom(), held_ms as nat, pick),
{
    let mut best: Option<u32> = None;
    for key in it: available.keys()
        invariant
            it.seq().unref().to_set() == available@.dom(),
            is_selection(it.seq().unref().take(it.index()).to_set(), held_ms as nat, best),
            it.index() == it.seq().len() ==> is_selection(
                available@.dom(),
                held_ms as nat,
                best,
            ),
    {
        let k: u32 = *key;
        if k as u128 <= held_ms {
            best = match best {
                Some(b) => if b < k { Some(k) } else { Some(b) },
                None => Some(k),
            };
        }
        proof {
            lemma_prefix_sets::<u32>();
            assert(it.index() + 1 == it.seq().len() ==> it.seq().unref().take(it.index() + 1)
                == it.seq().unref());
        }
    }
    best
}

/// Walks a table once. Returns its smallest selector, if it has any, and
/// whether one of its variants has a cooldown of zero seconds.
fn survey(table: &HashMap<u32, u32>) -> (found: (Option<u32>, bool))
    ensures
        is_least(table@.dom(), found.0),
        found.1 == has_zero_length(table@, table@.dom()),
{
    let mut least: Option<u32> = None;
    let mut zero: bool = false;
    for key in it: table.keys()
        invariant
            it.seq().unref().to_set() == table@.dom(),
            is_least(it.seq().unref().take(it.index()).to_set(), least),
            zero == has_zero_length(table@, it.seq().unref().take(it.index()).to_set()),
            it.index() == it.seq().len() ==> {
                &&& is_least(table@.dom(), least)
                &&& zero == has_zero_length(table@, table@.dom())
            },
    {
        let k: u32 = *key;
        proof {
            lemma_prefix_sets::<u32>();
            assert(it.index() + 1 == it.seq().len() ==> it.seq().unref().take(it.index() + 1)
                == it.seq().unref());
        }
        least = match least {
            Some(l) => if k < l { Some(k) } else { Some(l) },
            None => Some(k),
        };
        match table.get(&k) {
            Some(secs) => {
                if *secs == 0 {
                    zero = true;
                }
            },
            None => {},
        }
    }
    (least, zero)
}

/// Tells whether a table of variants can back a cooldown record: it has a
/// variant, and every variant takes time.
pub fn check_table(table: &HashMap<u32, u32>) -> (checked: Result<(), TableError>)
    ensures
        match checked {
            Ok(_) => table_fault(table@) is None,
            Err(fault) => table_fault(table@) == Some(fault),
        },
{
    let (least, zero) = survey(table);
    if least.is_none() {
        Err(TableError::Empty)
    } else if zero {
        Err(TableError::ZeroLength)
    } else {
        Ok(())
    }
}

/// The cooldown state of one character: the variants it can be cast in, the
/// variant that the last hold selected, when it was last activated, and how
/// long it still takes to be ready, as of the last refresh.
#[derive(Debug)]
pub struct CoolDown {
    /// Cooldown length in seconds of each variant, by the hold in
    /// milliseconds that selects it.
    available: HashMap<u32, u32>,
    current: u32,
    ready_in: u128,
    last_used: Option<Moment>,
}

impl CoolDown {
    /// Cooldown length in seconds of each variant, by its selector.
    pub closed spec fn variants(&self) -> Map<u32, u32> {
        self.available@
    }

    /// The selector of the variant in force.
    pub closed spec fn spec_current(&self) -> u32 {
        self.current
    }

    /// Milliseconds until ready, as of the last activation or refresh.
    pub closed spec fn spec_ready_in(&self) -> nat {
        self.ready_in as nat
    }

    /// When the ability was last activated, if ever.
    pub closed spec fn spec_last_used(&self) -> Option<Moment> {
        self.last_used
    }

    /// Cooldown length of the variant in force, in milliseconds.
    pub open spec fn cooldown_ms(&self) -> nat {
        (self.variants()[self.spec_current()] * MILLIS_PER_SECOND) as nat
    }

    /// Milliseconds until ready at the reading `now`: nothing for an ability
    /// that was never activated, else what the time since the last
    /// activation leaves of the cooldown in force.
    pub open spec fn ready_in_at(&self, now: Moment) -> nat {
        match self.spec_last_used() {
            Some(then) => remaining_after(self.cooldown_ms(), millis_between(then@, now@)),
            None => 0,
        }
    }

    /// Whether `self` is `before` once a hold of `held_ms` milliseconds
    /// activated it at `now`: the variants are the same, the hold's selection
    /// is in force (or the old variant, where the hold selects none), and a
    /// whole cooldown is to run from `now`.
    pub open spec fn activated_from(&self, before: &CoolDown, held_ms: nat, now: Moment) -> bool {
        &&& self.variants() == before.variants()
        &&& is_variant_after(
            before.variants().dom(),
            held_ms,
            before.spec_current(),
            self.spec_current(),
        )
        &&& self.spec_last_used() == Some(now)
        &&& self.spec_ready_in() == self.cooldown_ms()
    }

    /// Whether `self` is `before` brought up to the reading `now`: only the
    /// time until ready may differ, and it is what `now` leaves.
    pub open spec fn refreshed_from(&self, before: &CoolDown, now: Moment) -> bool {
        &&& self.variants() == before.variants()
        &&& self.spec_current() == before.spec_current()
        &&& self.spec_last_used() == before.spec_last_used()
        &&& self.spec_ready_in() == before.ready_in_at(now)
    }

    /// There is a variant, every variant takes time, the variant in force is
    /// one of them, and the time until ready does not exceed its length.
    #[verifier::type_invariant]
    pub closed spec fn wf(&self) -> bool {
        &&& self.available@.dom().finite()
        &&& self.available@.contains_key(self.current)
        &&& forall|k: u32| self.available@.contains_key(k) ==> self.available@[k] > 0
        &&& self.ready_in <= self.available@[self.current] * MILLIS_PER_SECOND
    }

    /// What `wf` says, over the public names.
    pub proof fn lemma_wf(&self)
        requires
            self.wf(),
        ensures
            self.variants().dom().finite(),
            self.variants().contains_key(self.spec_current()),
            forall|k: u32| self.variants().contains_key(k) ==> self.variants()[k] > 0,
            self.spec_ready_in() <= self.cooldown_ms(),
            self.cooldown_ms() > 0,
    {
    }

    /// A record over the variants `available`, never activated and so ready,
    /// with its smallest selector in force. A table that `table_fault` finds
    /// fault with is refused.
    pub fn new(available: HashMap<u32, u32>) -> (made: Result<CoolDown, TableError>)
        ensures
            match made {
                Ok(record) => {
                    &&& table_fault(available@) is None
                    &&& record.wf()
                    &&& record.variants() == available@
                    &&& is_least(available@.dom(), Some(record.spec_current()))
                    &&& record.spec_last_used() is None
                    &&& record.spec_ready_in() == 0
                },
                Err(fault) => table_fault(available@) == Some(fault),
            },
    {
        let (least, zero) = survey(&available);
        match least {
            None => Err(TableError::Empty),
            Some(first) => {
                if zero {
                    Err(TableError::ZeroLength)
                } else {
                    Ok(CoolDown { available, current: first, ready_in: 0, last_used: None })
                }
            },
        }
    }

    /// Cooldown length in seconds of each variant, by its selector.
    pub fn available(&self) -> (table: &HashMap<u32, u32>)
        ensures
            table@ == self.variants(),
    {
        &self.available
    }

    /// The selector of the variant in force.
    pub fn current(&self) -> (selector: u32)
        ensures
            selector == self.spec_current(),
    {
        self.current
    }

    /// Milliseconds until ready, as of the last activation or refresh.
    pub fn ready_in(&self) -> (ms: u128)
        ensures
            ms == self.spec_ready_in(),
    {
        self.ready_in
    }

    /// Whether the ability was ready at the last activation or refresh.
    pub fn is_ready(&self) -> (ready: bool)
        ensures
            ready == (self.spec_ready_in() == 0),
    {
        self.ready_in == 0
    }

    /// When the ability was last activated, if ever.
    pub fn last_used(&self) -> (at: Option<Moment>)
        ensures
            at == self.spec_last_used(),
    {
        self.last_used
    }

    /// Cooldown length of the variant in force, in milliseconds.
    pub fn cooldown_length_ms(&self) -> (ms: u128)
        ensures
            ms == self.cooldown_ms(),
            ms > 0,
    {
        proof {
            use_type_invariant(self);
        }
        match self.available.get(&self.current) {
            Some(secs) => {
                let wide: u128 = *secs as u128;
                wide * MILLIS_PER_SECOND
            },
            None => vstd::pervasive::unreached(),
        }
    }

    /// The part of the cooldown in force that was still to run at the last
    /// activation or refresh.
    pub fn completion_ratio(&self) -> (ratio: Ratio)
        ensures
            ratio.wf(),
            ratio.spec_remaining() == self.spec_ready_in(),
            ratio.spec_total() == self.cooldown_ms(),
    {
        proof {
            use_type_invariant(self);
        }
        let total = self.cooldown_length_ms();
        Ratio { remaining: self.ready_in, total }
    }

    /// Restarts the timer at `now` after the activation key was held for
    /// `held_ms` milliseconds. The hold puts in force the variant with the
    /// largest selector that it reaches; a hold that reaches none leaves the
    /// variant in force as it was. Either way the cooldown starts anew.
    pub fn activate(&mut self, held_ms: u128, now: Moment)
        ensures
            final(self).wf(),
            final(self).activated_from(old(self), held_ms as nat, now),
    {
        proof {
            use_type_invariant(&*self);
        }
        let pick = select_variant(&self.available, held_ms);
        self.ready_in = 0;
        match pick {
            Some(selector) => {
                self.current = selector;
            },
            None => {},
        }
        self.last_used = Some(now);
        let length = self.cooldown_length_ms();
        self.ready_in = length;
    }

    /// Brings the time until ready up to the reading `now`.
    pub fn refresh(&mut self, now: Moment)
        ensures
            final(self).wf(),
            final(self).refreshed_from(old(self), now),
    {
        proof {
            use_type_invariant(&*self);
        }
        match self.last_used {
            Some(then) => {
                let length = self.cooldown_length_ms();
                let elapsed = now.millis_since(then);
                self.ready_in = length.saturating_sub(elapsed);
            },
            None => {
                self.ready_in = 0;
            },
        }
    }
}

/// A hold selects at most one thing: two picks that both answer to
/// `is_selection` for the same thresholds and hold are the same pick.
pub proof fn lemma_selection_unique(
    selectors: Set<u32>,
    held_ms: nat,
    first: Option<u32>,
    second: Option<u32>,
)
    requires
        is_selection(selectors, held_ms, first),
        is_selection(selectors, held_ms, second),
    ensures
        first == second,
{
}

/// A hold shorter than every threshold selects nothing, so an activation by
/// such a hold leaves the variant in force as it was.
pub proof fn lemma_short_hold_keeps_variant(
    before: CoolDown,
    after: CoolDown,
    held_ms: nat,
    now: Moment,
)
    requires
        after.activated_from(&before, held_ms, now),
        forall|t: u32| before.variants().contains_key(t) ==> held_ms < t,
    ensures
        after.spec_current() == before.spec_current(),
{
}

/// Right after an activation the whole cooldown is still to run: the time
/// until ready is the length of the variant in force, at the reading of the
/// activation itself, and the completion ratio is one.
pub proof fn lemma_full_after_activation(
    before: CoolDown,
    after: CoolDown,
    held_ms: nat,
    now: Moment,
)
    requires
        after.wf(),
        after.activated_from(&before, held_ms, now),
    ensures
        after.spec_ready_in() == after.cooldown_ms(),
        after.ready_in_at(now) == after.cooldown_ms(),
        after.spec_ready_in() > 0,
{
    after.lemma_wf();
}

/// Once a whole cooldown has passed since the last activation the ability is
/// ready, and stays so.
pub proof fn lemma_ready_after_cooldown(record: CoolDown, then: Moment, now: Moment)
    requires
        record.spec_last_used() == Some(then),
        now@ >= then@ + record.cooldown_ms() * NANOS_PER_MILLI,
    ensures
        record.ready_in_at(now) == 0,
{
}

/// Between activations the time until ready never grows as the clock
/// advances.
pub proof fn lemma_ready_in_monotone(record: CoolDown, earlier: Moment, later: Moment)
    requires
        earlier@ <= later@,
    ensures
        record.ready_in_at(later) <= record.ready_in_at(earlier),
{
}

/// At every reading of the clock, also one that lies before the last
/// activation, the time until ready is at most the length of the variant in
/// force.
pub proof fn lemma_ready_in_bounded(record: CoolDown, now: Moment)
    ensures
        0 <= record.ready_in_at(now) <= record.cooldown_ms(),
{
}

/// A clock that reads earlier than the last activation counts as no time
/// passed: the whole cooldown is still to run.
pub proof fn lemma_clock_regression(record: CoolDown, then: Moment, now: Moment)
    requires
        record.spec_last_used() == Some(then),
        now@ <= then@,
    ensures
        record.ready_in_at(now) == record.cooldown_ms(),
{
}

} // verus!

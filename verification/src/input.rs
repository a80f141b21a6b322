//! What one poll of the keyboard means for a session: which slot is active,
//! whether the display shows, and how long the activation key was held.

use vstd::prelude::*;
use crate::clock::{millis_between, Moment};

verus! {

/// The keys found down in one poll of the keyboard, as far as a session
/// reads them. It is a snapshot: a key pressed and released between two
/// polls is never seen.
#[derive(Clone, Copy, Debug, PartialEq, Eq)]
pub struct KeySnapshot {
    /// The key of each slot, by slot index. There are as many as a party has
    /// slots at most.
    pub select: [bool; 4],
    /// The activation key.
    pub activation: bool,
    /// The key that hides the display.
    pub hide: bool,
    /// The key that shows the display.
    pub show: bool,
}

/// The activation key was released after being held for `held_ms`
/// milliseconds while `slot` was active.
#[derive(Clone, Copy, Debug, PartialEq, Eq, Structural)]
pub struct ActivationEvent {
    pub slot: usize,
    pub held_ms: u128,
}

/// The slot that is active after a poll found `keys` down, in a party of
/// `party_len` with `previous` active before. A key whose slot the party
/// does not have counts as not pressed. Of several keys held at once the one
/// of the highest slot wins.
pub open spec fn chosen_slot(keys: KeySnapshot, party_len: nat, previous: nat) -> nat {
    if keys.select[3] && party_len > 3 {
        3
    } else if keys.select[2] && party_len > 2 {
        2
    } else if keys.select[1] && party_len > 1 {
        1
    } else if keys.select[0] && party_len > 0 {
        0
    } else {
        previous
    }
}

/// Whether the display shows after a poll found `keys` down. The keys act
/// for as long as they are held, and hiding wins over showing.
pub open spec fn visible_after(keys: KeySnapshot, visible: bool) -> bool {
    if keys.hide {
        false
    } else if keys.show {
        true
    } else {
        visible
    }
}

/// Since when the activation key counts as held after a poll at `now`: from
/// `now` where it just went down, from the earlier reading while it stays
/// down, and not at all while it is up.
pub open spec fn hold_after(keys: KeySnapshot, down_since: Option<Moment>, now: Moment) -> Option<
    Moment,
> {
    if keys.activation {
        match down_since {
            Some(since) => Some(since),
            None => Some(now),
        }
    } else {
        None
    }
}

/// The milliseconds of a hold that the poll at `now` found ended: the key is
/// up and was down since an earlier poll.
pub open spec fn released_hold(keys: KeySnapshot, down_since: Option<Moment>, now: Moment) -> Option<
    nat,
> {
    match down_since {
        Some(since) if !keys.activation => Some(millis_between(since@, now@)),
        _ => None,
    }
}

impl KeySnapshot {
    /// A poll that found no key down.
    pub fn none() -> (keys: KeySnapshot)
        ensures
            keys == (KeySnapshot {
                select: [false, false, false, false],
                activation: false,
                hide: false,
                show: false,
            }),
    {
        KeySnapshot { select: [false, false, false, false], activation: false, hide: false, show: false }
    }
}

/// The slot that is active after a poll: see `chosen_slot`.
pub fn resolve_slot(keys: &KeySnapshot, party_len: usize, previous: usize) -> (slot: usize)
    ensures
        slot == chosen_slot(*keys, party_len as nat, previous as nat),
{
    let mut slot = previous;
    if keys.select[0] && party_len > 0 {
        slot = 0;
    }
    if keys.select[1] && party_len > 1 {
        slot = 1;
    }
    if keys.select[2] && party_len > 2 {
        slot = 2;
    }
    if keys.select[3] && party_len > 3 {
        slot = 3;
    }
    slot
}

/// Whether the display shows after a poll: see `visible_after`.
pub fn resolve_visibility(keys: &KeySnapshot, visible: bool) -> (shown: bool)
    ensures
        shown == visible_after(*keys, visible),
{
    if keys.hide {
        false
    } else if keys.show {
        true
    } else {
        visible
    }
}

/// Follows the activation key through one poll at `now`. Returns since when
/// the key counts as held from now on, and the length of the hold that this
/// poll found ended, if it found one.
pub fn track_hold(keys: &KeySnapshot, down_since: Option<Moment>, now: Moment) -> (out: (
    Option<Moment>,
    Option<u128>,
))
    ensures
        out.0 == hold_after(*keys, down_since, now),
        match out.1 {
            Some(held_ms) => released_hold(*keys, down_since, now) == Some(held_ms as nat),
            None => released_hold(*keys, down_since, now) is None,
        },
{
    match down_since {
        Some(since) => {
            if keys.activation {
                (Some(since), None)
            } else {
                (None, Some(now.millis_since(since)))
            }
        },
        None => {
            if keys.activation {
                (Some(now), None)
            } else {
                (None, None)
            }
        },
    }
}

/// A key of a slot that the party does not have changes nothing: with no
/// other slot key down, the active slot stays as it was.
pub proof fn lemma_missing_slot_is_ignored(keys: KeySnapshot, party_len: nat, previous: nat)
    requires
        forall|k: int| 0 <= k < 4 && keys.select[k] ==> k >= party_len,
    ensures
        chosen_slot(keys, party_len, previous) == previous,
{
}

/// Whether a key of a slot that the party does not have is down or up makes
/// no difference to the slot that is active after the poll.
pub proof fn lemma_missing_slot_key_is_inert(
    keys: KeySnapshot,
    other: KeySnapshot,
    party_len: nat,
    previous: nat,
    key: int,
)
    requires
        0 <= key < 4,
        key >= party_len,
        forall|k: int| 0 <= k < 4 && k != key ==> keys.select[k] == other.select[k],
    ensures
        chosen_slot(keys, party_len, previous) == chosen_slot(other, party_len, previous),
{
}

/// The active slot after a poll is either the one before or a slot of the
/// party.
pub proof fn lemma_chosen_slot_in_party(keys: KeySnapshot, party_len: nat, previous: nat)
    ensures
        chosen_slot(keys, party_len, previous) == previous || chosen_slot(keys, party_len, previous)
            < party_len,
{
}

} // verus!

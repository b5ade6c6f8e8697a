//! The three-state tracker that remembers whether every child carries a key.
use vstd::prelude::*;

verus! {

/// Cached knowledge about whether every child of a list carries a key.
#[derive(Clone, Copy, Debug, PartialEq, Eq, Structural)]
pub enum FullyKeyedState {
    KnownFullyKeyed,
    KnownMissingKeys,
    Unknown,
}

/// The state after a keyed-aware append of a child whose key presence is `has_key`.
pub open spec fn append_transition(s: FullyKeyedState, has_key: bool) -> FullyKeyedState {
    if s == FullyKeyedState::KnownFullyKeyed && !has_key {
        FullyKeyedState::KnownMissingKeys
    } else {
        s
    }
}

/// The state after a run of keyed-aware appends, one per entry of `keys`.
pub open spec fn appends_transition(s: FullyKeyedState, keys: Seq<bool>) -> FullyKeyedState
    decreases keys.len(),
{
    if keys.len() == 0 {
        s
    } else {
        append_transition(appends_transition(s, keys.drop_last()), keys.last())
    }
}

/// The state that a full scan caches.
pub open spec fn scanned_state(all_keyed: bool) -> FullyKeyedState {
    if all_keyed {
        FullyKeyedState::KnownFullyKeyed
    } else {
        FullyKeyedState::KnownMissingKeys
    }
}

/// A known state is accurate for children whose key scan gives `all_keyed`.
pub open spec fn state_consistent(s: FullyKeyedState, all_keyed: bool) -> bool {
    &&& s == FullyKeyedState::KnownFullyKeyed ==> all_keyed
    &&& s == FullyKeyedState::KnownMissingKeys ==> !all_keyed
}

/// Computes the state after a keyed-aware append.
pub fn next_state(s: FullyKeyedState, has_key: bool) -> (r: FullyKeyedState)
    ensures
        r == append_transition(s, has_key),
{
    if s == FullyKeyedState::KnownFullyKeyed && !has_key {
        FullyKeyedState::KnownMissingKeys
    } else {
        s
    }
}

/// Appending only keyed children never leaves the fully-keyed state.
pub proof fn lemma_keyed_appends_stay_fully_keyed(keys: Seq<bool>)
    requires
        forall|i: int| 0 <= i < keys.len() ==> #[trigger] keys[i],
    ensures
        appends_transition(FullyKeyedState::KnownFullyKeyed, keys)
            == FullyKeyedState::KnownFullyKeyed,
    decreases keys.len(),
{
    if keys.len() > 0 {
        lemma_keyed_appends_stay_fully_keyed(keys.drop_last());
    }
}

/// Once a keyless child is appended to a fully keyed list, the state is
/// "missing keys", and further appends keep it there.
pub proof fn lemma_keyless_append_is_sticky(keys: Seq<bool>)
    requires
        exists|i: int| 0 <= i < keys.len() && !#[trigger] keys[i],
    ensures
        appends_transition(FullyKeyedState::KnownFullyKeyed, keys)
            == FullyKeyedState::KnownMissingKeys,
    decreases keys.len(),
{
    let i = choose|i: int| 0 <= i < keys.len() && !#[trigger] keys[i];
    if i == keys.len() - 1 {
        lemma_states_reachable(keys.drop_last());
    } else {
        assert(!keys.drop_last()[i]);
        lemma_keyless_append_is_sticky(keys.drop_last());
    }
}

/// From "missing keys", keyed-aware appends stay at "missing keys".
pub proof fn lemma_missing_keys_stays_missing(keys: Seq<bool>)
    ensures
        appends_transition(FullyKeyedState::KnownMissingKeys, keys)
            == FullyKeyedState::KnownMissingKeys,
    decreases keys.len(),
{
    if keys.len() > 0 {
        lemma_missing_keys_stays_missing(keys.drop_last());
    }
}

/// Appends starting from the fully-keyed state only reach known states.
proof fn lemma_states_reachable(keys: Seq<bool>)
    ensures
        appends_transition(FullyKeyedState::KnownFullyKeyed, keys)
            != FullyKeyedState::Unknown,
    decreases keys.len(),
{
    if keys.len() > 0 {
        lemma_states_reachable(keys.drop_last());
    }
}

} // verus!

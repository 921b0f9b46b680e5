//! The room-state accessor: resolves values out of compressed state
//! snapshots, answers visibility questions against a snapshot with two
//! bounded decision caches, and applies the redaction and join policies.
//!
//! Reading the store (the current state hash of a room, the layers of a
//! snapshot, an event's content) is left to the caller, which hands the
//! results in as plain values.

use vstd::prelude::*;
use crate::compressed::{
    decode_entries, decoded, find_state_key, full_state_layer, lookup_key, CompressedStateEvent,
    ShortEventId, ShortStateHash, ShortStateKey, StateError,
};
use crate::lru::{
    cache_capacity, cache_clear, cache_entries, cache_get, cache_insert, cache_len, cache_new,
    DecisionCache,
};
use crate::visibility::{
    history_visibility, server_decision, server_visibility, user_decision, user_visibility,
    visibility_or_shared, HistoryVisibility, MembershipState,
};

verus! {

/// The state accessor and its two visibility caches, one keyed by server
/// name and one by user id, both together with a state hash.
pub struct Service {
    pub server_visibility_cache: DecisionCache,
    pub user_visibility_cache: DecisionCache,
}

/// The first step of a visibility query.
#[derive(Clone, Copy, Debug, PartialEq, Eq, Structural)]
pub enum VisibilityLookup {
    /// The answer, without any state resolution.
    Decided(bool),
    /// Nothing is cached: the caller resolves the state at this hash and
    /// completes the query.
    Resolve(ShortStateHash),
}

/// The outcome of the first step of a visibility query for the key
/// `(principal, state hash)` against `entries`: an event whose state hash is
/// unknown is visible.
pub open spec fn lookup_outcome(
    entries: Map<(Seq<char>, u64), bool>,
    principal: Seq<char>,
    shortstatehash: Option<ShortStateHash>,
) -> VisibilityLookup {
    match shortstatehash {
        None => VisibilityLookup::Decided(true),
        Some(h) => if entries.contains_key((principal, h)) {
            VisibilityLookup::Decided(entries[(principal, h)])
        } else {
            VisibilityLookup::Resolve(h)
        },
    }
}

/// `after` is `before` with the decision `v` for `(principal, hash)` recorded.
pub open spec fn decision_recorded(
    before: DecisionCache,
    after: DecisionCache,
    principal: Seq<char>,
    hash: ShortStateHash,
    v: bool,
) -> bool {
    &&& cache_capacity(after) == cache_capacity(before)
    &&& cache_entries(after).submap_of(cache_entries(before).insert((principal, hash), v))
    &&& cache_capacity(before) > 0 ==> cache_entries(after).contains_key((principal, hash))
        && cache_entries(after)[(principal, hash)] == v
}

/// Once a decision is recorded for a `(principal, state hash)` key in a cache
/// with room for one entry, a query for that key returns the recorded
/// decision and asks for no state resolution.
pub proof fn lemma_recorded_decision_is_reused(
    before: DecisionCache,
    after: DecisionCache,
    principal: Seq<char>,
    hash: ShortStateHash,
    v: bool,
)
    requires
        decision_recorded(before, after, principal, hash, v),
        cache_capacity(before) > 0,
    ensures
        lookup_outcome(cache_entries(after), principal, Some(hash)) == VisibilityLookup::Decided(v),
{
}

/// The pairs of state keys and resolved event ids, in order, of the first
/// `n` entries; an entry whose event id did not resolve is left out.
pub open spec fn resolved_ids(
    shortids: Seq<(ShortStateKey, ShortEventId)>,
    event_ids: Seq<Option<String>>,
    n: int,
) -> Seq<(ShortStateKey, Seq<char>)>
    decreases n,
{
    if n <= 0 {
        Seq::empty()
    } else {
        let rest = resolved_ids(shortids, event_ids, n - 1);
        match event_ids[n - 1] {
            Some(id) => rest.push((shortids[n - 1].0, id@)),
            None => rest,
        }
    }
}

/// A state event as the full-state map needs it: its type and, for a state
/// event, its state key.
#[derive(Clone, Debug)]
pub struct StatePdu {
    pub kind: String,
    pub state_key: Option<String>,
}

/// The `((type, state key), position)` of each of the first `n` events that
/// has a state key, in order.
pub open spec fn keyed_events(pdus: Seq<StatePdu>, n: int) -> Seq<((Seq<char>, Seq<char>), usize)>
    decreases n,
{
    if n <= 0 {
        Seq::empty()
    } else {
        let rest = keyed_events(pdus, n - 1);
        match pdus[n - 1].state_key {
            Some(k) => rest.push(((pdus[n - 1].kind@, k@), (n - 1) as usize)),
            None => rest,
        }
    }
}

pub open spec fn keyed_events_view(v: Seq<((String, String), usize)>) -> Seq<
    ((Seq<char>, Seq<char>), usize),
> {
    v.map_values(|e: ((String, String), usize)| ((e.0.0@, e.0.1@), e.1))
}

pub open spec fn keyed_ids_view(v: Seq<(ShortStateKey, String)>) -> Seq<(ShortStateKey, Seq<char>)> {
    v.map_values(|p: (ShortStateKey, String)| (p.0, p.1@))
}

impl Service {
    /// A state accessor with empty caches of the given capacities.
    pub fn build(server_capacity: usize, user_capacity: usize) -> (r: Service)
        ensures
            cache_entries(r.server_visibility_cache).is_empty(),
            cache_entries(r.user_visibility_cache).is_empty(),
            cache_capacity(r.server_visibility_cache) == server_capacity,
            cache_capacity(r.user_visibility_cache) == user_capacity,
    {
        Service {
            server_visibility_cache: cache_new(server_capacity),
            user_visibility_cache: cache_new(user_capacity),
        }
    }

    /// Empties both visibility caches.
    pub fn clear_cache(&mut self)
        ensures
            cache_entries(final(self).server_visibility_cache).is_empty(),
            cache_entries(final(self).user_visibility_cache).is_empty(),
            cache_capacity(final(self).server_visibility_cache) == cache_capacity(
                old(self).server_visibility_cache,
            ),
            cache_capacity(final(self).user_visibility_cache) == cache_capacity(
                old(self).user_visibility_cache,
            ),
    {
        cache_clear(&mut self.server_visibility_cache);
        cache_clear(&mut self.user_visibility_cache);
    }

    /// The number of entries of the server cache and of the user cache.
    pub fn memory_usage(&self) -> (r: (usize, usize))
        ensures
            r.0 == cache_entries(self.server_visibility_cache).len(),
            r.1 == cache_entries(self.user_visibility_cache).len(),
    {
        (cache_len(&self.server_visibility_cache), cache_len(&self.user_visibility_cache))
    }

    /// Pairs each state key of a snapshot with the full id of its event:
    /// `shortids` holds the snapshot's decoded entries and `event_ids` the
    /// resolution of each entry's short event id. Entries that did not
    /// resolve are left out.
    pub fn state_full_ids(
        shortids: &Vec<(ShortStateKey, ShortEventId)>,
        event_ids: &Vec<Option<String>>,
    ) -> (r: Vec<(ShortStateKey, String)>)
        requires
            shortids@.len() == event_ids@.len(),
        ensures
            keyed_ids_view(r@) == resolved_ids(shortids@, event_ids@, shortids@.len() as int),
    {
        let mut r: Vec<(ShortStateKey, String)> = Vec::new();
        let mut i: usize = 0;
        while i < shortids.len()
            invariant
                i <= shortids@.len(),
                shortids@.len() == event_ids@.len(),
                keyed_ids_view(r@) == resolved_ids(shortids@, event_ids@, i as int),
            decreases shortids@.len() - i,
        {
            match &event_ids[i] {
                Some(id) => {
                    let ghost before = keyed_ids_view(r@);
                    r.push((shortids[i].0, id.clone()));
                    assert(keyed_ids_view(r@) =~= before.push((shortids@[i as int].0, id@)));
                },
                None => {},
            }
            i = i + 1;
        }
        r
    }

    /// Keys the events of a snapshot by type and state key: each entry pairs
    /// `(type, state key)` with the event's position in `pdus`. Events
    /// without a state key are left out.
    pub fn state_full(pdus: &Vec<StatePdu>) -> (r: Vec<((String, String), usize)>)
        ensures
            keyed_events_view(r@) == keyed_events(pdus@, pdus@.len() as int),
    {
        let mut r: Vec<((String, String), usize)> = Vec::new();
        let mut i: usize = 0;
        while i < pdus.len()
            invariant
                i <= pdus@.len(),
                keyed_events_view(r@) == keyed_events(pdus@, i as int),
            decreases pdus@.len() - i,
        {
            let pdu = &pdus[i];
            match &pdu.state_key {
                Some(k) => {
                    let ghost before = keyed_events_view(r@);
                    r.push(((pdu.kind.clone(), k.clone()), i));
                    assert(keyed_events_view(r@) =~= before.push(((pdu.kind@, k@), i)));
                },
                None => {},
            }
            i = i + 1;
        }
        r
    }

    /// The decoded `(short state key, short event id)` pairs of the full
    /// state of a snapshot stored as `layers`.
    pub fn state_full_shortids(layers: &Vec<Vec<CompressedStateEvent>>) -> (r: Result<
        Vec<(ShortStateKey, ShortEventId)>,
        StateError,
    >)
        ensures
            layers@.len() == 0 ==> r == Err::<Vec<(ShortStateKey, ShortEventId)>, StateError>(
                StateError::MissingState,
            ),
            layers@.len() > 0 ==> r.is_ok() && r.unwrap()@ == decoded(layers@.last()@),
    {
        let full = full_state_layer(layers)?;
        Ok(decode_entries(full))
    }

    /// The short event id that the snapshot stored as `layers` holds for
    /// `shortstatekey`.
    pub fn state_get_id(layers: &Vec<Vec<CompressedStateEvent>>, shortstatekey: ShortStateKey) -> (r:
        Result<ShortEventId, StateError>)
        ensures
            layers@.len() == 0 ==> r == Err::<ShortEventId, StateError>(StateError::MissingState),
            layers@.len() > 0 ==> match lookup_key(layers@.last()@, shortstatekey) {
                Some(e) => r == Ok::<ShortEventId, StateError>(e),
                None => r == Err::<ShortEventId, StateError>(StateError::NoStateKey),
            },
    {
        let full = full_state_layer(layers)?;
        match find_state_key(full, shortstatekey) {
            Some(e) => Ok(e),
            None => Err(StateError::NoStateKey),
        }
    }

    /// The first step of "may the server `origin` see this event":
    /// `shortstatehash` is the lookup of the event's state hash. Answers from
    /// the cache where it can, and otherwise asks for resolution.
    pub fn server_can_see_event(&mut self, origin: &str, shortstatehash: Option<ShortStateHash>) -> (r:
        VisibilityLookup)
        ensures
            r == lookup_outcome(
                cache_entries(old(self).server_visibility_cache),
                origin@,
                shortstatehash,
            ),
            cache_entries(final(self).server_visibility_cache) == cache_entries(
                old(self).server_visibility_cache,
            ),
            cache_capacity(final(self).server_visibility_cache) == cache_capacity(
                old(self).server_visibility_cache,
            ),
            final(self).user_visibility_cache == old(self).user_visibility_cache,
    {
        match shortstatehash {
            None => VisibilityLookup::Decided(true),
            Some(h) => {
                let key = (origin.to_owned(), h);
                match cache_get(&mut self.server_visibility_cache, &key) {
                    Some(v) => VisibilityLookup::Decided(v),
                    None => VisibilityLookup::Resolve(h),
                }
            },
        }
    }

    /// Completes a server visibility query at `shortstatehash`: `visibility`
    /// is the lookup of the history-visibility content at that state, and
    /// `memberships` the lookups, at that state, of the membership of each
    /// current member of the room on `origin`. Records the decision.
    pub fn server_can_see_event_at(
        &mut self,
        origin: &str,
        shortstatehash: ShortStateHash,
        visibility: Option<HistoryVisibility>,
        memberships: &Vec<Option<MembershipState>>,
    ) -> (r: bool)
        ensures
            r == server_decision(visibility_or_shared(visibility), memberships@),
            decision_recorded(
                old(self).server_visibility_cache,
                final(self).server_visibility_cache,
                origin@,
                shortstatehash,
                r,
            ),
            final(self).user_visibility_cache == old(self).user_visibility_cache,
    {
        let v = server_visibility(history_visibility(visibility), memberships);
        cache_insert(&mut self.server_visibility_cache, (origin.to_owned(), shortstatehash), v);
        v
    }

    /// The first step of "may the user `user_id` see this event", as
    /// [`Service::server_can_see_event`] is for a server.
    pub fn user_can_see_event(&mut self, user_id: &str, shortstatehash: Option<ShortStateHash>) -> (r:
        VisibilityLookup)
        ensures
            r == lookup_outcome(
                cache_entries(old(self).user_visibility_cache),
                user_id@,
                shortstatehash,
            ),
            cache_entries(final(self).user_visibility_cache) == cache_entries(
                old(self).user_visibility_cache,
            ),
            cache_capacity(final(self).user_visibility_cache) == cache_capacity(
                old(self).user_visibility_cache,
            ),
            final(self).server_visibility_cache == old(self).server_visibility_cache,
    {
        match shortstatehash {
            None => VisibilityLookup::Decided(true),
            Some(h) => {
                let key = (user_id.to_owned(), h);
                match cache_get(&mut self.user_visibility_cache, &key) {
                    Some(v) => VisibilityLookup::Decided(v),
                    None => VisibilityLookup::Resolve(h),
                }
            },
        }
    }

    /// Completes a user visibility query at `shortstatehash`:
    /// `currently_member` says whether the user is joined now, `visibility`
    /// is the lookup of the history-visibility content at that state, and
    /// `membership` the lookup of the user's membership there. Records the
    /// decision.
    pub fn user_can_see_event_at(
        &mut self,
        user_id: &str,
        shortstatehash: ShortStateHash,
        currently_member: bool,
        visibility: Option<HistoryVisibility>,
        membership: Option<MembershipState>,
    ) -> (r: bool)
        ensures
            r == user_decision(visibility_or_shared(visibility), currently_member, membership),
            decision_recorded(
                old(self).user_visibility_cache,
                final(self).user_visibility_cache,
                user_id@,
                shortstatehash,
                r,
            ),
            final(self).server_visibility_cache == old(self).server_visibility_cache,
    {
        let v = user_visibility(history_visibility(visibility), currently_member, membership);
        cache_insert(&mut self.user_visibility_cache, (user_id.to_owned(), shortstatehash), v);
        v
    }
}

} // verus!

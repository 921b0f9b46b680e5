//! History visibility: which servers and users may see an event, judged
//! against the room state at that event, and the two bounded caches that
//! memoize these decisions per `(principal, state hash)`.

use vstd::prelude::*;
use crate::ids::{belongs_to, belongs_to_server};

verus! {

/// The room's history-visibility policy.
#[derive(Clone, Copy, Debug, PartialEq, Eq, Structural)]
pub enum HistoryVisibility {
    /// Members see events from the point they were invited.
    Invited,
    /// Members see events from the point they joined.
    Joined,
    /// Current members see all history.
    Shared,
    /// Anyone may see the history.
    WorldReadable,
    /// A value this server does not recognise.
    Unknown,
}

/// A user's membership in a room.
#[derive(Clone, Copy, Debug, PartialEq, Eq, Structural)]
pub enum MembershipState {
    Ban,
    Invite,
    Join,
    Knock,
    Leave,
    /// A value this server does not recognise.
    Unknown,
}

/// The membership a state lookup stands for: a missing member event means
/// the user has left.
pub open spec fn membership_or_leave(content: Option<MembershipState>) -> MembershipState {
    match content {
        Some(m) => m,
        None => MembershipState::Leave,
    }
}

/// The policy a state lookup stands for: a room without the event is shared.
pub open spec fn visibility_or_shared(content: Option<HistoryVisibility>) -> HistoryVisibility {
    match content {
        Some(v) => v,
        None => HistoryVisibility::Shared,
    }
}

pub open spec fn was_joined(m: MembershipState) -> bool {
    m == MembershipState::Join
}

pub open spec fn was_invited(m: MembershipState) -> bool {
    m == MembershipState::Join || m == MembershipState::Invite
}

/// Whether a server whose members held `memberships` at the event's state may
/// see the event under `hv`.
pub open spec fn server_decision(hv: HistoryVisibility, memberships: Seq<Option<MembershipState>>) -> bool {
    match hv {
        HistoryVisibility::WorldReadable | HistoryVisibility::Shared => true,
        HistoryVisibility::Invited => exists|i: int|
            0 <= i < memberships.len() && was_invited(membership_or_leave(memberships[i])),
        HistoryVisibility::Joined => exists|i: int|
            0 <= i < memberships.len() && was_joined(membership_or_leave(memberships[i])),
        HistoryVisibility::Unknown => false,
    }
}

/// Whether a user may see an event under `hv`, given whether they are a
/// member now and what their membership was at the event's state.
pub open spec fn user_decision(
    hv: HistoryVisibility,
    currently_member: bool,
    membership: Option<MembershipState>,
) -> bool {
    match hv {
        HistoryVisibility::WorldReadable => true,
        HistoryVisibility::Shared => currently_member,
        HistoryVisibility::Invited => was_invited(membership_or_leave(membership)),
        HistoryVisibility::Joined => was_joined(membership_or_leave(membership)),
        HistoryVisibility::Unknown => false,
    }
}

/// Whether a user may see the current state events of a room.
pub open spec fn state_events_decision(
    is_joined: bool,
    hv: HistoryVisibility,
    is_invited: bool,
) -> bool {
    if is_joined {
        true
    } else {
        match hv {
            HistoryVisibility::Invited => is_invited,
            HistoryVisibility::WorldReadable => true,
            _ => false,
        }
    }
}

/// The membership that a member-event lookup stands for.
pub fn user_membership(content: Option<MembershipState>) -> (r: MembershipState)
    ensures
        r == membership_or_leave(content),
{
    match content {
        Some(m) => m,
        None => MembershipState::Leave,
    }
}

/// The user was a joined member at this state.
pub fn user_was_joined(content: Option<MembershipState>) -> (r: bool)
    ensures
        r == was_joined(membership_or_leave(content)),
{
    user_membership(content) == MembershipState::Join
}

/// The user was an invited or joined member at this state.
pub fn user_was_invited(content: Option<MembershipState>) -> (r: bool)
    ensures
        r == was_invited(membership_or_leave(content)),
{
    let s = user_membership(content);
    s == MembershipState::Join || s == MembershipState::Invite
}

/// The history visibility that a lookup of its state event stands for.
pub fn history_visibility(content: Option<HistoryVisibility>) -> (r: HistoryVisibility)
    ensures
        r == visibility_or_shared(content),
{
    match content {
        Some(v) => v,
        None => HistoryVisibility::Shared,
    }
}

/// The current members of a room that belong to `server`, in order.
pub fn members_of_server(members: &Vec<String>, server: &str) -> (r: Vec<String>)
    ensures
        r@.map_values(|m: String| m@) == members@.map_values(|m: String| m@).filter(
            |m: Seq<char>| belongs_to(m, server@),
        ),
{
    let ghost view = members@.map_values(|m: String| m@);
    let ghost pred = |m: Seq<char>| belongs_to(m, server@);
    let mut r: Vec<String> = Vec::new();
    let mut i: usize = 0;
    while i < members.len()
        invariant
            i <= members@.len(),
            view == members@.map_values(|m: String| m@),
            pred == (|m: Seq<char>| belongs_to(m, server@)),
            r@.map_values(|m: String| m@) == view.take(i as int).filter(pred),
        decreases members@.len() - i,
    {
        let m = &members[i];
        proof {
            assert(view.take(i + 1) == view.take(i as int).push(view[i as int]));
            view.take(i as int).lemma_filter_push(view[i as int], pred);
        }
        if belongs_to_server(m.as_str(), server) {
            r.push(m.clone());
            assert(r@.map_values(|m: String| m@) =~= view.take(i as int).filter(pred).push(
                view[i as int],
            ));
        }
        i = i + 1;
    }
    assert(view.take(members@.len() as int) == view);
    r
}

/// Decides whether a server may see an event: `memberships` holds, for each
/// current member of the room on that server, the lookup of their membership
/// at the event's state.
pub fn server_visibility(hv: HistoryVisibility, memberships: &Vec<Option<MembershipState>>) -> (r:
    bool)
    ensures
        r == server_decision(hv, memberships@),
{
    match hv {
        HistoryVisibility::WorldReadable | HistoryVisibility::Shared => true,
        HistoryVisibility::Invited | HistoryVisibility::Joined => {
            assert(hv == HistoryVisibility::Invited || hv == HistoryVisibility::Joined);
            let mut i: usize = 0;
            while i < memberships.len()
                invariant
                    i <= memberships@.len(),
                    hv == HistoryVisibility::Invited || hv == HistoryVisibility::Joined,
                    hv == HistoryVisibility::Invited ==> forall|j: int|
                        0 <= j < i ==> !was_invited(membership_or_leave(memberships@[j])),
                    hv == HistoryVisibility::Joined ==> forall|j: int|
                        0 <= j < i ==> !was_joined(membership_or_leave(memberships@[j])),
                decreases memberships@.len() - i,
            {
                let m = memberships[i];
                if hv == HistoryVisibility::Invited {
                    if user_was_invited(m) {
                        assert(was_invited(membership_or_leave(memberships@[i as int])));
                        return true;
                    }
                } else {
                    if user_was_joined(m) {
                        assert(was_joined(membership_or_leave(memberships@[i as int])));
                        return true;
                    }
                }
                i = i + 1;
            }
            false
        },
        HistoryVisibility::Unknown => false,
    }
}

/// Decides whether a user may see an event under `hv`.
pub fn user_visibility(
    hv: HistoryVisibility,
    currently_member: bool,
    membership: Option<MembershipState>,
) -> (r: bool)
    ensures
        r == user_decision(hv, currently_member, membership),
{
    match hv {
        HistoryVisibility::WorldReadable => true,
        HistoryVisibility::Shared => currently_member,
        HistoryVisibility::Invited => user_was_invited(membership),
        HistoryVisibility::Joined => user_was_joined(membership),
        HistoryVisibility::Unknown => false,
    }
}

/// Whether a user may see the current state events of a room: joined members
/// always may; otherwise `visibility` (the room's current policy lookup)
/// decides, with `is_invited` for an invited-only room.
pub fn user_can_see_state_events(
    is_joined: bool,
    visibility: Option<HistoryVisibility>,
    is_invited: bool,
) -> (r: bool)
    ensures
        r == state_events_decision(is_joined, visibility_or_shared(visibility), is_invited),
{
    if is_joined {
        return true;
    }
    match history_visibility(visibility) {
        HistoryVisibility::Invited => is_invited,
        HistoryVisibility::WorldReadable => true,
        _ => false,
    }
}

} // verus!

//! Room policies read from state: who may redact an event, how a room may be
//! joined, and the defaults that stand for missing state.

use vstd::prelude::*;
use crate::ids::{server_name, server_of, strings_view};
use crate::state_accessor::Service;
use crate::visibility::HistoryVisibility;

verus! {

/// The kind of the event that a redaction targets, as far as the redaction
/// rules care.
#[derive(Clone, Copy, Debug, PartialEq, Eq, Structural)]
pub enum RedactedKind {
    /// `m.room.create`: the room's identity.
    RoomCreate,
    /// `m.room.server_acl`: the room's server access list.
    RoomServerAcl,
    /// Any other event.
    Other,
}

/// The event that a redaction targets.
#[derive(Clone, Debug)]
pub struct RedactedEvent {
    pub kind: RedactedKind,
    pub sender: String,
}

/// What the room's power levels grant the redacting user.
#[derive(Clone, Copy, Debug, PartialEq, Eq, Structural)]
pub struct RedactPower {
    /// The user may redact events of others.
    pub redact_others: bool,
    /// The user may redact their own events.
    pub redact_own: bool,
}

/// Why a redaction check did not come to a decision.
#[derive(Clone, Copy, Debug, PartialEq, Eq, Structural)]
pub enum RedactError {
    /// Redacting the create event is never allowed.
    ForbiddenCreate,
    /// Redacting the server access list is never allowed.
    ForbiddenServerAcl,
    /// The room has neither power levels nor a create event.
    BadDatabase,
}

/// The redaction rule. `redacted` is the lookup of the targeted event,
/// `power` that of the room's power levels for `sender`, `creator` that of
/// the sender of the room's create event.
pub open spec fn redact_decision(
    redacted: Option<(RedactedKind, Seq<char>)>,
    sender: Seq<char>,
    power: Option<RedactPower>,
    creator: Option<Seq<char>>,
    federation: bool,
) -> Result<bool, RedactError> {
    if redacted is Some && redacted.unwrap().0 == RedactedKind::RoomCreate {
        Err(RedactError::ForbiddenCreate)
    } else if redacted is Some && redacted.unwrap().0 == RedactedKind::RoomServerAcl {
        Err(RedactError::ForbiddenServerAcl)
    } else if power is Some {
        let p = power.unwrap();
        Ok(p.redact_others || p.redact_own && match redacted {
            Some(e) => if federation {
                server_of(e.1) == server_of(sender)
            } else {
                e.1 == sender
            },
            None => false,
        })
    } else if creator is Some {
        Ok(creator.unwrap() == sender || (redacted is Some && redacted.unwrap().1 == sender))
    } else {
        Err(RedactError::BadDatabase)
    }
}

pub open spec fn redacted_view(e: Option<RedactedEvent>) -> Option<(RedactedKind, Seq<char>)> {
    match e {
        Some(e) => Some((e.kind, e.sender@)),
        None => None,
    }
}

pub open spec fn string_opt_view(s: Option<String>) -> Option<Seq<char>> {
    match s {
        Some(s) => Some(s@),
        None => None,
    }
}

/// Redacting the create event or the server access list is refused whatever
/// the sender's power, and a sender who may redact the events of others may
/// redact any other event.
pub proof fn lemma_redaction_rules(
    redacted: Option<(RedactedKind, Seq<char>)>,
    sender: Seq<char>,
    power: Option<RedactPower>,
    creator: Option<Seq<char>>,
    federation: bool,
)
    ensures
        redacted is Some && redacted.unwrap().0 == RedactedKind::RoomCreate ==> redact_decision(
            redacted,
            sender,
            power,
            creator,
            federation,
        ) == Err::<bool, RedactError>(RedactError::ForbiddenCreate),
        redacted is Some && redacted.unwrap().0 == RedactedKind::RoomServerAcl ==> redact_decision(
            redacted,
            sender,
            power,
            creator,
            federation,
        ) == Err::<bool, RedactError>(RedactError::ForbiddenServerAcl),
        (redacted is None || redacted.unwrap().0 == RedactedKind::Other) && power is Some
            && power.unwrap().redact_others ==> redact_decision(
            redacted,
            sender,
            power,
            creator,
            federation,
        ) == Ok::<bool, RedactError>(true),
{
}

/// The join rule of a room.
#[derive(Clone, Debug)]
pub enum JoinRule {
    Invite,
    Knock,
    Private,
    Public,
    Restricted(Vec<AllowRule>),
    KnockRestricted(Vec<AllowRule>),
    /// A rule this server does not recognise.
    Unknown,
}

/// One condition of a restricted join rule.
#[derive(Clone, Debug)]
pub enum AllowRule {
    /// Members of this room may join.
    RoomMembership(String),
    /// A condition this server does not act on.
    Other,
}

/// The join rule as a room directory shows it.
#[derive(Clone, Copy, Debug, PartialEq, Eq, Structural)]
pub enum SpaceRoomJoinRule {
    Invite,
    Knock,
    Private,
    Public,
    Restricted,
    KnockRestricted,
    Unknown,
}

/// The guest-access policy of a room.
#[derive(Clone, Copy, Debug, PartialEq, Eq, Structural)]
pub enum GuestAccess {
    CanJoin,
    Forbidden,
    /// A value this server does not recognise.
    Unknown,
}

/// Why a value could not be read from a room's state.
#[derive(Clone, Copy, Debug, PartialEq, Eq, Structural)]
pub enum ContentError {
    /// The state event is missing or unreadable.
    MissingState,
    /// The state event holds no such value.
    NotFound,
}

/// The rooms that a list of allow rules names by membership, in order.
pub open spec fn allowed_rooms(rules: Seq<AllowRule>) -> Seq<Seq<char>>
    decreases rules.len(),
{
    if rules.len() == 0 {
        Seq::empty()
    } else {
        let rest = allowed_rooms(rules.drop_last());
        match rules.last() {
            AllowRule::RoomMembership(r) => rest.push(r@),
            AllowRule::Other => rest,
        }
    }
}

/// The rooms a join rule allows members of to join: those of its allow
/// rules for a restricted rule, none otherwise.
pub open spec fn join_rule_rooms(rule: JoinRule) -> Seq<Seq<char>> {
    match rule {
        JoinRule::Restricted(r) => allowed_rooms(r@),
        JoinRule::KnockRestricted(r) => allowed_rooms(r@),
        _ => Seq::empty(),
    }
}

pub open spec fn space_rule(rule: JoinRule) -> SpaceRoomJoinRule {
    match rule {
        JoinRule::Invite => SpaceRoomJoinRule::Invite,
        JoinRule::Knock => SpaceRoomJoinRule::Knock,
        JoinRule::Private => SpaceRoomJoinRule::Private,
        JoinRule::Public => SpaceRoomJoinRule::Public,
        JoinRule::Restricted(_) => SpaceRoomJoinRule::Restricted,
        JoinRule::KnockRestricted(_) => SpaceRoomJoinRule::KnockRestricted,
        JoinRule::Unknown => SpaceRoomJoinRule::Unknown,
    }
}

fn allow_rule_rooms(rules: &Vec<AllowRule>) -> (r: Vec<String>)
    ensures
        strings_view(r@) == allowed_rooms(rules@),
{
    let mut r: Vec<String> = Vec::with_capacity(1);
    let mut i: usize = 0;
    while i < rules.len()
        invariant
            i <= rules@.len(),
            strings_view(r@) == allowed_rooms(rules@.take(i as int)),
        decreases rules@.len() - i,
    {
        assert(rules@.take(i + 1).drop_last() == rules@.take(i as int));
        match &rules[i] {
            AllowRule::RoomMembership(room) => {
                r.push(room.clone());
                assert(strings_view(r@) =~= allowed_rooms(rules@.take(i as int)).push(room@));
            },
            AllowRule::Other => {},
        }
        i = i + 1;
    }
    assert(rules@.take(rules@.len() as int) == rules@);
    r
}

impl Service {
    /// Whether `sender` may redact the event `redacted` (the lookup of the
    /// targeted event). `power` is the lookup of the room's power levels,
    /// judged for `sender`; `creator` that of the sender of the room's create
    /// event. Over federation, redacting an event of a user on the sender's
    /// own server is redacting one's own event.
    pub fn user_can_redact(
        redacted: Option<RedactedEvent>,
        sender: &str,
        power: Option<RedactPower>,
        creator: Option<String>,
        federation: bool,
    ) -> (r: Result<bool, RedactError>)
        ensures
            r == redact_decision(
                redacted_view(redacted),
                sender@,
                power,
                string_opt_view(creator),
                federation,
            ),
    {
        let kind = match &redacted {
            Some(e) => Some(e.kind),
            None => None,
        };
        if kind == Some(RedactedKind::RoomCreate) {
            return Err(RedactError::ForbiddenCreate);
        }
        if kind == Some(RedactedKind::RoomServerAcl) {
            return Err(RedactError::ForbiddenServerAcl);
        }
        let sender_owned = sender.to_owned();
        match power {
            Some(p) => {
                if p.redact_others {
                    return Ok(true);
                }
                if !p.redact_own {
                    return Ok(false);
                }
                match &redacted {
                    Some(e) => if federation {
                        let a = server_name(e.sender.as_str());
                        let b = server_name(sender);
                        let same = match (a, b) {
                            (Some(x), Some(y)) => x == y,
                            (None, None) => true,
                            _ => false,
                        };
                        Ok(same)
                    } else {
                        Ok(e.sender == sender_owned)
                    },
                    None => Ok(false),
                }
            },
            None => match creator {
                Some(c) => {
                    if c == sender_owned {
                        return Ok(true);
                    }
                    match &redacted {
                        Some(e) => Ok(e.sender == sender_owned),
                        None => Ok(false),
                    }
                },
                None => Err(RedactError::BadDatabase),
            },
        }
    }

    /// The rooms whose members may join under `join_rule`: those named by
    /// the membership conditions of a restricted rule, none otherwise.
    pub fn allowed_room_ids(join_rule: &JoinRule) -> (r: Vec<String>)
        ensures
            strings_view(r@) == join_rule_rooms(*join_rule),
    {
        match join_rule {
            JoinRule::Restricted(rules) => allow_rule_rooms(rules),
            JoinRule::KnockRestricted(rules) => allow_rule_rooms(rules),
            _ => Vec::new(),
        }
    }

    /// The join rule of a room and the rooms it allows members of, from the
    /// lookup of its join-rules content; a room without one is invite-only.
    pub fn get_join_rule(content: &Option<JoinRule>) -> (r: (SpaceRoomJoinRule, Vec<String>))
        ensures
            content is None ==> r.0 == SpaceRoomJoinRule::Invite && r.1@.len() == 0,
            content is Some ==> r.0 == space_rule(content.unwrap()) && strings_view(r.1@)
                == join_rule_rooms(content.unwrap()),
    {
        match content {
            Some(rule) => {
                let space = match rule {
                    JoinRule::Invite => SpaceRoomJoinRule::Invite,
                    JoinRule::Knock => SpaceRoomJoinRule::Knock,
                    JoinRule::Private => SpaceRoomJoinRule::Private,
                    JoinRule::Public => SpaceRoomJoinRule::Public,
                    JoinRule::Restricted(_) => SpaceRoomJoinRule::Restricted,
                    JoinRule::KnockRestricted(_) => SpaceRoomJoinRule::KnockRestricted,
                    JoinRule::Unknown => SpaceRoomJoinRule::Unknown,
                };
                (space, Service::allowed_room_ids(rule))
            },
            None => (SpaceRoomJoinRule::Invite, Vec::new()),
        }
    }

    /// Whether a room's history is world readable, from the lookup of its
    /// history-visibility content; a room without one is not.
    pub fn is_world_readable(content: Option<HistoryVisibility>) -> (r: bool)
        ensures
            r == (content == Some(HistoryVisibility::WorldReadable)),
    {
        match content {
            Some(v) => v == HistoryVisibility::WorldReadable,
            None => false,
        }
    }

    /// Whether guests may join a room, from the lookup of its guest-access
    /// content; a room without one forbids it.
    pub fn guest_can_join(content: Option<GuestAccess>) -> (r: bool)
        ensures
            r == (content == Some(GuestAccess::CanJoin)),
    {
        match content {
            Some(g) => g == GuestAccess::CanJoin,
            None => false,
        }
    }

    /// The canonical alias of a room, from the lookup of its canonical-alias
    /// content (which may hold no alias).
    pub fn get_canonical_alias(content: Option<Option<String>>) -> (r: Result<String, ContentError>)
        ensures
            content is None ==> r == Err::<String, ContentError>(ContentError::MissingState),
            content == Some(None::<String>) ==> r == Err::<String, ContentError>(
                ContentError::NotFound,
            ),
            content is Some && content.unwrap() is Some ==> r == Ok::<String, ContentError>(
                content.unwrap().unwrap(),
            ),
    {
        match content {
            Some(Some(alias)) => Ok(alias),
            Some(None) => Err(ContentError::NotFound),
            None => Err(ContentError::MissingState),
        }
    }

    /// The type of a room, from the lookup of its create content (which may
    /// name no type).
    pub fn get_room_type(content: Option<Option<String>>) -> (r: Result<String, ContentError>)
        ensures
            content is None ==> r == Err::<String, ContentError>(ContentError::MissingState),
            content == Some(None::<String>) ==> r == Err::<String, ContentError>(
                ContentError::NotFound,
            ),
            content is Some && content.unwrap() is Some ==> r == Ok::<String, ContentError>(
                content.unwrap().unwrap(),
            ),
    {
        match content {
            Some(Some(t)) => Ok(t),
            Some(None) => Err(ContentError::NotFound),
            None => Err(ContentError::MissingState),
        }
    }
}

} // verus!

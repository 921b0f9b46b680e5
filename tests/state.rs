use federation_core::compressed::{
    compress_state_event, decode_entries, find_state_key, parse_compressed_state_event,
    StateError,
};
use federation_core::ids::{belongs_to_server, server_name};
use federation_core::room_lock::RoomLocks;
use federation_core::room_policy::{
    AllowRule, ContentError, GuestAccess, JoinRule, RedactError, RedactPower, RedactedEvent,
    RedactedKind, SpaceRoomJoinRule,
};
use federation_core::state_accessor::{Service, StatePdu, VisibilityLookup};
use federation_core::visibility::{
    members_of_server, server_visibility, user_can_see_state_events, user_membership,
    user_visibility, HistoryVisibility, MembershipState,
};

#[test]
fn server_name_is_after_first_colon() {
    assert_eq!(server_name("@alice:example.org"), Some("example.org".to_string()));
    assert_eq!(server_name("@bob:host:8448"), Some("host:8448".to_string()));
    assert_eq!(server_name("nocolon"), None);
    assert!(belongs_to_server("@alice:example.org", "example.org"));
    assert!(!belongs_to_server("@alice:example.org", "evil.org"));
    assert!(!belongs_to_server("@alice:example.org.evil", "example.org"));
}

#[test]
fn compressed_entry_layout_is_big_endian() {
    let e = compress_state_event(1, 2);
    assert_eq!(e, [0, 0, 0, 0, 0, 0, 0, 1, 0, 0, 0, 0, 0, 0, 0, 2]);
    let e = compress_state_event(0x0102030405060708, 0x1112131415161718);
    assert_eq!(
        e,
        [1, 2, 3, 4, 5, 6, 7, 8, 0x11, 0x12, 0x13, 0x14, 0x15, 0x16, 0x17, 0x18]
    );
}

#[test]
fn compressed_entry_round_trip() {
    for (k, v) in [(0u64, 0u64), (u64::MAX, 1), (1, u64::MAX), (u64::MAX, u64::MAX), (
        0x8000_0000_0000_0000,
        0x7fff_ffff_ffff_ffff,
    )] {
        assert_eq!(parse_compressed_state_event(compress_state_event(k, v)), (k, v));
    }
}

#[test]
fn state_lookup_uses_last_layer_and_first_match() {
    let layers: Vec<Vec<[u8; 16]>> = vec![];
    assert_eq!(Service::state_get_id(&layers, 1), Err(StateError::MissingState));
    assert_eq!(Service::state_full_shortids(&layers), Err(StateError::MissingState));

    let old = vec![compress_state_event(7, 70)];
    let full = vec![compress_state_event(3, 30), compress_state_event(7, 71)];
    let layers = vec![old, full.clone()];
    assert_eq!(Service::state_get_id(&layers, 7), Ok(71));
    assert_eq!(Service::state_get_id(&layers, 3), Ok(30));
    assert_eq!(Service::state_get_id(&layers, 4), Err(StateError::NoStateKey));
    assert_eq!(Service::state_full_shortids(&layers), Ok(vec![(3, 30), (7, 71)]));
    assert_eq!(decode_entries(&full), vec![(3, 30), (7, 71)]);
    assert_eq!(find_state_key(&full, 9), None);
}

#[test]
fn membership_defaults_to_leave() {
    assert_eq!(user_membership(None), MembershipState::Leave);
    assert_eq!(user_membership(Some(MembershipState::Ban)), MembershipState::Ban);
}

#[test]
fn server_visibility_rules() {
    let none: Vec<Option<MembershipState>> = vec![];
    assert!(server_visibility(HistoryVisibility::Shared, &none));
    assert!(server_visibility(HistoryVisibility::WorldReadable, &none));
    assert!(!server_visibility(HistoryVisibility::Unknown, &none));
    let invited = vec![None, Some(MembershipState::Invite)];
    assert!(server_visibility(HistoryVisibility::Invited, &invited));
    assert!(!server_visibility(HistoryVisibility::Joined, &invited));
    let joined = vec![Some(MembershipState::Leave), Some(MembershipState::Join)];
    assert!(server_visibility(HistoryVisibility::Joined, &joined));
    assert!(!server_visibility(HistoryVisibility::Joined, &none));
}

#[test]
fn members_of_server_filters_by_origin() {
    let members = vec![
        "@a:one.org".to_string(),
        "@b:two.org".to_string(),
        "@c:one.org".to_string(),
    ];
    assert_eq!(
        members_of_server(&members, "one.org"),
        vec!["@a:one.org".to_string(), "@c:one.org".to_string()]
    );
}

#[test]
fn user_visibility_rules() {
    assert!(user_visibility(HistoryVisibility::WorldReadable, false, None));
    assert!(user_visibility(HistoryVisibility::Shared, true, None));
    assert!(!user_visibility(HistoryVisibility::Shared, false, Some(MembershipState::Join)));
    assert!(user_visibility(HistoryVisibility::Invited, false, Some(MembershipState::Invite)));
    assert!(!user_visibility(HistoryVisibility::Joined, true, Some(MembershipState::Invite)));
    assert!(!user_visibility(HistoryVisibility::Unknown, true, Some(MembershipState::Join)));
}

#[test]
fn state_event_visibility_rules() {
    assert!(user_can_see_state_events(true, Some(HistoryVisibility::Joined), false));
    assert!(user_can_see_state_events(false, Some(HistoryVisibility::Invited), true));
    assert!(!user_can_see_state_events(false, Some(HistoryVisibility::Invited), false));
    assert!(user_can_see_state_events(false, Some(HistoryVisibility::WorldReadable), false));
    assert!(!user_can_see_state_events(false, None, true));
}

#[test]
fn visibility_cache_answers_repeated_queries() {
    let mut svc = Service::build(4, 4);
    assert_eq!(svc.server_can_see_event("a.org", None), VisibilityLookup::Decided(true));
    assert_eq!(svc.server_can_see_event("a.org", Some(9)), VisibilityLookup::Resolve(9));
    let v = svc.server_can_see_event_at(
        "a.org",
        9,
        Some(HistoryVisibility::Joined),
        &vec![Some(MembershipState::Leave)],
    );
    assert!(!v);
    for _ in 0..3 {
        assert_eq!(svc.server_can_see_event("a.org", Some(9)), VisibilityLookup::Decided(false));
    }
    assert_eq!(svc.server_can_see_event("b.org", Some(9)), VisibilityLookup::Resolve(9));

    assert_eq!(svc.user_can_see_event("@u:a.org", Some(9)), VisibilityLookup::Resolve(9));
    assert!(svc.user_can_see_event_at("@u:a.org", 9, true, None, None));
    assert_eq!(svc.user_can_see_event("@u:a.org", Some(9)), VisibilityLookup::Decided(true));

    svc.clear_cache();
    assert_eq!(svc.server_can_see_event("a.org", Some(9)), VisibilityLookup::Resolve(9));
    assert_eq!(svc.user_can_see_event("@u:a.org", Some(9)), VisibilityLookup::Resolve(9));
}

#[test]
fn visibility_cache_evicts_least_recent() {
    let mut svc = Service::build(1, 0);
    svc.server_can_see_event_at("a.org", 1, None, &vec![]);
    svc.server_can_see_event_at("a.org", 2, None, &vec![]);
    assert_eq!(svc.server_can_see_event("a.org", Some(1)), VisibilityLookup::Resolve(1));
    assert_eq!(svc.server_can_see_event("a.org", Some(2)), VisibilityLookup::Decided(true));
    svc.user_can_see_event_at("@u:a.org", 1, true, None, None);
    assert_eq!(svc.user_can_see_event("@u:a.org", Some(1)), VisibilityLookup::Resolve(1));
}

fn event(kind: RedactedKind, sender: &str) -> Option<RedactedEvent> {
    Some(RedactedEvent { kind, sender: sender.to_string() })
}

const ALL: RedactPower = RedactPower { redact_others: true, redact_own: true };
const OWN: RedactPower = RedactPower { redact_others: false, redact_own: true };
const NONE: RedactPower = RedactPower { redact_others: false, redact_own: false };

#[test]
fn redacting_create_or_acl_is_forbidden() {
    assert_eq!(
        Service::user_can_redact(event(RedactedKind::RoomCreate, "@a:x"), "@a:x", Some(ALL), None, false),
        Err(RedactError::ForbiddenCreate)
    );
    assert_eq!(
        Service::user_can_redact(
            event(RedactedKind::RoomServerAcl, "@a:x"),
            "@a:x",
            Some(ALL),
            Some("@a:x".to_string()),
            true
        ),
        Err(RedactError::ForbiddenServerAcl)
    );
}

#[test]
fn redaction_by_power_levels() {
    let other = event(RedactedKind::Other, "@b:y");
    assert_eq!(Service::user_can_redact(other.clone(), "@a:x", Some(ALL), None, false), Ok(true));
    assert_eq!(Service::user_can_redact(None, "@a:x", Some(ALL), None, false), Ok(true));
    assert_eq!(Service::user_can_redact(other.clone(), "@a:x", Some(OWN), None, false), Ok(false));
    assert_eq!(Service::user_can_redact(other.clone(), "@a:x", Some(NONE), None, false), Ok(false));
    let own = event(RedactedKind::Other, "@a:x");
    assert_eq!(Service::user_can_redact(own.clone(), "@a:x", Some(OWN), None, false), Ok(true));
    assert_eq!(Service::user_can_redact(own, "@a:x", Some(NONE), None, false), Ok(false));
    let same_server = event(RedactedKind::Other, "@c:x");
    assert_eq!(Service::user_can_redact(same_server.clone(), "@a:x", Some(OWN), None, true), Ok(true));
    assert_eq!(Service::user_can_redact(same_server, "@a:x", Some(OWN), None, false), Ok(false));
    assert_eq!(Service::user_can_redact(None, "@a:x", Some(OWN), None, true), Ok(false));
}

#[test]
fn redaction_falls_back_on_creator() {
    let other = event(RedactedKind::Other, "@b:y");
    assert_eq!(
        Service::user_can_redact(other.clone(), "@a:x", None, Some("@a:x".to_string()), false),
        Ok(true)
    );
    assert_eq!(
        Service::user_can_redact(other.clone(), "@b:y", None, Some("@a:x".to_string()), false),
        Ok(true)
    );
    assert_eq!(
        Service::user_can_redact(other.clone(), "@c:z", None, Some("@a:x".to_string()), false),
        Ok(false)
    );
    assert_eq!(Service::user_can_redact(other, "@a:x", None, None, false), Err(RedactError::BadDatabase));
}

#[test]
fn join_rule_defaults_and_allowed_rooms() {
    let (rule, rooms) = Service::get_join_rule(&None);
    assert_eq!(rule, SpaceRoomJoinRule::Invite);
    assert!(rooms.is_empty());
    let restricted = JoinRule::Restricted(vec![
        AllowRule::RoomMembership("!a:x".to_string()),
        AllowRule::Other,
        AllowRule::RoomMembership("!b:x".to_string()),
    ]);
    let (rule, rooms) = Service::get_join_rule(&Some(restricted));
    assert_eq!(rule, SpaceRoomJoinRule::Restricted);
    assert_eq!(rooms, vec!["!a:x".to_string(), "!b:x".to_string()]);
    let knock = JoinRule::KnockRestricted(vec![AllowRule::RoomMembership("!c:x".to_string())]);
    assert_eq!(Service::allowed_room_ids(&knock), vec!["!c:x".to_string()]);
    assert!(Service::allowed_room_ids(&JoinRule::Public).is_empty());
    assert_eq!(Service::get_join_rule(&Some(JoinRule::Public)).0, SpaceRoomJoinRule::Public);
}

#[test]
fn typed_getter_defaults() {
    assert!(!Service::is_world_readable(None));
    assert!(!Service::is_world_readable(Some(HistoryVisibility::Shared)));
    assert!(Service::is_world_readable(Some(HistoryVisibility::WorldReadable)));
    assert!(!Service::guest_can_join(None));
    assert!(!Service::guest_can_join(Some(GuestAccess::Forbidden)));
    assert!(Service::guest_can_join(Some(GuestAccess::CanJoin)));
    assert_eq!(Service::get_canonical_alias(None), Err(ContentError::MissingState));
    assert_eq!(Service::get_canonical_alias(Some(None)), Err(ContentError::NotFound));
    assert_eq!(
        Service::get_canonical_alias(Some(Some("#a:x".to_string()))),
        Ok("#a:x".to_string())
    );
    assert_eq!(Service::get_room_type(Some(None)), Err(ContentError::NotFound));
    assert_eq!(Service::get_room_type(Some(Some("m.space".to_string()))), Ok("m.space".to_string()));
}

#[test]
fn room_lock_is_exclusive() {
    let mut locks = RoomLocks::new();
    assert!(locks.lock("!a:x"));
    assert!(!locks.lock("!a:x"));
    assert!(locks.lock("!b:x"));
    assert!(locks.is_locked("!a:x"));
    locks.unlock("!a:x");
    assert!(!locks.is_locked("!a:x"));
    assert!(locks.is_locked("!b:x"));
    assert!(locks.lock("!a:x"));
}

#[test]
fn cache_entry_counts() {
    let mut svc = Service::build(2, 2);
    assert_eq!(svc.memory_usage(), (0, 0));
    svc.server_can_see_event_at("a.org", 1, None, &vec![]);
    svc.server_can_see_event_at("b.org", 1, None, &vec![]);
    svc.server_can_see_event_at("c.org", 1, None, &vec![]);
    svc.user_can_see_event_at("@u:a.org", 1, false, None, None);
    assert_eq!(svc.memory_usage(), (2, 1));
}

#[test]
fn state_full_ids_skips_unresolved() {
    let shortids = vec![(1u64, 10u64), (2, 20), (3, 30)];
    let ids = vec![Some("$x".to_string()), None, Some("$z".to_string())];
    assert_eq!(
        Service::state_full_ids(&shortids, &ids),
        vec![(1, "$x".to_string()), (3, "$z".to_string())]
    );
}

#[test]
fn state_full_keys_state_events() {
    let pdus = vec![
        StatePdu { kind: "m.room.name".to_string(), state_key: Some(String::new()) },
        StatePdu { kind: "m.room.message".to_string(), state_key: None },
        StatePdu { kind: "m.room.member".to_string(), state_key: Some("@a:x".to_string()) },
    ];
    assert_eq!(
        Service::state_full(&pdus),
        vec![
            (("m.room.name".to_string(), String::new()), 0),
            (("m.room.member".to_string(), "@a:x".to_string()), 2),
        ]
    );
}

use federation_core::edu::{
    handle_edu, DirectToDeviceEdu, Edu, EduEffect, EduPolicy, TypingEdu,
    handle_edu_device_list_update, handle_edu_direct_to_device, handle_edu_presence,
    handle_edu_receipt, handle_edu_signing_key_update, handle_edu_typing, DeviceTarget,
    ReceiptRoom, ToDeviceMessage, TransactionIds, TypingAction,
};
use federation_core::transaction::{
    build_response, check_transaction, group_pdus_by_room, handle_room, sanitized_message,
    PduError, PduErrorKind, RoomGroup, RoomStep, TxnError, EDU_LIMIT, PDU_LIMIT,
};

fn s(x: &str) -> String {
    x.to_string()
}

#[test]
fn transaction_shape_checks() {
    assert_eq!(check_transaction("a.org", "a.org", 0, 0), Ok(()));
    assert_eq!(check_transaction("a.org", "a.org", PDU_LIMIT, EDU_LIMIT), Ok(()));
    assert_eq!(check_transaction("a.org", "b.org", 1, 1), Err(TxnError::OriginMismatch));
    assert_eq!(check_transaction("a.org", "a.org", 51, 0), Err(TxnError::TooManyPdus));
    assert_eq!(check_transaction("a.org", "a.org", 0, 101), Err(TxnError::TooManyEdus));
    assert_eq!(check_transaction("a.org", "a.org", 51, 101), Err(TxnError::TooManyPdus));
    assert_eq!(PDU_LIMIT, 50);
    assert_eq!(EDU_LIMIT, 100);
}

#[test]
fn grouping_keeps_submission_order_per_room() {
    let parsed = vec![Some(s("!b:x")), Some(s("!a:x")), None, Some(s("!b:x")), Some(s("!a:x"))];
    let groups = group_pdus_by_room(&parsed);
    assert_eq!(groups.len(), 2);
    let b = groups.iter().find(|g| g.room_id == "!b:x").unwrap();
    let a = groups.iter().find(|g| g.room_id == "!a:x").unwrap();
    assert_eq!(b.pdus, vec![0, 3]);
    assert_eq!(a.pdus, vec![1, 4]);
    assert!(groups.iter().all(|g| !g.pdus.contains(&2)));
}

#[test]
fn grouping_of_nothing_parsed_is_empty() {
    assert!(group_pdus_by_room(&vec![None, None]).is_empty());
    assert!(group_pdus_by_room(&vec![]).is_empty());
}

#[test]
fn room_steps_follow_order_and_stop_on_shutdown() {
    let g = RoomGroup { room_id: s("!a:x"), pdus: vec![4, 1] };
    assert_eq!(handle_room(&g, 0, true), RoomStep::Apply(4));
    assert_eq!(handle_room(&g, 1, true), RoomStep::Apply(1));
    assert_eq!(handle_room(&g, 2, true), RoomStep::Finished);
    assert_eq!(handle_room(&g, 1, false), RoomStep::ShuttingDown);
    assert_eq!(handle_room(&g, 2, false), RoomStep::Finished);
}

#[test]
fn sanitized_messages_hide_internal_detail() {
    let db = PduError { kind: PduErrorKind::Database, message: s("rocksdb: corrupt sst at /var/x") };
    assert_eq!(sanitized_message(&db), "M_UNKNOWN: Internal server error.");
    let internal = PduError { kind: PduErrorKind::Internal, message: s("panic in worker") };
    assert_eq!(sanitized_message(&internal), "M_UNKNOWN: Internal server error.");
    let forbidden = PduError { kind: PduErrorKind::Forbidden, message: s("Event is not authorized") };
    assert_eq!(sanitized_message(&forbidden), "M_FORBIDDEN: Event is not authorized");
    let nf = PduError { kind: PduErrorKind::NotFound, message: s("missing") };
    assert_eq!(sanitized_message(&nf), "M_NOT_FOUND: missing");
    let bj = PduError { kind: PduErrorKind::BadJson, message: s("bad") };
    assert_eq!(sanitized_message(&bj), "M_BAD_JSON: bad");
    let ip = PduError { kind: PduErrorKind::InvalidParam, message: s("bad field") };
    assert_eq!(sanitized_message(&ip), "M_INVALID_PARAM: bad field");
}

/// Runs every room to completion with `apply` standing for the event
/// handler, as the caller of the library does.
fn run_rooms(
    groups: &[RoomGroup],
    apply: impl Fn(usize) -> Result<(), PduError>,
) -> Vec<(usize, Result<(), PduError>)> {
    let mut results = Vec::new();
    for g in groups {
        let mut applied = 0;
        loop {
            match handle_room(g, applied, true) {
                RoomStep::Apply(i) => {
                    results.push((i, apply(i)));
                    applied += 1;
                },
                RoomStep::Finished => break,
                RoomStep::ShuttingDown => unreachable!(),
            }
        }
    }
    results
}

#[test]
fn two_rooms_one_failure_end_to_end() {
    let ids = vec![s("$a1"), s("$a2"), s("$b1")];
    let parsed = vec![Some(s("!a:x")), Some(s("!a:x")), Some(s("!b:x"))];
    assert_eq!(check_transaction("o.org", "o.org", 3, 0), Ok(()));
    let groups = group_pdus_by_room(&parsed);
    let results = run_rooms(&groups, |i| {
        if i == 1 {
            Err(PduError { kind: PduErrorKind::Forbidden, message: s("Event is not authorized") })
        } else {
            Ok(())
        }
    });
    let response = build_response(&ids, &results);
    assert_eq!(response.len(), 3);
    let get = |id: &str| response.iter().find(|(e, _)| e == id).unwrap().1.clone();
    assert_eq!(get("$a1"), Ok(()));
    assert_eq!(get("$b1"), Ok(()));
    assert_eq!(get("$a2"), Err(s("M_FORBIDDEN: Event is not authorized")));
}

#[test]
fn unparsed_event_gets_no_entry() {
    let ids = vec![s("$ok"), s("$broken")];
    let parsed = vec![Some(s("!a:x")), None];
    let groups = group_pdus_by_room(&parsed);
    let results = run_rooms(&groups, |_| Ok(()));
    let response = build_response(&ids, &results);
    assert_eq!(response, vec![(s("$ok"), Ok(()))]);
}

#[test]
fn presence_keeps_only_origin_users() {
    let users = vec![s("@a:o.org"), s("@b:evil.org"), s("@c:o.org")];
    assert_eq!(handle_edu_presence(true, "o.org", &users), vec![0, 2]);
    assert!(handle_edu_presence(false, "o.org", &users).is_empty());
}

#[test]
fn receipts_need_acl_member_and_ownership() {
    let rooms = vec![
        ReceiptRoom {
            room_id: s("!a:x"),
            acl_allowed: true,
            members: vec![s("@m:o.org")],
            readers: vec![s("@a:o.org"), s("@b:evil.org")],
        },
        ReceiptRoom {
            room_id: s("!b:x"),
            acl_allowed: false,
            members: vec![s("@m:o.org")],
            readers: vec![s("@a:o.org")],
        },
        ReceiptRoom {
            room_id: s("!c:x"),
            acl_allowed: true,
            members: vec![s("@m:other.org")],
            readers: vec![s("@a:o.org")],
        },
    ];
    let r = handle_edu_receipt(true, "o.org", &rooms);
    assert_eq!(r, vec![vec![0], vec![], vec![]]);
    let r = handle_edu_receipt(false, "o.org", &rooms);
    assert_eq!(r, vec![Vec::<usize>::new(), vec![], vec![]]);
}

#[test]
fn typing_rules_and_expiry() {
    assert_eq!(
        handle_edu_typing(true, "o.org", "@a:o.org", true, true, true, 1_000, 30),
        TypingAction::Add(31_000)
    );
    assert_eq!(
        handle_edu_typing(true, "o.org", "@a:o.org", true, true, false, 1_000, 30),
        TypingAction::Remove
    );
    assert_eq!(
        handle_edu_typing(true, "o.org", "@a:evil.org", true, true, true, 1_000, 30),
        TypingAction::Ignore
    );
    assert_eq!(
        handle_edu_typing(false, "o.org", "@a:o.org", true, true, true, 1_000, 30),
        TypingAction::Ignore
    );
    assert_eq!(
        handle_edu_typing(true, "o.org", "@a:o.org", false, true, true, 1_000, 30),
        TypingAction::Ignore
    );
    assert_eq!(
        handle_edu_typing(true, "o.org", "@a:o.org", true, false, true, 1_000, 30),
        TypingAction::Ignore
    );
    assert_eq!(
        handle_edu_typing(true, "o.org", "@a:o.org", true, true, true, u64::MAX - 5, 1),
        TypingAction::Add(u64::MAX)
    );
    assert_eq!(
        handle_edu_typing(true, "o.org", "@a:o.org", true, true, true, 7, u64::MAX),
        TypingAction::Add(u64::MAX)
    );
}

#[test]
fn key_updates_need_ownership() {
    assert!(handle_edu_device_list_update("o.org", "@a:o.org"));
    assert!(!handle_edu_device_list_update("o.org", "@a:evil.org"));
    assert!(handle_edu_signing_key_update("o.org", "@a:o.org", true));
    assert!(!handle_edu_signing_key_update("o.org", "@a:o.org", false));
    assert!(!handle_edu_signing_key_update("o.org", "@a:evil.org", true));
}

fn messages() -> Vec<ToDeviceMessage> {
    vec![
        ToDeviceMessage {
            target_user: s("@t:here"),
            target: DeviceTarget::Device(s("DEV1")),
            event_valid: true,
            user_devices: vec![],
        },
        ToDeviceMessage {
            target_user: s("@t:here"),
            target: DeviceTarget::Device(s("DEV2")),
            event_valid: false,
            user_devices: vec![],
        },
        ToDeviceMessage {
            target_user: s("@u:here"),
            target: DeviceTarget::AllDevices,
            event_valid: true,
            user_devices: vec![s("X"), s("Y")],
        },
    ]
}

#[test]
fn direct_to_device_delivers_once() {
    let mut ids = TransactionIds::new();
    let first = handle_edu_direct_to_device(&mut ids, "o.org", "@s:o.org", "m1", &messages());
    let got: Vec<(usize, String)> = first.iter().map(|d| (d.message, d.device_id.clone())).collect();
    assert_eq!(got, vec![(0, s("DEV1")), (2, s("X")), (2, s("Y"))]);
    assert!(ids.existing_txnid("@s:o.org", "m1"));
    let second = handle_edu_direct_to_device(&mut ids, "o.org", "@s:o.org", "m1", &messages());
    assert!(second.is_empty());
    let other = handle_edu_direct_to_device(&mut ids, "o.org", "@s:o.org", "m2", &messages());
    assert_eq!(other.len(), 3);
}

#[test]
fn direct_to_device_from_foreign_sender_is_dropped() {
    let mut ids = TransactionIds::new();
    let r = handle_edu_direct_to_device(&mut ids, "o.org", "@s:evil.org", "m1", &messages());
    assert!(r.is_empty());
    assert!(!ids.existing_txnid("@s:evil.org", "m1"));
}

fn policy(allow: bool) -> EduPolicy {
    EduPolicy {
        allow_incoming_presence: allow,
        allow_incoming_read_receipts: allow,
        allow_incoming_typing: allow,
        typing_federation_timeout_s: 30,
    }
}

#[test]
fn edu_dispatch_by_kind() {
    let mut ids = TransactionIds::new();
    let on = policy(true);
    match handle_edu(&on, &mut ids, "o.org", &Edu::Presence(vec![s("@e:evil.org"), s("@a:o.org")]), 0) {
        EduEffect::Presence(p) => assert_eq!(p, vec![1]),
        _ => panic!("wrong effect"),
    }
    match handle_edu(&policy(false), &mut ids, "o.org", &Edu::Presence(vec![s("@a:o.org")]), 0) {
        EduEffect::Presence(p) => assert!(p.is_empty()),
        _ => panic!("wrong effect"),
    }
    let typing = Edu::Typing(TypingEdu {
        user_id: s("@a:o.org"),
        room_id: s("!r:x"),
        typing: true,
        acl_allowed: true,
        is_joined: true,
    });
    match handle_edu(&on, &mut ids, "o.org", &typing, 5_000) {
        EduEffect::Typing(a) => assert_eq!(a, TypingAction::Add(35_000)),
        _ => panic!("wrong effect"),
    }
    match handle_edu(&on, &mut ids, "o.org", &Edu::DeviceListUpdate(s("@a:evil.org")), 0) {
        EduEffect::DeviceListUpdate(b) => assert!(!b),
        _ => panic!("wrong effect"),
    }
    match handle_edu(&on, &mut ids, "o.org", &Edu::SigningKeyUpdate(s("@a:o.org"), true), 0) {
        EduEffect::SigningKeyUpdate(b) => assert!(b),
        _ => panic!("wrong effect"),
    }
    assert!(matches!(handle_edu(&on, &mut ids, "o.org", &Edu::Custom, 0), EduEffect::Ignored));
    let d = Edu::DirectToDevice(DirectToDeviceEdu {
        sender: s("@s:o.org"),
        message_id: s("m9"),
        messages: messages(),
    });
    match handle_edu(&on, &mut ids, "o.org", &d, 0) {
        EduEffect::DirectToDevice(out) => assert_eq!(out.len(), 3),
        _ => panic!("wrong effect"),
    }
    match handle_edu(&on, &mut ids, "o.org", &d, 0) {
        EduEffect::DirectToDevice(out) => assert!(out.is_empty()),
        _ => panic!("wrong effect"),
    }
    let receipts = Edu::Receipt(vec![ReceiptRoom {
        room_id: s("!a:x"),
        acl_allowed: true,
        members: vec![s("@m:o.org")],
        readers: vec![s("@a:o.org")],
    }]);
    match handle_edu(&on, &mut ids, "o.org", &receipts, 0) {
        EduEffect::Receipt(r) => assert_eq!(r, vec![vec![0]]),
        _ => panic!("wrong effect"),
    }
}

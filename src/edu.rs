//! The handlers of ephemeral events (presence, read receipts, typing,
//! device-list updates, direct-to-device messages, signing-key updates).
//!
//! Each handler is gated by policy and by origin ownership: every principal
//! an event names must belong to the server that sent it, else that part of
//! the event is dropped without error. A handler decides which updates to
//! apply; the caller applies them.

use vstd::prelude::*;
use crate::ids::{belongs_to, belongs_to_server, strings_view};

verus! {

/// The positions, among the first `n` principals, of those that belong to
/// `origin`, in order.
pub open spec fn owned_positions(users: Seq<Seq<char>>, origin: Seq<char>, n: int) -> Seq<usize>
    decreases n,
{
    if n <= 0 {
        Seq::empty()
    } else {
        let rest = owned_positions(users, origin, n - 1);
        if belongs_to(users[n - 1], origin) {
            rest.push((n - 1) as usize)
        } else {
            rest
        }
    }
}

proof fn lemma_owned_positions(users: Seq<Seq<char>>, origin: Seq<char>, n: int)
    requires
        0 <= n <= users.len(),
        users.len() <= usize::MAX,
    ensures
        forall|k: int|
            0 <= k < owned_positions(users, origin, n).len() ==> {
                let i = #[trigger] owned_positions(users, origin, n)[k];
                i < n && belongs_to(users[i as int], origin)
            },
    decreases n,
{
    if n > 0 {
        lemma_owned_positions(users, origin, n - 1);
        let rest = owned_positions(users, origin, n - 1);
        let all = owned_positions(users, origin, n);
        assert forall|k: int| 0 <= k < all.len() implies {
            let i = #[trigger] all[k];
            i < n && belongs_to(users[i as int], origin)
        } by {
            if k < rest.len() {
                assert(all[k] == rest[k]);
            } else {
                assert(belongs_to(users[n - 1], origin));
                assert(all[k] == (n - 1) as usize);
            }
        }
    }
}

fn positions_owned_by(users: &Vec<String>, origin: &str) -> (r: Vec<usize>)
    ensures
        r@ == owned_positions(strings_view(users@), origin@, users@.len() as int),
{
    let ghost v = strings_view(users@);
    let mut r: Vec<usize> = Vec::new();
    let mut i: usize = 0;
    while i < users.len()
        invariant
            i <= users@.len(),
            v == strings_view(users@),
            r@ == owned_positions(v, origin@, i as int),
        decreases users@.len() - i,
    {
        if belongs_to_server(users[i].as_str(), origin) {
            r.push(i);
        }
        i = i + 1;
    }
    r
}

/// The presence updates to apply: `user_ids` holds the user of each update.
/// Returns the positions of the updates whose user belongs to `origin`, or
/// none when incoming presence is switched off.
pub fn handle_edu_presence(allow: bool, origin: &str, user_ids: &Vec<String>) -> (r: Vec<usize>)
    ensures
        allow ==> r@ == owned_positions(strings_view(user_ids@), origin@, user_ids@.len() as int),
        !allow ==> r@.len() == 0,
{
    if !allow {
        return Vec::new();
    }
    positions_owned_by(user_ids, origin)
}

/// The read receipts that a peer sent for one room.
#[derive(Clone, Debug)]
pub struct ReceiptRoom {
    pub room_id: String,
    /// The room's access list admits the origin server.
    pub acl_allowed: bool,
    /// The room's current members.
    pub members: Vec<String>,
    /// The user of each receipt update.
    pub readers: Vec<String>,
}

/// Some member in `members` belongs to `server`.
pub open spec fn has_member_on(members: Seq<Seq<char>>, server: Seq<char>) -> bool {
    exists|i: int| 0 <= i < members.len() && belongs_to(members[i], server)
}

/// The receipt updates of a room to record: those of users on `origin`,
/// where the room admits `origin` and `origin` has a member in it.
pub open spec fn receipt_readers(origin: Seq<char>, room: ReceiptRoom) -> Seq<usize> {
    if room.acl_allowed && has_member_on(strings_view(room.members@), origin) {
        owned_positions(strings_view(room.readers@), origin, room.readers@.len() as int)
    } else {
        Seq::empty()
    }
}

fn any_member_on(members: &Vec<String>, server: &str) -> (r: bool)
    ensures
        r == has_member_on(strings_view(members@), server@),
{
    let ghost v = strings_view(members@);
    let mut i: usize = 0;
    while i < members.len()
        invariant
            i <= members@.len(),
            v == strings_view(members@),
            forall|j: int| 0 <= j < i ==> !belongs_to(v[j], server@),
        decreases members@.len() - i,
    {
        if belongs_to_server(members[i].as_str(), server) {
            assert(belongs_to(v[i as int], server@));
            return true;
        }
        i = i + 1;
    }
    false
}

/// The read receipts to record, room by room: for each room, the positions
/// of its updates to record; none when incoming receipts are switched off.
pub fn handle_edu_receipt(allow: bool, origin: &str, rooms: &Vec<ReceiptRoom>) -> (r: Vec<Vec<usize>>)
    ensures
        r@.len() == rooms@.len(),
        forall|k: int|
            0 <= k < r@.len() ==> (#[trigger] r@[k])@ == if allow {
                receipt_readers(origin@, rooms@[k])
            } else {
                Seq::empty()
            },
{
    let mut r: Vec<Vec<usize>> = Vec::new();
    let mut k: usize = 0;
    while k < rooms.len()
        invariant
            k <= rooms@.len(),
            r@.len() == k,
            forall|j: int|
                0 <= j < k ==> (#[trigger] r@[j])@ == if allow {
                    receipt_readers(origin@, rooms@[j])
                } else {
                    Seq::empty()
                },
        decreases rooms@.len() - k,
    {
        let room = &rooms[k];
        let readers = if allow && room.acl_allowed && any_member_on(&room.members, origin) {
            positions_owned_by(&room.readers, origin)
        } else {
            Vec::new()
        };
        r.push(readers);
        k = k + 1;
    }
    r
}

/// What to do with a typing notification.
#[derive(Clone, Copy, Debug, PartialEq, Eq, Structural)]
pub enum TypingAction {
    /// Drop it.
    Ignore,
    /// Mark the user typing until this time, in milliseconds since the epoch.
    Add(u64),
    /// Mark the user no longer typing.
    Remove,
}

/// `now + timeout_s` seconds in milliseconds, each step saturating.
pub open spec fn typing_expiry(now_ms: u64, timeout_s: u64) -> u64 {
    let span: int = if timeout_s * 1000 > u64::MAX {
        u64::MAX as int
    } else {
        timeout_s * 1000
    };
    if now_ms + span > u64::MAX {
        u64::MAX
    } else {
        (now_ms + span) as u64
    }
}

/// The typing rule.
pub open spec fn typing_decision(
    allow: bool,
    origin: Seq<char>,
    user_id: Seq<char>,
    acl_allowed: bool,
    is_joined: bool,
    typing: bool,
    now_ms: u64,
    timeout_s: u64,
) -> TypingAction {
    if !allow || !belongs_to(user_id, origin) || !acl_allowed || !is_joined {
        TypingAction::Ignore
    } else if typing {
        TypingAction::Add(typing_expiry(now_ms, timeout_s))
    } else {
        TypingAction::Remove
    }
}

/// Decides on a typing notification of `user_id` sent by `origin`:
/// `acl_allowed` says whether the room admits the user's server, `is_joined`
/// whether the user is joined. A start expires `timeout_s` seconds after
/// `now_ms`.
pub fn handle_edu_typing(
    allow: bool,
    origin: &str,
    user_id: &str,
    acl_allowed: bool,
    is_joined: bool,
    typing: bool,
    now_ms: u64,
    timeout_s: u64,
) -> (r: TypingAction)
    ensures
        r == typing_decision(
            allow,
            origin@,
            user_id@,
            acl_allowed,
            is_joined,
            typing,
            now_ms,
            timeout_s,
        ),
{
    if !allow || !belongs_to_server(user_id, origin) || !acl_allowed || !is_joined {
        return TypingAction::Ignore;
    }
    if !typing {
        return TypingAction::Remove;
    }
    let span: u64 = if timeout_s > u64::MAX / 1000 {
        u64::MAX
    } else {
        timeout_s * 1000
    };
    TypingAction::Add(now_ms.saturating_add(span))
}

/// Whether a device-list update for `user_id` from `origin` is applied.
pub fn handle_edu_device_list_update(origin: &str, user_id: &str) -> (r: bool)
    ensures
        r == belongs_to(user_id@, origin@),
{
    belongs_to_server(user_id, origin)
}

/// Whether a signing-key update for `user_id` from `origin` is applied:
/// the user must belong to `origin` and the update must carry a master key.
pub fn handle_edu_signing_key_update(origin: &str, user_id: &str, has_master_key: bool) -> (r:
    bool)
    ensures
        r == (belongs_to(user_id@, origin@) && has_master_key),
{
    belongs_to_server(user_id, origin) && has_master_key
}

/// The device a direct-to-device message is addressed to.
#[derive(Clone, Debug)]
pub enum DeviceTarget {
    Device(String),
    /// Every device the target user has.
    AllDevices,
}

/// One direct-to-device message.
#[derive(Clone, Debug)]
pub struct ToDeviceMessage {
    pub target_user: String,
    pub target: DeviceTarget,
    /// The message's event could be read; an unreadable one is skipped.
    pub event_valid: bool,
    /// The target user's devices at processing time.
    pub user_devices: Vec<String>,
}

/// The inbox deliveries of one message: `(message position, device id)`.
pub open spec fn message_deliveries(m: ToDeviceMessage, i: usize) -> Seq<(usize, Seq<char>)> {
    if !m.event_valid {
        Seq::empty()
    } else {
        match m.target {
            DeviceTarget::Device(d) => seq![(i, d@)],
            DeviceTarget::AllDevices => strings_view(m.user_devices@).map_values(
                |d: Seq<char>| (i, d),
            ),
        }
    }
}

/// The deliveries of the first `n` messages, in order.
pub open spec fn deliveries(msgs: Seq<ToDeviceMessage>, n: int) -> Seq<(usize, Seq<char>)>
    decreases n,
{
    if n <= 0 {
        Seq::empty()
    } else {
        deliveries(msgs, n - 1) + message_deliveries(msgs[n - 1], (n - 1) as usize)
    }
}

/// One inbox delivery: the message's position and the target device.
#[derive(Clone, Debug)]
pub struct Delivery {
    pub message: usize,
    pub device_id: String,
}

pub open spec fn deliveries_view(d: Seq<Delivery>) -> Seq<(usize, Seq<char>)> {
    d.map_values(|x: Delivery| (x.message, x.device_id@))
}

/// The `(sender, message id)` pairs of direct-to-device batches already
/// processed.
#[derive(Clone, Debug)]
pub struct TransactionIds {
    pub seen: Vec<(String, String)>,
}

impl TransactionIds {
    pub open spec fn view(&self) -> Seq<(Seq<char>, Seq<char>)> {
        self.seen@.map_values(|p: (String, String)| (p.0@, p.1@))
    }

    /// An empty record.
    pub fn new() -> (r: TransactionIds)
        ensures
            r.view().len() == 0,
    {
        TransactionIds { seen: Vec::new() }
    }

    /// Whether the pair was recorded.
    pub fn existing_txnid(&self, sender: &str, message_id: &str) -> (r: bool)
        ensures
            r == self.view().contains((sender@, message_id@)),
    {
        let s = sender.to_owned();
        let m = message_id.to_owned();
        let ghost v = self.view();
        let mut i: usize = 0;
        while i < self.seen.len()
            invariant
                i <= self.seen@.len(),
                v == self.view(),
                s@ == sender@,
                m@ == message_id@,
                forall|j: int| 0 <= j < i ==> v[j] != (s@, m@),
            decreases self.seen@.len() - i,
        {
            let (a, b) = &self.seen[i];
            assert(v[i as int] == (a@, b@));
            let same_sender = *a == s;
            let same_id = *b == m;
            if same_sender && same_id {
                assert(v[i as int] == (sender@, message_id@));
                assert(self.view().contains((sender@, message_id@)));
                return true;
            }
            i = i + 1;
        }
        false
    }

    /// Records the pair.
    pub fn add_txnid(&mut self, sender: &str, message_id: &str)
        ensures
            final(self).view() == old(self).view().push((sender@, message_id@)),
    {
        self.seen.push((sender.to_owned(), message_id.to_owned()));
        assert(self.view() =~= old(self).view().push((sender@, message_id@)));
    }
}

/// The direct-to-device rule: the deliveries of a batch and the record of
/// processed batches afterwards.
pub open spec fn to_device_effect(
    seen: Seq<(Seq<char>, Seq<char>)>,
    origin: Seq<char>,
    sender: Seq<char>,
    message_id: Seq<char>,
    msgs: Seq<ToDeviceMessage>,
) -> (Seq<(usize, Seq<char>)>, Seq<(Seq<char>, Seq<char>)>) {
    if !belongs_to(sender, origin) || seen.contains((sender, message_id)) {
        (Seq::empty(), seen)
    } else {
        (deliveries(msgs, msgs.len() as int), seen.push((sender, message_id)))
    }
}

fn deliver_message(m: &ToDeviceMessage, i: usize, out: &mut Vec<Delivery>)
    ensures
        deliveries_view(final(out)@) == deliveries_view(old(out)@) + message_deliveries(*m, i),
{
    if !m.event_valid {
        assert(deliveries_view(out@) =~= deliveries_view(old(out)@) + message_deliveries(*m, i));
        return;
    }
    match &m.target {
        DeviceTarget::Device(d) => {
            out.push(Delivery { message: i, device_id: d.clone() });
            assert(deliveries_view(out@) =~= deliveries_view(old(out)@) + message_deliveries(
                *m,
                i,
            ));
        },
        DeviceTarget::AllDevices => {
            let ghost start = deliveries_view(out@);
            let ghost devs = strings_view(m.user_devices@);
            let mut k: usize = 0;
            while k < m.user_devices.len()
                invariant
                    k <= m.user_devices@.len(),
                    devs == strings_view(m.user_devices@),
                    start == deliveries_view(old(out)@),
                    deliveries_view(out@) == start + devs.take(k as int).map_values(
                        |d: Seq<char>| (i, d),
                    ),
                decreases m.user_devices@.len() - k,
            {
                let ghost before = deliveries_view(out@);
                out.push(Delivery { message: i, device_id: m.user_devices[k].clone() });
                assert(devs.take(k + 1) =~= devs.take(k as int).push(devs[k as int]));
                assert(deliveries_view(out@) =~= before.push((i, devs[k as int])));
                assert(devs.take(k + 1).map_values(|d: Seq<char>| (i, d)) =~= devs.take(
                    k as int,
                ).map_values(|d: Seq<char>| (i, d)).push((i, devs[k as int])));
                k = k + 1;
            }
            assert(devs.take(devs.len() as int) =~= devs);
        },
    }
}

/// Handles a direct-to-device batch `message_id` of `sender` from `origin`:
/// a sender of another server, or a batch already processed, changes
/// nothing; otherwise every message is delivered (to the named device, or to
/// each of the target user's devices) and the batch is recorded.
pub fn handle_edu_direct_to_device(
    txn_ids: &mut TransactionIds,
    origin: &str,
    sender: &str,
    message_id: &str,
    messages: &Vec<ToDeviceMessage>,
) -> (r: Vec<Delivery>)
    ensures
        (deliveries_view(r@), final(txn_ids).view()) == to_device_effect(
            old(txn_ids).view(),
            origin@,
            sender@,
            message_id@,
            messages@,
        ),
{
    let mut out: Vec<Delivery> = Vec::new();
    if !belongs_to_server(sender, origin) {
        assert(deliveries_view(out@) =~= Seq::empty());
        return out;
    }
    if txn_ids.existing_txnid(sender, message_id) {
        assert(deliveries_view(out@) =~= Seq::empty());
        return out;
    }
    let mut i: usize = 0;
    assert(deliveries_view(out@) =~= deliveries(messages@, 0));
    while i < messages.len()
        invariant
            i <= messages@.len(),
            deliveries_view(out@) == deliveries(messages@, i as int),
        decreases messages@.len() - i,
    {
        deliver_message(&messages[i], i, &mut out);
        i = i + 1;
    }
    txn_ids.add_txnid(sender, message_id);
    out
}

/// A direct-to-device batch submitted twice under the same sender and
/// message id is delivered at most once: whatever the first submission did,
/// the second delivers nothing.
pub proof fn lemma_to_device_replay_delivers_once(
    seen: Seq<(Seq<char>, Seq<char>)>,
    origin: Seq<char>,
    sender: Seq<char>,
    message_id: Seq<char>,
    first: Seq<ToDeviceMessage>,
    second: Seq<ToDeviceMessage>,
)
    ensures
        to_device_effect(
            to_device_effect(seen, origin, sender, message_id, first).1,
            origin,
            sender,
            message_id,
            second,
        ).0.len() == 0,
{
    let after = to_device_effect(seen, origin, sender, message_id, first).1;
    if belongs_to(sender, origin) && !seen.contains((sender, message_id)) {
        assert(after.last() == (sender, message_id));
        assert(after.contains((sender, message_id)));
    }
}

/// An ephemeral event that names a principal of another server than its
/// origin changes nothing for that principal: no presence update of theirs
/// (`users` holding the user of each update) and no read receipt of theirs in
/// `room` is applied, their typing notification is dropped, and their
/// direct-to-device batch neither delivers nor is recorded. (Device-list and
/// signing-key updates say the same in their own contracts.)
pub proof fn lemma_foreign_principal_has_no_effect(
    origin: Seq<char>,
    users: Seq<Seq<char>>,
    principal: Seq<char>,
    acl_allowed: bool,
    is_joined: bool,
    typing: bool,
    now_ms: u64,
    timeout_s: u64,
    room: ReceiptRoom,
    seen: Seq<(Seq<char>, Seq<char>)>,
    message_id: Seq<char>,
    msgs: Seq<ToDeviceMessage>,
)
    requires
        !belongs_to(principal, origin),
        users.len() <= usize::MAX,
        room.readers@.len() <= usize::MAX,
    ensures
        forall|k: int|
            0 <= k < receipt_readers(origin, room).len() ==> strings_view(room.readers@)[(
            #[trigger] receipt_readers(origin, room)[k]) as int] != principal,
        forall|k: int|
            0 <= k < owned_positions(users, origin, users.len() as int).len() ==> users[(
            #[trigger] owned_positions(users, origin, users.len() as int)[k]) as int] != principal,
        typing_decision(true, origin, principal, acl_allowed, is_joined, typing, now_ms, timeout_s)
            == TypingAction::Ignore,
        to_device_effect(seen, origin, principal, message_id, msgs) == (
            Seq::<(usize, Seq<char>)>::empty(),
            seen,
        ),
{
    lemma_owned_positions(users, origin, users.len() as int);
    lemma_owned_positions(strings_view(room.readers@), origin, room.readers@.len() as int);
}

/// The switches and settings the handlers obey.
#[derive(Clone, Copy, Debug, PartialEq, Eq, Structural)]
pub struct EduPolicy {
    pub allow_incoming_presence: bool,
    pub allow_incoming_read_receipts: bool,
    pub allow_incoming_typing: bool,
    /// How long a typing notification lasts, in seconds.
    pub typing_federation_timeout_s: u64,
}

/// A typing notification, with what the room says of its user.
#[derive(Clone, Debug)]
pub struct TypingEdu {
    pub user_id: String,
    pub room_id: String,
    pub typing: bool,
    /// The room's access list admits the user's server.
    pub acl_allowed: bool,
    /// The user is joined to the room.
    pub is_joined: bool,
}

/// A direct-to-device batch.
#[derive(Clone, Debug)]
pub struct DirectToDeviceEdu {
    pub sender: String,
    pub message_id: String,
    pub messages: Vec<ToDeviceMessage>,
}

/// An ephemeral event, one variant per kind this server handles and one for
/// any other kind, which is only logged.
#[derive(Clone, Debug)]
pub enum Edu {
    /// The user of each presence update.
    Presence(Vec<String>),
    Receipt(Vec<ReceiptRoom>),
    Typing(TypingEdu),
    /// The user whose device list changed.
    DeviceListUpdate(String),
    DirectToDevice(DirectToDeviceEdu),
    /// The user whose keys changed, and whether a master key came along.
    SigningKeyUpdate(String, bool),
    Custom,
}

/// What handling an ephemeral event asks the caller to apply.
#[derive(Clone, Debug)]
pub enum EduEffect {
    /// Apply the presence updates at these positions.
    Presence(Vec<usize>),
    /// Record, room by room, the receipt updates at these positions.
    Receipt(Vec<Vec<usize>>),
    Typing(TypingAction),
    /// Mark the user's device keys for refresh, or not.
    DeviceListUpdate(bool),
    /// Deliver these inbox events.
    DirectToDevice(Vec<Delivery>),
    /// Store the user's cross-signing keys, or not.
    SigningKeyUpdate(bool),
    /// Nothing to apply.
    Ignored,
}

/// Handles one ephemeral event from `origin` at `now_ms` (milliseconds since
/// the epoch), dispatching on its kind.
pub fn handle_edu(
    policy: &EduPolicy,
    txn_ids: &mut TransactionIds,
    origin: &str,
    edu: &Edu,
    now_ms: u64,
) -> (r: EduEffect)
    ensures
        !(edu is DirectToDevice) ==> final(txn_ids).view() == old(txn_ids).view(),
        match (*edu, r) {
            (Edu::Presence(users), EduEffect::Presence(p)) => if policy.allow_incoming_presence {
                p@ == owned_positions(strings_view(users@), origin@, users@.len() as int)
            } else {
                p@.len() == 0
            },
            (Edu::Receipt(rooms), EduEffect::Receipt(p)) => p@.len() == rooms@.len() && forall|
                k: int,
            |
                0 <= k < p@.len() ==> (#[trigger] p@[k])@ == if policy.allow_incoming_read_receipts {
                    receipt_readers(origin@, rooms@[k])
                } else {
                    Seq::empty()
                },
            (Edu::Typing(t), EduEffect::Typing(a)) => a == typing_decision(
                policy.allow_incoming_typing,
                origin@,
                t.user_id@,
                t.acl_allowed,
                t.is_joined,
                t.typing,
                now_ms,
                policy.typing_federation_timeout_s,
            ),
            (Edu::DeviceListUpdate(u), EduEffect::DeviceListUpdate(b)) => b == belongs_to(
                u@,
                origin@,
            ),
            (Edu::DirectToDevice(d), EduEffect::DirectToDevice(out)) => (
                deliveries_view(out@),
                final(txn_ids).view(),
            ) == to_device_effect(
                old(txn_ids).view(),
                origin@,
                d.sender@,
                d.message_id@,
                d.messages@,
            ),
            (Edu::SigningKeyUpdate(u, m), EduEffect::SigningKeyUpdate(b)) => b == (belongs_to(
                u@,
                origin@,
            ) && m),
            (Edu::Custom, EduEffect::Ignored) => true,
            _ => false,
        },
{
    match edu {
        Edu::Presence(users) => EduEffect::Presence(
            handle_edu_presence(policy.allow_incoming_presence, origin, users),
        ),
        Edu::Receipt(rooms) => EduEffect::Receipt(
            handle_edu_receipt(policy.allow_incoming_read_receipts, origin, rooms),
        ),
        Edu::Typing(t) => EduEffect::Typing(
            handle_edu_typing(
                policy.allow_incoming_typing,
                origin,
                t.user_id.as_str(),
                t.acl_allowed,
                t.is_joined,
                t.typing,
                now_ms,
                policy.typing_federation_timeout_s,
            ),
        ),
        Edu::DeviceListUpdate(u) => EduEffect::DeviceListUpdate(
            handle_edu_device_list_update(origin, u.as_str()),
        ),
        Edu::DirectToDevice(d) => EduEffect::DirectToDevice(
            handle_edu_direct_to_device(
                txn_ids,
                origin,
                d.sender.as_str(),
                d.message_id.as_str(),
                &d.messages,
            ),
        ),
        Edu::SigningKeyUpdate(u, m) => EduEffect::SigningKeyUpdate(
            handle_edu_signing_key_update(origin, u.as_str(), *m),
        ),
        Edu::Custom => EduEffect::Ignored,
    }
}

} // verus!

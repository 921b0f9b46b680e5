//! The transaction dispatcher: validates the shape of a transaction pushed by
//! a peer server, groups its parsed events by room (each room's events in
//! submission order), steps through a room's events, and builds the
//! peer-facing result of each event with internal detail removed.
//!
//! Parsing, applying events, the per-room lock and the concurrency across
//! rooms belong to the caller, which hands results in as plain values.

use vstd::prelude::*;
use crate::ids::strings_view;

verus! {

/// The most persistent events a transaction may carry.
pub const PDU_LIMIT: usize = 50;

/// The most ephemeral events a transaction may carry.
pub const EDU_LIMIT: usize = 100;

/// Why a whole transaction is refused before any of it is processed.
#[derive(Clone, Copy, Debug, PartialEq, Eq, Structural)]
pub enum TxnError {
    /// The origin in the envelope is not the authenticated sender.
    OriginMismatch,
    /// More persistent events than the limit.
    TooManyPdus,
    /// More ephemeral events than the limit.
    TooManyEdus,
}

/// The verdict on a transaction's shape.
pub open spec fn txn_verdict(
    authenticated: Seq<char>,
    declared: Seq<char>,
    pdu_count: nat,
    edu_count: nat,
) -> Result<(), TxnError> {
    if authenticated != declared {
        Err(TxnError::OriginMismatch)
    } else if pdu_count > PDU_LIMIT {
        Err(TxnError::TooManyPdus)
    } else if edu_count > EDU_LIMIT {
        Err(TxnError::TooManyEdus)
    } else {
        Ok(())
    }
}

/// Checks a transaction's shape: the envelope's origin must be the
/// authenticated origin, and neither list may exceed its limit.
pub fn check_transaction(
    authenticated: &str,
    declared: &str,
    pdu_count: usize,
    edu_count: usize,
) -> (r: Result<(), TxnError>)
    ensures
        r == txn_verdict(authenticated@, declared@, pdu_count as nat, edu_count as nat),
{
    let a = authenticated.to_owned();
    let d = declared.to_owned();
    if a != d {
        return Err(TxnError::OriginMismatch);
    }
    if pdu_count > PDU_LIMIT {
        return Err(TxnError::TooManyPdus);
    }
    if edu_count > EDU_LIMIT {
        return Err(TxnError::TooManyEdus);
    }
    Ok(())
}

/// A transaction with more persistent or more ephemeral events than the
/// limits is refused as a whole, so no event of it reaches any processing.
pub proof fn lemma_oversized_transaction_refused(
    authenticated: Seq<char>,
    declared: Seq<char>,
    pdu_count: nat,
    edu_count: nat,
)
    requires
        pdu_count > PDU_LIMIT || edu_count > EDU_LIMIT,
    ensures
        txn_verdict(authenticated, declared, pdu_count, edu_count) is Err,
{
}

/// The room of each submitted event, or `None` where it failed to parse.
pub open spec fn parsed_view(parsed: Seq<Option<String>>) -> Seq<Option<Seq<char>>> {
    parsed.map_values(
        |p: Option<String>|
            match p {
                Some(s) => Some(s@),
                None => None,
            },
    )
}

/// The positions, among the first `n` submitted events, of those parsed for
/// `room`, in submission order.
pub open spec fn indices_in(p: Seq<Option<Seq<char>>>, room: Seq<char>, n: int) -> Seq<usize>
    decreases n,
{
    if n <= 0 {
        Seq::empty()
    } else {
        let rest = indices_in(p, room, n - 1);
        if p[n - 1] == Some(room) {
            rest.push((n - 1) as usize)
        } else {
            rest
        }
    }
}

proof fn lemma_indices_in(p: Seq<Option<Seq<char>>>, room: Seq<char>, n: int)
    requires
        0 <= n <= p.len(),
        p.len() <= usize::MAX,
    ensures
        forall|k: int|
            0 <= k < indices_in(p, room, n).len() ==> indices_in(p, room, n)[k] < n && p[indices_in(
                p,
                room,
                n,
            )[k] as int] == Some(room),
        forall|i: int| 0 <= i < n && p[i] == Some(room) ==> indices_in(p, room, n).contains(i as usize),
    decreases n,
{
    if n > 0 {
        lemma_indices_in(p, room, n - 1);
        let rest = indices_in(p, room, n - 1);
        if p[n - 1] == Some(room) {
            assert forall|i: int| 0 <= i < n && p[i] == Some(room) implies indices_in(
                p,
                room,
                n,
            ).contains(i as usize) by {
                if i < n - 1 {
                    let k = choose|k: int| 0 <= k < rest.len() && rest[k] == i as usize;
                    assert(indices_in(p, room, n)[k] == i as usize);
                } else {
                    assert(indices_in(p, room, n)[rest.len() as int] == i as usize);
                }
            }
        }
    }
}

/// An event that failed to parse is in no room's list, and so is never
/// applied and gets no entry in the response.
pub proof fn lemma_unparsed_event_not_grouped(p: Seq<Option<Seq<char>>>, room: Seq<char>, i: int)
    requires
        0 <= i < p.len(),
        p.len() <= usize::MAX,
        p[i] is None,
    ensures
        !indices_in(p, room, p.len() as int).contains(i as usize),
{
    lemma_indices_in(p, room, p.len() as int);
    if indices_in(p, room, p.len() as int).contains(i as usize) {
        let k = choose|k: int|
            0 <= k < indices_in(p, room, p.len() as int).len() && indices_in(
                p,
                room,
                p.len() as int,
            )[k] == i as usize;
    }
}

/// The events of one room, as positions in the submitted list, in
/// submission order.
#[derive(Clone, Debug)]
pub struct RoomGroup {
    pub room_id: String,
    pub pdus: Vec<usize>,
}

fn indices_of_room(parsed: &Vec<Option<String>>, room: &String) -> (r: Vec<usize>)
    ensures
        r@ == indices_in(parsed_view(parsed@), room@, parsed@.len() as int),
{
    let ghost p = parsed_view(parsed@);
    let mut r: Vec<usize> = Vec::new();
    let mut i: usize = 0;
    while i < parsed.len()
        invariant
            i <= parsed@.len(),
            p == parsed_view(parsed@),
            r@ == indices_in(p, room@, i as int),
        decreases parsed@.len() - i,
    {
        match &parsed[i] {
            Some(s) => {
                if *s == *room {
                    r.push(i);
                }
            },
            None => {},
        }
        i = i + 1;
    }
    r
}

/// `room` is the room of one of the first `n` parsed events.
pub open spec fn appears(p: Seq<Option<Seq<char>>>, room: Seq<char>, n: int) -> bool {
    exists|i: int| 0 <= i < n && p[i] == Some(room)
}

fn contains_room(rooms: &Vec<String>, room: &String) -> (r: bool)
    ensures
        r == strings_view(rooms@).contains(room@),
{
    let ghost rv = strings_view(rooms@);
    let mut j: usize = 0;
    while j < rooms.len()
        invariant
            j <= rooms@.len(),
            rv == strings_view(rooms@),
            forall|k: int| 0 <= k < j ==> rv[k] != room@,
        decreases rooms@.len() - j,
    {
        if rooms[j] == *room {
            assert(rv[j as int] == room@);
            return true;
        }
        j = j + 1;
    }
    false
}

/// The distinct rooms of the parsed events, in order of first appearance.
fn rooms_in_order(parsed: &Vec<Option<String>>) -> (r: Vec<String>)
    ensures
        strings_view(r@).no_duplicates(),
        forall|i: int|
            0 <= i < parsed@.len() && (#[trigger] parsed_view(parsed@)[i]) is Some ==> strings_view(
                r@,
            ).contains(parsed_view(parsed@)[i].unwrap()),
        forall|j: int|
            0 <= j < r@.len() ==> appears(
                parsed_view(parsed@),
                #[trigger] strings_view(r@)[j],
                parsed@.len() as int,
            ),
{
    let ghost p = parsed_view(parsed@);
    let mut r: Vec<String> = Vec::new();
    let mut i: usize = 0;
    while i < parsed.len()
        invariant
            i <= parsed@.len(),
            p == parsed_view(parsed@),
            strings_view(r@).no_duplicates(),
            forall|k: int|
                0 <= k < i && (#[trigger] p[k]) is Some ==> strings_view(r@).contains(p[k].unwrap()),
            forall|j: int| 0 <= j < r@.len() ==> appears(p, #[trigger] strings_view(r@)[j], i as int),
        decreases parsed@.len() - i,
    {
        let ghost old_v = strings_view(r@);
        match &parsed[i] {
            Some(s) => {
                assert(p[i as int] == Some(s@));
                if !contains_room(&r, s) {
                    r.push(s.clone());
                    assert(strings_view(r@) == old_v.push(s@));
                    assert(strings_view(r@)[old_v.len() as int] == s@);
                }
                assert(strings_view(r@).contains(s@));
            },
            None => {},
        }
        proof {
            let v = strings_view(r@);
            assert forall|k: int| 0 <= k < i + 1 && (#[trigger] p[k]) is Some implies v.contains(
                p[k].unwrap(),
            ) by {
                if k < i {
                    let j = choose|j: int| 0 <= j < old_v.len() && old_v[j] == p[k].unwrap();
                    assert(v[j] == old_v[j]);
                }
            }
            assert forall|j: int| 0 <= j < r@.len() implies appears(p, #[trigger] v[j], i + 1) by {
                if j < old_v.len() {
                    assert(v[j] == old_v[j]);
                    assert(appears(p, old_v[j], i as int));
                    let k = choose|k: int| 0 <= k < i && p[k] == Some(old_v[j]);
                    assert(0 <= k < i + 1 && p[k] == Some(v[j]));
                } else {
                    assert(p[i as int] == Some(v[j]));
                }
            }
        }
        i = i + 1;
    }
    r
}

/// Groups the parsed events by room. `parsed` holds, for each submitted
/// event, its room, or `None` where it failed to parse. Each room appears in
/// one group, which lists the positions of its events in submission order;
/// events that failed to parse appear nowhere.
pub fn group_pdus_by_room(parsed: &Vec<Option<String>>) -> (r: Vec<RoomGroup>)
    ensures
        forall|a: int, b: int| 0 <= a < b < r@.len() ==> r@[a].room_id@ != r@[b].room_id@,
        forall|g: int|
            0 <= g < r@.len() ==> (#[trigger] r@[g]).pdus@ == indices_in(
                parsed_view(parsed@),
                r@[g].room_id@,
                parsed@.len() as int,
            ),
        forall|g: int| 0 <= g < r@.len() ==> (#[trigger] r@[g]).pdus@.len() > 0,
        forall|i: int|
            0 <= i < parsed@.len() && (#[trigger] parsed_view(parsed@)[i]) is Some ==> exists|g: int|
                0 <= g < r@.len() && Some(r@[g].room_id@) == parsed_view(parsed@)[i],
{
    let n = parsed.len();
    let rooms = rooms_in_order(parsed);
    let ghost p = parsed_view(parsed@);
    let ghost rv = strings_view(rooms@);
    let mut r: Vec<RoomGroup> = Vec::new();
    let mut j: usize = 0;
    while j < rooms.len()
        invariant
            j <= rooms@.len(),
            p == parsed_view(parsed@),
            p.len() == parsed@.len(),
            n == parsed@.len(),
            rv == strings_view(rooms@),
            rv.no_duplicates(),
            forall|k: int| 0 <= k < rooms@.len() ==> appears(p, #[trigger] rv[k], parsed@.len() as int),
            r@.len() == j,
            forall|g: int| 0 <= g < j ==> (#[trigger] r@[g]).room_id@ == rv[g],
            forall|g: int|
                0 <= g < j ==> (#[trigger] r@[g]).pdus@ == indices_in(
                    p,
                    r@[g].room_id@,
                    parsed@.len() as int,
                ),
            forall|g: int| 0 <= g < j ==> (#[trigger] r@[g]).pdus@.len() > 0,
        decreases rooms@.len() - j,
    {
        let room = &rooms[j];
        let pdus = indices_of_room(parsed, room);
        proof {
            assert(rv[j as int] == room@);
            assert(appears(p, rv[j as int], parsed@.len() as int));
            let i = choose|i: int| 0 <= i < parsed@.len() && p[i] == Some(room@);
            lemma_indices_in(p, room@, parsed@.len() as int);
            assert(pdus@.contains(i as usize));
        }
        r.push(RoomGroup { room_id: room.clone(), pdus });
        j = j + 1;
    }
    proof {
        assert forall|a: int, b: int| 0 <= a < b < r@.len() implies r@[a].room_id@ != r@[b].room_id@ by {
            assert(r@[a].room_id@ == rv[a] && r@[b].room_id@ == rv[b]);
        }
        assert forall|i: int| 0 <= i < parsed@.len() && (#[trigger] p[i]) is Some implies exists|g: int|
            0 <= g < r@.len() && Some(r@[g].room_id@) == p[i] by {
            let g = choose|g: int| 0 <= g < rv.len() && rv[g] == p[i].unwrap();
            assert(r@[g].room_id@ == rv[g]);
        }
    }
    r
}

/// What the caller does next for a room whose events are being applied.
#[derive(Clone, Copy, Debug, PartialEq, Eq, Structural)]
pub enum RoomStep {
    /// Apply the event at this position of the submitted list.
    Apply(usize),
    /// Every event of the room has been applied.
    Finished,
    /// The server is shutting down: the room's remaining events are dropped
    /// and the transaction fails.
    ShuttingDown,
}

/// The next step for `group` once `applied` of its events have been applied
/// in order, with `running` whether the server still runs. Events are
/// applied one at a time in submission order, and a failed event does not
/// stop its successors.
pub fn handle_room(group: &RoomGroup, applied: usize, running: bool) -> (r: RoomStep)
    ensures
        applied >= group.pdus@.len() ==> r == RoomStep::Finished,
        applied < group.pdus@.len() && !running ==> r == RoomStep::ShuttingDown,
        applied < group.pdus@.len() && running ==> r == RoomStep::Apply(group.pdus@[applied as int]),
{
    if applied >= group.pdus.len() {
        RoomStep::Finished
    } else if !running {
        RoomStep::ShuttingDown
    } else {
        RoomStep::Apply(group.pdus[applied])
    }
}

/// The class of an error met while applying one event.
#[derive(Clone, Copy, Debug, PartialEq, Eq, Structural)]
pub enum PduErrorKind {
    /// The event is not authorised.
    Forbidden,
    /// Something the event depends on was not found.
    NotFound,
    /// The event is malformed.
    BadJson,
    /// A field of the event is invalid.
    InvalidParam,
    /// The store failed or is inconsistent.
    Database,
    /// Any other fault inside this server.
    Internal,
}

/// An error met while applying one event: its class and its full message.
#[derive(Clone, Debug)]
pub struct PduError {
    pub kind: PduErrorKind,
    pub message: String,
}

/// Whether an error class is internal to this server, so that its message
/// must not reach a peer.
pub open spec fn is_internal(kind: PduErrorKind) -> bool {
    kind == PduErrorKind::Database || kind == PduErrorKind::Internal
}

/// The namespaced code of an error class.
pub open spec fn error_code(kind: PduErrorKind) -> Seq<char> {
    match kind {
        PduErrorKind::Forbidden => "M_FORBIDDEN"@,
        PduErrorKind::NotFound => "M_NOT_FOUND"@,
        PduErrorKind::BadJson => "M_BAD_JSON"@,
        PduErrorKind::InvalidParam => "M_INVALID_PARAM"@,
        PduErrorKind::Database | PduErrorKind::Internal => "M_UNKNOWN"@,
    }
}

/// What a peer is told of an error: its code, then the message of an error
/// about the request, or a fixed text for an internal one.
pub open spec fn sanitized(e: PduError) -> Seq<char> {
    if is_internal(e.kind) {
        error_code(e.kind) + ": "@ + "Internal server error."@
    } else {
        error_code(e.kind) + ": "@ + e.message@
    }
}

/// The message a peer may see for `e`.
pub fn sanitized_message(e: &PduError) -> (r: String)
    ensures
        r@ == sanitized(*e),
{
    let mut r = match e.kind {
        PduErrorKind::Forbidden => String::from_str("M_FORBIDDEN"),
        PduErrorKind::NotFound => String::from_str("M_NOT_FOUND"),
        PduErrorKind::BadJson => String::from_str("M_BAD_JSON"),
        PduErrorKind::InvalidParam => String::from_str("M_INVALID_PARAM"),
        PduErrorKind::Database | PduErrorKind::Internal => String::from_str("M_UNKNOWN"),
    };
    r.append(": ");
    match e.kind {
        PduErrorKind::Database | PduErrorKind::Internal => r.append("Internal server error."),
        _ => r.append(e.message.as_str()),
    }
    r
}

/// The result of applying one event, as a peer sees it.
pub open spec fn outcome_view(o: Result<(), PduError>) -> Result<(), Seq<char>> {
    match o {
        Ok(()) => Ok(()),
        Err(e) => Err(sanitized(e)),
    }
}

/// The view of a response entry.
pub open spec fn response_view(o: Result<(), String>) -> Result<(), Seq<char>> {
    match o {
        Ok(()) => Ok(()),
        Err(s) => Err(s@),
    }
}

/// Builds the response of a transaction: `results` holds, for each applied
/// event, its position in the submitted list and its outcome; `event_ids`
/// holds the id of each submitted event. Each entry pairs the event's id with
/// success or the sanitized message of its error.
pub fn build_response(event_ids: &Vec<String>, results: &Vec<(usize, Result<(), PduError>)>) -> (r:
    Vec<(String, Result<(), String>)>)
    requires
        forall|k: int| 0 <= k < results@.len() ==> (#[trigger] results@[k]).0 < event_ids@.len(),
    ensures
        r@.len() == results@.len(),
        forall|k: int|
            0 <= k < r@.len() ==> (#[trigger] r@[k]).0@ == event_ids@[results@[k].0 as int]@
                && response_view(r@[k].1) == outcome_view(results@[k].1),
{
    let mut r: Vec<(String, Result<(), String>)> = Vec::new();
    let mut k: usize = 0;
    while k < results.len()
        invariant
            k <= results@.len(),
            r@.len() == k,
            forall|k: int| 0 <= k < results@.len() ==> (#[trigger] results@[k]).0 < event_ids@.len(),
            forall|j: int|
                0 <= j < k ==> (#[trigger] r@[j]).0@ == event_ids@[results@[j].0 as int]@
                    && response_view(r@[j].1) == outcome_view(results@[j].1),
        decreases results@.len() - k,
    {
        let (i, outcome) = &results[k];
        assert(results@[k as int].0 < event_ids@.len());
        let id = event_ids[*i].clone();
        let shown: Result<(), String> = match outcome {
            Ok(()) => Ok(()),
            Err(e) => Err(sanitized_message(e)),
        };
        r.push((id, shown));
        k = k + 1;
    }
    r
}

} // verus!

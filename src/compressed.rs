//! Compressed room state: each entry packs a short state key and a short
//! event id, both big-endian, into sixteen bytes. A state snapshot is a list
//! of such entries, at most one per state key, and is stored as layers of
//! which the last holds the full state.

use vstd::prelude::*;

verus! {

/// Compact integer surrogate of an `(event type, state key)` pair.
pub type ShortStateKey = u64;

/// Compact integer surrogate of an event id.
pub type ShortEventId = u64;

/// Compact integer surrogate of one room-state snapshot.
pub type ShortStateHash = u64;

/// One packed `(short state key, short event id)` entry.
pub type CompressedStateEvent = [u8; 16];

/// The eight big-endian bytes of `x`.
pub open spec fn be_bytes(x: u64) -> Seq<u8> {
    seq![
        (x >> 56u64) as u8,
        (x >> 48u64) as u8,
        (x >> 40u64) as u8,
        (x >> 32u64) as u8,
        (x >> 24u64) as u8,
        (x >> 16u64) as u8,
        (x >> 8u64) as u8,
        x as u8,
    ]
}

/// The integer that the eight bytes of `b` starting at `at` spell, big-endian.
pub open spec fn be_value(b: Seq<u8>, at: int) -> u64 {
    (b[at] as u64) << 56u64
        | (b[at + 1] as u64) << 48u64
        | (b[at + 2] as u64) << 40u64
        | (b[at + 3] as u64) << 32u64
        | (b[at + 4] as u64) << 24u64
        | (b[at + 5] as u64) << 16u64
        | (b[at + 6] as u64) << 8u64
        | (b[at + 7] as u64)
}

/// The bytes of the entry for `(key, event)`.
pub open spec fn entry_bytes(key: u64, event: u64) -> Seq<u8> {
    be_bytes(key) + be_bytes(event)
}

/// The short state key that an entry holds.
pub open spec fn entry_key(b: Seq<u8>) -> u64 {
    be_value(b, 0)
}

/// The short event id that an entry holds.
pub open spec fn entry_event(b: Seq<u8>) -> u64 {
    be_value(b, 8)
}

proof fn lemma_be_round_trip(x: u64)
    ensures
        be_value(be_bytes(x), 0) == x,
{
    let b = be_bytes(x);
    let (b0, b1, b2, b3) = (b[0], b[1], b[2], b[3]);
    let (b4, b5, b6, b7) = (b[4], b[5], b[6], b[7]);
    assert(b0 == (x >> 56u64) as u8 && b1 == (x >> 48u64) as u8 && b2 == (x >> 40u64) as u8
        && b3 == (x >> 32u64) as u8 && b4 == (x >> 24u64) as u8 && b5 == (x >> 16u64) as u8
        && b6 == (x >> 8u64) as u8 && b7 == x as u8);
    assert(((x >> 56u64) as u8 as u64) << 56u64 | ((x >> 48u64) as u8 as u64) << 48u64 | ((x
        >> 40u64) as u8 as u64) << 40u64 | ((x >> 32u64) as u8 as u64) << 32u64 | ((x
        >> 24u64) as u8 as u64) << 24u64 | ((x >> 16u64) as u8 as u64) << 16u64 | ((x
        >> 8u64) as u8 as u64) << 8u64 | (x as u8 as u64) == x) by (bit_vector);
}

proof fn lemma_be_bytes_of_value(b0: u8, b1: u8, b2: u8, b3: u8, b4: u8, b5: u8, b6: u8, b7: u8)
    ensures
        ({
            let v = (b0 as u64) << 56u64 | (b1 as u64) << 48u64 | (b2 as u64) << 40u64 | (
            b3 as u64) << 32u64 | (b4 as u64) << 24u64 | (b5 as u64) << 16u64 | (b6 as u64)
                << 8u64 | (b7 as u64);
            &&& (v >> 56u64) as u8 == b0
            &&& (v >> 48u64) as u8 == b1
            &&& (v >> 40u64) as u8 == b2
            &&& (v >> 32u64) as u8 == b3
            &&& (v >> 24u64) as u8 == b4
            &&& (v >> 16u64) as u8 == b5
            &&& (v >> 8u64) as u8 == b6
            &&& v as u8 == b7
        }),
{
    assert({
        let v = (b0 as u64) << 56u64 | (b1 as u64) << 48u64 | (b2 as u64) << 40u64 | (
        b3 as u64) << 32u64 | (b4 as u64) << 24u64 | (b5 as u64) << 16u64 | (b6 as u64)
            << 8u64 | (b7 as u64);
        &&& (v >> 56u64) as u8 == b0
        &&& (v >> 48u64) as u8 == b1
        &&& (v >> 40u64) as u8 == b2
        &&& (v >> 32u64) as u8 == b3
        &&& (v >> 24u64) as u8 == b4
        &&& (v >> 16u64) as u8 == b5
        &&& (v >> 8u64) as u8 == b6
        &&& v as u8 == b7
    }) by (bit_vector);
}

/// Decoding an encoded entry gives back the pair that was encoded, for every
/// short state key and every short event id.
pub proof fn lemma_entry_round_trip(key: u64, event: u64)
    ensures
        entry_bytes(key, event).len() == 16,
        entry_key(entry_bytes(key, event)) == key,
        entry_event(entry_bytes(key, event)) == event,
{
    let b = entry_bytes(key, event);
    lemma_be_round_trip(key);
    lemma_be_round_trip(event);
    assert(b.subrange(0, 8) == be_bytes(key));
    assert(b.subrange(8, 16) == be_bytes(event));
    assert(be_value(b, 0) == be_value(be_bytes(key), 0));
    assert(be_value(b, 8) == be_value(be_bytes(event), 0));
}

/// Every sixteen-byte entry is the encoding of the pair it decodes to.
pub proof fn lemma_entry_decode_encode(b: Seq<u8>)
    requires
        b.len() == 16,
    ensures
        entry_bytes(entry_key(b), entry_event(b)) == b,
{
    lemma_be_bytes_of_value(b[0], b[1], b[2], b[3], b[4], b[5], b[6], b[7]);
    lemma_be_bytes_of_value(b[8], b[9], b[10], b[11], b[12], b[13], b[14], b[15]);
    assert(entry_bytes(entry_key(b), entry_event(b)) =~= b);
}

/// Packs a short state key and a short event id into one entry.
pub fn compress_state_event(key: ShortStateKey, event: ShortEventId) -> (r: CompressedStateEvent)
    ensures
        r@ == entry_bytes(key, event),
{
    let r: [u8; 16] = [
        (key >> 56u64) as u8,
        (key >> 48u64) as u8,
        (key >> 40u64) as u8,
        (key >> 32u64) as u8,
        (key >> 24u64) as u8,
        (key >> 16u64) as u8,
        (key >> 8u64) as u8,
        key as u8,
        (event >> 56u64) as u8,
        (event >> 48u64) as u8,
        (event >> 40u64) as u8,
        (event >> 32u64) as u8,
        (event >> 24u64) as u8,
        (event >> 16u64) as u8,
        (event >> 8u64) as u8,
        event as u8,
    ];
    assert(r@ =~= entry_bytes(key, event));
    r
}

fn read_be_u64(b: &CompressedStateEvent, at: usize) -> (r: u64)
    requires
        at == 0 || at == 8,
    ensures
        r == be_value(b@, at as int),
{
    (b[at] as u64) << 56u64 | (b[at + 1] as u64) << 48u64 | (b[at + 2] as u64) << 40u64 | (b[at
        + 3] as u64) << 32u64 | (b[at + 4] as u64) << 24u64 | (b[at + 5] as u64) << 16u64 | (b[at
        + 6] as u64) << 8u64 | (b[at + 7] as u64)
}

/// Unpacks an entry into its short state key and short event id.
pub fn parse_compressed_state_event(b: CompressedStateEvent) -> (r: (ShortStateKey, ShortEventId))
    ensures
        r == (entry_key(b@), entry_event(b@)),
{
    (read_be_u64(&b, 0), read_be_u64(&b, 8))
}

/// Why a state lookup found nothing.
#[derive(Clone, Copy, Debug, PartialEq, Eq, Structural)]
pub enum StateError {
    /// The snapshot has no stored layer.
    MissingState,
    /// The snapshot holds no entry for the state key.
    NoStateKey,
}

/// The decoded pairs of a list of entries, in order.
pub open spec fn decoded(entries: Seq<CompressedStateEvent>) -> Seq<(u64, u64)> {
    entries.map_values(|b: CompressedStateEvent| (entry_key(b@), entry_event(b@)))
}

/// `i` is the first entry of `entries` whose state key is `key`.
pub open spec fn is_first_with_key(entries: Seq<CompressedStateEvent>, key: u64, i: int) -> bool {
    &&& 0 <= i < entries.len()
    &&& entry_key(entries[i]@) == key
    &&& forall|j: int| 0 <= j < i ==> entry_key(entries[j]@) != key
}

/// The short event id that the snapshot `entries` holds for `key`: that of
/// the first entry with this key.
pub open spec fn lookup_key(entries: Seq<CompressedStateEvent>, key: u64) -> Option<u64> {
    if exists|i: int| is_first_with_key(entries, key, i) {
        Some(entry_event(entries[choose|i: int| is_first_with_key(entries, key, i)]@))
    } else {
        None
    }
}

/// The full state of a snapshot stored as `layers`: the last layer.
pub fn full_state_layer(layers: &Vec<Vec<CompressedStateEvent>>) -> (r: Result<
    &Vec<CompressedStateEvent>,
    StateError,
>)
    ensures
        layers@.len() == 0 ==> r == Err::<&Vec<CompressedStateEvent>, StateError>(
            StateError::MissingState,
        ),
        layers@.len() > 0 ==> r.is_ok() && r.unwrap()@ == layers@.last()@,
{
    let n = layers.len();
    if n == 0 {
        Err(StateError::MissingState)
    } else {
        Ok(&layers[n - 1])
    }
}

/// Decodes every entry of a list, in order.
pub fn decode_entries(entries: &Vec<CompressedStateEvent>) -> (r: Vec<(ShortStateKey, ShortEventId)>)
    ensures
        r@ == decoded(entries@),
{
    let mut r: Vec<(u64, u64)> = Vec::new();
    let mut i: usize = 0;
    while i < entries.len()
        invariant
            i <= entries@.len(),
            r@ == decoded(entries@.take(i as int)),
        decreases entries@.len() - i,
    {
        r.push(parse_compressed_state_event(entries[i]));
        assert(entries@.take(i + 1) == entries@.take(i as int).push(entries@[i as int]));
        i = i + 1;
    }
    assert(entries@.take(entries@.len() as int) == entries@);
    r
}

/// Finds the short event id stored for `key` in a list of entries.
pub fn find_state_key(entries: &Vec<CompressedStateEvent>, key: ShortStateKey) -> (r: Option<
    ShortEventId,
>)
    ensures
        r == lookup_key(entries@, key),
{
    let mut i: usize = 0;
    while i < entries.len()
        invariant
            i <= entries@.len(),
            forall|j: int| 0 <= j < i ==> entry_key(entries@[j]@) != key,
        decreases entries@.len() - i,
    {
        let (k, e) = parse_compressed_state_event(entries[i]);
        if k == key {
            proof {
                assert(is_first_with_key(entries@, key, i as int));
                let c = choose|c: int| is_first_with_key(entries@, key, c);
                assert(c == i) by {
                    if c < i {
                    } else if c > i {
                        assert(entry_key(entries@[i as int]@) != key);
                    }
                }
            }
            return Some(e);
        }
        i = i + 1;
    }
    None
}

} // verus!

//! The payload codec: a payload becomes a CBOR map, the map an LZ4 frame, and
//! the digest is taken over the frame.

use crate::cbor::{as_slots, cbor_map_bytes, cbor_map_slots, cbor_read_map, cbor_write_map, entries_view, slots_view, EntryView, Item, ItemView, Scalar, ScalarView, Slot, SlotView, TaggedView};
use crate::compression::{lz4_compress, lz4_decompress, lz4_unframe};
use crate::digest::{bytes_equal, sha256, sha256_digest, DIGEST_LEN};
use crate::model::{Event, EventView, SerializedEvent};
use vstd::prelude::*;
use vstd::utf8::encode_utf8;

verus! {

/// The longest key, in bytes, that a map may have.
pub const MAX_KEY_LEN: usize = 4096;

/// The compression level of every frame written.
pub const COMPRESSION_LEVEL: u32 = 4;

/// Why encoding or decoding a payload failed.
#[derive(Debug, Clone, Copy, PartialEq, Eq, Structural)]
pub enum CodecError {
    /// The payload could not be written in the binary format.
    EncodingFailed,
    /// The compression stream failed.
    CompressionFailed,
    /// The digest supplied is not the digest of the bytes supplied.
    CorruptionDetected,
    /// The digest matched, but the bytes did not decompress.
    DecompressionFailed,
    /// The digest matched and the bytes decompressed, but what came out is no
    /// payload of this format.
    FormatMismatch,
}

/// Key of the first payload field.
pub open spec fn key_user_id() -> Seq<char> {
    "user_id"@
}

/// Key of the second payload field.
pub open spec fn key_action() -> Seq<char> {
    "action"@
}

/// Key of the third payload field.
pub open spec fn key_value() -> Seq<char> {
    "value"@
}

/// The map that stands for a payload: its three fields under their keys.
pub open spec fn event_entries(event: EventView) -> Seq<EntryView> {
    seq![
        (key_user_id(), ScalarView::Text(event.user_id)),
        (key_action(), ScalarView::Text(event.action)),
        (key_value(), ScalarView::Unsigned(event.value)),
    ]
}

/// Whether an item, standing as a key, names the field `key`: it is that
/// text, or the byte string of its UTF-8 encoding. Tags before a key count
/// for nothing.
pub open spec fn names_field(item: ItemView, key: Seq<char>) -> bool {
    match item {
        ItemView::Text(s) => s == key,
        ItemView::Bytes(b) => b == encode_utf8(key),
        _ => false,
    }
}

/// Whether an item can stand as a key: only a text or a byte string of at
/// most [`MAX_KEY_LEN`] bytes can.
pub open spec fn is_key(item: ItemView) -> bool {
    match item {
        ItemView::Text(s) => encode_utf8(s).len() <= MAX_KEY_LEN,
        ItemView::Bytes(b) => b.len() <= MAX_KEY_LEN,
        _ => false,
    }
}

/// A text takes at most four bytes for each of its characters.
pub proof fn lemma_utf8_len_bound(chars: Seq<char>)
    ensures
        encode_utf8(chars).len() <= 4 * chars.len(),
    decreases chars.len(),
{
    if chars.len() > 0 {
        lemma_utf8_len_bound(chars.drop_first());
        assert(vstd::utf8::encode_scalar(chars[0] as u32).len() <= 4);
    }
}

/// Every key of the map can stand as a key.
pub open spec fn keys_readable(slots: Seq<SlotView>) -> bool {
    forall|i: int| 0 <= i < slots.len() ==> is_key((#[trigger] slots[i]).0.1)
}

/// The tag of a big number: what follows it is read as the bytes of an
/// integer, not as an item of its own.
pub open spec fn is_bignum_tag(tag: u64) -> bool {
    tag == 2 || tag == 3
}

/// None of the tags is that of a big number.
pub open spec fn plain_tags(tags: Seq<u64>) -> bool {
    forall|i: int| 0 <= i < tags.len() ==> !is_bignum_tag(#[trigger] tags[i])
}

/// How often a key was met in a map.
pub enum Lookup {
    /// No slot has the key.
    Missing,
    /// Exactly one slot has the key, and this is its value under its tags.
    Once(TaggedView),
    /// More than one slot has the key.
    Repeated,
}

/// Looks a key up among the slots of a map.
pub open spec fn find_field(slots: Seq<SlotView>, key: Seq<char>) -> Lookup
    decreases slots.len(),
{
    if slots.len() == 0 {
        Lookup::Missing
    } else {
        let before = find_field(slots.drop_last(), key);
        if names_field(slots.last().0.1, key) {
            match before {
                Lookup::Missing => Lookup::Once(slots.last().1),
                _ => Lookup::Repeated,
            }
        } else {
            before
        }
    }
}

/// The text under a key that occurs exactly once, whatever its tags.
pub open spec fn text_field(slots: Seq<SlotView>, key: Seq<char>) -> Option<Seq<char>> {
    match find_field(slots, key) {
        Lookup::Once((_, ItemView::Text(s))) => Some(s),
        _ => None,
    }
}

/// The number under a key that occurs exactly once, where it is an integer
/// from 0 to 2^64 - 1 under no tag of a big number.
pub open spec fn unsigned_field(slots: Seq<SlotView>, key: Seq<char>) -> Option<u64> {
    match find_field(slots, key) {
        Lookup::Once((tags, ItemView::Integer(n))) => if plain_tags(tags) && 0 <= n <= u64::MAX {
            Some(n as u64)
        } else {
            None
        },
        _ => None,
    }
}

/// The payload that a map stands for: every key is a text or a byte string
/// of at most [`MAX_KEY_LEN`] bytes, and each of the three fields is named
/// exactly once, with a value of its type; slots under other texts and byte
/// strings are passed over. A map with a key of another kind stands for no
/// payload. Tags before a key, a text or an integer are passed over, but a
/// tag of a big number before an integer.
pub open spec fn event_of_slots(slots: Seq<SlotView>) -> Option<EventView> {
    if !keys_readable(slots) {
        None
    } else {
        match (
            text_field(slots, key_user_id()),
            text_field(slots, key_action()),
            unsigned_field(slots, key_value()),
        ) {
            (Some(user_id), Some(action), Some(value)) => Some(
                EventView { user_id, action, value },
            ),
            _ => None,
        }
    }
}

/// What decoding uncompressed bytes gives.
pub open spec fn decode_raw_spec(raw: Seq<u8>) -> Result<EventView, CodecError> {
    match cbor_map_slots(raw) {
        Some(slots) => match event_of_slots(slots) {
            Some(event) => Ok(event),
            None => Err(CodecError::FormatMismatch),
        },
        None => Err(CodecError::FormatMismatch),
    }
}

/// What decoding a stored payload against its stored digest gives.
pub open spec fn decode_spec(payload: Seq<u8>, digest: Seq<u8>) -> Result<EventView, CodecError> {
    if sha256(payload) != digest {
        Err(CodecError::CorruptionDetected)
    } else {
        match lz4_unframe(payload) {
            Some(raw) => decode_raw_spec(raw),
            None => Err(CodecError::DecompressionFailed),
        }
    }
}

/// `payload` and `digest` are an encoding of `event`: a frame that holds the
/// CBOR map of its fields, which reads back as written, and the digest of
/// that frame. The frame itself is not pinned down: a compressor may choose
/// among many.
pub open spec fn is_encoding_of(event: EventView, payload: Seq<u8>, digest: Seq<u8>) -> bool {
    let raw = cbor_map_bytes(event_entries(event));
    &&& lz4_unframe(payload) == Some(raw)
    &&& cbor_map_slots(raw) == Some(as_slots(event_entries(event)))
    &&& digest == sha256(payload)
    &&& digest.len() == DIGEST_LEN
}

/// The view of a decoding result.
pub open spec fn decoded_view(r: Result<Event, CodecError>) -> Result<EventView, CodecError> {
    match r {
        Ok(event) => Ok(event@),
        Err(e) => Err(e),
    }
}

/// The three keys differ from one another.
pub proof fn lemma_keys_distinct()
    ensures
        key_user_id() != key_action(),
        key_user_id() != key_value(),
        key_action() != key_value(),
{
    reveal_strlit("user_id");
    reveal_strlit("action");
    reveal_strlit("value");
    assert(key_user_id().len() == 7);
    assert(key_action().len() == 6);
    assert(key_value().len() == 5);
}

/// Reading back the map of a payload gives the payload.
pub proof fn lemma_entries_round_trip(event: EventView)
    ensures
        event_of_slots(as_slots(event_entries(event))) == Some(event),
{
    lemma_keys_distinct();
    let s3 = as_slots(event_entries(event));
    assert(keys_readable(s3)) by {
        reveal_strlit("user_id");
        reveal_strlit("action");
        reveal_strlit("value");
        lemma_utf8_len_bound(key_user_id());
        lemma_utf8_len_bound(key_action());
        lemma_utf8_len_bound(key_value());
    }
    let s2 = s3.drop_last();
    let s1 = s2.drop_last();
    let s0 = s1.drop_last();
    assert(s3.len() == 3 && s2.len() == 2 && s1.len() == 1 && s0.len() == 0);
    let none = Seq::<u64>::empty();
    assert(plain_tags(none));
    assert(s3.last() == ((none, ItemView::Text(key_value())), (none, ItemView::Integer(event.value as i128))));
    assert(s2.last() == ((none, ItemView::Text(key_action())), (none, ItemView::Text(event.action))));
    assert(s1.last() == ((none, ItemView::Text(key_user_id())), (none, ItemView::Text(event.user_id))));
    reveal_with_fuel(find_field, 4);
    assert(find_field(s1, key_user_id()) == Lookup::Once((none, ItemView::Text(event.user_id))));
    assert(find_field(s1, key_action()) == Lookup::Missing);
    assert(find_field(s1, key_value()) == Lookup::Missing);
    assert(find_field(s2, key_user_id()) == Lookup::Once((none, ItemView::Text(event.user_id))));
    assert(find_field(s2, key_action()) == Lookup::Once((none, ItemView::Text(event.action))));
    assert(find_field(s2, key_value()) == Lookup::Missing);
    assert(find_field(s3, key_user_id()) == Lookup::Once((none, ItemView::Text(event.user_id))));
    assert(find_field(s3, key_action()) == Lookup::Once((none, ItemView::Text(event.action))));
    assert(find_field(s3, key_value()) == Lookup::Once((none, ItemView::Integer(event.value as i128))));
}

/// Decoding an encoding of a payload, against the digest that came with it,
/// gives the payload back.
pub proof fn lemma_round_trip(event: EventView, payload: Seq<u8>, digest: Seq<u8>)
    requires
        is_encoding_of(event, payload, digest),
    ensures
        decode_spec(payload, digest) == Ok::<EventView, CodecError>(event),
{
    lemma_entries_round_trip(event);
}

/// Bytes whose digest differs from the stored digest are never decoded:
/// whatever was changed in them, the answer is `CorruptionDetected`.
pub proof fn lemma_tampering_detected(payload: Seq<u8>, tampered: Seq<u8>, digest: Seq<u8>)
    requires
        digest == sha256(payload),
        sha256(tampered) != sha256(payload),
    ensures
        decode_spec(tampered, digest) == Err::<EventView, CodecError>(
            CodecError::CorruptionDetected,
        ),
{
}

/// `bytes` with one bit of the byte at `index` flipped.
pub open spec fn with_bit_flipped(bytes: Seq<u8>, index: int, bit: u8) -> Seq<u8> {
    bytes.update(index, bytes[index] ^ (1u8 << bit))
}

/// Flipping one bit of a byte string gives another byte string.
pub proof fn lemma_flipped_bit_changes_bytes(bytes: Seq<u8>, index: int, bit: u8)
    requires
        0 <= index < bytes.len(),
        bit < 8,
    ensures
        with_bit_flipped(bytes, index, bit) != bytes,
        with_bit_flipped(bytes, index, bit).len() == bytes.len(),
{
    let old_byte = bytes[index];
    assert(old_byte ^ (1u8 << bit) != old_byte) by (bit_vector)
        requires
            bit < 8,
    ;
    assert(with_bit_flipped(bytes, index, bit)[index] != bytes[index]);
}

/// Decoding an encoded payload with one bit flipped, against the digest it
/// had before, is a `CorruptionDetected`, and so never a payload, unless the
/// two byte strings have one SHA-256 digest.
pub proof fn lemma_flipped_bit_detected(payload: Seq<u8>, digest: Seq<u8>, index: int, bit: u8)
    requires
        digest == sha256(payload),
        0 <= index < payload.len(),
        bit < 8,
        sha256(with_bit_flipped(payload, index, bit)) != sha256(payload),
    ensures
        decode_spec(with_bit_flipped(payload, index, bit), digest) == Err::<EventView, CodecError>(
            CodecError::CorruptionDetected,
        ),
{
    lemma_tampering_detected(payload, with_bit_flipped(payload, index, bit), digest);
}

/// A stored digest that is no digest of the stored bytes is always reported.
pub proof fn lemma_corruption_iff_digest_differs(payload: Seq<u8>, digest: Seq<u8>)
    ensures
        decode_spec(payload, digest) == Err::<EventView, CodecError>(CodecError::CorruptionDetected)
            <==> sha256(payload) != digest,
{
    if sha256(payload) == digest {
        match lz4_unframe(payload) {
            Some(raw) => {},
            None => {},
        }
    }
}

/// Where a key was met among the slots of a map.
pub enum Position {
    /// No slot has the key.
    Missing,
    /// Exactly one slot has the key: the one at this index.
    At(usize),
    /// More than one slot has the key.
    Repeated,
}

/// Writes a payload as the entries of its map.
pub fn event_to_entries(event: &Event) -> (entries: Vec<(String, Scalar)>)
    ensures
        entries_view(entries@) == event_entries(event@),
{
    let mut entries: Vec<(String, Scalar)> = Vec::new();
    entries.push(("user_id".to_owned(), Scalar::Text(event.user_id.clone())));
    entries.push(("action".to_owned(), Scalar::Text(event.action.clone())));
    entries.push(("value".to_owned(), Scalar::Unsigned(event.value)));
    assert(entries_view(entries@) =~= event_entries(event@));
    entries
}

/// Looks a key up among the slots read from a map.
pub fn locate(slots: &Vec<Slot>, key: &String) -> (pos: Position)
    ensures
        (match pos {
            Position::Missing => find_field(slots_view(slots@), key@) == Lookup::Missing,
            Position::At(i) => i < slots@.len() && find_field(slots_view(slots@), key@)
                == Lookup::Once(slots_view(slots@)[i as int].1),
            Position::Repeated => find_field(slots_view(slots@), key@) == Lookup::Repeated,
        }),
{
    let ghost all = slots_view(slots@);
    let mut pos = Position::Missing;
    let mut i: usize = 0;
    while i < slots.len()
        invariant
            i <= slots@.len(),
            all == slots_view(slots@),
            match pos {
                Position::Missing => find_field(all.take(i as int), key@) == Lookup::Missing,
                Position::At(j) => j < i && find_field(all.take(i as int), key@) == Lookup::Once(
                    all[j as int].1,
                ),
                Position::Repeated => find_field(all.take(i as int), key@) == Lookup::Repeated,
            },
        decreases slots@.len() - i,
    {
        proof {
            assert(all.take(i + 1).drop_last() =~= all.take(i as int));
            assert(all.take(i + 1).last() == all[i as int]);
        }
        let hit = match &slots[i].0.1 {
            Item::Text(k) => *k == *key,
            Item::Bytes(b) => bytes_equal(b.as_slice(), key.as_str().as_bytes()),
            _ => false,
        };
        assert(hit == names_field(all[i as int].0.1, key@));
        if hit {
            pos = match pos {
                Position::Missing => Position::At(i),
                _ => Position::Repeated,
            };
        }
        i += 1;
    }
    assert(all.take(i as int) =~= all);
    pos
}

/// Reads the text under a key that must occur exactly once.
pub fn read_text(slots: &Vec<Slot>, key: &String) -> (text: Option<String>)
    ensures
        (match text {
            Some(s) => text_field(slots_view(slots@), key@) == Some(s@),
            None => text_field(slots_view(slots@), key@).is_none(),
        }),
{
    match locate(slots, key) {
        Position::At(i) => match &slots[i].1.1 {
            Item::Text(s) => Some(s.clone()),
            _ => None,
        },
        _ => None,
    }
}

/// Whether none of the tags is that of a big number.
pub fn tags_plain(tags: &Vec<u64>) -> (ok: bool)
    ensures
        ok == plain_tags(tags@),
{
    let mut i: usize = 0;
    while i < tags.len()
        invariant
            i <= tags@.len(),
            forall|j: int| 0 <= j < i ==> !is_bignum_tag(#[trigger] tags@[j]),
        decreases tags@.len() - i,
    {
        if tags[i] == 2 || tags[i] == 3 {
            assert(is_bignum_tag(tags@[i as int]));
            return false;
        }
        i += 1;
    }
    true
}

/// Reads the number under a key that must occur exactly once.
pub fn read_unsigned(slots: &Vec<Slot>, key: &String) -> (number: Option<u64>)
    ensures
        number == unsigned_field(slots_view(slots@), key@),
{
    match locate(slots, key) {
        Position::At(i) => match &slots[i].1.1 {
            Item::Integer(n) => if tags_plain(&slots[i].1.0) && 0 <= *n && *n
                <= 0xffff_ffff_ffff_ffff {
                Some(*n as u64)
            } else {
                None
            },
            _ => None,
        },
        _ => None,
    }
}

/// Whether every key among the slots is a text or a byte string of at most
/// [`MAX_KEY_LEN`] bytes.
pub fn all_keys_readable(slots: &Vec<Slot>) -> (ok: bool)
    ensures
        ok == keys_readable(slots_view(slots@)),
{
    let mut i: usize = 0;
    while i < slots.len()
        invariant
            i <= slots@.len(),
            forall|j: int| 0 <= j < i ==> is_key((#[trigger] slots_view(slots@)[j]).0.1),
        decreases slots@.len() - i,
    {
        let readable = match &slots[i].0.1 {
            Item::Text(k) => k.as_str().as_bytes().len() <= MAX_KEY_LEN,
            Item::Bytes(b) => b.len() <= MAX_KEY_LEN,
            _ => false,
        };
        if !readable {
            assert(!is_key(slots_view(slots@)[i as int].0.1));
            return false;
        }
        i += 1;
    }
    true
}

/// Reads a payload from the slots of its map.
pub fn event_from_slots(slots: &Vec<Slot>) -> (event: Option<Event>)
    ensures
        (match event {
            Some(e) => event_of_slots(slots_view(slots@)) == Some(e@),
            None => event_of_slots(slots_view(slots@)).is_none(),
        }),
{
    if !all_keys_readable(slots) {
        return None;
    }
    let user_id = match read_text(slots, &"user_id".to_owned()) {
        Some(s) => s,
        None => return None,
    };
    let action = match read_text(slots, &"action".to_owned()) {
        Some(s) => s,
        None => return None,
    };
    let value = match read_unsigned(slots, &"value".to_owned()) {
        Some(n) => n,
        None => return None,
    };
    Some(Event { user_id, action, value })
}

/// Decodes uncompressed bytes: a CBOR map that holds the three fields.
pub fn decode_raw(raw: &[u8]) -> (r: Result<Event, CodecError>)
    ensures
        decoded_view(r) == decode_raw_spec(raw@),
{
    match cbor_read_map(raw) {
        Some(slots) => match event_from_slots(&slots) {
            Some(event) => Ok(event),
            None => Err(CodecError::FormatMismatch),
        },
        None => Err(CodecError::FormatMismatch),
    }
}

/// Goes on from what decompression gave: no bytes are a
/// `DecompressionFailed`, bytes are decoded.
pub fn decode_decompressed(raw: Option<Vec<u8>>) -> (r: Result<Event, CodecError>)
    ensures
        (match raw {
            Some(bytes) => decoded_view(r) == decode_raw_spec(bytes@),
            None => r matches Err(CodecError::DecompressionFailed),
        }),
{
    match raw {
        Some(bytes) => decode_raw(bytes.as_slice()),
        None => Err(CodecError::DecompressionFailed),
    }
}

/// Goes on from what compression gave: no frame is a `CompressionFailed`, a
/// frame is stored with its digest.
pub fn seal_frame(frame: Option<Vec<u8>>) -> (r: Result<SerializedEvent, CodecError>)
    ensures
        (match frame {
            Some(bytes) => r matches Ok(s) && s.payload@ == bytes@ && s.hash@ == sha256(bytes@)
                && s.hash@.len() == DIGEST_LEN,
            None => r matches Err(CodecError::CompressionFailed),
        }),
{
    match frame {
        Some(payload) => {
            let hash = sha256_digest(payload.as_slice());
            Ok(SerializedEvent { payload, hash })
        },
        None => Err(CodecError::CompressionFailed),
    }
}

/// Goes on from what the CBOR encoder gave: no bytes are an
/// `EncodingFailed`, bytes are compressed and sealed.
pub fn compress_encoded(raw: Option<Vec<u8>>) -> (r: Result<SerializedEvent, CodecError>)
    ensures
        raw.is_some() <==> r is Ok,
        r matches Err(e) ==> e == CodecError::EncodingFailed,
        r matches Ok(s) ==> raw matches Some(bytes) && lz4_unframe(s.payload@) == Some(bytes@)
            && s.hash@ == sha256(s.payload@) && s.hash@.len() == DIGEST_LEN,
{
    match raw {
        Some(bytes) => seal_frame(lz4_compress(bytes.as_slice(), COMPRESSION_LEVEL)),
        None => Err(CodecError::EncodingFailed),
    }
}

/// Encodes a payload: CBOR, then an LZ4 frame, then the SHA-256 digest of the
/// frame.
///
/// Every payload is encoded: the result is `Ok`, an encoding of `event`,
/// which decodes to it.
pub fn serialize_event(event: &Event) -> (r: Result<SerializedEvent, CodecError>)
    ensures
        r is Ok,
        r matches Ok(s) ==> is_encoding_of(event@, s.payload@, s.hash@) && decode_spec(
            s.payload@,
            s.hash@,
        ) == Ok::<EventView, CodecError>(event@),
{
    let entries = event_to_entries(event);
    let r = compress_encoded(cbor_write_map(&entries));
    proof {
        if let Ok(s) = &r {
            lemma_round_trip(event@, s.payload@, s.hash@);
        }
    }
    r
}

/// Decodes a stored payload after checking it against its stored digest.
///
/// A digest that differs from the digest of `payload` gives
/// `CorruptionDetected`, and nothing is decompressed. Otherwise the frame is
/// decompressed, which gives `DecompressionFailed` where it is malformed, and
/// the bytes are read as the map of a payload, which gives `FormatMismatch`
/// where they are none.
pub fn deserialize_event(payload: &[u8], expected_hash: &[u8]) -> (r: Result<Event, CodecError>)
    ensures
        decoded_view(r) == decode_spec(payload@, expected_hash@),
        r matches Err(CodecError::CorruptionDetected) <==> sha256(payload@) != expected_hash@,
{
    let actual = sha256_digest(payload);
    if !bytes_equal(actual.as_slice(), expected_hash) {
        return Err(CodecError::CorruptionDetected);
    }
    decode_decompressed(lz4_decompress(payload))
}

} // verus!

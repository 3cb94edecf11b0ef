use eventack::cbor::{Item, Scalar, Slot};
use eventack::codec::{
    all_keys_readable, compress_encoded, decode_decompressed, decode_raw, seal_frame, deserialize_event, event_from_slots, event_to_entries,
    locate, read_text, read_unsigned, serialize_event, tags_plain, CodecError, Position,
    COMPRESSION_LEVEL, MAX_KEY_LEN,
};
use eventack::digest::{bytes_equal, DIGEST_LEN};
use eventack::model::Event;
use sha2::Digest;
use std::io::{Read, Write};

fn sample() -> Event {
    Event { user_id: "user123".into(), action: "click".into(), value: 42 }
}

fn sample_cbor() -> Vec<u8> {
    let mut bytes = vec![0xa3];
    bytes.push(0x67);
    bytes.extend_from_slice(b"user_id");
    bytes.push(0x67);
    bytes.extend_from_slice(b"user123");
    bytes.push(0x66);
    bytes.extend_from_slice(b"action");
    bytes.push(0x65);
    bytes.extend_from_slice(b"click");
    bytes.push(0x65);
    bytes.extend_from_slice(b"value");
    bytes.extend_from_slice(&[0x18, 0x2a]);
    bytes
}

fn sha256(bytes: &[u8]) -> Vec<u8> {
    sha2::Sha256::digest(bytes).to_vec()
}

fn frame(bytes: &[u8]) -> Vec<u8> {
    let mut encoder = lz4::EncoderBuilder::new().level(COMPRESSION_LEVEL).build(Vec::new()).unwrap();
    encoder.write_all(bytes).unwrap();
    let (out, end) = encoder.finish();
    end.unwrap();
    out
}

fn unframe(bytes: &[u8]) -> Vec<u8> {
    let mut decoder = lz4::Decoder::new(std::io::Cursor::new(bytes)).unwrap();
    let mut out = Vec::new();
    decoder.read_to_end(&mut out).unwrap();
    out
}

#[test]
fn test_serialize_deserialize() {
    let ev = Event { user_id: "user123".into(), action: "click".into(), value: 42 };

    let serialized = serialize_event(&ev).unwrap();
    let deserialized = deserialize_event(&serialized.payload, &serialized.hash).unwrap();

    assert_eq!(deserialized.user_id, ev.user_id);
    assert_eq!(deserialized.action, ev.action);
    assert_eq!(deserialized.value, ev.value);
}

#[test]
fn round_trip_keeps_edge_values() {
    let long: String = "x".repeat(10_000);
    let cases = vec![
        Event { user_id: String::new(), action: String::new(), value: 0 },
        Event { user_id: "ü–ñ".into(), action: long.clone(), value: u64::MAX },
        Event { user_id: "a".into(), action: "b".into(), value: 23 },
        Event { user_id: "a".into(), action: "b".into(), value: 24 },
        Event { user_id: "a".into(), action: "b".into(), value: 65_536 },
    ];
    for ev in cases {
        let s = serialize_event(&ev).unwrap();
        let back = deserialize_event(&s.payload, &s.hash).unwrap();
        assert_eq!(back.user_id, ev.user_id);
        assert_eq!(back.action, ev.action);
        assert_eq!(back.value, ev.value);
    }
}

#[test]
fn digest_is_sha256_of_the_compressed_bytes() {
    let s = serialize_event(&sample()).unwrap();
    assert_eq!(s.hash.len(), DIGEST_LEN);
    assert_eq!(s.hash.len(), 32);
    assert_eq!(s.hash, sha256(&s.payload));
    assert_ne!(s.hash, s.payload);
}

#[test]
fn payload_is_the_frame_of_the_cbor_map() {
    let s = serialize_event(&sample()).unwrap();
    assert_eq!(unframe(&s.payload), sample_cbor());
    assert_eq!(s.payload, frame(&sample_cbor()));
    assert_ne!(s.payload, sample_cbor());
}

#[test]
fn encoding_is_repeatable() {
    let a = serialize_event(&sample()).unwrap();
    let b = serialize_event(&sample()).unwrap();
    assert_eq!(a.payload, b.payload);
    assert_eq!(a.hash, b.hash);
}

#[test]
fn every_flipped_bit_is_reported_as_corruption() {
    let s = serialize_event(&sample()).unwrap();
    for i in 0..s.payload.len() {
        for bit in 0..8 {
            let mut tampered = s.payload.clone();
            tampered[i] ^= 1 << bit;
            let r = deserialize_event(&tampered, &s.hash);
            assert_eq!(r.err(), Some(CodecError::CorruptionDetected));
        }
    }
}

#[test]
fn wrong_digest_is_reported_as_corruption() {
    let s = serialize_event(&sample()).unwrap();
    let mut digest = s.hash.clone();
    digest[0] ^= 0x80;
    assert_eq!(deserialize_event(&s.payload, &digest).err(), Some(CodecError::CorruptionDetected));
    assert_eq!(deserialize_event(&s.payload, &[]).err(), Some(CodecError::CorruptionDetected));
    assert_eq!(
        deserialize_event(&s.payload, &s.hash[..31]).err(),
        Some(CodecError::CorruptionDetected)
    );
}

#[test]
fn matching_digest_over_a_broken_frame_is_a_decompression_failure() {
    let garbage = b"this is no lz4 frame at all".to_vec();
    let r = deserialize_event(&garbage, &sha256(&garbage));
    assert_eq!(r.err(), Some(CodecError::DecompressionFailed));
}

#[test]
fn matching_digest_over_another_format_is_a_format_mismatch() {
    let payload = frame(b"\x83\x01\x02\x03");
    let r = deserialize_event(&payload, &sha256(&payload));
    assert_eq!(r.err(), Some(CodecError::FormatMismatch));
}

#[test]
fn decode_raw_reads_the_map() {
    let ev = decode_raw(&sample_cbor()).unwrap();
    assert_eq!(ev.user_id, "user123");
    assert_eq!(ev.action, "click");
    assert_eq!(ev.value, 42);
}

#[test]
fn decode_raw_takes_the_fields_in_any_order_and_passes_over_others() {
    let mut bytes = vec![0xa4];
    bytes.push(0x65);
    bytes.extend_from_slice(b"value");
    bytes.push(0x07);
    bytes.push(0x65);
    bytes.extend_from_slice(b"extra");
    bytes.push(0xf5);
    bytes.push(0x66);
    bytes.extend_from_slice(b"action");
    bytes.push(0x61);
    bytes.extend_from_slice(b"a");
    bytes.push(0x67);
    bytes.extend_from_slice(b"user_id");
    bytes.push(0x61);
    bytes.extend_from_slice(b"u");
    let ev = decode_raw(&bytes).unwrap();
    assert_eq!(ev.user_id, "u");
    assert_eq!(ev.action, "a");
    assert_eq!(ev.value, 7);
}

#[test]
fn decode_raw_refuses_what_is_no_payload() {
    assert_eq!(decode_raw(&[]).err(), Some(CodecError::FormatMismatch));
    assert_eq!(decode_raw(&[0x83, 1, 2, 3]).err(), Some(CodecError::FormatMismatch));
    assert_eq!(decode_raw(&[0xa0]).err(), Some(CodecError::FormatMismatch));
    let whole = sample_cbor();
    assert_eq!(decode_raw(&whole[..whole.len() - 1]).err(), Some(CodecError::FormatMismatch));
    // the number where a text is due
    let mut swapped = sample_cbor();
    let at = swapped.len() - 2;
    swapped[at] = 0x61;
    swapped[at + 1] = b'x';
    assert_eq!(decode_raw(&swapped).err(), Some(CodecError::FormatMismatch));
    // a negative number
    let mut negative = sample_cbor();
    negative[at] = 0x38;
    assert_eq!(decode_raw(&negative).err(), Some(CodecError::FormatMismatch));
}

#[test]
fn decode_raw_refuses_a_repeated_field() {
    let mut bytes = vec![0xa4];
    bytes.extend_from_slice(&sample_cbor()[1..]);
    bytes.push(0x65);
    bytes.extend_from_slice(b"value");
    bytes.push(0x01);
    assert_eq!(decode_raw(&bytes).err(), Some(CodecError::FormatMismatch));
}

#[test]
fn decode_decompressed_tells_the_two_failures_apart() {
    assert_eq!(decode_decompressed(None).err(), Some(CodecError::DecompressionFailed));
    assert_eq!(decode_decompressed(Some(vec![0x01])).err(), Some(CodecError::FormatMismatch));
    let ev = decode_decompressed(Some(sample_cbor())).unwrap();
    assert_eq!(ev.value, 42);
}

#[test]
fn encoding_failures_are_told_apart() {
    assert_eq!(compress_encoded(None).err(), Some(CodecError::EncodingFailed));
    assert_eq!(seal_frame(None).err(), Some(CodecError::CompressionFailed));
    let sealed = seal_frame(Some(vec![1, 2, 3])).unwrap();
    assert_eq!(sealed.payload, vec![1, 2, 3]);
    assert_eq!(sealed.hash, sha256(&[1, 2, 3]));
    let s = compress_encoded(Some(sample_cbor())).unwrap();
    assert_eq!(unframe(&s.payload), sample_cbor());
    assert_eq!(s.hash, sha256(&s.payload));
}

#[test]
fn digest_of_three_letters_is_the_known_one() {
    let sealed = seal_frame(Some(b"abc".to_vec())).unwrap();
    let known: [u8; 32] = [
        0xba, 0x78, 0x16, 0xbf, 0x8f, 0x01, 0xcf, 0xea, 0x41, 0x41, 0x40, 0xde, 0x5d, 0xae, 0x22,
        0x23, 0xb0, 0x03, 0x61, 0xa3, 0x96, 0x17, 0x7a, 0x9c, 0xb4, 0x10, 0xff, 0x61, 0xf2, 0x00,
        0x15, 0xad,
    ];
    assert_eq!(sealed.hash, known.to_vec());
}

#[test]
fn entries_of_an_event_are_its_three_fields() {
    let entries = event_to_entries(&sample());
    assert_eq!(entries.len(), 3);
    assert_eq!(entries[0].0, "user_id");
    assert!(matches!(&entries[0].1, Scalar::Text(s) if s == "user123"));
    assert_eq!(entries[1].0, "action");
    assert!(matches!(&entries[1].1, Scalar::Text(s) if s == "click"));
    assert_eq!(entries[2].0, "value");
    assert!(matches!(&entries[2].1, Scalar::Unsigned(42)));
}

fn slot(key: Item, value: Item) -> Slot {
    ((Vec::new(), key), (Vec::new(), value))
}

fn text(s: &str) -> Item {
    Item::Text(s.to_string())
}

#[test]
fn lookup_counts_the_occurrences_of_a_key() {
    let slots = vec![
        slot(text("a"), Item::Integer(1)),
        slot(Item::Integer(7), Item::Integer(2)),
        slot(text("b"), Item::Other),
        slot(text("a"), text("x")),
        slot(text("c"), text("y")),
        slot(text("n"), Item::Integer(-1)),
        slot(text("m"), Item::Integer(u64::MAX as i128)),
        slot(text("o"), Item::Integer(u64::MAX as i128 + 1)),
    ];
    assert!(matches!(locate(&slots, &"a".to_string()), Position::Repeated));
    assert!(matches!(locate(&slots, &"b".to_string()), Position::At(2)));
    assert!(matches!(locate(&slots, &"c".to_string()), Position::At(4)));
    assert!(matches!(locate(&slots, &"d".to_string()), Position::Missing));
    assert_eq!(read_text(&slots, &"c".to_string()), Some("y".to_string()));
    assert_eq!(read_text(&slots, &"b".to_string()), None);
    assert_eq!(read_text(&slots, &"a".to_string()), None);
    assert_eq!(read_unsigned(&slots, &"c".to_string()), None);
    assert_eq!(read_unsigned(&slots, &"d".to_string()), None);
    assert_eq!(read_unsigned(&slots, &"n".to_string()), None);
    assert_eq!(read_unsigned(&slots, &"m".to_string()), Some(u64::MAX));
    assert_eq!(read_unsigned(&slots, &"o".to_string()), None);
    assert!(event_from_slots(&slots).is_none());
    assert!(event_from_slots(&Vec::new()).is_none());
    let whole = vec![
        slot(text("value"), Item::Integer(3)),
        slot(text("other"), Item::Other),
        slot(Item::Bytes(b"user_id".to_vec()), text("u")),
        slot(Item::Bytes(b"more".to_vec()), Item::Integer(-5)),
        slot(text("action"), text("a")),
    ];
    assert!(all_keys_readable(&whole));
    let ev = event_from_slots(&whole).unwrap();
    assert_eq!(ev, Event { user_id: "u".into(), action: "a".into(), value: 3 });
    for bad in [Item::Integer(0), Item::Other] {
        let mut refused = whole.clone();
        refused.push(slot(bad, Item::Integer(1)));
        assert!(!all_keys_readable(&refused));
        assert!(event_from_slots(&refused).is_none());
    }
    let mut twice = whole.clone();
    twice.push(slot(text("user_id"), text("v")));
    assert!(event_from_slots(&twice).is_none());
}

#[test]
fn tags_are_passed_over_but_that_of_a_big_number() {
    let slots = vec![
        ((vec![1], text("user_id")), (vec![0, 9], text("u"))),
        ((Vec::new(), text("action")), (vec![2], text("a"))),
        ((vec![7], Item::Bytes(b"value".to_vec())), (vec![5, 6], Item::Integer(4))),
    ];
    let ev = event_from_slots(&slots).unwrap();
    assert_eq!(ev, Event { user_id: "u".into(), action: "a".into(), value: 4 });
    assert!(tags_plain(&vec![]));
    assert!(tags_plain(&vec![0, 1, 4, u64::MAX]));
    assert!(!tags_plain(&vec![1, 2]));
    assert!(!tags_plain(&vec![3, 1]));
    for tag in [2u64, 3] {
        let mut big = slots.clone();
        big[2].1 .0 = vec![5, tag];
        assert_eq!(read_unsigned(&big, &"value".to_string()), None);
        assert!(event_from_slots(&big).is_none());
    }
}

#[test]
fn decode_raw_reads_tagged_items() {
    // {1("user_id"): 0("u"), "action": "a", "value": 5(9)}
    let mut bytes = vec![0xa3, 0xc1, 0x67];
    bytes.extend_from_slice(b"user_id");
    bytes.extend_from_slice(&[0xc0, 0x61, b'u', 0x66]);
    bytes.extend_from_slice(b"action");
    bytes.extend_from_slice(&[0x61, b'a', 0x65]);
    bytes.extend_from_slice(b"value");
    bytes.extend_from_slice(&[0xc5, 0x09]);
    let ev = decode_raw(&bytes).unwrap();
    assert_eq!(ev, Event { user_id: "u".into(), action: "a".into(), value: 9 });
    // 2(9) is no big number: its content must be a byte string
    let at = bytes.len() - 2;
    bytes[at] = 0xc2;
    assert_eq!(decode_raw(&bytes).err(), Some(CodecError::FormatMismatch));
    // 2(h'09') is the number 9
    bytes[at + 1] = 0x41;
    bytes.push(0x09);
    assert_eq!(decode_raw(&bytes).map(|e| e.value), Ok(9));
}

#[test]
fn bytes_equal_compares_length_and_content() {
    assert!(bytes_equal(&[], &[]));
    assert!(bytes_equal(&[1, 2, 3], &[1, 2, 3]));
    assert!(!bytes_equal(&[1, 2, 3], &[1, 2]));
    assert!(!bytes_equal(&[1, 2, 3], &[1, 2, 4]));
}

#[test]
fn decode_raw_refuses_a_map_with_an_integer_key() {
    let mut bytes = vec![0xa4];
    bytes.extend_from_slice(&sample_cbor()[1..]);
    bytes.push(0x05);
    bytes.push(0x01);
    assert_eq!(decode_raw(&bytes).err(), Some(CodecError::FormatMismatch));
}

#[test]
fn decode_raw_takes_a_byte_string_for_a_key() {
    let mut bytes = vec![0xa3];
    bytes.push(0x47);
    bytes.extend_from_slice(b"user_id");
    bytes.push(0x61);
    bytes.extend_from_slice(b"u");
    bytes.push(0x46);
    bytes.extend_from_slice(b"action");
    bytes.push(0x61);
    bytes.extend_from_slice(b"a");
    bytes.push(0x65);
    bytes.extend_from_slice(b"value");
    bytes.push(0x09);
    let ev = decode_raw(&bytes).unwrap();
    assert_eq!(ev, Event { user_id: "u".into(), action: "a".into(), value: 9 });
}

#[test]
fn serialize_event_takes_every_payload() {
    let cases = vec![
        Event { user_id: String::new(), action: String::new(), value: 0 },
        Event { user_id: "\u{0}".into(), action: "y".repeat(100_000), value: u64::MAX },
    ];
    for ev in cases {
        let s = serialize_event(&ev);
        assert!(s.is_ok());
        let s = s.unwrap();
        assert_eq!(deserialize_event(&s.payload, &s.hash), Ok(ev));
    }
}

#[test]
fn empty_payload_with_its_digest_is_a_format_mismatch() {
    let r = deserialize_event(&[], &sha256(&[]));
    assert_eq!(r.err(), Some(CodecError::FormatMismatch));
}

#[test]
fn key_longer_than_the_limit_refuses_the_map() {
    assert_eq!(MAX_KEY_LEN, 4096);
    for (len, ok) in [(4096usize, true), (4097, false)] {
        let slots = vec![
            slot(text("user_id"), text("u")),
            slot(text("action"), text("a")),
            slot(text("value"), Item::Integer(1)),
            slot(text(&"k".repeat(len)), Item::Other),
        ];
        assert_eq!(all_keys_readable(&slots), ok);
        assert_eq!(event_from_slots(&slots).is_some(), ok);
        let mut bytes = vec![0xa4];
        bytes.extend_from_slice(&sample_cbor()[1..]);
        bytes.extend_from_slice(&[0x59, (len >> 8) as u8, (len & 0xff) as u8]);
        bytes.extend_from_slice(&vec![0u8; len]);
        bytes.push(0xf6);
        assert_eq!(decode_raw(&bytes).is_ok(), ok);
    }
    // a text of two-byte characters counts by its bytes
    let slots = vec![slot(text(&"é".repeat(2049)), Item::Other)];
    assert!(!all_keys_readable(&slots));
    let slots = vec![slot(text(&"é".repeat(2048)), Item::Other)];
    assert!(all_keys_readable(&slots));
}

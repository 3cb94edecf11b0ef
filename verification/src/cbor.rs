//! Flat CBOR maps: text keys with text or unsigned values.

use ciborium::Value;
use vstd::prelude::*;

verus! {

/// A value that a payload field can hold.
#[derive(Debug, Clone, PartialEq, Eq)]
pub enum Scalar {
    Text(String),
    Unsigned(u64),
}

/// Mathematical value of a [`Scalar`].
pub enum ScalarView {
    Text(Seq<char>),
    Unsigned(u64),
}

impl View for Scalar {
    type V = ScalarView;

    open spec fn view(&self) -> ScalarView {
        match self {
            Scalar::Text(s) => ScalarView::Text(s@),
            Scalar::Unsigned(n) => ScalarView::Unsigned(*n),
        }
    }
}

/// An item read from a map, as a key or as a value.
#[derive(Debug, Clone, PartialEq, Eq)]
pub enum Item {
    /// A text string.
    Text(String),
    /// A byte string.
    Bytes(Vec<u8>),
    /// An integer, of either sign.
    Integer(i128),
    /// Anything else: a float, an array, a nested map and so on.
    Other,
}

/// Mathematical value of an [`Item`].
pub enum ItemView {
    Text(Seq<char>),
    Bytes(Seq<u8>),
    Integer(i128),
    Other,
}

impl View for Item {
    type V = ItemView;

    open spec fn view(&self) -> ItemView {
        match self {
            Item::Text(s) => ItemView::Text(s@),
            Item::Bytes(b) => ItemView::Bytes(b@),
            Item::Integer(n) => ItemView::Integer(*n),
            Item::Other => ItemView::Other,
        }
    }
}

/// A key with its value, as written.
pub type EntryView = (Seq<char>, ScalarView);

/// An item as read, under the tags that stood before it, the outermost
/// first.
pub type Tagged = (Vec<u64>, Item);

/// A key with its value, as read, each under its tags.
pub type Slot = (Tagged, Tagged);

/// Mathematical value of a [`Tagged`] item.
pub type TaggedView = (Seq<u64>, ItemView);

/// Mathematical value of a [`Slot`].
pub type SlotView = ((Seq<u64>, ItemView), (Seq<u64>, ItemView));

/// An item under its tags, by its view.
pub open spec fn tagged_view(tagged: Tagged) -> TaggedView {
    (tagged.0@, tagged.1@)
}

/// The entries of a map about to be written, by their views.
pub open spec fn entries_view(entries: Seq<(String, Scalar)>) -> Seq<EntryView> {
    Seq::new(entries.len(), |i: int| (entries[i].0@, entries[i].1@))
}

/// The slots read from a map, by their views.
pub open spec fn slots_view(slots: Seq<Slot>) -> Seq<SlotView> {
    Seq::new(slots.len(), |i: int| (tagged_view(slots[i].0), tagged_view(slots[i].1)))
}

/// The item that a written value is read back as.
pub open spec fn as_item(value: ScalarView) -> ItemView {
    match value {
        ScalarView::Text(s) => ItemView::Text(s),
        ScalarView::Unsigned(n) => ItemView::Integer(n as i128),
    }
}

/// What reading back a written map yields: each entry in its place, the key
/// as a text and the value as the item it is read back as, both untagged.
pub open spec fn as_slots(entries: Seq<EntryView>) -> Seq<SlotView> {
    Seq::new(
        entries.len(),
        |i: int|
            (
                (Seq::<u64>::empty(), ItemView::Text(entries[i].0)),
                (Seq::<u64>::empty(), as_item(entries[i].1)),
            ),
    )
}

/// The CBOR encoding of a map with the given entries, in their order.
pub uninterp spec fn cbor_map_bytes(entries: Seq<(Seq<char>, ScalarView)>) -> Seq<u8>;

/// The entries of the CBOR map that a byte string starts with, each key and
/// value under its tags, or `None` where it starts with no well-formed map.
pub uninterp spec fn cbor_map_slots(bytes: Seq<u8>) -> Option<
    Seq<((Seq<u64>, ItemView), (Seq<u64>, ItemView))>,
>;

/// Calls `ciborium::ser::into_writer` on a `ciborium::Value::Map` built from
/// `entries`, writing into a fresh `Vec<u8>`.
///
/// Trusted: the encoder succeeds, since a map header, text strings and
/// unsigned integers are all it is asked to write and a `Vec<u8>` takes every
/// write. The bytes are the CBOR encoding of that map, a function of the
/// entries alone, and reading them back with `ciborium::de::from_reader`
/// gives the same entries in the same order.
#[verifier::external_body]
pub(crate) fn cbor_write_map(entries: &Vec<(String, Scalar)>) -> (out: Option<Vec<u8>>)
    ensures
        out.is_some(),
        out matches Some(bytes) ==> bytes@ == cbor_map_bytes(entries_view(entries@))
            && cbor_map_slots(bytes@) == Some(as_slots(entries_view(entries@))),
{
    let items = entries.iter().map(|(k, v)| (Value::Text(k.clone()), match v {
        Scalar::Text(s) => Value::Text(s.clone()),
        Scalar::Unsigned(n) => Value::Integer((*n).into()),
    })).collect();
    let mut bytes = Vec::new();
    ciborium::ser::into_writer(&Value::Map(items), &mut bytes).ok().map(|_| bytes)
}

/// Calls `ciborium::de::from_reader` for a `ciborium::Value` on `bytes` and
/// hands out the entries of the map it finds, each key and value as an
/// [`Item`] with the chain of tags that it stood under.
///
/// Trusted: the result is a function of the bytes alone.
#[verifier::external_body]
pub(crate) fn cbor_read_map(bytes: &[u8]) -> (out: Option<Vec<Slot>>)
    ensures
        (match out {
            Some(slots) => cbor_map_slots(bytes@) == Some(slots_view(slots@)),
            None => cbor_map_slots(bytes@).is_none(),
        }),
{
    let item = |mut v: Value| {
        let mut tags = Vec::new();
        while let Value::Tag(t, inner) = v { tags.push(t); v = *inner; }
        (tags, match v {
            Value::Text(s) => Item::Text(s),
            Value::Bytes(b) => Item::Bytes(b),
            Value::Integer(n) => Item::Integer(n.into()),
            _ => Item::Other,
        })
    };
    match ciborium::de::from_reader::<Value, _>(bytes) {
        Ok(Value::Map(m)) => Some(m.into_iter().map(|(k, v)| (item(k), item(v))).collect()),
        _ => None,
    }
}

} // verus!

//! The ingestion service: from a request to a stored record and a reply.

use crate::codec::{is_encoding_of, serialize_event, CodecError};
use crate::ident::{is_time_ordered, resolve_id, IdOrigin};
use crate::model::{CreateEventRequest, CreateEventRequestView, Event, SerializedEvent};
use crate::store::{all_intact, has_key, has_key_at, lemma_append_keeps_intact, lemma_append_keeps_unique, outcome_of, rows_after, MemoryStore, Outcome, StoredEvent, StoredEventView};
use vstd::prelude::*;

verus! {

/// Why a request was not stored.
#[derive(Debug, Clone, Copy, PartialEq, Eq, Structural)]
pub enum IngestError {
    /// The request is malformed: the caller must change it.
    BadRequest,
    /// The payload could not be encoded or compressed.
    EncodingFailed,
    /// The store could not be reached or did not commit: safe to retry.
    StorageUnavailable,
}

/// What the caller is told.
#[derive(Debug, Clone, Copy, PartialEq, Eq, Structural)]
pub enum Reply {
    /// A record was written under this identifier.
    Created(u128),
    /// A record under this identifier was there already; nothing was written.
    Duplicate(u128),
    /// Nothing was written.
    Rejected(IngestError),
}

/// A request is well-formed when it names a topic.
pub open spec fn valid_request(topic: Seq<char>) -> bool {
    topic.len() > 0
}

/// The record `(id, topic, created_at)` holds an encoding of the request's
/// payload, with the digest of exactly the bytes it stores.
pub open spec fn is_record_of(
    record: StoredEventView,
    req: CreateEventRequestView,
    id: u128,
    now_ms: i64,
) -> bool {
    &&& record.id == id
    &&& record.topic == req.topic
    &&& record.created_at == now_ms
    &&& is_encoding_of(req.payload(), record.encoded_payload, record.payload_hash)
}

/// The record made of a request, an identifier, a time and an encoded
/// payload.
pub open spec fn record_of(
    req: CreateEventRequestView,
    id: u128,
    now_ms: i64,
    payload: Seq<u8>,
    hash: Seq<u8>,
) -> StoredEventView {
    StoredEventView {
        id,
        topic: req.topic,
        encoded_payload: payload,
        payload_hash: hash,
        created_at: now_ms,
    }
}

/// The reply to an append that gave `stored`, where `None` stands for a
/// store that failed.
pub open spec fn reply_for(id: u128, stored: Option<Outcome>) -> Reply {
    match stored {
        Some(Outcome::Inserted) => Reply::Created(id),
        Some(Outcome::AlreadyPresent) => Reply::Duplicate(id),
        None => Reply::Rejected(IngestError::StorageUnavailable),
    }
}

/// The reply to a well-formed request under the key `(topic, id)`: a
/// duplicate where the key is present, a creation where it is not.
pub open spec fn reply_for_key(rows: Seq<StoredEventView>, topic: Seq<char>, id: u128) -> Reply {
    if has_key(rows, topic, id) {
        Reply::Duplicate(id)
    } else {
        Reply::Created(id)
    }
}

/// The status code that goes with a reply.
pub open spec fn status_of(reply: Reply) -> u16 {
    match reply {
        Reply::Created(_) => 201,
        Reply::Duplicate(_) => 200,
        Reply::Rejected(IngestError::BadRequest) => 400,
        Reply::Rejected(IngestError::EncodingFailed) => 500,
        Reply::Rejected(IngestError::StorageUnavailable) => 500,
    }
}

impl Reply {
    /// The status code that goes with the reply.
    pub fn status_code(&self) -> (code: u16)
        ensures
            code == status_of(*self),
    {
        match self {
            Reply::Created(_) => 201,
            Reply::Duplicate(_) => 200,
            Reply::Rejected(IngestError::BadRequest) => 400,
            Reply::Rejected(IngestError::EncodingFailed) => 500,
            Reply::Rejected(IngestError::StorageUnavailable) => 500,
        }
    }

    /// Whether the request succeeded, with or without a new record.
    pub fn is_success(&self) -> (ok: bool)
        ensures
            ok == (*self matches Reply::Created(_) || *self matches Reply::Duplicate(_)),
            ok == (200 <= status_of(*self) < 300),
    {
        match self {
            Reply::Created(_) => true,
            Reply::Duplicate(_) => true,
            Reply::Rejected(_) => false,
        }
    }
}

/// Whether a request is well-formed.
pub fn validate_request(req: &CreateEventRequest) -> (ok: bool)
    ensures
        ok == valid_request(req@.topic),
{
    !req.topic.as_str().is_empty()
}

/// The payload of a request.
pub fn event_of_request(req: &CreateEventRequest) -> (event: Event)
    ensures
        event@ == req@.payload(),
{
    Event { user_id: req.user_id.clone(), action: req.action.clone(), value: req.value }
}

/// Puts the record together from the encoded payload, or gives up where the
/// encoding failed.
pub fn assemble_record(
    req: &CreateEventRequest,
    id: u128,
    now_ms: i64,
    encoded: Result<SerializedEvent, CodecError>,
) -> (r: Result<StoredEvent, IngestError>)
    ensures
        (match encoded {
            Ok(s) => r matches Ok(record) && record@ == record_of(
                req@,
                id,
                now_ms,
                s.payload@,
                s.hash@,
            ),
            Err(_) => r matches Err(IngestError::EncodingFailed),
        }),
{
    match encoded {
        Ok(s) => Ok(
            StoredEvent {
                id,
                topic: req.topic.clone(),
                encoded_payload: s.payload,
                payload_hash: s.hash,
                created_at: now_ms,
            },
        ),
        Err(_) => Err(IngestError::EncodingFailed),
    }
}

/// The first half of an ingestion: validates the request, settles the
/// identifier and encodes the payload.
///
/// A request without a topic is a `BadRequest`; every other request gives
/// the record to append.
pub fn prepare_event(req: &CreateEventRequest, origin: IdOrigin, now_ms: i64) -> (r: Result<
    StoredEvent,
    IngestError,
>)
    ensures
        valid_request(req@.topic) <==> r is Ok,
        r matches Err(e) ==> e == IngestError::BadRequest,
        r matches Ok(record) ==> is_record_of(record@, req@, record.id, now_ms) && (match origin {
            IdOrigin::Supplied(given) => record.id == given,
            IdOrigin::Generated => is_time_ordered(record.id),
        }),
{
    if !validate_request(req) {
        return Err(IngestError::BadRequest);
    }
    let id = resolve_id(origin);
    let event = event_of_request(req);
    assemble_record(req, id, now_ms, serialize_event(&event))
}

/// The second half of an ingestion: the reply to what the store did with the
/// record under `id`, where `None` stands for a store that failed.
pub fn conclude(id: u128, stored: Option<Outcome>) -> (reply: Reply)
    ensures
        reply == reply_for(id, stored),
{
    match stored {
        Some(Outcome::Inserted) => Reply::Created(id),
        Some(Outcome::AlreadyPresent) => Reply::Duplicate(id),
        None => Reply::Rejected(IngestError::StorageUnavailable),
    }
}

/// Goes on from what the codec gave: a failed encoding is rejected and
/// leaves the store as it was; an encoded payload is appended under
/// `(topic, id)` unless that key is present, and the reply says which.
pub fn ingest_encoded(
    store: &mut MemoryStore,
    req: &CreateEventRequest,
    id: u128,
    now_ms: i64,
    encoded: Result<SerializedEvent, CodecError>,
) -> (reply: Reply)
    requires
        old(store).wf(),
    ensures
        final(store).wf(),
        (match encoded {
            Ok(s) => final(store)@ == rows_after(
                old(store)@,
                record_of(req@, id, now_ms, s.payload@, s.hash@),
            ) && reply == reply_for(
                id,
                Some(outcome_of(old(store)@, record_of(req@, id, now_ms, s.payload@, s.hash@))),
            ),
            Err(_) => final(store)@ == old(store)@ && reply == Reply::Rejected(
                IngestError::EncodingFailed,
            ),
        }),
{
    match assemble_record(req, id, now_ms, encoded) {
        Err(e) => Reply::Rejected(e),
        Ok(record) => {
            let outcome = store.append_if_absent(record);
            conclude(id, Some(outcome))
        },
    }
}

/// Ingests a request into a store held in memory.
///
/// A request without a topic is rejected and leaves the store as it was.
/// Every other request is answered `Created` where its key was absent, and
/// the record of the request is then the last row, or `Duplicate` where the
/// key was present, and nothing has then changed.
pub fn create_event(
    store: &mut MemoryStore,
    req: &CreateEventRequest,
    origin: IdOrigin,
    now_ms: i64,
) -> (reply: Reply)
    requires
        old(store).wf(),
    ensures
        final(store).wf(),
        old(store)@.is_prefix_of(final(store)@),
        all_intact(old(store)@) ==> all_intact(final(store)@),
        !valid_request(req@.topic) <==> reply == Reply::Rejected(IngestError::BadRequest),
        valid_request(req@.topic) ==> !(reply matches Reply::Rejected(_)),
        origin matches IdOrigin::Supplied(given) ==> (valid_request(req@.topic) ==> reply
            == reply_for_key(old(store)@, req@.topic, given)),
        (match reply {
            Reply::Created(id) => {
                &&& !has_key(old(store)@, req@.topic, id)
                &&& has_key(final(store)@, req@.topic, id)
                &&& final(store)@.len() == old(store)@.len() + 1
                &&& is_record_of(final(store)@.last(), req@, id, now_ms)
            },
            Reply::Duplicate(id) => {
                &&& has_key(old(store)@, req@.topic, id)
                &&& final(store)@ == old(store)@
            },
            Reply::Rejected(e) => {
                &&& final(store)@ == old(store)@
                &&& e == IngestError::BadRequest
            },
        }),
        (match (origin, reply) {
            (IdOrigin::Supplied(given), Reply::Created(id)) => id == given,
            (IdOrigin::Supplied(given), Reply::Duplicate(id)) => id == given,
            (IdOrigin::Generated, Reply::Created(id)) => is_time_ordered(id),
            (IdOrigin::Generated, Reply::Duplicate(id)) => is_time_ordered(id),
            _ => true,
        }),
{
    if !validate_request(req) {
        return Reply::Rejected(IngestError::BadRequest);
    }
    let id = resolve_id(origin);
    let event = event_of_request(req);
    let encoded = serialize_event(&event);
    proof {
        if let Ok(s) = &encoded {
            let record = record_of(req@, id, now_ms, s.payload@, s.hash@);
            lemma_append_keeps_unique(store@, record);
            if all_intact(store@) {
                lemma_append_keeps_intact(store@, record);
            }
            if !has_key(store@, record.topic, record.id) {
                assert(has_key_at(store@.push(record), store@.len() as int, req@.topic, id));
            }
        }
    }
    ingest_encoded(store, req, id, now_ms, encoded)
}

} // verus!

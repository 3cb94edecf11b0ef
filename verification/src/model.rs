//! The values that travel through the write path.

use vstd::prelude::*;

verus! {

/// An inbound request: the topic of the stream and the payload fields.
#[derive(Debug, Clone, PartialEq, Eq)]
pub struct CreateEventRequest {
    pub topic: String,
    pub user_id: String,
    pub action: String,
    pub value: u64,
}

/// Mathematical value of a [`CreateEventRequest`].
pub struct CreateEventRequestView {
    pub topic: Seq<char>,
    pub user_id: Seq<char>,
    pub action: Seq<char>,
    pub value: u64,
}

impl View for CreateEventRequest {
    type V = CreateEventRequestView;

    open spec fn view(&self) -> CreateEventRequestView {
        CreateEventRequestView {
            topic: self.topic@,
            user_id: self.user_id@,
            action: self.action@,
            value: self.value,
        }
    }
}

impl CreateEventRequestView {
    /// The payload that the request carries, without its topic.
    pub open spec fn payload(self) -> EventView {
        EventView { user_id: self.user_id, action: self.action, value: self.value }
    }
}

/// The payload of an event.
#[derive(Debug, Clone, PartialEq, Eq)]
pub struct Event {
    pub user_id: String,
    pub action: String,
    pub value: u64,
}

/// Mathematical value of an [`Event`].
pub struct EventView {
    pub user_id: Seq<char>,
    pub action: Seq<char>,
    pub value: u64,
}

impl View for Event {
    type V = EventView;

    open spec fn view(&self) -> EventView {
        EventView { user_id: self.user_id@, action: self.action@, value: self.value }
    }
}

/// An encoded payload: the compressed bytes and the digest taken over them.
#[derive(Debug, Clone, PartialEq, Eq)]
pub struct SerializedEvent {
    pub payload: Vec<u8>,
    pub hash: Vec<u8>,
}

} // verus!

use vstd::prelude::*;

use crate::bounded::BoundedBytes;

verus! {

/// The opaque identity of an authenticated caller.
pub type AccountId = u64;

/// A stored record as plain byte sequences: title, then description.
pub type RecordView = (Seq<u8>, Seq<u8>);

/// The store's contents: each key mapped to its record.
pub type StoreView = Map<Seq<u8>, RecordView>;

/// Why a transition was rejected.
#[derive(Clone, Copy, Debug, PartialEq, Eq, Structural)]
pub enum Error {
    /// `remove_book` named a key that is not in the store.
    BookNotFound,
    /// `create_book` named a key that is already in the store.
    BookIdAlreadyExists,
    /// An input byte string is longer than the configured maximum length.
    TooLong,
}

/// The single option of a deployment: the longest byte string accepted for
/// a key, a title or a description.
#[derive(Clone, Copy, Debug, PartialEq, Eq, Structural)]
pub struct Config {
    pub max_length: u32,
}

/// A stored record: a title and a description, both bounded.
#[derive(Clone, Debug, PartialEq, Eq)]
pub struct BookMetadata {
    pub title: BoundedBytes,
    pub description: BoundedBytes,
}

impl View for BookMetadata {
    type V = RecordView;

    open spec fn view(&self) -> RecordView {
        (self.title@, self.description@)
    }
}

/// A notification as plain values.
pub enum EventView {
    BookCreated(AccountId, Seq<u8>),
    BookRemoved(AccountId, Seq<u8>),
}

/// A notification of a successful transition: who acted, on which key.
#[derive(Clone, Debug, PartialEq, Eq)]
pub enum Event {
    BookCreated(AccountId, BoundedBytes),
    BookRemoved(AccountId, BoundedBytes),
}

impl View for Event {
    type V = EventView;

    open spec fn view(&self) -> EventView {
        match self {
            Event::BookCreated(who, id) => EventView::BookCreated(*who, id@),
            Event::BookRemoved(who, id) => EventView::BookRemoved(*who, id@),
        }
    }
}

/// The views of a sequence of notifications.
pub open spec fn events_view(events: Seq<Event>) -> Seq<EventView> {
    events.map_values(|e: Event| e@)
}

} // verus!

//! A bounded, deterministic record store of books keyed by byte strings.
//!
//! Callers create and remove records through [`Pallet`]; every successful
//! change is appended to a notification log, and every rejection leaves the
//! state exactly as it was.

mod bounded;
mod laws;
mod pallet;
mod store;
mod types;

pub use bounded::{bound, BoundedBytes};
pub use laws::{
    created_at, lemma_create_then_lookup, lemma_create_twice, lemma_empty_record_accepted,
    lemma_key_length_boundary, lemma_no_second_create, lemma_present_iff_live,
    lemma_remove_succeeds_iff_live, lemma_remove_twice, lemma_run_within_bound, live, outcome,
    removed_at, run, step, Call,
};
pub use pallet::{
    create_spec, lemma_stored_within_bound, remove_spec, store_within_bound, Pallet,
};
pub use store::Books;
pub use types::{
    events_view, AccountId, BookMetadata, Config, Error, Event, EventView, RecordView, StoreView,
};

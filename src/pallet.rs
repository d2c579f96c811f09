use vstd::prelude::*;

use crate::bounded::bound;
use crate::store::Books;
use crate::types::{
    events_view, AccountId, BookMetadata, Config, Error, Event, EventView, RecordView, StoreView,
};

verus! {

/// Every key and every stored title and description holds at most `max` bytes.
pub open spec fn store_within_bound(s: StoreView, max: nat) -> bool {
    forall|k: Seq<u8>| #[trigger]
        s.contains_key(k) ==> {
            &&& k.len() <= max
            &&& s[k].0.len() <= max
            &&& s[k].1.len() <= max
        }
}

/// What `create_book` does to the store, and what it returns.
pub open spec fn create_spec(
    s: StoreView,
    max: nat,
    key: Seq<u8>,
    title: Seq<u8>,
    description: Seq<u8>,
) -> (StoreView, Result<(), Error>) {
    if key.len() > max || title.len() > max || description.len() > max {
        (s, Err(Error::TooLong))
    } else if s.contains_key(key) {
        (s, Err(Error::BookIdAlreadyExists))
    } else {
        (s.insert(key, (title, description)), Ok(()))
    }
}

/// What `remove_book` does to the store, and what it returns.
pub open spec fn remove_spec(s: StoreView, max: nat, key: Seq<u8>) -> (
    StoreView,
    Result<(), Error>,
) {
    if key.len() > max {
        (s, Err(Error::TooLong))
    } else if !s.contains_key(key) {
        (s, Err(Error::BookNotFound))
    } else {
        (s.remove(key), Ok(()))
    }
}

/// The record store together with its configuration and its notification log.
pub struct Pallet {
    config: Config,
    books: Books,
    events: Vec<Event>,
}

impl Pallet {
    /// The store's contents.
    pub closed spec fn books_view(&self) -> StoreView {
        self.books@
    }

    /// The notifications emitted so far, oldest first.
    pub closed spec fn events_view(&self) -> Seq<EventView> {
        events_view(self.events@)
    }

    /// The configured maximum length.
    pub closed spec fn max_len(&self) -> nat {
        self.config.max_length as nat
    }

    /// The store is consistent and every key and record in it is within the
    /// configured bound.
    pub closed spec fn wf(&self) -> bool {
        &&& self.books.wf()
        &&& store_within_bound(self.books@, self.config.max_length as nat)
    }

    /// A pallet with an empty store and no notifications.
    pub fn new(config: Config) -> (r: Pallet)
        ensures
            r.wf(),
            r.max_len() == config.max_length,
            r.books_view() == StoreView::empty(),
            r.events_view() == Seq::<EventView>::empty(),
    {
        let r = Pallet { config, books: Books::new(), events: Vec::new() };
        assert(r.events_view() =~= Seq::<EventView>::empty());
        r
    }

    /// The configured maximum length.
    pub fn config(&self) -> (r: Config)
        ensures
            r.max_length == self.max_len(),
    {
        self.config
    }

    /// The record stored at `book_id`, if any.
    pub fn get_book(&self, book_id: &[u8]) -> (r: Option<&BookMetadata>)
        requires
            self.wf(),
        ensures
            r is Some <==> self.books_view().contains_key(book_id@),
            r matches Some(b) ==> b@ == self.books_view()[book_id@],
    {
        self.books.get(book_id)
    }

    /// The notifications emitted so far, oldest first.
    pub fn events(&self) -> (r: &[Event])
        ensures
            events_view(r@) == self.events_view(),
    {
        self.events.as_slice()
    }

    /// Creates the record `(title, description)` at `book_id` on behalf of
    /// `sender`.
    ///
    /// Fails with `TooLong` if any of the three is longer than the configured
    /// maximum, and otherwise with `BookIdAlreadyExists` if the key is taken.
    /// On success one `BookCreated(sender, book_id)` notification is appended;
    /// on failure nothing changes.
    pub fn create_book(
        &mut self,
        sender: AccountId,
        book_id: Vec<u8>,
        title: Vec<u8>,
        description: Vec<u8>,
    ) -> (r: Result<(), Error>)
        requires
            old(self).wf(),
        ensures
            final(self).wf(),
            final(self).max_len() == old(self).max_len(),
            (final(self).books_view(), r) == create_spec(
                old(self).books_view(),
                old(self).max_len(),
                book_id@,
                title@,
                description@,
            ),
            r is Ok ==> final(self).events_view() == old(self).events_view().push(
                EventView::BookCreated(sender, book_id@),
            ),
            r is Err ==> final(self).events_view() == old(self).events_view(),
    {
        let ghost key = book_id@;
        let max = self.config.max_length;
        let bounded_id = match bound(book_id, max) {
            Ok(b) => b,
            Err(e) => return Err(e),
        };
        let bounded_title = match bound(title, max) {
            Ok(b) => b,
            Err(e) => return Err(e),
        };
        let bounded_description = match bound(description, max) {
            Ok(b) => b,
            Err(e) => return Err(e),
        };
        if self.books.contains_key(bounded_id.as_slice()) {
            return Err(Error::BookIdAlreadyExists);
        }
        let ghost rec: RecordView = (bounded_title@, bounded_description@);
        self.events.push(Event::BookCreated(sender, bounded_id.clone()));
        self.books.insert(
            bounded_id,
            BookMetadata { title: bounded_title, description: bounded_description },
        );
        assert(events_view(self.events@) =~= events_view(old(self).events@).push(
            EventView::BookCreated(sender, key),
        ));
        assert(self.books@ == old(self).books@.insert(key, rec));
        Ok(())
    }

    /// Removes the record at `book_id` on behalf of `sender`.
    ///
    /// Fails with `TooLong` if the key is longer than the configured maximum,
    /// and otherwise with `BookNotFound` if no record is stored there. On
    /// success one `BookRemoved(sender, book_id)` notification is appended; on
    /// failure nothing changes. Any caller may remove any record.
    pub fn remove_book(&mut self, sender: AccountId, book_id: Vec<u8>) -> (r: Result<(), Error>)
        requires
            old(self).wf(),
        ensures
            final(self).wf(),
            final(self).max_len() == old(self).max_len(),
            (final(self).books_view(), r) == remove_spec(
                old(self).books_view(),
                old(self).max_len(),
                book_id@,
            ),
            r is Ok ==> final(self).events_view() == old(self).events_view().push(
                EventView::BookRemoved(sender, book_id@),
            ),
            r is Err ==> final(self).events_view() == old(self).events_view(),
    {
        let ghost key = book_id@;
        let bounded_id = match bound(book_id, self.config.max_length) {
            Ok(b) => b,
            Err(e) => return Err(e),
        };
        if !self.books.contains_key(bounded_id.as_slice()) {
            return Err(Error::BookNotFound);
        }
        self.books.remove(bounded_id.as_slice());
        self.events.push(Event::BookRemoved(sender, bounded_id));
        assert(events_view(self.events@) =~= events_view(old(self).events@).push(
            EventView::BookRemoved(sender, key),
        ));
        Ok(())
    }
}

/// Every state that the operations reach keeps each key, title and
/// description within the configured bound.
pub proof fn lemma_stored_within_bound(p: &Pallet)
    requires
        p.wf(),
    ensures
        store_within_bound(p.books_view(), p.max_len()),
{
}

} // verus!

use vstd::prelude::*;

use crate::bounded::BoundedBytes;
use crate::types::{BookMetadata, StoreView};

verus! {

/// The record store: each key holds at most one record.
///
/// Entries are kept in a vector whose keys are pairwise distinct; the ghost
/// map is what the entries mean.
pub struct Books {
    entries: Vec<(BoundedBytes, BookMetadata)>,
    contents: Ghost<StoreView>,
}

impl View for Books {
    type V = StoreView;

    closed spec fn view(&self) -> StoreView {
        self.contents@
    }
}

impl Books {
    /// The entries hold pairwise distinct keys and agree with the view.
    pub closed spec fn wf(&self) -> bool {
        &&& forall|i: int, j: int|
            0 <= i < j < self.entries@.len() ==> self.entries@[i].0@ != self.entries@[j].0@
        &&& forall|i: int|
            0 <= i < self.entries@.len() ==> {
                &&& #[trigger] self.contents@.contains_key(self.entries@[i].0@)
                &&& self.contents@[self.entries@[i].0@] == self.entries@[i].1@
            }
        &&& forall|k: Seq<u8>|
            #[trigger] self.contents@.contains_key(k) ==> exists|i: int|
                0 <= i < self.entries@.len() && self.entries@[i].0@ == k
    }

    /// An empty store.
    pub fn new() -> (r: Books)
        ensures
            r.wf(),
            r@ == StoreView::empty(),
    {
        Books { entries: Vec::new(), contents: Ghost(Map::empty()) }
    }

    /// The position of `key` among the entries, if it is there.
    fn find(&self, key: &[u8]) -> (r: Option<usize>)
        requires
            self.wf(),
        ensures
            match r {
                Some(i) => i < self.entries@.len() && self.entries@[i as int].0@ == key@,
                None => !self@.contains_key(key@),
            },
    {
        let mut i: usize = 0;
        while i < self.entries.len()
            invariant
                self.wf(),
                i <= self.entries@.len(),
                forall|j: int| 0 <= j < i ==> self.entries@[j].0@ != key@,
            decreases self.entries@.len() - i,
        {
            if self.entries[i].0.eq_bytes(key) {
                return Some(i);
            }
            i = i + 1;
        }
        None
    }

    /// Whether `key` holds a record.
    pub fn contains_key(&self, key: &[u8]) -> (r: bool)
        requires
            self.wf(),
        ensures
            r == self@.contains_key(key@),
    {
        self.find(key).is_some()
    }

    /// The record at `key`, if any.
    pub fn get(&self, key: &[u8]) -> (r: Option<&BookMetadata>)
        requires
            self.wf(),
        ensures
            r is Some <==> self@.contains_key(key@),
            r matches Some(b) ==> b@ == self@[key@],
    {
        match self.find(key) {
            Some(i) => {
                assert(self@.contains_key(self.entries@[i as int].0@));
                Some(&self.entries[i].1)
            },
            None => None,
        }
    }

    /// Writes `book` at `key`, replacing any record held there.
    pub fn insert(&mut self, key: BoundedBytes, book: BookMetadata)
        requires
            old(self).wf(),
        ensures
            final(self).wf(),
            final(self)@ == old(self)@.insert(key@, book@),
    {
        let ghost k = key@;
        let ghost v = book@;
        let ghost at: int;
        match self.find(key.as_slice()) {
            Some(i) => {
                self.entries.set(i, (key, book));
                proof {
                    at = i as int;
                }
            },
            None => {
                self.entries.push((key, book));
                proof {
                    at = self.entries@.len() - 1;
                }
            },
        }
        self.contents = Ghost(self.contents@.insert(k, v));
        assert(self.entries@[at].0@ == k);
        assert forall|i: int| 0 <= i < self.entries@.len() implies {
            &&& #[trigger] self.contents@.contains_key(self.entries@[i].0@)
            &&& self.contents@[self.entries@[i].0@] == self.entries@[i].1@
        } by {
            if i != at {
                assert(old(self).contents@.contains_key(old(self).entries@[i].0@));
            }
        }
        assert forall|kk: Seq<u8>| #[trigger] self.contents@.contains_key(kk) implies exists|i: int|
            0 <= i < self.entries@.len() && self.entries@[i].0@ == kk by {
            if kk != k {
                let i = choose|i: int|
                    0 <= i < old(self).entries@.len() && old(self).entries@[i].0@ == kk;
                assert(self.entries@[i].0@ == kk);
            } else {
                assert(self.entries@[at].0@ == kk);
            }
        }
    }

    /// Deletes the record at `key`, if any.
    pub fn remove(&mut self, key: &[u8])
        requires
            old(self).wf(),
        ensures
            final(self).wf(),
            final(self)@ == old(self)@.remove(key@),
    {
        match self.find(key) {
            Some(i) => {
                let _ = self.entries.remove(i);
                self.contents = Ghost(self.contents@.remove(key@));
                assert forall|kk: Seq<u8>| #[trigger] self.contents@.contains_key(kk) implies exists|j: int|
                    0 <= j < self.entries@.len() && self.entries@[j].0@ == kk by {
                    let j = choose|j: int|
                        0 <= j < old(self).entries@.len() && old(self).entries@[j].0@ == kk;
                    if j < i {
                        assert(self.entries@[j].0@ == kk);
                    } else {
                        assert(self.entries@[j - 1].0@ == kk);
                    }
                }
            },
            None => {
                assert(self.contents@ =~= self.contents@.remove(key@));
            },
        }
    }
}

} // verus!

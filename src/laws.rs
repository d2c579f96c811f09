use vstd::prelude::*;

use crate::pallet::{create_spec, remove_spec, store_within_bound};
use crate::types::{AccountId, Error, StoreView};

verus! {

/// One call on the store, as plain values.
pub enum Call {
    Create { sender: AccountId, key: Seq<u8>, title: Seq<u8>, description: Seq<u8> },
    Remove { sender: AccountId, key: Seq<u8> },
}

/// The store and result after one call.
pub open spec fn step(s: StoreView, max: nat, c: Call) -> (StoreView, Result<(), Error>) {
    match c {
        Call::Create { key, title, description, .. } => create_spec(
            s,
            max,
            key,
            title,
            description,
        ),
        Call::Remove { key, .. } => remove_spec(s, max, key),
    }
}

/// The store after running `calls` in order from an empty store.
pub open spec fn run(max: nat, calls: Seq<Call>) -> StoreView
    decreases calls.len(),
{
    if calls.len() == 0 {
        StoreView::empty()
    } else {
        step(run(max, calls.drop_last()), max, calls.last()).0
    }
}

/// The result of the `i`-th call when `calls` run from an empty store.
pub open spec fn outcome(max: nat, calls: Seq<Call>, i: int) -> Result<(), Error> {
    step(run(max, calls.take(i)), max, calls[i]).1
}

/// The `i`-th call is a `create` on `k` that succeeded.
pub open spec fn created_at(max: nat, calls: Seq<Call>, i: int, k: Seq<u8>) -> bool {
    &&& calls[i] matches Call::Create { key, .. } && key == k
    &&& outcome(max, calls, i) is Ok
}

/// The `i`-th call is a `remove` of `k` that succeeded.
pub open spec fn removed_at(max: nat, calls: Seq<Call>, i: int, k: Seq<u8>) -> bool {
    &&& calls[i] matches Call::Remove { key, .. } && key == k
    &&& outcome(max, calls, i) is Ok
}

/// Among the first `n` calls, a `create` on `k` succeeded and no `remove` of
/// `k` has succeeded since.
pub open spec fn live(max: nat, calls: Seq<Call>, n: int, k: Seq<u8>) -> bool {
    exists|j: int|
        0 <= j < n && #[trigger] created_at(max, calls, j, k) && forall|m: int|
            j < m < n ==> !#[trigger] removed_at(max, calls, m, k)
}

proof fn lemma_run_prefix(max: nat, calls: Seq<Call>, n: int)
    requires
        0 <= n < calls.len(),
    ensures
        run(max, calls.take(n + 1)) == step(run(max, calls.take(n)), max, calls[n]).0,
{
    assert(calls.take(n + 1).drop_last() =~= calls.take(n));
}

/// Whatever calls are made, every key, title and description in the store
/// stays within the bound.
pub proof fn lemma_run_within_bound(max: nat, calls: Seq<Call>)
    ensures
        store_within_bound(run(max, calls), max),
    decreases calls.len(),
{
    if calls.len() > 0 {
        lemma_run_within_bound(max, calls.drop_last());
    }
}

/// After the first `n` calls, `k` holds a record exactly when a `create` on
/// `k` has succeeded and no `remove` of `k` has succeeded since.
pub proof fn lemma_present_iff_live(max: nat, calls: Seq<Call>, n: int, k: Seq<u8>)
    requires
        0 <= n <= calls.len(),
    ensures
        run(max, calls.take(n)).contains_key(k) <==> live(max, calls, n, k),
    decreases n,
{
    if n == 0 {
        assert(calls.take(0) =~= Seq::<Call>::empty());
    } else {
        let p = n - 1;
        lemma_present_iff_live(max, calls, p, k);
        lemma_run_prefix(max, calls, p);
        let before = run(max, calls.take(p));
        if created_at(max, calls, p, k) {
            assert(live(max, calls, n, k));
        } else if removed_at(max, calls, p, k) {
            assert(!run(max, calls.take(n)).contains_key(k));
            assert forall|j: int|
                0 <= j < n && #[trigger] created_at(max, calls, j, k) implies exists|m: int|
                j < m < n && #[trigger] removed_at(max, calls, m, k) by {
                assert(removed_at(max, calls, p, k));
            }
        } else {
            assert(run(max, calls.take(n)).contains_key(k) == before.contains_key(k));
            if live(max, calls, p, k) {
                let j = choose|j: int|
                    0 <= j < p && #[trigger] created_at(max, calls, j, k) && forall|m: int|
                        j < m < p ==> !#[trigger] removed_at(max, calls, m, k);
                assert forall|m: int| j < m < n implies !#[trigger] removed_at(
                    max,
                    calls,
                    m,
                    k,
                ) by {
                    if m < p {
                    }
                }
            }
            if live(max, calls, n, k) {
                let j = choose|j: int|
                    0 <= j < n && #[trigger] created_at(max, calls, j, k) && forall|m: int|
                        j < m < n ==> !#[trigger] removed_at(max, calls, m, k);
                assert(j < p);
                assert(live(max, calls, p, k));
            }
        }
    }
}

/// No two `create` calls on one key both succeed unless a `remove` of that
/// key succeeded between them.
pub proof fn lemma_no_second_create(max: nat, calls: Seq<Call>, i: int, j: int, k: Seq<u8>)
    requires
        0 <= i < j < calls.len(),
        created_at(max, calls, i, k),
        created_at(max, calls, j, k),
    ensures
        exists|m: int| i < m < j && #[trigger] removed_at(max, calls, m, k),
{
    lemma_present_iff_live(max, calls, j, k);
    assert(!run(max, calls.take(j)).contains_key(k));
}

/// A `remove` of `k` succeeds exactly when a `create` on `k` succeeded
/// before it and no `remove` of `k` has succeeded since.
pub proof fn lemma_remove_succeeds_iff_live(max: nat, calls: Seq<Call>, i: int, k: Seq<u8>)
    requires
        0 <= i < calls.len(),
        calls[i] matches Call::Remove { key, .. } && key == k,
    ensures
        outcome(max, calls, i) is Ok <==> live(max, calls, i, k),
{
    lemma_present_iff_live(max, calls, i, k);
    lemma_run_within_bound(max, calls.take(i));
}

/// A successful `create` followed by a lookup of its key gives back exactly
/// the title and description it was given.
pub proof fn lemma_create_then_lookup(
    s: StoreView,
    max: nat,
    key: Seq<u8>,
    title: Seq<u8>,
    description: Seq<u8>,
)
    requires
        create_spec(s, max, key, title, description).1 is Ok,
    ensures
        create_spec(s, max, key, title, description).0.contains_key(key),
        create_spec(s, max, key, title, description).0[key] == (title, description),
{
}

/// The same `create` twice in a row succeeds, then fails with
/// `BookIdAlreadyExists`.
pub proof fn lemma_create_twice(
    s: StoreView,
    max: nat,
    key: Seq<u8>,
    title: Seq<u8>,
    description: Seq<u8>,
)
    requires
        create_spec(s, max, key, title, description).1 is Ok,
    ensures
        create_spec(create_spec(s, max, key, title, description).0, max, key, title, description)
            == (create_spec(s, max, key, title, description).0, Err::<(), Error>(
            Error::BookIdAlreadyExists,
        )),
{
}

/// The same `remove` twice in a row succeeds, then fails with
/// `BookNotFound`.
pub proof fn lemma_remove_twice(s: StoreView, max: nat, key: Seq<u8>)
    requires
        remove_spec(s, max, key).1 is Ok,
    ensures
        remove_spec(remove_spec(s, max, key).0, max, key) == (remove_spec(s, max, key).0, Err::<
            (),
            Error,
        >(Error::BookNotFound)),
{
}

/// A key of exactly the maximum length is accepted; one byte more is
/// refused with `TooLong`, whatever the store holds.
pub proof fn lemma_key_length_boundary(
    s: StoreView,
    max: nat,
    key: Seq<u8>,
    title: Seq<u8>,
    description: Seq<u8>,
)
    requires
        title.len() <= max,
        description.len() <= max,
    ensures
        key.len() == max ==> create_spec(s, max, key, title, description).1 != Err::<(), Error>(
            Error::TooLong,
        ),
        key.len() == max ==> remove_spec(s, max, key).1 != Err::<(), Error>(Error::TooLong),
        key.len() == max + 1 ==> create_spec(s, max, key, title, description) == (s, Err::<
            (),
            Error,
        >(Error::TooLong)),
        key.len() == max + 1 ==> remove_spec(s, max, key) == (s, Err::<(), Error>(
            Error::TooLong,
        )),
{
}

/// An empty title and an empty description are accepted: with a key within
/// the bound that holds no record, `create` succeeds and stores them.
pub proof fn lemma_empty_record_accepted(s: StoreView, max: nat, key: Seq<u8>)
    requires
        key.len() <= max,
        !s.contains_key(key),
    ensures
        create_spec(s, max, key, Seq::empty(), Seq::empty()) == (s.insert(
            key,
            (Seq::<u8>::empty(), Seq::<u8>::empty()),
        ), Ok::<(), Error>(())),
{
}

} // verus!

//! Properties that relate several operations of the store, stated over the
//! same outcome predicates that the operations' own contracts use.

use crate::store::{
    cleared, create_outcome, delete_outcome, flag_edit, later, lists_matching, lookup_outcome,
    update_outcome, with_importance, StoreView,
};
use crate::task::{Task, TaskError};
use vstd::prelude::*;

verus! {

/// A created record receives the counter's value, which exceeds every
/// identifier the store holds, and the counter moves on by exactly one.
pub proof fn lemma_created_id_is_fresh(
    pre: StoreView,
    post: StoreView,
    title: String,
    description: String,
    is_important: Option<bool>,
    now: u64,
    id: u64,
)
    requires
        pre.valid(),
        create_outcome(pre, post, title, description, is_important, now, Ok(id)),
    ensures
        id == pre.next_id,
        post.next_id == id + 1,
        !pre.records.contains_key(id),
        forall|k: u64| #[trigger] pre.records.contains_key(k) ==> k < id,
{
}

/// Two successful creations, with a deletion of any identifier between them
/// or none, receive consecutive identifiers: a deletion never frees an
/// identifier for reuse.
pub proof fn lemma_consecutive_ids(
    s0: StoreView,
    s1: StoreView,
    s2: StoreView,
    s3: StoreView,
    first: (String, String, Option<bool>, u64),
    second: (String, String, Option<bool>, u64),
    deleted: Option<(u64, Result<bool, TaskError>)>,
    a: u64,
    b: u64,
)
    requires
        create_outcome(s0, s1, first.0, first.1, first.2, first.3, Ok(a)),
        match deleted {
            Some((d, rd)) => delete_outcome(s1, s2, d, rd),
            None => s2 == s1,
        },
        create_outcome(s2, s3, second.0, second.1, second.2, second.3, Ok(b)),
    ensures
        b == a + 1,
        !s2.records.contains_key(b),
{
}

/// A creation with an empty title or an empty description fails with
/// `InvalidInput` and leaves the store, counter included, as it was, so the
/// next successful creation receives the identifier it would have had.
pub proof fn lemma_rejected_create_uses_no_id(
    pre: StoreView,
    post: StoreView,
    title: String,
    description: String,
    is_important: Option<bool>,
    now: u64,
    r: Result<u64, TaskError>,
)
    requires
        title@.len() == 0 || description@.len() == 0,
        create_outcome(pre, post, title, description, is_important, now, r),
    ensures
        r == Err::<u64, TaskError>(TaskError::InvalidInput),
        post == pre,
        post.next_id == pre.next_id,
{
}

/// Looking up an identifier right after its record was deleted fails with
/// `NotFound`.
pub proof fn lemma_get_after_delete(
    pre: StoreView,
    post: StoreView,
    id: u64,
    rd: Result<bool, TaskError>,
    rg: Result<Task, TaskError>,
)
    requires
        delete_outcome(pre, post, id, rd),
        rd is Ok,
        lookup_outcome(post, id, rg),
    ensures
        rg == Err::<Task, TaskError>(TaskError::NotFound),
{
}

/// An update of a stored record that supplies no field succeeds, keeps every
/// field but the update stamp, and never moves that stamp backwards.
pub proof fn lemma_empty_update(
    pre: StoreView,
    post: StoreView,
    id: u64,
    now: u64,
    r: Result<bool, TaskError>,
)
    requires
        pre.valid(),
        pre.records.contains_key(id),
        update_outcome(pre, post, id, None, None, None, None, now, r),
    ensures
        r == Ok::<bool, TaskError>(true),
        post.records.contains_key(id),
        post.records[id].updated_at >= pre.records[id].updated_at,
        post.records[id].updated_at == later(now, pre.records[id].updated_at),
        post.records[id] == (Task { updated_at: post.records[id].updated_at, ..pre.records[id] }),
{
}

/// After the completed records are swept away, a listing of every record
/// holds none marked done, and each record that was not done is still there,
/// unchanged, update stamp included.
pub proof fn lemma_clear_completed(pre: StoreView, post: StoreView, all: Seq<Task>)
    requires
        cleared(pre, post),
        lists_matching(all, post.records, |t: Task| true),
    ensures
        forall|i: int| 0 <= i < all.len() ==> !(#[trigger] all[i]).done,
        forall|id: u64| #[trigger]
            pre.records.contains_key(id) && !pre.records[id].done ==> post.records.contains_key(id)
                && post.records[id] == pre.records[id],
{
    assert forall|i: int| 0 <= i < all.len() implies !(#[trigger] all[i]).done by {
        assert(post.records.contains_key(all[i].id));
    }
}

/// Toggling the importance of a stored record twice restores its
/// importance; each toggle refreshes the update stamp, which never moves
/// backwards.
pub proof fn lemma_toggle_twice(
    s0: StoreView,
    s1: StoreView,
    s2: StoreView,
    id: u64,
    now1: u64,
    now2: u64,
    r1: Result<bool, TaskError>,
    r2: Result<bool, TaskError>,
)
    requires
        s0.records.contains_key(id),
        flag_edit(
            s0,
            s1,
            id,
            r1,
            with_importance(s0.records[id], !s0.records[id].is_important),
            now1,
        ),
        flag_edit(
            s1,
            s2,
            id,
            r2,
            with_importance(s1.records[id], !s1.records[id].is_important),
            now2,
        ),
    ensures
        r1 == Ok::<bool, TaskError>(true),
        r2 == Ok::<bool, TaskError>(true),
        s2.records[id].is_important == s0.records[id].is_important,
        s1.records[id].updated_at == later(now1, s0.records[id].updated_at),
        s2.records[id].updated_at == later(now2, s1.records[id].updated_at),
        s0.records[id].updated_at <= s1.records[id].updated_at <= s2.records[id].updated_at,
{
}

} // verus!

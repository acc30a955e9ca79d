use crate::task::{Task, TaskError};
use std::collections::HashMap;
use vstd::prelude::*;

verus! {

broadcast use vstd::std_specs::hash::group_hash_axioms;

/// The mathematical model of a store: the records by identifier, and the
/// identifier the next creation will receive.
pub struct StoreView {
    pub records: Map<u64, Task>,
    pub next_id: u64,
}

/// What holds of every record that a store keeps under key `id`.
pub open spec fn record_ok(id: u64, t: Task, next_id: u64) -> bool {
    &&& t.id == id
    &&& id < next_id
    &&& t.created_at <= t.updated_at
    &&& t.title@.len() > 0
    &&& t.description@.len() > 0
}

impl StoreView {
    /// Every record is filed under its own identifier, which was handed out
    /// before; its timestamps are ordered and its text fields are non-empty.
    pub open spec fn valid(self) -> bool {
        forall|id: u64| #[trigger]
            self.records.contains_key(id) ==> record_ok(id, self.records[id], self.next_id)
    }
}

/// The later of a clock reading and a record's previous update stamp: a
/// record's stamp never moves backwards, whatever the clock reports.
pub open spec fn later(now: u64, prev: u64) -> u64 {
    if now >= prev {
        now
    } else {
        prev
    }
}

/// `t` with its update stamp refreshed from the clock reading `now`.
pub open spec fn touched(t: Task, now: u64) -> Task {
    Task { updated_at: later(now, t.updated_at), ..t }
}

/// The record that creation builds from its arguments at time `now`.
pub open spec fn fresh_record(
    id: u64,
    title: String,
    description: String,
    is_important: Option<bool>,
    now: u64,
) -> Task {
    Task {
        id,
        title,
        description,
        done: false,
        is_important: is_important == Some(true),
        created_at: now,
        updated_at: now,
    }
}

/// `t` with each supplied field replaced and the others kept.
pub open spec fn with_fields(
    t: Task,
    title: Option<String>,
    description: Option<String>,
    done: Option<bool>,
    is_important: Option<bool>,
) -> Task {
    Task {
        title: match title {
            Some(s) => s,
            None => t.title,
        },
        description: match description {
            Some(s) => s,
            None => t.description,
        },
        done: match done {
            Some(b) => b,
            None => t.done,
        },
        is_important: match is_important {
            Some(b) => b,
            None => t.is_important,
        },
        ..t
    }
}

/// A supplied text field is acceptable when it is non-empty.
pub open spec fn text_ok(s: Option<String>) -> bool {
    match s {
        Some(s) => s@.len() > 0,
        None => true,
    }
}

/// `t` with `done` set to `b`.
pub open spec fn with_done(t: Task, b: bool) -> Task {
    Task { done: b, ..t }
}

/// `t` with `is_important` set to `b`.
pub open spec fn with_importance(t: Task, b: bool) -> Task {
    Task { is_important: b, ..t }
}

/// What a lookup of `id` returns: the stored record, or `NotFound`.
pub open spec fn lookup_outcome(s: StoreView, id: u64, r: Result<Task, TaskError>) -> bool {
    match r {
        Ok(t) => s.records.contains_key(id) && t == s.records[id],
        Err(e) => !s.records.contains_key(id) && e == TaskError::NotFound,
    }
}

/// The effect of a creation: with a non-empty title and description the
/// record built at `now` is stored under the next identifier, which is used
/// up; otherwise the call fails with `InvalidInput` and changes nothing.
pub open spec fn create_outcome(
    pre: StoreView,
    post: StoreView,
    title: String,
    description: String,
    is_important: Option<bool>,
    now: u64,
    r: Result<u64, TaskError>,
) -> bool {
    &&& post.valid()
    &&& match r {
        Ok(id) => {
            &&& title@.len() > 0 && description@.len() > 0
            &&& id == pre.next_id
            &&& post.next_id == id + 1
            &&& post.records == pre.records.insert(
                id,
                fresh_record(id, title, description, is_important, now),
            )
        },
        Err(e) => {
            &&& title@.len() == 0 || description@.len() == 0
            &&& e == TaskError::InvalidInput
            &&& post == pre
        },
    }
}

/// The effect of a deletion: the record under `id` is removed, or the call
/// fails with `NotFound` and changes nothing. The counter is kept either way.
pub open spec fn delete_outcome(
    pre: StoreView,
    post: StoreView,
    id: u64,
    r: Result<bool, TaskError>,
) -> bool {
    &&& post.valid()
    &&& post.next_id == pre.next_id
    &&& match r {
        Ok(b) => {
            &&& b
            &&& pre.records.contains_key(id)
            &&& post.records == pre.records.remove(id)
        },
        Err(e) => {
            &&& e == TaskError::NotFound
            &&& !pre.records.contains_key(id)
            &&& post == pre
        },
    }
}

/// The effect of a field update: on a stored `id` with acceptable text the
/// supplied fields replace the old ones and the stamp is refreshed; a missing
/// `id` gives `NotFound`, empty supplied text `InvalidInput`, and a failed
/// call changes nothing.
pub open spec fn update_outcome(
    pre: StoreView,
    post: StoreView,
    id: u64,
    title: Option<String>,
    description: Option<String>,
    done: Option<bool>,
    is_important: Option<bool>,
    now: u64,
    r: Result<bool, TaskError>,
) -> bool {
    &&& post.valid()
    &&& match r {
        Ok(b) => {
            &&& b
            &&& pre.records.contains_key(id)
            &&& text_ok(title) && text_ok(description)
            &&& post == (StoreView {
                records: pre.records.insert(
                    id,
                    touched(
                        with_fields(pre.records[id], title, description, done, is_important),
                        now,
                    ),
                ),
                ..pre
            })
        },
        Err(e) => {
            &&& post == pre
            &&& if !pre.records.contains_key(id) {
                e == TaskError::NotFound
            } else {
                &&& !(text_ok(title) && text_ok(description))
                &&& e == TaskError::InvalidInput
            }
        },
    }
}

/// The effect of sweeping completed records: exactly the records marked
/// done are removed, the others are kept unchanged, and so is the counter.
pub open spec fn cleared(pre: StoreView, post: StoreView) -> bool {
    &&& post.valid()
    &&& post.next_id == pre.next_id
    &&& post.records == incomplete_only(pre.records)
}

/// The effect of a one-flag edit on a record that the store holds under `id`:
/// the record is replaced by `edited` with a refreshed stamp; on a missing
/// `id` the call fails with `NotFound` and changes nothing.
pub open spec fn flag_edit(
    pre: StoreView,
    post: StoreView,
    id: u64,
    r: Result<bool, TaskError>,
    edited: Task,
    now: u64,
) -> bool {
    &&& post.valid()
    &&& match r {
        Ok(b) => {
            &&& b
            &&& pre.records.contains_key(id)
            &&& post == (StoreView { records: pre.records.insert(id, touched(edited, now)), ..pre })
        },
        Err(e) => {
            &&& e == TaskError::NotFound
            &&& !pre.records.contains_key(id)
            &&& post == pre
        },
    }
}

/// A one-flag edit.
enum FlagEdit {
    SetDone(bool),
    SetImportant(bool),
    FlipImportant,
}

impl FlagEdit {
    spec fn apply(self, t: Task) -> Task {
        match self {
            FlagEdit::SetDone(b) => with_done(t, b),
            FlagEdit::SetImportant(b) => with_importance(t, b),
            FlagEdit::FlipImportant => with_importance(t, !t.is_important),
        }
    }
}

/// `r` lists, each exactly once and in no particular order, the stored
/// records that satisfy `keep`.
pub open spec fn lists_matching(
    r: Seq<Task>,
    records: Map<u64, Task>,
    keep: spec_fn(Task) -> bool,
) -> bool {
    &&& r.no_duplicates()
    &&& forall|i: int|
        0 <= i < r.len() ==> #[trigger] records.contains_key(r[i].id) && records[r[i].id] == r[i]
            && keep(r[i])
    &&& forall|id: u64| #[trigger]
        records.contains_key(id) && keep(records[id]) ==> r.contains(records[id])
}

/// A listing for one predicate is a listing for any predicate that agrees
/// with it on every record.
proof fn lemma_same_listing(
    r: Seq<Task>,
    records: Map<u64, Task>,
    k1: spec_fn(Task) -> bool,
    k2: spec_fn(Task) -> bool,
)
    requires
        lists_matching(r, records, k1),
        forall|t: Task| #[trigger] k1(t) == k2(t),
    ensures
        lists_matching(r, records, k2),
{
    assert forall|i: int| 0 <= i < r.len() implies k2(r[i]) by {
        assert(records.contains_key(r[i].id));
        assert(k1(r[i]));
    }
    assert forall|id: u64| #[trigger]
        records.contains_key(id) && k2(records[id]) implies r.contains(records[id]) by {
        assert(k1(records[id]));
    }
}

/// The records that stay when the completed ones are swept away.
pub open spec fn incomplete_only(records: Map<u64, Task>) -> Map<u64, Task> {
    records.restrict(records.dom().filter(|id: u64| !records[id].done))
}

/// The predicate of a filtered query.
enum Criterion {
    Any,
    Done(bool),
    Important(bool),
    Title(String),
    Description(String),
    CreatedAfter(u64),
    UpdatedAfter(u64),
}

impl Criterion {
    spec fn admits(&self, t: Task) -> bool {
        match self {
            Criterion::Any => true,
            Criterion::Done(b) => t.done == *b,
            Criterion::Important(b) => t.is_important == *b,
            Criterion::Title(s) => t.title@ == s@,
            Criterion::Description(s) => t.description@ == s@,
            Criterion::CreatedAfter(x) => t.created_at > *x,
            Criterion::UpdatedAfter(x) => t.updated_at > *x,
        }
    }

    fn test(&self, t: &Task) -> (r: bool)
        ensures
            r == self.admits(*t),
    {
        match self {
            Criterion::Any => true,
            Criterion::Done(b) => t.done == *b,
            Criterion::Important(b) => t.is_important == *b,
            Criterion::Title(s) => t.title == *s,
            Criterion::Description(s) => t.description == *s,
            Criterion::CreatedAfter(x) => t.created_at > *x,
            Criterion::UpdatedAfter(x) => t.updated_at > *x,
        }
    }
}

/// The task store: the records keyed by identifier and the identifier counter.
pub struct TaskStore {
    tasks: HashMap<u64, Task>,
    next_id: u64,
}

impl View for TaskStore {
    type V = StoreView;

    closed spec fn view(&self) -> StoreView {
        StoreView { records: self.tasks@, next_id: self.next_id }
    }
}

impl TaskStore {
    #[verifier::type_invariant]
    spec fn inv(self) -> bool {
        self@.valid()
    }

    /// An empty store whose first record will receive identifier 0.
    pub fn new() -> (r: TaskStore)
        ensures
            r@.records == Map::<u64, Task>::empty(),
            r@.next_id == 0,
            r@.valid(),
    {
        TaskStore { tasks: HashMap::new(), next_id: 0 }
    }

    /// The identifier the next successful creation will receive.
    pub fn next_id(&self) -> (r: u64)
        ensures
            r == self@.next_id,
    {
        self.next_id
    }

    /// The record with identifier `id`, or `NotFound`.
    pub fn get_task(&self, id: u64) -> (r: Result<Task, TaskError>)
        ensures
            lookup_outcome(self@, id, r),
    {
        match self.tasks.get(&id) {
            Some(t) => Ok(t.duplicate()),
            None => Err(TaskError::NotFound),
        }
    }

    /// The number of records stored.
    pub fn get_total_number_of_tasks(&self) -> (r: u64)
        ensures
            r == self@.records.len(),
    {
        proof {
            use_type_invariant(self);
        }
        self.tasks.len() as u64
    }

    /// Moves the records out, leaving the store empty with its counter kept.
    fn take_tasks(&mut self) -> (r: HashMap<u64, Task>)
        ensures
            old(self)@.valid(),
            r@ == old(self)@.records,
            final(self)@.records == Map::<u64, Task>::empty(),
            final(self)@.next_id == old(self)@.next_id,
    {
        proof {
            use_type_invariant(&*self);
        }
        let mut tasks = HashMap::new();
        std::mem::swap(&mut tasks, &mut self.tasks);
        tasks
    }

    /// Creates a record from `title` and `description`, which must both be
    /// non-empty, with `done` false, importance as given (false when not
    /// given) and both stamps at `now`. The record receives the next
    /// identifier, which is then used up; a rejected call uses none.
    pub fn create_task(
        &mut self,
        title: String,
        description: String,
        is_important: Option<bool>,
        now: u64,
    ) -> (r: Result<u64, TaskError>)
        requires
            old(self)@.next_id < u64::MAX,
        ensures
            create_outcome(old(self)@, final(self)@, title, description, is_important, now, r),
    {
        proof {
            use_type_invariant(&*self);
        }
        if title.as_str().is_empty() || description.as_str().is_empty() {
            return Err(TaskError::InvalidInput);
        }
        let id = self.next_id;
        let task = Task {
            id,
            title,
            description,
            done: false,
            is_important: match is_important {
                Some(b) => b,
                None => false,
            },
            created_at: now,
            updated_at: now,
        };
        let mut tasks = self.take_tasks();
        tasks.insert(id, task);
        self.next_id = id + 1;
        self.tasks = tasks;
        Ok(id)
    }

    /// Removes the record with identifier `id`; `NotFound` if there is none.
    /// The identifier is never handed out again.
    pub fn delete_task(&mut self, id: u64) -> (r: Result<bool, TaskError>)
        ensures
            delete_outcome(old(self)@, final(self)@, id, r),
    {
        proof {
            use_type_invariant(&*self);
        }
        let mut tasks = self.take_tasks();
        let res = match tasks.remove(&id) {
            Some(_) => {
                proof {
                    assert(tasks@ =~= old(self)@.records.remove(id));
                }
                Ok(true)
            },
            None => {
                proof {
                    assert(tasks@ =~= old(self)@.records);
                }
                Err(TaskError::NotFound)
            },
        };
        self.tasks = tasks;
        res
    }

    fn edit_flag(&mut self, id: u64, edit: FlagEdit, now: u64) -> (r: Result<bool, TaskError>)
        ensures
            flag_edit(old(self)@, final(self)@, id, r, edit.apply(old(self)@.records[id]), now),
    {
        proof {
            use_type_invariant(&*self);
        }
        let mut tasks = self.take_tasks();
        let res = match tasks.remove(&id) {
            Some(mut t) => {
                match edit {
                    FlagEdit::SetDone(b) => t.done = b,
                    FlagEdit::SetImportant(b) => t.is_important = b,
                    FlagEdit::FlipImportant => t.is_important = !t.is_important,
                }
                if now >= t.updated_at {
                    t.updated_at = now;
                }
                tasks.insert(id, t);
                proof {
                    assert(t == touched(edit.apply(old(self)@.records[id]), now));
                    assert(tasks@ =~= old(self)@.records.insert(id, t));
                }
                Ok(true)
            },
            None => {
                proof {
                    assert(tasks@ =~= old(self)@.records);
                }
                Err(TaskError::NotFound)
            },
        };
        self.tasks = tasks;
        res
    }

    /// Sets `done` on the record with identifier `id` and refreshes its stamp.
    pub fn mark_task_as_done(&mut self, id: u64, now: u64) -> (r: Result<bool, TaskError>)
        ensures
            flag_edit(
                old(self)@,
                final(self)@,
                id,
                r,
                with_done(old(self)@.records[id], true),
                now,
            ),
    {
        self.edit_flag(id, FlagEdit::SetDone(true), now)
    }

    /// Clears `done` on the record with identifier `id` and refreshes its stamp.
    pub fn reset_task_status(&mut self, id: u64, now: u64) -> (r: Result<bool, TaskError>)
        ensures
            flag_edit(
                old(self)@,
                final(self)@,
                id,
                r,
                with_done(old(self)@.records[id], false),
                now,
            ),
    {
        self.edit_flag(id, FlagEdit::SetDone(false), now)
    }

    /// Sets `is_important` on the record with identifier `id` and refreshes
    /// its stamp.
    pub fn mark_task_as_important(&mut self, id: u64, now: u64) -> (r: Result<bool, TaskError>)
        ensures
            flag_edit(
                old(self)@,
                final(self)@,
                id,
                r,
                with_importance(old(self)@.records[id], true),
                now,
            ),
    {
        self.edit_flag(id, FlagEdit::SetImportant(true), now)
    }

    /// Flips `is_important` on the record with identifier `id` and refreshes
    /// its stamp.
    pub fn toggle_task_importance(&mut self, id: u64, now: u64) -> (r: Result<bool, TaskError>)
        ensures
            flag_edit(
                old(self)@,
                final(self)@,
                id,
                r,
                with_importance(
                    old(self)@.records[id],
                    !old(self)@.records[id].is_important,
                ),
                now,
            ),
    {
        self.edit_flag(id, FlagEdit::FlipImportant, now)
    }

    /// Replaces each supplied field of the record with identifier `id`,
    /// keeps the others, and refreshes its stamp once, also when no field is
    /// supplied. Fails with `NotFound` on a missing record, and otherwise
    /// with `InvalidInput` when a supplied title or description is empty;
    /// a failed call changes nothing.
    pub fn update_task(
        &mut self,
        id: u64,
        title: Option<String>,
        description: Option<String>,
        done: Option<bool>,
        is_important: Option<bool>,
        now: u64,
    ) -> (r: Result<bool, TaskError>)
        ensures
            update_outcome(
                old(self)@,
                final(self)@,
                id,
                title,
                description,
                done,
                is_important,
                now,
                r,
            ),
    {
        proof {
            use_type_invariant(&*self);
        }
        if !self.tasks.contains_key(&id) {
            return Err(TaskError::NotFound);
        }
        let title_bad = match &title {
            Some(s) => s.as_str().is_empty(),
            None => false,
        };
        let description_bad = match &description {
            Some(s) => s.as_str().is_empty(),
            None => false,
        };
        if title_bad || description_bad {
            return Err(TaskError::InvalidInput);
        }
        let mut tasks = self.take_tasks();
        let res = match tasks.remove(&id) {
            Some(mut t) => {
                if let Some(s) = title {
                    t.title = s;
                }
                if let Some(s) = description {
                    t.description = s;
                }
                if let Some(b) = done {
                    t.done = b;
                }
                if let Some(b) = is_important {
                    t.is_important = b;
                }
                if now >= t.updated_at {
                    t.updated_at = now;
                }
                tasks.insert(id, t);
                proof {
                    assert(tasks@ =~= old(self)@.records.insert(id, t));
                }
                Ok(true)
            },
            None => {
                proof {
                    assert(tasks@ =~= old(self)@.records);
                }
                Err(TaskError::NotFound)
            },
        };
        self.tasks = tasks;
        res
    }
    /// Every stored record.
    pub fn get_all_tasks(&self) -> (r: Vec<Task>)
        ensures
            lists_matching(r@, self@.records, |t: Task| true),
    {
        let c = Criterion::Any;
        let r = self.select(&c);
        proof {
            lemma_same_listing(r@, self@.records, |t: Task| c.admits(t), |t: Task| true);
        }
        r
    }

    /// The stored records whose `done` equals `done`.
    pub fn search_task_by_status(&self, done: bool) -> (r: Vec<Task>)
        ensures
            lists_matching(r@, self@.records, |t: Task| t.done == done),
    {
        let c = Criterion::Done(done);
        let r = self.select(&c);
        proof {
            lemma_same_listing(r@, self@.records, |t: Task| c.admits(t), |t: Task| t.done == done);
        }
        r
    }

    /// The stored records whose `is_important` equals `is_important`.
    pub fn get_tasks_by_importance_status(&self, is_important: bool) -> (r: Vec<Task>)
        ensures
            lists_matching(r@, self@.records, |t: Task| t.is_important == is_important),
    {
        let c = Criterion::Important(is_important);
        let r = self.select(&c);
        proof {
            lemma_same_listing(
                r@,
                self@.records,
                |t: Task| c.admits(t),
                |t: Task| t.is_important == is_important,
            );
        }
        r
    }

    /// The stored records marked important.
    pub fn get_important_tasks(&self) -> (r: Vec<Task>)
        ensures
            lists_matching(r@, self@.records, |t: Task| t.is_important),
    {
        let c = Criterion::Important(true);
        let r = self.select(&c);
        proof {
            lemma_same_listing(r@, self@.records, |t: Task| c.admits(t), |t: Task| t.is_important);
        }
        r
    }

    /// The stored records marked done.
    pub fn get_completed_tasks(&self) -> (r: Vec<Task>)
        ensures
            lists_matching(r@, self@.records, |t: Task| t.done),
    {
        let c = Criterion::Done(true);
        let r = self.select(&c);
        proof {
            lemma_same_listing(r@, self@.records, |t: Task| c.admits(t), |t: Task| t.done);
        }
        r
    }

    /// The stored records not marked done.
    pub fn get_incomplete_tasks(&self) -> (r: Vec<Task>)
        ensures
            lists_matching(r@, self@.records, |t: Task| !t.done),
    {
        let c = Criterion::Done(false);
        let r = self.select(&c);
        proof {
            lemma_same_listing(r@, self@.records, |t: Task| c.admits(t), |t: Task| !t.done);
        }
        r
    }

    /// The stored records whose title is exactly `title`.
    pub fn get_tasks_by_title(&self, title: String) -> (r: Vec<Task>)
        ensures
            lists_matching(r@, self@.records, |t: Task| t.title@ == title@),
    {
        let c = Criterion::Title(title);
        let r = self.select(&c);
        proof {
            lemma_same_listing(
                r@,
                self@.records,
                |t: Task| c.admits(t),
                |t: Task| t.title@ == title@,
            );
        }
        r
    }

    /// The stored records whose description is exactly `description`.
    pub fn get_tasks_by_description(&self, description: String) -> (r: Vec<Task>)
        ensures
            lists_matching(r@, self@.records, |t: Task| t.description@ == description@),
    {
        let c = Criterion::Description(description);
        let r = self.select(&c);
        proof {
            lemma_same_listing(
                r@,
                self@.records,
                |t: Task| c.admits(t),
                |t: Task| t.description@ == description@,
            );
        }
        r
    }

    /// The stored records created strictly after `timestamp`.
    pub fn get_tasks_created_after(&self, timestamp: u64) -> (r: Vec<Task>)
        ensures
            lists_matching(r@, self@.records, |t: Task| t.created_at > timestamp),
    {
        let c = Criterion::CreatedAfter(timestamp);
        let r = self.select(&c);
        proof {
            lemma_same_listing(
                r@,
                self@.records,
                |t: Task| c.admits(t),
                |t: Task| t.created_at > timestamp,
            );
        }
        r
    }

    /// The stored records last updated strictly after `timestamp`.
    pub fn get_tasks_updated_after(&self, timestamp: u64) -> (r: Vec<Task>)
        ensures
            lists_matching(r@, self@.records, |t: Task| t.updated_at > timestamp),
    {
        let c = Criterion::UpdatedAfter(timestamp);
        let r = self.select(&c);
        proof {
            lemma_same_listing(
                r@,
                self@.records,
                |t: Task| c.admits(t),
                |t: Task| t.updated_at > timestamp,
            );
        }
        r
    }

    /// Removes every record marked done and keeps the others unchanged.
    pub fn clear_completed_tasks(&mut self)
        ensures
            cleared(old(self)@, final(self)@),
    {
        let c = Criterion::Done(true);
        let done = self.select(&c);
        proof {
            lemma_same_listing(
                done@,
                old(self)@.records,
                |t: Task| c.admits(t),
                |t: Task| t.done,
            );
        }
        let ghost records = old(self)@.records;
        let mut tasks = self.take_tasks();
        let mut i: usize = 0;
        while i < done.len()
            invariant
                0 <= i <= done.len(),
                lists_matching(done@, records, |t: Task| t.done),
                self@.records == Map::<u64, Task>::empty(),
                self@.next_id == old(self)@.next_id,
                records.dom().finite(),
                forall|id: u64| #[trigger]
                    tasks@.contains_key(id) <==> records.contains_key(id) && !(exists|j: int|
                        0 <= j < i && done@[j].id == id),
                forall|id: u64| #[trigger] tasks@.contains_key(id) ==> tasks@[id] == records[id],
            decreases done.len() - i,
        {
            tasks.remove(&done[i].id);
            i = i + 1;
        }
        proof {
            assert(tasks@ =~= incomplete_only(records)) by {
                assert forall|id: u64| records.contains_key(id) && records[id].done implies (exists|
                    j: int,
                | 0 <= j < done.len() && done@[j].id == id) by {
                    let j = choose|j: int| 0 <= j < done.len() && done@[j] == records[id];
                    assert(records.contains_key(done@[j].id));
                }
                assert forall|id: u64|
                    (exists|j: int| 0 <= j < done.len() && done@[j].id == id) implies #[trigger]
                    records[id].done by {
                    let j = choose|j: int| 0 <= j < done.len() && done@[j].id == id;
                    assert(records.contains_key(done@[j].id));
                }
            }
        }
        self.tasks = tasks;
    }

    /// The stored records that `c` admits.
    fn select(&self, c: &Criterion) -> (r: Vec<Task>)
        ensures
            lists_matching(r@, self@.records, |t: Task| c.admits(t)),
    {
        proof {
            use_type_invariant(self);
        }
        let ghost records = self@.records;
        let ghost mut seen: Seq<u64> = Seq::empty();
        let mut r: Vec<Task> = Vec::new();
        for k in it: self.tasks.keys()
            invariant
                records == self@.records,
                self@.valid(),
                it.seq().unref().to_set() == records.dom(),
                it.seq().no_duplicates(),
                seen.len() == it.index(),
                forall|j: int| 0 <= j < it.index() ==> seen[j] == *#[trigger] it.seq()[j],
                it.index() == it.seq().len() ==> seen.to_set() == records.dom(),
                r@.no_duplicates(),
                forall|i: int|
                    0 <= i < r.len() ==> #[trigger] records.contains_key(r@[i].id)
                        && records[r@[i].id] == r@[i] && c.admits(r@[i]) && seen.contains(
                        r@[i].id,
                    ),
                forall|id: u64| #[trigger]
                    seen.contains(id) && records.contains_key(id) && c.admits(records[id])
                        ==> r@.contains(records[id]),
        {
            proof {
                assert(it.seq().unref()[it.index()] == *k);
                assert(it.seq().unref().to_set().contains(*k));
                assert(!seen.contains(*k)) by {
                    if seen.contains(*k) {
                        let j = choose|j: int| 0 <= j < seen.len() && seen[j] == *k;
                        assert(it.seq()[j] == it.seq()[it.index()]);
                    }
                }
            }
            let ghost prev = r@;
            match self.tasks.get(k) {
                Some(t) => {
                    if c.test(t) {
                        r.push(t.duplicate());
                        proof {
                            assert forall|i: int| 0 <= i < prev.len() implies prev[i] != *t by {
                                assert(records.contains_key(prev[i].id));
                                assert(seen.contains(prev[i].id));
                            }
                            assert(r@[prev.len() as int] == *t);
                        }
                    }
                },
                None => {},
            }
            proof {
                let ghost before = seen;
                seen = seen.push(*k);
                assert forall|i: int| 0 <= i < r.len() implies #[trigger] records.contains_key(
                    r@[i].id,
                ) && records[r@[i].id] == r@[i] && c.admits(r@[i]) && seen.contains(r@[i].id) by {
                    if i < prev.len() {
                        assert(r@[i] == prev[i]);
                        assert(records.contains_key(prev[i].id));
                        let j = choose|j: int| 0 <= j < before.len() && before[j] == prev[i].id;
                        assert(seen[j] == r@[i].id);
                    } else {
                        assert(seen[before.len() as int] == r@[i].id);
                    }
                }
                assert forall|id: u64| #[trigger]
                    seen.contains(id) && records.contains_key(id) && c.admits(records[id])
                        implies r@.contains(records[id]) by {
                    if id == *k {
                        assert(r@[r.len() - 1] == records[id]);
                    } else {
                        let j = choose|j: int| 0 <= j < seen.len() && seen[j] == id;
                        assert(before[j] == id);
                        assert(before.contains(id));
                        let m = choose|m: int| 0 <= m < prev.len() && prev[m] == records[id];
                        assert(r@[m] == records[id]);
                    }
                }
                assert(it.index() + 1 == it.seq().len() ==> seen =~= it.seq().unref());
            }
        }
        proof {
            assert forall|id: u64| #[trigger]
                records.contains_key(id) && c.admits(records[id]) implies r@.contains(
                records[id],
            ) by {
                assert(seen.to_set().contains(id));
            }
        }
        r
    }

}

} // verus!

//! In-process storage backends.
//!
//! These stores keep everything in an in-process association list and exist
//! so that the runtime can be exercised end to end — in tests, and as the
//! swappable default backend. A serious deployment replaces them with
//! durable storage behind the same contracts.

use vstd::prelude::*;

use crate::aggregate::snapshot::AggregateSnapshot;
use crate::aggregate::snapshot::SnapshotStore;
use crate::aggregate::snapshot::SnapshotV;
use crate::aggregate::Aggregate;
use crate::error::CqrsError;
use crate::events::continues_from;
use crate::events::views;
use crate::events::Event;
use crate::events::EventStore;
use crate::events::EventV;
use crate::ids::AggregateId;

verus! {

/// One aggregate's slot in an in-memory store.
struct Row<V> {
    key: AggregateId,
    value: V,
}

/// The value of the first row of `rows` keyed by `id`, if any.
spec fn sp_find<V>(rows: Seq<Row<V>>, id: AggregateId) -> Option<V>
    decreases rows.len(),
{
    if rows.len() == 0 {
        None
    } else if rows[0].key == id {
        Some(rows[0].value)
    } else {
        sp_find(rows.drop_first(), id)
    }
}

/// A match at index `i`, with no earlier match, is what `sp_find` returns.
proof fn lemma_find_at<V>(rows: Seq<Row<V>>, i: int, id: AggregateId)
    requires
        0 <= i < rows.len(),
        forall|j: int| 0 <= j < i ==> (#[trigger] rows[j]).key != id,
        rows[i].key == id,
    ensures
        sp_find(rows, id) == Some(rows[i].value),
    decreases i,
{
    if i > 0 {
        lemma_find_at(rows.drop_first(), i - 1, id);
    }
}

/// Without any match, `sp_find` returns nothing.
proof fn lemma_find_none<V>(rows: Seq<Row<V>>, id: AggregateId)
    requires
        forall|j: int| 0 <= j < rows.len() ==> (#[trigger] rows[j]).key != id,
    ensures
        sp_find(rows, id) is None,
    decreases rows.len(),
{
    if rows.len() > 0 {
        lemma_find_none(rows.drop_first(), id);
    }
}

/// Replacing the first row of a key changes what `sp_find` returns for that
/// key, and nothing else.
proof fn lemma_find_update<V>(rows: Seq<Row<V>>, i: int, row: Row<V>, id: AggregateId)
    requires
        0 <= i < rows.len(),
        row.key == rows[i].key,
        forall|j: int| 0 <= j < i ==> (#[trigger] rows[j]).key != rows[i].key,
    ensures
        id == row.key ==> sp_find(rows.update(i, row), id) == Some(row.value),
        id != row.key ==> sp_find(rows.update(i, row), id) == sp_find(rows, id),
    decreases i,
{
    let updated = rows.update(i, row);
    if i == 0 {
        if id != row.key {
            assert(updated.drop_first() =~= rows.drop_first());
        }
    } else {
        assert(updated[0] == rows[0]);
        if rows[0].key != id {
            assert(updated.drop_first() =~= rows.drop_first().update(i - 1, row));
            lemma_find_update(rows.drop_first(), i - 1, row, id);
        }
    }
}

/// Appending a row at the end changes what `sp_find` returns only for a key
/// that had no row before.
proof fn lemma_find_push<V>(rows: Seq<Row<V>>, row: Row<V>, id: AggregateId)
    ensures
        sp_find(rows, id) is Some ==> sp_find(rows.push(row), id) == sp_find(rows, id),
        sp_find(rows, id) is None && id == row.key ==> sp_find(rows.push(row), id) == Some(
            row.value,
        ),
        sp_find(rows, id) is None && id != row.key ==> sp_find(rows.push(row), id) is None,
    decreases rows.len(),
{
    if rows.len() == 0 {
        assert(rows.push(row)[0] == row);
        assert(rows.push(row).drop_first() =~= Seq::<Row<V>>::empty());
        assert(sp_find(Seq::<Row<V>>::empty(), id) is None);
    } else {
        assert(rows.push(row)[0] == rows[0]);
        if rows[0].key != id {
            assert(rows.push(row).drop_first() =~= rows.drop_first().push(row));
            lemma_find_push(rows.drop_first(), row, id);
        }
    }
}

/// The index of the row of `key`, if there is one.
fn find_row<V>(rows: &Vec<Row<V>>, key: AggregateId) -> (r: Option<usize>)
    ensures
        match r {
            Some(i) => {
                &&& i < rows@.len()
                &&& rows@[i as int].key == key
                &&& forall|j: int| 0 <= j < i ==> (#[trigger] rows@[j]).key != key
                &&& sp_find(rows@, key) == Some(rows@[i as int].value)
            },
            None => sp_find(rows@, key) is None,
        },
{
    let mut i: usize = 0;
    while i < rows.len()
        invariant
            i <= rows@.len(),
            forall|j: int| 0 <= j < i ==> (#[trigger] rows@[j]).key != key,
        decreases rows@.len() - i,
    {
        if rows[i].key == key {
            proof {
                lemma_find_at(rows@, i as int, key);
            }
            return Some(i);
        }
        i = i + 1;
    }
    proof {
        lemma_find_none(rows@, key);
    }
    None
}

/// Clones a sequence of envelopes; the clones carry the same content.
fn clone_events(events: &Vec<Event>) -> (r: Vec<Event>)
    ensures
        views(r@) == views(events@),
{
    let mut r: Vec<Event> = Vec::new();
    let mut i: usize = 0;
    while i < events.len()
        invariant
            i <= events@.len(),
            r@.len() == i,
            forall|k: int| 0 <= k < i ==> (#[trigger] r@[k])@ == events@[k]@,
        decreases events@.len() - i,
    {
        r.push(events[i].clone());
        i = i + 1;
    }
    proof {
        assert(views(r@) =~= views(events@));
    }
    r
}

/// An append-only event log kept in process memory, keyed by aggregate
/// identity.
pub struct InMemoryEventStore {
    rows: Vec<Row<Vec<Event>>>,
}

impl InMemoryEventStore {
    /// Creates an empty store: no identity has any events.
    pub fn new() -> (r: Self)
        ensures
            forall|id: AggregateId| !r.sp_has(id),
            forall|id: AggregateId| #[trigger] r.sp_events_for(id) == Seq::<EventV>::empty(),
    {
        let r = InMemoryEventStore { rows: Vec::new() };
        proof {
            assert forall|id: AggregateId| sp_find(r.rows@, id) is None by {
                lemma_find_none(r.rows@, id);
            }
        }
        r
    }
}

impl EventStore for InMemoryEventStore {
    open spec fn obeys_store_spec() -> bool {
        true
    }

    closed spec fn sp_has(&self, aggregate_id: AggregateId) -> bool {
        sp_find(self.rows@, aggregate_id) is Some
    }

    closed spec fn sp_events_for(&self, aggregate_id: AggregateId) -> Seq<EventV> {
        match sp_find(self.rows@, aggregate_id) {
            Some(events) => views(events@),
            None => Seq::empty(),
        }
    }

    proof fn lemma_absent_is_empty(&self, aggregate_id: AggregateId) {
    }

    #[verifier::loop_isolation(false)]
    fn save_events(&mut self, aggregate_id: AggregateId, events: &Vec<Event>) -> (r: Result<
        (),
        CqrsError,
    >) {
        let index = find_row(&self.rows, aggregate_id);
        let stored_len: usize = match index {
            Some(i) => self.rows[i].value.len(),
            None => 0,
        };

        // Optimistic-concurrency check: the batch must continue the stored
        // versions gaplessly, or nothing is written.
        let mut j: usize = 0;
        while j < events.len()
            invariant
                j <= events@.len(),
                forall|k: int|
                    0 <= k < j ==> (#[trigger] views(events@)[k]).version == stored_len + k + 1,
            decreases events@.len() - j,
        {
            let expected: u64 = if stored_len as u64 <= u64::MAX - 1 - (j as u64) {
                stored_len as u64 + 1 + j as u64
            } else {
                // The stored history is too long to be continued; no version
                // can match.
                u64::MAX
            };
            let continues = stored_len as u64 <= u64::MAX - 1 - (j as u64) && events[j].version
                == expected;
            if !continues {
                proof {
                    assert(views(events@)[j as int].version != stored_len + j + 1);
                }
                return Err(
                    CqrsError::Concurrency { aggregate_id, expected, actual: events[j].version },
                );
            }
            j = j + 1;
        }
        assert(continues_from(views(events@), stored_len as int));

        let cloned = clone_events(events);
        match index {
            Some(i) => {
                let ghost old_rows = old(self).rows@;
                let ghost old_events = views(self.rows@[i as int].value@);
                let mut row = self.rows.remove(i);
                let mut fresh = cloned;
                row.value.append(&mut fresh);
                proof {
                    assert(views(row.value@) =~= old_events + views(events@));
                }
                self.rows.insert(i, row);
                proof {
                    let updated = self.rows@[i as int];
                    assert(self.rows@ =~= old_rows.update(i as int, updated));
                    assert forall|id: AggregateId|
                        {
                            &&& (id == aggregate_id ==> sp_find(self.rows@, id) == Some(
                                updated.value,
                            ))
                            &&& (id != aggregate_id ==> sp_find(self.rows@, id) == sp_find(
                                old_rows,
                                id,
                            ))
                        } by {
                        lemma_find_update(old_rows, i as int, updated, id);
                    }
                }
                Ok(())
            },
            None => {
                let ghost old_rows = old(self).rows@;
                self.rows.push(Row { key: aggregate_id, value: cloned });
                proof {
                    let row = self.rows@[self.rows@.len() - 1];
                    assert(self.rows@ =~= old_rows.push(row));
                    assert forall|id: AggregateId|
                        {
                            &&& (id == aggregate_id ==> sp_find(self.rows@, id) == Some(row.value))
                            &&& (id != aggregate_id ==> sp_find(self.rows@, id) == sp_find(
                                old_rows,
                                id,
                            ))
                        } by {
                        lemma_find_push(old_rows, row, id);
                    }
                    assert(old(self).sp_events_for(aggregate_id) + views(events@) =~= views(
                        events@,
                    ));
                }
                Ok(())
            },
        }
    }

    fn load_events(&self, aggregate_id: AggregateId) -> (r: Result<Vec<Event>, CqrsError>) {
        match find_row(&self.rows, aggregate_id) {
            Some(i) => Ok(clone_events(&self.rows[i].value)),
            None => Err(CqrsError::AggregateNotFound(aggregate_id)),
        }
    }
}

/// A snapshot store kept in process memory: the most recent snapshot of each
/// aggregate identity, keyed by identity.
pub struct InMemorySnapshotStore<A: Aggregate> {
    rows: Vec<Row<AggregateSnapshot<A>>>,
}

impl<A: Aggregate> InMemorySnapshotStore<A> {
    /// Creates an empty store: no identity has a snapshot.
    pub fn new() -> (r: Self)
        ensures
            forall|id: AggregateId| #[trigger] r.sp_snapshot(id) is None,
    {
        let r = InMemorySnapshotStore { rows: Vec::new() };
        proof {
            assert forall|id: AggregateId| sp_find(r.rows@, id) is None by {
                lemma_find_none(r.rows@, id);
            }
        }
        r
    }
}

impl<A: Aggregate> SnapshotStore<A> for InMemorySnapshotStore<A> {
    open spec fn obeys_snapshot_spec() -> bool {
        true
    }

    closed spec fn sp_snapshot(&self, aggregate_id: AggregateId) -> Option<SnapshotV> {
        match sp_find(self.rows@, aggregate_id) {
            Some(snapshot) => Some(snapshot@),
            None => None,
        }
    }

    fn save_snapshot(&mut self, snapshot: AggregateSnapshot<A>) -> (r: Result<(), CqrsError>) {
        let key = snapshot.aggregate_id;
        match find_row(&self.rows, key) {
            Some(i) => {
                let ghost old_rows = old(self).rows@;
                let mut row = self.rows.remove(i);
                row.value = snapshot;
                self.rows.insert(i, row);
                proof {
                    let updated = self.rows@[i as int];
                    assert(self.rows@ =~= old_rows.update(i as int, updated));
                    assert forall|id: AggregateId|
                        {
                            &&& (id == key ==> sp_find(self.rows@, id) == Some(updated.value))
                            &&& (id != key ==> sp_find(self.rows@, id) == sp_find(old_rows, id))
                        } by {
                        lemma_find_update(old_rows, i as int, updated, id);
                    }
                }
                Ok(())
            },
            None => {
                let ghost old_rows = old(self).rows@;
                self.rows.push(Row { key, value: snapshot });
                proof {
                    let row = self.rows@[self.rows@.len() - 1];
                    assert(self.rows@ =~= old_rows.push(row));
                    assert forall|id: AggregateId|
                        {
                            &&& (id == key ==> sp_find(self.rows@, id) == Some(row.value))
                            &&& (id != key ==> sp_find(self.rows@, id) == sp_find(old_rows, id))
                        } by {
                        lemma_find_push(old_rows, row, id);
                    }
                }
                Ok(())
            },
        }
    }

    fn load_snapshot(&self, aggregate_id: AggregateId) -> (r: Result<
        AggregateSnapshot<A>,
        CqrsError,
    >) {
        match find_row(&self.rows, aggregate_id) {
            Some(i) => Ok(self.rows[i].value.clone()),
            None => Err(CqrsError::AggregateNotFound(aggregate_id)),
        }
    }
}

} // verus!

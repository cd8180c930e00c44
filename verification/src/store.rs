//! A model of the record store, and the protocol run against it.
//!
//! The store itself is not part of this library. What is here says, in
//! mathematical terms, what each action of the engine does to a table with
//! one record under each key, so that the engine's runs can be held against
//! the merge that they are meant to persist.

use crate::engine::{
    ActionView, ColumnWriteView, EngineView, EventView, OperationView, Strategy, column_write_of,
    steps_left,
};
use crate::error::Error;
use crate::patch::Patch;
use crate::record::{FieldsView, RecordView};
use crate::request::RequestView;
use crate::resolve::{resolve_record, lemma_resolve_record_idempotent};
use vstd::prelude::*;

verus! {

/// The rows of a table by their key: under each key one record, or none.
pub type Rows = Map<int, RecordView>;

/// The record under `key`, if there is one.
pub open spec fn lookup(rows: Rows, key: int) -> Option<RecordView> {
    if rows.contains_key(key) {
        Some(rows[key])
    } else {
        None
    }
}

/// Every record is stored under its own key.
pub open spec fn keyed(rows: Rows) -> bool {
    forall|key: int| #[trigger] rows.contains_key(key) ==> rows[key].internal_id == key
}

/// The rows after `request` has been merged into the record under `key`:
/// that record is created or replaced by the merged one, and no other row
/// is touched.
pub open spec fn merge_upsert(rows: Rows, key: int, fresh_id: int, request: RequestView) -> Rows {
    rows.insert(key, resolve_record(lookup(rows, key), key, fresh_id, request))
}

/// The value that a column holds after the conditional upsert: the value
/// given, except that a column that is not marked keeps what the row held.
pub open spec fn written(write: ColumnWriteView, stored: Option<Option<Seq<char>>>) -> Option<
    Seq<char>,
> {
    match stored {
        Some(value) => if write.touch {
            write.value
        } else {
            value
        },
        None => write.value,
    }
}

/// The value that a column holds after an upsert whose conflict clause takes
/// the incoming value where it is not null and keeps the stored value
/// otherwise.
pub open spec fn coalesced(incoming: Option<Seq<char>>, stored: Option<Option<Seq<char>>>) -> Option<
    Seq<char>,
> {
    match (incoming, stored) {
        (None, Some(value)) => value,
        _ => incoming,
    }
}

/// The row that the conditional upsert leaves under `key`.
pub open spec fn upserted(
    existing: Option<RecordView>,
    key: int,
    fresh_id: int,
    one: ColumnWriteView,
    two: ColumnWriteView,
) -> RecordView {
    match existing {
        Some(row) => RecordView {
            one: written(one, Some(row.one)),
            two: written(two, Some(row.two)),
            ..row
        },
        None => RecordView {
            id: fresh_id,
            internal_id: key,
            one: written(one, None),
            two: written(two, None),
        },
    }
}

/// The store as the protocol sees it.
pub struct StoreState {
    /// The committed rows.
    pub rows: Rows,
    /// The rows as the open transaction sees them, where one is open.
    pub staged: Option<Rows>,
    /// The identity that the next new row gets.
    pub next_id: int,
    /// How many connections are out of the pool.
    pub lent: nat,
}

impl StoreState {
    /// No transaction is open.
    pub open spec fn settled(self) -> bool {
        self.staged is None
    }

    /// The rows that a statement sees and writes: those of the open
    /// transaction, or the committed ones where none is open.
    pub open spec fn working(self) -> Rows {
        match self.staged {
            Some(rows) => rows,
            None => self.rows,
        }
    }

    /// The store after a statement has left `rows`: inside a transaction
    /// they are staged, outside they are committed at once.
    pub open spec fn write(self, rows: Rows) -> StoreState {
        match self.staged {
            Some(_) => StoreState { staged: Some(rows), ..self },
            None => StoreState { rows, ..self },
        }
    }

    /// The store after the open transaction, if any, has been dropped.
    pub open spec fn aborted(self) -> StoreState {
        StoreState { staged: None, ..self }
    }

    /// The store and its answer when `action` is carried out and works.
    pub open spec fn perform(self, action: ActionView) -> (StoreState, EventView) {
        match action {
            ActionView::Acquire => (StoreState { lent: self.lent + 1, ..self }, EventView::Acquired),
            ActionView::Begin => (StoreState { staged: Some(self.rows), ..self }, EventView::Begun),
            ActionView::LockRow { internal_id } => (
                self,
                EventView::Row(lookup(self.working(), internal_id)),
            ),
            ActionView::Select { internal_id } => (
                self,
                EventView::Row(lookup(self.working(), internal_id)),
            ),
            ActionView::Update { internal_id, fields } => match lookup(self.working(), internal_id) {
                Some(row) => (
                    self.write(
                        self.working().insert(
                            internal_id,
                            RecordView::assemble(row.id, row.internal_id, fields),
                        ),
                    ),
                    EventView::Updated,
                ),
                None => (self, EventView::Updated),
            },
            ActionView::Insert { internal_id, fields } => match lookup(
                self.working(),
                internal_id,
            ) {
                Some(_) => (self, EventView::Failed),
                None => (
                    StoreState { next_id: self.next_id + 1, ..self }.write(
                        self.working().insert(
                            internal_id,
                            RecordView::assemble(self.next_id, internal_id, fields),
                        ),
                    ),
                    EventView::Inserted { id: self.next_id },
                ),
            },
            ActionView::Upsert { internal_id, one, two } => {
                let existing = lookup(self.working(), internal_id);
                let row = upserted(existing, internal_id, self.next_id, one, two);
                let next_id = if existing is None {
                    self.next_id + 1
                } else {
                    self.next_id
                };
                (
                    StoreState { next_id, ..self }.write(self.working().insert(internal_id, row)),
                    EventView::Upserted(row),
                )
            },
            ActionView::Commit => (
                StoreState { rows: self.working(), staged: None, ..self },
                EventView::Committed,
            ),
            ActionView::Rollback => (self.aborted(), EventView::RolledBack),
            ActionView::Release => (
                StoreState { lent: (self.lent - 1) as nat, staged: None, ..self },
                EventView::Released,
            ),
            ActionView::Finish(_) => (self, EventView::Failed),
        }
    }

    /// The store and its answer when `action` is carried out and fails:
    /// nothing is written, and a transaction that was to be ended is
    /// dropped. Giving a connection back does not fail.
    pub open spec fn fail(self, action: ActionView) -> (StoreState, EventView) {
        match action {
            ActionView::Commit => (self.aborted(), EventView::Failed),
            ActionView::Rollback => (self.aborted(), EventView::Failed),
            ActionView::Release => self.perform(action),
            _ => (self, EventView::Failed),
        }
    }

    /// The store and its answer when `action` is carried out.
    pub open spec fn respond(self, action: ActionView, works: bool) -> (StoreState, EventView) {
        if works {
            self.perform(action)
        } else {
            self.fail(action)
        }
    }
}

/// The store and the outcome when the engine is run to its end against the
/// store, starting with `action`. The actions are counted from `step`, and
/// those whose number is in `faults` fail.
pub open spec fn run(
    engine: EngineView,
    action: ActionView,
    store: StoreState,
    faults: Set<nat>,
    step: nat,
) -> (StoreState, Result<RecordView, Error>)
    decreases steps_left(engine.phase),
{
    match action {
        ActionView::Finish(outcome) => (store, outcome),
        _ => if engine.phase is Done {
            (store, Err(Error::StorageUnavailable))
        } else {
            let (answered, event) = store.respond(action, !faults.contains(step));
            let (next, then) = engine.transition(event);
            run(next, then, answered, faults, step + 1)
        },
    }
}

/// The store and the outcome when `operation` is run on the record under
/// `key` from its start.
pub open spec fn run_from_start(
    operation: OperationView,
    key: int,
    store: StoreState,
    faults: Set<nat>,
) -> (StoreState, Result<RecordView, Error>) {
    run(EngineView::started(operation, key), ActionView::Acquire, store, faults, 0)
}

/// The conditional upsert stores, column by column, what the merge rule
/// asks for: with the marker, the statement tells a field that is to be
/// cleared from one that is to be left alone.
pub proof fn lemma_marked_write_is_resolution(
    patch: Patch<Seq<char>>,
    stored: Option<Option<Seq<char>>>,
)
    ensures
        written(column_write_of(patch), stored) == patch.resolved(stored),
{
}

/// A conflict clause that takes the incoming value where it is not null and
/// keeps the stored value otherwise cannot clear a column: an explicit null
/// arrives as null, as a missing field does, and the stored value stays.
pub proof fn lemma_coalescing_cannot_clear(stored: Seq<char>)
    ensures
        coalesced(column_write_of(Patch::ExplicitNull).value, Some(Some(stored))) == Some(stored),
        Patch::<Seq<char>>::ExplicitNull.resolved(Some(Some(stored))) is None,
        column_write_of(Patch::<Seq<char>>::ExplicitNull).value == column_write_of(
            Patch::<Seq<char>>::Missing,
        ).value,
{
}

/// A merge that is run to its end either persists exactly the merged record
/// or changes nothing.
///
/// Whichever strategy is used and whichever actions fail: the connection is
/// back in the pool and no transaction is left open; where the outcome is a
/// record, it is the merge of the request with the row that was stored, and
/// the table holds it under the key with every other row as before; where
/// the outcome is an error, it is [`Error::StorageUnavailable`] and the table
/// is as it was. Where nothing fails the outcome is the record.
pub proof fn lemma_merge_run(
    strategy: Strategy,
    key: int,
    request: RequestView,
    store: StoreState,
    faults: Set<nat>,
)
    requires
        store.settled(),
        keyed(store.rows),
    ensures
        ({
            let (after, outcome) = run_from_start(
                OperationView::Merge { strategy, request },
                key,
                store,
                faults,
            );
            let merged = resolve_record(lookup(store.rows, key), key, store.next_id, request);
            &&& after.lent == store.lent
            &&& after.settled()
            &&& after.next_id >= store.next_id
            &&& outcome is Ok ==> outcome == Ok::<RecordView, Error>(merged) && after.rows
                == merge_upsert(store.rows, key, store.next_id, request)
            &&& outcome is Err ==> outcome == Err::<RecordView, Error>(Error::StorageUnavailable)
                && after.rows == store.rows
            &&& faults.is_empty() ==> outcome is Ok
        }),
{
    reveal_with_fuel(run, 8);
}

/// A read that is run to its end changes nothing. Where nothing fails its
/// outcome is the record under the key, or [`Error::NotFound`] where there
/// is none; where an action fails it is [`Error::StorageUnavailable`]. Either
/// way the connection is back in the pool.
pub proof fn lemma_fetch_run(key: int, store: StoreState, faults: Set<nat>)
    requires
        store.settled(),
    ensures
        ({
            let (after, outcome) = run_from_start(OperationView::Fetch, key, store, faults);
            &&& after == store
            &&& outcome == if faults.contains(0) || faults.contains(1) {
                Err::<RecordView, Error>(Error::StorageUnavailable)
            } else {
                match lookup(store.rows, key) {
                    Some(record) => Ok(record),
                    None => Err(Error::NotFound),
                }
            }
        }),
{
    reveal_with_fuel(run, 8);
}

/// A read that follows a merge gives the record that the merge has given:
/// what a merge returns is what is stored.
pub proof fn lemma_fetch_sees_the_merge(
    strategy: Strategy,
    key: int,
    request: RequestView,
    store: StoreState,
)
    requires
        store.settled(),
        keyed(store.rows),
    ensures
        ({
            let (merged, record) = run_from_start(
                OperationView::Merge { strategy, request },
                key,
                store,
                Set::empty(),
            );
            let (after, fetched) = run_from_start(OperationView::Fetch, key, merged, Set::empty());
            &&& record is Ok
            &&& fetched == record
            &&& after == merged
        }),
{
    let operation = OperationView::Merge { strategy, request };
    let (merged, record) = run_from_start(operation, key, store, Set::empty());
    lemma_merge_run(strategy, key, request, store, Set::empty());
    lemma_fetch_run(key, merged, Set::empty());
}

/// The two strategies cannot be told apart by what they store and return:
/// run without failures on the same store with the same request, they leave
/// the same rows and give the same record.
pub proof fn lemma_strategies_agree(key: int, request: RequestView, store: StoreState)
    requires
        store.settled(),
        keyed(store.rows),
    ensures
        ({
            let (locked, first) = run_from_start(
                OperationView::Merge { strategy: Strategy::PessimisticLock, request },
                key,
                store,
                Set::empty(),
            );
            let (atomic, second) = run_from_start(
                OperationView::Merge { strategy: Strategy::AtomicUpsert, request },
                key,
                store,
                Set::empty(),
            );
            &&& locked.rows == atomic.rows
            &&& first == second
            &&& first is Ok
        }),
{
    lemma_merge_run(Strategy::PessimisticLock, key, request, store, Set::empty());
    lemma_merge_run(Strategy::AtomicUpsert, key, request, store, Set::empty());
}

/// A merge touches the row under its key and no other, and it keeps every
/// record under its own key.
pub proof fn lemma_merge_touches_one_row(rows: Rows, key: int, fresh_id: int, request: RequestView)
    requires
        keyed(rows),
    ensures
        keyed(merge_upsert(rows, key, fresh_id, request)),
        merge_upsert(rows, key, fresh_id, request).contains_key(key),
        forall|other: int|
            other != key ==> lookup(merge_upsert(rows, key, fresh_id, request), other) == lookup(
                rows,
                other,
            ),
        lookup(rows, key) matches Some(row) ==> merge_upsert(rows, key, fresh_id, request)[key].id
            == row.id,
{
}

/// Sending the same request again converges: merged a second time into the
/// rows that the first merge has left, it leaves them as they are.
pub proof fn lemma_replay_converges(
    rows: Rows,
    key: int,
    first_id: int,
    second_id: int,
    request: RequestView,
)
    ensures
        merge_upsert(merge_upsert(rows, key, first_id, request), key, second_id, request)
            == merge_upsert(rows, key, first_id, request),
{
    let once = merge_upsert(rows, key, first_id, request);
    lemma_resolve_record_idempotent(lookup(rows, key), key, first_id, second_id, request);
    assert(merge_upsert(once, key, second_id, request) =~= once);
}

/// The same, for whole runs of the protocol: a second run with the same
/// request, made after the first has ended and without failures in either,
/// gives the same record and leaves the same rows as the first.
pub proof fn lemma_replayed_run_converges(
    first_strategy: Strategy,
    second_strategy: Strategy,
    key: int,
    request: RequestView,
    store: StoreState,
)
    requires
        store.settled(),
        keyed(store.rows),
    ensures
        ({
            let (once, first) = run_from_start(
                OperationView::Merge { strategy: first_strategy, request },
                key,
                store,
                Set::empty(),
            );
            let (twice, second) = run_from_start(
                OperationView::Merge { strategy: second_strategy, request },
                key,
                once,
                Set::empty(),
            );
            &&& first is Ok
            &&& second == first
            &&& twice.rows == once.rows
        }),
{
    let operation = OperationView::Merge { strategy: first_strategy, request };
    let (once, first) = run_from_start(operation, key, store, Set::empty());
    lemma_merge_run(first_strategy, key, request, store, Set::empty());
    lemma_merge_touches_one_row(store.rows, key, store.next_id, request);
    lemma_merge_run(second_strategy, key, request, once, Set::empty());
    lemma_replay_converges(store.rows, key, store.next_id, once.next_id, request);
    lemma_resolve_record_idempotent(
        lookup(store.rows, key),
        key,
        store.next_id,
        once.next_id,
        request,
    );
}

/// No update is lost between two writers of one key that run one after the
/// other: where one request sets only the field `one` and the other only
/// the field `two`, the record holds both new values afterwards, and the
/// rows are the same in whichever order the two were merged.
pub proof fn lemma_disjoint_writers_in_sequence(
    rows: Rows,
    key: int,
    fresh_id: int,
    later_id: int,
    first: RequestView,
    second: RequestView,
)
    requires
        first.one is Present,
        first.two is Missing,
        second.one is Missing,
        second.two is Present,
    ensures
        ({
            let one_way = merge_upsert(
                merge_upsert(rows, key, fresh_id, first),
                key,
                later_id,
                second,
            );
            let other_way = merge_upsert(
                merge_upsert(rows, key, fresh_id, second),
                key,
                later_id,
                first,
            );
            &&& one_way == other_way
            &&& one_way[key].one == Some(first.one->Present_0)
            &&& one_way[key].two == Some(second.two->Present_0)
        }),
{
    let one_way = merge_upsert(merge_upsert(rows, key, fresh_id, first), key, later_id, second);
    let other_way = merge_upsert(merge_upsert(rows, key, fresh_id, second), key, later_id, first);
    assert(one_way =~= other_way);
}

/// Writers of different keys do not meet: merged in either order, two
/// requests for different keys leave the same rows.
pub proof fn lemma_different_keys_commute(
    rows: Rows,
    key: int,
    other_key: int,
    id: int,
    other_id: int,
    request: RequestView,
    other_request: RequestView,
)
    requires
        key != other_key,
    ensures
        merge_upsert(merge_upsert(rows, key, id, request), other_key, other_id, other_request)
            == merge_upsert(
            merge_upsert(rows, other_key, other_id, other_request),
            key,
            id,
            request,
        ),
{
    assert(merge_upsert(
        merge_upsert(rows, key, id, request),
        other_key,
        other_id,
        other_request,
    ) =~= merge_upsert(merge_upsert(rows, other_key, other_id, other_request), key, id, request));
}

} // verus!

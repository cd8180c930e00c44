//! Several runs of the protocol at once against one store.
//!
//! Each writer has its own connection and engine. The store is modelled
//! with one row lock per key: a writer that has read a row under lock, or
//! written a row inside its transaction, holds the lock of that key until
//! its transaction ends, and a statement of another writer that needs the
//! key waits meanwhile. A statement outside a transaction takes effect at
//! once. What is proved here holds of a store that behaves like this.

use crate::engine::{
    ActionView, EngineView, EventView, OperationView, PhaseView, Strategy, column_write_of,
    holds_connection,
};
use crate::error::Error;
use crate::record::RecordView;
use crate::request::RequestView;
use crate::resolve::{resolve_fields, resolve_record};
use crate::store::{keyed, lemma_disjoint_writers_in_sequence, lookup, merge_upsert, upserted, Rows};
use vstd::prelude::*;

verus! {

/// One writer: its engine, the action that the engine has handed out and
/// that is still to be carried out, and what it holds in the store.
pub struct Writer {
    pub engine: EngineView,
    pub action: ActionView,
    /// The rows that the writer's open transaction has written, where one
    /// is open.
    pub staged: Option<Rows>,
    /// The keys whose locks the writer holds.
    pub locks: Set<int>,
}

/// One write that has become visible to all: who made it, under which key
/// and for which request, and the record that it left.
pub struct Commit {
    pub who: int,
    pub key: int,
    pub request: RequestView,
    pub record: RecordView,
}

/// The store and the writers that work on it.
pub struct Shared {
    /// The committed rows.
    pub rows: Rows,
    /// The identity that the next new row gets.
    pub next_id: int,
    pub writers: Seq<Writer>,
    /// The writes that have become visible, in the order in which they did.
    pub history: Seq<Commit>,
}

/// What carrying out one action does.
pub struct Effect {
    pub rows: Rows,
    pub next_id: int,
    pub staged: Option<Rows>,
    pub locks: Set<int>,
    pub history: Seq<Commit>,
    pub event: EventView,
}

impl Writer {
    /// A writer that has just been started.
    pub open spec fn started(operation: OperationView, key: int) -> Writer {
        Writer {
            engine: EngineView::started(operation, key),
            action: ActionView::Acquire,
            staged: None,
            locks: Set::empty(),
        }
    }

    /// The writer holds nothing in the store.
    pub open spec fn idle(self) -> bool {
        self.staged is None && self.locks =~= Set::<int>::empty()
    }

    /// The request that the writer merges, where it merges one.
    pub open spec fn request(self) -> RequestView
        recommends
            self.engine.operation is Merge,
    {
        self.engine.operation->Merge_request
    }

    /// The rows as the writer sees them: the committed rows, with what its
    /// own transaction has written on top.
    pub open spec fn sees(self, rows: Rows) -> Rows {
        match self.staged {
            Some(written) => rows.union_prefer_right(written),
            None => rows,
        }
    }
}

impl Shared {
    /// The state in which the writers given are about to start on `rows`.
    pub open spec fn start(rows: Rows, next_id: int, writers: Seq<Writer>) -> Shared {
        Shared { rows, next_id, writers, history: Seq::empty() }
    }

    /// Whether there is a writer with this number.
    pub open spec fn has(self, who: int) -> bool {
        0 <= who < self.writers.len()
    }

    /// Whether a writer other than `who` holds the lock of `key`.
    pub open spec fn locked_by_other(self, who: int, key: int) -> bool {
        exists|other: int|
            self.has(other) && other != who && #[trigger] self.writers[other].locks.contains(key)
    }

    /// Whether the action of `who` has to wait for another writer.
    ///
    /// Reading a row under lock and updating it wait where the row is there
    /// and locked. Inserting waits where the key is free but another writer
    /// is about to take it. The conditional upsert waits on either.
    pub open spec fn waits(self, who: int) -> bool {
        let writer = self.writers[who];
        let seen = writer.sees(self.rows);
        match writer.action {
            ActionView::LockRow { internal_id } => seen.contains_key(internal_id)
                && self.locked_by_other(who, internal_id),
            ActionView::Update { internal_id, .. } => seen.contains_key(internal_id)
                && self.locked_by_other(who, internal_id),
            ActionView::Insert { internal_id, .. } => !seen.contains_key(internal_id)
                && self.locked_by_other(who, internal_id),
            ActionView::Upsert { internal_id, .. } => self.locked_by_other(who, internal_id),
            _ => false,
        }
    }

    /// The effect of a statement of `who` that leaves `record` under `key`:
    /// inside a transaction the row is staged and its key locked, outside it
    /// is visible at once.
    pub open spec fn write(self, who: int, key: int, record: RecordView, event: EventView) -> Effect {
        let writer = self.writers[who];
        match writer.staged {
            Some(written) => Effect {
                rows: self.rows,
                next_id: self.next_id,
                staged: Some(written.insert(key, record)),
                locks: writer.locks.insert(key),
                history: self.history,
                event,
            },
            None => Effect {
                rows: self.rows.insert(key, record),
                next_id: self.next_id,
                staged: None,
                locks: writer.locks,
                history: self.history.push(
                    Commit { who, key, request: writer.request(), record },
                ),
                event,
            },
        }
    }

    /// The effect of an action of `who` that changes nothing and is answered
    /// with `event`.
    pub open spec fn answer(self, who: int, event: EventView) -> Effect {
        let writer = self.writers[who];
        Effect {
            rows: self.rows,
            next_id: self.next_id,
            staged: writer.staged,
            locks: writer.locks,
            history: self.history,
            event,
        }
    }

    /// The effect of the end of the transaction of `who` without a commit.
    pub open spec fn abort(self, who: int, event: EventView) -> Effect {
        Effect { staged: None, locks: Set::empty(), ..self.answer(who, event) }
    }

    /// The effect of the action of `who` where it works.
    pub open spec fn perform(self, who: int) -> Effect {
        let writer = self.writers[who];
        let seen = writer.sees(self.rows);
        match writer.action {
            ActionView::Acquire => self.answer(who, EventView::Acquired),
            ActionView::Begin => Effect {
                staged: Some(Map::empty()),
                ..self.answer(who, EventView::Begun)
            },
            ActionView::LockRow { internal_id } => match lookup(seen, internal_id) {
                Some(row) => Effect {
                    locks: writer.locks.insert(internal_id),
                    ..self.answer(who, EventView::Row(Some(row)))
                },
                None => self.answer(who, EventView::Row(None)),
            },
            ActionView::Select { internal_id } => self.answer(
                who,
                EventView::Row(lookup(seen, internal_id)),
            ),
            ActionView::Update { internal_id, fields } => match lookup(seen, internal_id) {
                Some(row) => self.write(
                    who,
                    internal_id,
                    RecordView::assemble(row.id, row.internal_id, fields),
                    EventView::Updated,
                ),
                None => self.answer(who, EventView::Updated),
            },
            ActionView::Insert { internal_id, fields } => match lookup(seen, internal_id) {
                Some(_) => self.answer(who, EventView::Failed),
                None => Effect {
                    next_id: self.next_id + 1,
                    ..self.write(
                        who,
                        internal_id,
                        RecordView::assemble(self.next_id, internal_id, fields),
                        EventView::Inserted { id: self.next_id },
                    )
                },
            },
            ActionView::Upsert { internal_id, one, two } => {
                let existing = lookup(seen, internal_id);
                let row = upserted(existing, internal_id, self.next_id, one, two);
                Effect {
                    next_id: if existing is None {
                        self.next_id + 1
                    } else {
                        self.next_id
                    },
                    ..self.write(who, internal_id, row, EventView::Upserted(row))
                }
            },
            ActionView::Commit => match writer.staged {
                Some(written) => Effect {
                    rows: self.rows.union_prefer_right(written),
                    next_id: self.next_id,
                    staged: None,
                    locks: Set::empty(),
                    history: if written.contains_key(writer.engine.internal_id) {
                        self.history.push(
                            Commit {
                                who,
                                key: writer.engine.internal_id,
                                request: writer.request(),
                                record: written[writer.engine.internal_id],
                            },
                        )
                    } else {
                        self.history
                    },
                    event: EventView::Committed,
                },
                None => self.answer(who, EventView::Committed),
            },
            ActionView::Rollback => self.abort(who, EventView::RolledBack),
            ActionView::Release => self.abort(who, EventView::Released),
            ActionView::Finish(_) => self.answer(who, EventView::Failed),
        }
    }

    /// The effect of the action of `who` where it fails: nothing is
    /// written, and a transaction that was to be ended is dropped. Giving a
    /// connection back does not fail.
    pub open spec fn fail(self, who: int) -> Effect {
        match self.writers[who].action {
            ActionView::Commit => self.abort(who, EventView::Failed),
            ActionView::Rollback => self.abort(who, EventView::Failed),
            ActionView::Release => self.perform(who),
            _ => self.answer(who, EventView::Failed),
        }
    }

    /// The state after the writer `who` has been given a turn. A writer
    /// that has finished, or whose action has to wait, stays as it is. A
    /// turn in which the action does not work is a failure of that action,
    /// whether it would have had to wait or not.
    pub open spec fn step(self, who: int, works: bool) -> Shared {
        if !self.has(who) || self.writers[who].action is Finish || (works && self.waits(who)) {
            self
        } else {
            let effect = if works {
                self.perform(who)
            } else {
                self.fail(who)
            };
            let (engine, action) = self.writers[who].engine.transition(effect.event);
            Shared {
                rows: effect.rows,
                next_id: effect.next_id,
                writers: self.writers.update(
                    who,
                    Writer { engine, action, staged: effect.staged, locks: effect.locks },
                ),
                history: effect.history,
            }
        }
    }

    /// The state after the turns of `schedule`, taken one after the other.
    /// Each turn names a writer and says whether its action works.
    pub open spec fn after(self, schedule: Seq<(int, bool)>) -> Shared
        decreases schedule.len(),
    {
        if schedule.len() == 0 {
            self
        } else {
            self.after(schedule.drop_last()).step(schedule.last().0, schedule.last().1)
        }
    }
}

/// The rows that the writes of `history` leave when they are made one after
/// the other on `initial`.
pub open spec fn replayed(initial: Rows, history: Seq<Commit>) -> Rows
    decreases history.len(),
{
    if history.len() == 0 {
        initial
    } else {
        replayed(initial, history.drop_last()).insert(history.last().key, history.last().record)
    }
}

/// Whether `history` is a serial execution on `initial`: each write in it
/// leaves the record that its request gives when merged with the row that
/// the writes before it have left.
pub open spec fn serial(initial: Rows, history: Seq<Commit>) -> bool
    decreases history.len(),
{
    history.len() == 0 || {
        let before = replayed(initial, history.drop_last());
        let last = history.last();
        &&& serial(initial, history.drop_last())
        &&& last.record == resolve_record(
            lookup(before, last.key),
            last.key,
            last.record.id,
            last.request,
        )
    }
}

/// The records that the writer `who` has made visible, in their order.
pub open spec fn committed_by(history: Seq<Commit>, who: int) -> Seq<RecordView>
    decreases history.len(),
{
    if history.len() == 0 {
        Seq::empty()
    } else {
        let before = committed_by(history.drop_last(), who);
        if history.last().who == who {
            before.push(history.last().record)
        } else {
            before
        }
    }
}

/// Whether what a writer has made visible fits its outcome: a merge that
/// ends with a record has made that record visible, once, and a run that
/// ends otherwise has made nothing visible.
pub open spec fn settled(
    operation: OperationView,
    outcome: Result<RecordView, Error>,
    committed: Seq<RecordView>,
) -> bool {
    match (operation, outcome) {
        (OperationView::Merge { .. }, Ok(record)) => committed =~= seq![record],
        _ => committed.len() == 0,
    }
}

/// What holds of a writer in each phase of its run, given the committed
/// rows and the records that the writer has made visible so far.
pub open spec fn writer_ok(writer: Writer, rows: Rows, committed: Seq<RecordView>) -> bool {
    let key = writer.engine.internal_id;
    let nothing = Map::<int, RecordView>::empty();
    &&& writer.engine.consistent()
    &&& match writer.engine.phase {
        PhaseView::AwaitingConnection => {
            &&& writer.action == ActionView::Acquire
            &&& writer.idle()
            &&& committed.len() == 0
        },
        PhaseView::AwaitingTransaction => {
            &&& writer.action == ActionView::Begin
            &&& writer.idle()
            &&& committed.len() == 0
        },
        PhaseView::AwaitingRow => {
            &&& writer.action == ActionView::LockRow { internal_id: key }
            &&& writer.staged matches Some(written) && written =~= nothing
            &&& writer.locks =~= Set::<int>::empty()
            &&& committed.len() == 0
        },
        PhaseView::AwaitingUpdate(record) => {
            &&& writer.action == ActionView::Update { internal_id: key, fields: record.fields() }
            &&& writer.staged matches Some(written) && written =~= nothing
            &&& writer.locks =~= set![key]
            &&& rows.contains_key(key)
            &&& record == resolve_record(Some(rows[key]), key, record.id, writer.request())
            &&& committed.len() == 0
        },
        PhaseView::AwaitingInsert(fields) => {
            &&& writer.action == ActionView::Insert { internal_id: key, fields }
            &&& fields == resolve_fields(None, writer.request())
            &&& writer.staged matches Some(written) && written =~= nothing
            &&& writer.locks =~= Set::<int>::empty()
            &&& committed.len() == 0
        },
        PhaseView::AwaitingCommit(record) => {
            &&& writer.action == ActionView::Commit
            &&& writer.staged matches Some(written) && written =~= nothing.insert(key, record)
            &&& writer.locks =~= set![key]
            &&& record == resolve_record(lookup(rows, key), key, record.id, writer.request())
            &&& committed.len() == 0
        },
        PhaseView::AwaitingUpsert => {
            &&& writer.action == ActionView::Upsert {
                internal_id: key,
                one: column_write_of(writer.request().one),
                two: column_write_of(writer.request().two),
            }
            &&& writer.idle()
            &&& committed.len() == 0
        },
        PhaseView::AwaitingSelect => {
            &&& writer.action == ActionView::Select { internal_id: key }
            &&& writer.idle()
            &&& committed.len() == 0
        },
        PhaseView::RollingBack => {
            &&& writer.action == ActionView::Rollback
            &&& writer.locks.subset_of(set![key])
            &&& committed.len() == 0
        },
        PhaseView::Releasing(outcome) => {
            &&& writer.action == ActionView::Release
            &&& writer.idle()
            &&& settled(writer.engine.operation, outcome, committed)
        },
        PhaseView::Done(outcome) => {
            &&& writer.action == ActionView::Finish(outcome)
            &&& writer.idle()
            &&& settled(writer.engine.operation, outcome, committed)
        },
    }
}

impl Shared {
    /// What holds of the writer `who` in this state.
    pub open spec fn writer_inv(self, who: int) -> bool {
        writer_ok(self.writers[who], self.rows, committed_by(self.history, who))
    }

    /// No lock is held by two writers.
    pub open spec fn exclusive(self) -> bool {
        forall|a: int, b: int, key: int|
            self.has(a) && self.has(b) && a != b && #[trigger] self.writers[a].locks.contains(key)
                ==> !(#[trigger] self.writers[b].locks.contains(key))
    }

    /// Every write in the history is one of a writer that merges: it was
    /// made under the key of that writer and for its request.
    pub open spec fn recorded(self) -> bool {
        forall|n: int|
            0 <= n < self.history.len() ==> {
                let commit = #[trigger] self.history[n];
                &&& self.has(commit.who)
                &&& self.writers[commit.who].engine.operation is Merge
                &&& self.writers[commit.who].request() == commit.request
                &&& self.writers[commit.who].engine.internal_id == commit.key
            }
    }

    /// Whether every writer is at its start.
    pub open spec fn all_started(self) -> bool {
        forall|who: int|
            self.has(who) ==> #[trigger] self.writers[who] == Writer::started(
                self.writers[who].engine.operation,
                self.writers[who].engine.internal_id,
            )
    }

    /// What holds of every state that the writers can reach from `initial`:
    /// the committed rows are those of a serial execution of the writes
    /// made visible so far, every writer is where its phase says, and no
    /// lock is held twice.
    pub open spec fn inv(self, initial: Rows) -> bool {
        &&& keyed(self.rows)
        &&& self.rows == replayed(initial, self.history)
        &&& serial(initial, self.history)
        &&& self.exclusive()
        &&& self.recorded()
        &&& forall|who: int| self.has(who) ==> #[trigger] self.writer_inv(who)
    }
}

proof fn lemma_pushed(history: Seq<Commit>, commit: Commit, initial: Rows, who: int)
    ensures
        replayed(initial, history.push(commit)) == replayed(initial, history).insert(
            commit.key,
            commit.record,
        ),
        serial(initial, history.push(commit)) == (serial(initial, history) && commit.record
            == resolve_record(
            lookup(replayed(initial, history), commit.key),
            commit.key,
            commit.record.id,
            commit.request,
        )),
        committed_by(history.push(commit), who) == if commit.who == who {
            committed_by(history, who).push(commit.record)
        } else {
            committed_by(history, who)
        },
{
    assert(history.push(commit).drop_last() == history);
}

/// A turn of one writer leaves every other writer as it was, and leaves the
/// rows under the locks of the others as they were.
proof fn lemma_others_untouched(state: Shared, initial: Rows, who: int, works: bool, other: int)
    requires
        state.inv(initial),
        state.has(other),
        other != who,
    ensures
        state.step(who, works).writers[other] == state.writers[other],
        committed_by(state.step(who, works).history, other) == committed_by(state.history, other),
        forall|key: int|
            state.writers[other].locks.contains(key) ==> lookup(state.step(who, works).rows, key)
                == lookup(state.rows, key),
{
    let next = state.step(who, works);
    if state.has(who) {
        assert(state.writer_inv(who));
        let writer = state.writers[who];
        assert(writer.sees(state.rows) =~= state.rows || writer.engine.phase is AwaitingCommit
            || writer.engine.phase is RollingBack);
        if next.history != state.history {
            lemma_pushed(state.history, next.history.last(), initial, other);
        }
        assert forall|locked: int| state.writers[other].locks.contains(locked) implies lookup(
            next.rows,
            locked,
        ) == lookup(state.rows, locked) by {}
    }
}

/// Every turn keeps the invariant.
pub proof fn lemma_step_keeps_inv(state: Shared, initial: Rows, who: int, works: bool)
    requires
        state.inv(initial),
    ensures
        state.step(who, works).inv(initial),
{
    let next = state.step(who, works);
    if next != state {
        let writer = state.writers[who];
        let key = writer.engine.internal_id;
        assert(state.writer_inv(who));
        if next.history != state.history {
            lemma_pushed(state.history, next.history.last(), initial, who);
        }
        if writer.engine.phase is AwaitingCommit {
            let record = writer.engine.phase->AwaitingCommit_0;
            let written = Map::<int, RecordView>::empty().insert(key, record);
            assert(state.rows.union_prefer_right(written) =~= state.rows.insert(key, record));
        }
        assert forall|other: int| next.has(other) implies #[trigger] next.writer_inv(other) by {
            if other != who {
                lemma_others_untouched(state, initial, who, works, other);
                assert(state.writer_inv(other));
                let held = state.writers[other];
                assert(held.locks.contains(held.engine.internal_id) || !(held.engine.phase
                    is AwaitingUpdate || held.engine.phase is AwaitingCommit));
            }
        }
        assert(next.recorded()) by {
            assert forall|n: int| 0 <= n < next.history.len() implies ({
                let commit = #[trigger] next.history[n];
                &&& next.has(commit.who)
                &&& next.writers[commit.who].engine.operation is Merge
                &&& next.writers[commit.who].request() == commit.request
                &&& next.writers[commit.who].engine.internal_id == commit.key
            }) by {}
        }
        assert(next.exclusive()) by {
            assert forall|a: int, b: int, locked: int|
                next.has(a) && next.has(b) && a != b && #[trigger] next.writers[a].locks.contains(
                    locked,
                ) implies !(#[trigger] next.writers[b].locks.contains(locked)) by {
                if a != who {
                    lemma_others_untouched(state, initial, who, works, a);
                }
                if b != who {
                    lemma_others_untouched(state, initial, who, works, b);
                }
            }
        }
    }
}

/// At most one writer of a key is between reading its row under lock and
/// the end of its transaction: while one writer holds the row, no other
/// writer of the same key has read it under lock or written it.
pub proof fn lemma_one_writer_holds_the_row(state: Shared, initial: Rows, who: int, other: int)
    requires
        state.inv(initial),
        state.has(who),
        state.has(other),
        who != other,
        state.writers[who].engine.internal_id == state.writers[other].engine.internal_id,
        state.writers[who].engine.phase is AwaitingUpdate || state.writers[who].engine.phase
            is AwaitingCommit,
    ensures
        !(state.writers[other].engine.phase is AwaitingUpdate),
        !(state.writers[other].engine.phase is AwaitingCommit),
        state.writers[other].locks =~= Set::<int>::empty(),
{
    let key = state.writers[who].engine.internal_id;
    assert(state.writer_inv(who));
    assert(state.writer_inv(other));
    assert(state.writers[who].locks.contains(key));
    assert(!state.writers[other].locks.contains(key));
}

/// Writers that are about to start on rows that are stored under their own
/// keys satisfy the invariant.
pub proof fn lemma_start_has_inv(state: Shared)
    requires
        keyed(state.rows),
        state.history.len() == 0,
        state.all_started(),
    ensures
        state.inv(state.rows),
{
    assert forall|who: int| state.has(who) implies #[trigger] state.writer_inv(who) by {
        assert(state.writers[who] == Writer::started(
            state.writers[who].engine.operation,
            state.writers[who].engine.internal_id,
        ));
    }
}

/// However the turns of the writers are interleaved, and whichever actions
/// fail on the way, the invariant holds at the end.
pub proof fn lemma_schedule_keeps_inv(state: Shared, initial: Rows, schedule: Seq<(int, bool)>)
    requires
        state.inv(initial),
    ensures
        state.after(schedule).inv(initial),
        state.after(schedule).writers.len() == state.writers.len(),
        forall|who: int|
            state.has(who) ==> {
                let then = #[trigger] state.after(schedule).writers[who];
                &&& then.engine.operation == state.writers[who].engine.operation
                &&& then.engine.internal_id == state.writers[who].engine.internal_id
            },
    decreases schedule.len(),
{
    if schedule.len() > 0 {
        lemma_schedule_keeps_inv(state, initial, schedule.drop_last());
        let before = state.after(schedule.drop_last());
        lemma_step_keeps_inv(before, initial, schedule.last().0, schedule.last().1);
    }
}

/// Concurrent merges are serialized, and no write is lost.
///
/// Start any number of writers on `initial`, each with its own request, key
/// and strategy, and give them turns in any order, with any actions failing.
/// Then at every moment the committed rows are what the writes that have
/// become visible leave when made one after the other, and each of these
/// writes is the merge of its writer's request with the row that the writes
/// before it had left. A writer that has ended with a record has made
/// exactly that record visible, once; a writer that has ended with an error
/// has made nothing visible.
pub proof fn lemma_concurrent_merges_are_serial(start: Shared, schedule: Seq<(int, bool)>, who: int)
    requires
        keyed(start.rows),
        start.history.len() == 0,
        start.all_started(),
        start.has(who),
    ensures
        ({
            let end = start.after(schedule);
            let writer = end.writers[who];
            &&& end.rows == replayed(start.rows, end.history)
            &&& serial(start.rows, end.history)
            &&& writer.engine.operation == start.writers[who].engine.operation
            &&& writer.engine.phase matches PhaseView::Done(outcome) ==> writer.idle() && settled(
                writer.engine.operation,
                outcome,
                committed_by(end.history, who),
            )
            &&& committed_by(end.history, who).len() <= 1
            &&& holds_connection(writer.engine.phase) ==> committed_by(end.history, who).len() == 0
        }),
{
    lemma_start_has_inv(start);
    lemma_schedule_keeps_inv(start, start.rows, schedule);
    assert(start.after(schedule).writer_inv(who));
}

/// No writer waits for a writer of another key: an action has to wait only
/// while another writer of the same key holds the lock.
pub proof fn lemma_waits_only_for_same_key(state: Shared, initial: Rows, who: int)
    requires
        state.inv(initial),
        state.has(who),
        state.waits(who),
    ensures
        exists|other: int|
            state.has(other) && other != who && #[trigger] state.writers[other].engine.internal_id
                == state.writers[who].engine.internal_id,
{
    assert(state.writer_inv(who));
    let key = state.writers[who].engine.internal_id;
    let other = choose|other: int|
        state.has(other) && other != who && #[trigger] state.writers[other].locks.contains(key);
    assert(state.writer_inv(other));
}

/// The writers cannot block each other for good: as long as one of them has
/// not finished, one of them has an action that does not have to wait.
pub proof fn lemma_some_writer_can_move(state: Shared, initial: Rows, who: int)
    requires
        state.inv(initial),
        state.has(who),
        !(state.writers[who].action is Finish),
    ensures
        exists|mover: int|
            state.has(mover) && !(#[trigger] state.writers[mover].action is Finish)
                && !state.waits(mover),
{
    if state.waits(who) {
        assert(state.writer_inv(who));
        let key = state.writers[who].engine.internal_id;
        let holder = choose|other: int|
            state.has(other) && other != who && #[trigger] state.writers[other].locks.contains(key);
        assert(state.writer_inv(holder));
        assert(!state.locked_by_other(holder, key));
    }
}

/// One merge that is to be run: how, under which key, and with which
/// request.
pub struct Job {
    pub strategy: Strategy,
    pub key: int,
    pub request: RequestView,
}

impl Job {
    /// The writer that is about to start on the job.
    pub open spec fn writer(self) -> Writer {
        Writer::started(
            OperationView::Merge { strategy: self.strategy, request: self.request },
            self.key,
        )
    }
}

/// The state in which two writers are about to start on `initial`.
pub open spec fn two_writers(initial: Rows, next_id: int, first: Job, second: Job) -> Shared {
    Shared::start(initial, next_id, seq![first.writer(), second.writer()])
}

/// Whether `rows` is what `initial` becomes when the job `first` is run to
/// its end and then the job `second`, and `record` and `later` are the
/// records that the two runs give back.
pub open spec fn in_sequence(
    initial: Rows,
    rows: Rows,
    first: Job,
    record: RecordView,
    second: Job,
    later: RecordView,
) -> bool {
    let between = merge_upsert(initial, first.key, record.id, first.request);
    &&& record == between[first.key]
    &&& rows == merge_upsert(between, second.key, later.id, second.request)
    &&& later == rows[second.key]
}

/// Whether `rows` is what `initial` becomes when the job is run to its end
/// alone, and `record` is the record that the run gives back.
pub open spec fn alone(initial: Rows, rows: Rows, job: Job, record: RecordView) -> bool {
    &&& rows == merge_upsert(initial, job.key, record.id, job.request)
    &&& record == rows[job.key]
}

proof fn lemma_history_of_two(history: Seq<Commit>)
    requires
        forall|n: int| 0 <= n < history.len() ==> 0 <= (#[trigger] history[n]).who < 2,
    ensures
        history.len() == committed_by(history, 0).len() + committed_by(history, 1).len(),
    decreases history.len(),
{
    if history.len() > 0 {
        assert forall|n: int| 0 <= n < history.drop_last().len() implies 0 <= (
        #[trigger] history.drop_last()[n]).who < 2 by {}
        lemma_history_of_two(history.drop_last());
    }
}

/// Two concurrent merges end as if they had been run one after the other.
///
/// Start two writers on `initial` and give them turns in any order, with
/// any actions failing. Once both have finished: where both give a record,
/// the rows and the two records are those of one of the two orders in which
/// the two merges can be run in sequence; where one gives a record and the
/// other an error, they are those of the one merge run alone; where both
/// give an error, the rows are as they were.
pub proof fn lemma_two_writers_are_serialized(
    initial: Rows,
    next_id: int,
    first: Job,
    second: Job,
    schedule: Seq<(int, bool)>,
)
    requires
        keyed(initial),
    ensures
        ({
            let end = two_writers(initial, next_id, first, second).after(schedule);
            match (end.writers[0].engine.phase, end.writers[1].engine.phase) {
                (PhaseView::Done(Ok(record)), PhaseView::Done(Ok(later))) => in_sequence(
                    initial,
                    end.rows,
                    first,
                    record,
                    second,
                    later,
                ) || in_sequence(initial, end.rows, second, later, first, record),
                (PhaseView::Done(Ok(record)), PhaseView::Done(Err(_))) => alone(
                    initial,
                    end.rows,
                    first,
                    record,
                ),
                (PhaseView::Done(Err(_)), PhaseView::Done(Ok(later))) => alone(
                    initial,
                    end.rows,
                    second,
                    later,
                ),
                (PhaseView::Done(Err(_)), PhaseView::Done(Err(_))) => end.rows == initial,
                _ => true,
            }
        }),
{
    let start = two_writers(initial, next_id, first, second);
    let end = start.after(schedule);
    lemma_start_has_inv(start);
    lemma_schedule_keeps_inv(start, initial, schedule);
    assert(end.writer_inv(0));
    assert(end.writer_inv(1));
    let history = end.history;
    assert forall|n: int| 0 <= n < history.len() implies 0 <= (#[trigger] history[n]).who < 2 by {}
    lemma_history_of_two(history);
    if end.writers[0].engine.phase is Done && end.writers[1].engine.phase is Done {
        // each writer has made at most one write visible, so the history
        // holds at most two, and its shape says in which order they came
        reveal_with_fuel(committed_by, 3);
        reveal_with_fuel(replayed, 3);
        reveal_with_fuel(serial, 3);
        if history.len() == 1 {
            let only = history[0];
            assert(only.record == resolve_record(
                lookup(initial, only.key),
                only.key,
                only.record.id,
                only.request,
            ));
        } else if history.len() == 2 {
            let early = history[0];
            let late = history[1];
            let prefix = history.drop_last();
            assert(end.rows == initial.insert(early.key, early.record).insert(
                late.key,
                late.record,
            ));
            assert(early.record == resolve_record(
                lookup(initial, early.key),
                early.key,
                early.record.id,
                early.request,
            ));
            assert(late.record == resolve_record(
                lookup(initial.insert(early.key, early.record), late.key),
                late.key,
                late.record.id,
                late.request,
            ));
            assert(committed_by(prefix, 0) =~= if early.who == 0 {
                seq![early.record]
            } else {
                Seq::<RecordView>::empty()
            });
            assert(committed_by(prefix, 1) =~= if early.who == 1 {
                seq![early.record]
            } else {
                Seq::<RecordView>::empty()
            });
            if early.who == 0 {
                assert(late.who == 1);
                assert(committed_by(history, 0)[0] == early.record);
                assert(committed_by(history, 1)[0] == late.record);
            } else {
                assert(late.who == 0);
                assert(committed_by(history, 1)[0] == early.record);
                assert(committed_by(history, 0)[0] == late.record);
            }
        }
    }
}

/// No update is lost between two concurrent writers of one key: where one
/// sets only the field `one` and the other only the field `two`, and both
/// end with a record, the stored record holds both new values, however
/// their turns were interleaved.
pub proof fn lemma_no_lost_update(
    initial: Rows,
    next_id: int,
    first: Job,
    second: Job,
    schedule: Seq<(int, bool)>,
)
    requires
        keyed(initial),
        first.key == second.key,
        first.request.one is Present,
        first.request.two is Missing,
        second.request.one is Missing,
        second.request.two is Present,
    ensures
        ({
            let end = two_writers(initial, next_id, first, second).after(schedule);
            match (end.writers[0].engine.phase, end.writers[1].engine.phase) {
                (PhaseView::Done(Ok(_)), PhaseView::Done(Ok(_))) => {
                    &&& end.rows.contains_key(first.key)
                    &&& end.rows[first.key].one == Some(first.request.one->Present_0)
                    &&& end.rows[first.key].two == Some(second.request.two->Present_0)
                },
                _ => true,
            }
        }),
{
    let end = two_writers(initial, next_id, first, second).after(schedule);
    lemma_two_writers_are_serialized(initial, next_id, first, second, schedule);
    if end.writers[0].engine.phase is Done && end.writers[1].engine.phase is Done {
        let one = end.writers[0].engine.phase->Done_0;
        let other = end.writers[1].engine.phase->Done_0;
        if one is Ok && other is Ok {
            let record = one->Ok_0;
            let later = other->Ok_0;
            lemma_disjoint_writers_in_sequence(
                initial,
                first.key,
                record.id,
                later.id,
                first.request,
                second.request,
            );
            lemma_disjoint_writers_in_sequence(
                initial,
                first.key,
                later.id,
                record.id,
                first.request,
                second.request,
            );
        }
    }
}

} // verus!

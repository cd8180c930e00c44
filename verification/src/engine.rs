//! The merge-upsert protocol as a state machine.
//!
//! The engine decides; it does not talk to the store. It hands out one
//! [`Action`] at a time, the caller carries it out against the pool and the
//! store and reports what happened as an [`Event`], and the engine answers
//! with the next action, until it hands out [`Action::Finish`].

use crate::error::Error;
use crate::patch::Patch;
use crate::record::{FieldValues, FieldsView, Record, RecordView};
use crate::request::{RequestView, UpdateRequest};
use crate::resolve::{fields_of, resolve, resolve_fields};
use vstd::prelude::*;

verus! {

/// How a merge is made safe against other writers of the same key.
#[derive(Debug, Clone, Copy, PartialEq, Eq, Structural)]
pub enum Strategy {
    /// Read the row under an exclusive lock inside a transaction, merge, and
    /// write the merged row back before the transaction commits.
    PessimisticLock,
    /// Send one statement that inserts the row or, where the key is taken,
    /// updates the columns that the request touches.
    AtomicUpsert,
}

/// What the conditional upsert is told about one column: whether to touch
/// it where the row exists, and the value to store.
///
/// A statement that is given only the value cannot tell a field that is to be
/// cleared from one that is to be left alone, since both arrive as null. The
/// marker carries the difference.
#[derive(Debug, PartialEq, Eq)]
pub struct ColumnWrite {
    pub touch: bool,
    pub value: Option<String>,
}

/// The mathematical value of a [`ColumnWrite`].
pub struct ColumnWriteView {
    pub touch: bool,
    pub value: Option<Seq<char>>,
}

impl View for ColumnWrite {
    type V = ColumnWriteView;

    open spec fn view(&self) -> ColumnWriteView {
        ColumnWriteView { touch: self.touch, value: self.value.deep_view() }
    }
}

/// The column write that stands for a field of a request: a missing field
/// leaves the column alone, the other two touch it.
pub open spec fn column_write_of(patch: Patch<Seq<char>>) -> ColumnWriteView {
    match patch {
        Patch::Present(value) => ColumnWriteView { touch: true, value: Some(value) },
        Patch::ExplicitNull => ColumnWriteView { touch: true, value: None },
        Patch::Missing => ColumnWriteView { touch: false, value: None },
    }
}

/// Builds the column write that stands for a field of a request.
pub fn column_write(patch: &Patch<String>) -> (write: ColumnWrite)
    ensures
        write@ == column_write_of(patch@),
{
    match patch {
        Patch::Present(value) => ColumnWrite { touch: true, value: Some(value.clone()) },
        Patch::ExplicitNull => ColumnWrite { touch: true, value: None },
        Patch::Missing => ColumnWrite { touch: false, value: None },
    }
}

/// What the engine was started for.
#[derive(Debug, PartialEq, Eq)]
pub enum Operation {
    /// Merge a partial update into the record under the key.
    Merge { strategy: Strategy, request: UpdateRequest },
    /// Read the record under the key.
    Fetch,
}

/// The mathematical value of an [`Operation`].
pub enum OperationView {
    Merge { strategy: Strategy, request: RequestView },
    Fetch,
}

impl View for Operation {
    type V = OperationView;

    open spec fn view(&self) -> OperationView {
        match self {
            Operation::Merge { strategy, request } => OperationView::Merge {
                strategy: *strategy,
                request: request@,
            },
            Operation::Fetch => OperationView::Fetch,
        }
    }
}

/// What the caller is to do next.
#[derive(Debug, PartialEq, Eq)]
pub enum Action {
    /// Take a connection from the pool.
    Acquire,
    /// Begin a transaction on the connection.
    Begin,
    /// Read the row under the key and lock it against other writers, if it
    /// exists.
    LockRow { internal_id: i64 },
    /// Read the row under the key.
    Select { internal_id: i64 },
    /// Set the updatable columns of the row under the key.
    Update { internal_id: i64, fields: FieldValues },
    /// Insert a row with the key and the updatable columns given.
    Insert { internal_id: i64, fields: FieldValues },
    /// Insert a row with the key and the values given or, where the key is
    /// taken, set each column that is marked to its value and leave the
    /// others alone; as one statement.
    Upsert { internal_id: i64, one: ColumnWrite, two: ColumnWrite },
    /// Commit the transaction.
    Commit,
    /// Roll the transaction back.
    Rollback,
    /// Give the connection back to the pool.
    Release,
    /// Nothing is left to do: hand the outcome to whoever sent the request.
    Finish(Result<Record, Error>),
}

/// The mathematical value of an [`Action`].
pub enum ActionView {
    Acquire,
    Begin,
    LockRow { internal_id: int },
    Select { internal_id: int },
    Update { internal_id: int, fields: FieldsView },
    Insert { internal_id: int, fields: FieldsView },
    Upsert { internal_id: int, one: ColumnWriteView, two: ColumnWriteView },
    Commit,
    Rollback,
    Release,
    Finish(Result<RecordView, Error>),
}

/// The mathematical value of an outcome.
pub open spec fn outcome_view(outcome: Result<Record, Error>) -> Result<RecordView, Error> {
    match outcome {
        Ok(record) => Ok(record@),
        Err(error) => Err(error),
    }
}

impl View for Action {
    type V = ActionView;

    open spec fn view(&self) -> ActionView {
        match self {
            Action::Acquire => ActionView::Acquire,
            Action::Begin => ActionView::Begin,
            Action::LockRow { internal_id } => ActionView::LockRow {
                internal_id: *internal_id as int,
            },
            Action::Select { internal_id } => ActionView::Select {
                internal_id: *internal_id as int,
            },
            Action::Update { internal_id, fields } => ActionView::Update {
                internal_id: *internal_id as int,
                fields: fields@,
            },
            Action::Insert { internal_id, fields } => ActionView::Insert {
                internal_id: *internal_id as int,
                fields: fields@,
            },
            Action::Upsert { internal_id, one, two } => ActionView::Upsert {
                internal_id: *internal_id as int,
                one: one@,
                two: two@,
            },
            Action::Commit => ActionView::Commit,
            Action::Rollback => ActionView::Rollback,
            Action::Release => ActionView::Release,
            Action::Finish(outcome) => ActionView::Finish(outcome_view(*outcome)),
        }
    }
}

/// What happened when the caller carried out the last action.
#[derive(Debug, PartialEq, Eq)]
pub enum Event {
    /// The pool gave a connection.
    Acquired,
    /// The transaction has begun.
    Begun,
    /// The read is done: the row under the key, or `None` where there is none.
    Row(Option<Record>),
    /// The update is done.
    Updated,
    /// The insert is done, and the store gave the new row this identity.
    Inserted { id: i64 },
    /// The upsert is done, and this is the row as it is stored now.
    Upserted(Record),
    /// The transaction is committed.
    Committed,
    /// The transaction is rolled back.
    RolledBack,
    /// The connection is back in the pool.
    Released,
    /// The action failed.
    Failed,
}

/// The mathematical value of an [`Event`].
pub enum EventView {
    Acquired,
    Begun,
    Row(Option<RecordView>),
    Updated,
    Inserted { id: int },
    Upserted(RecordView),
    Committed,
    RolledBack,
    Released,
    Failed,
}

impl View for Event {
    type V = EventView;

    open spec fn view(&self) -> EventView {
        match self {
            Event::Acquired => EventView::Acquired,
            Event::Begun => EventView::Begun,
            Event::Row(row) => EventView::Row(row_view(*row)),
            Event::Updated => EventView::Updated,
            Event::Inserted { id } => EventView::Inserted { id: *id as int },
            Event::Upserted(record) => EventView::Upserted(record@),
            Event::Committed => EventView::Committed,
            Event::RolledBack => EventView::RolledBack,
            Event::Released => EventView::Released,
            Event::Failed => EventView::Failed,
        }
    }
}

/// Where the engine stands: the answer it is waiting for.
#[derive(Debug, PartialEq, Eq)]
pub enum Phase {
    /// Waiting for a connection.
    AwaitingConnection,
    /// Waiting for the transaction to begin.
    AwaitingTransaction,
    /// Waiting for the locked row.
    AwaitingRow,
    /// Waiting for the update of the row; the record is what the row will
    /// hold.
    AwaitingUpdate(Record),
    /// Waiting for the insert of the row with these fields.
    AwaitingInsert(FieldValues),
    /// Waiting for the commit; the record is what has been written.
    AwaitingCommit(Record),
    /// Waiting for the upsert.
    AwaitingUpsert,
    /// Waiting for the row that is being read.
    AwaitingSelect,
    /// Waiting for the rollback after a failure.
    RollingBack,
    /// Waiting for the connection to be given back; the outcome is settled.
    Releasing(Result<Record, Error>),
    /// Finished with this outcome.
    Done(Result<Record, Error>),
}

/// The mathematical value of a [`Phase`].
pub enum PhaseView {
    AwaitingConnection,
    AwaitingTransaction,
    AwaitingRow,
    AwaitingUpdate(RecordView),
    AwaitingInsert(FieldsView),
    AwaitingCommit(RecordView),
    AwaitingUpsert,
    AwaitingSelect,
    RollingBack,
    Releasing(Result<RecordView, Error>),
    Done(Result<RecordView, Error>),
}

impl View for Phase {
    type V = PhaseView;

    open spec fn view(&self) -> PhaseView {
        match self {
            Phase::AwaitingConnection => PhaseView::AwaitingConnection,
            Phase::AwaitingTransaction => PhaseView::AwaitingTransaction,
            Phase::AwaitingRow => PhaseView::AwaitingRow,
            Phase::AwaitingUpdate(record) => PhaseView::AwaitingUpdate(record@),
            Phase::AwaitingInsert(fields) => PhaseView::AwaitingInsert(fields@),
            Phase::AwaitingCommit(record) => PhaseView::AwaitingCommit(record@),
            Phase::AwaitingUpsert => PhaseView::AwaitingUpsert,
            Phase::AwaitingSelect => PhaseView::AwaitingSelect,
            Phase::RollingBack => PhaseView::RollingBack,
            Phase::Releasing(outcome) => PhaseView::Releasing(outcome_view(*outcome)),
            Phase::Done(outcome) => PhaseView::Done(outcome_view(*outcome)),
        }
    }
}

/// One run of the protocol for one request.
#[derive(Debug, PartialEq, Eq)]
pub struct UpsertEngine {
    operation: Operation,
    internal_id: i64,
    phase: Phase,
}

/// The mathematical value of an [`UpsertEngine`].
pub struct EngineView {
    pub operation: OperationView,
    pub internal_id: int,
    pub phase: PhaseView,
}

impl View for UpsertEngine {
    type V = EngineView;

    closed spec fn view(&self) -> EngineView {
        EngineView {
            operation: self.operation@,
            internal_id: self.internal_id as int,
            phase: self.phase@,
        }
    }
}

/// The phase and the action once the outcome is settled and only the
/// connection is left to give back.
pub open spec fn release_with(outcome: Result<RecordView, Error>) -> (PhaseView, ActionView) {
    (PhaseView::Releasing(outcome), ActionView::Release)
}

/// The phase and the action after a failure with the connection in hand and
/// no transaction open.
pub open spec fn give_up() -> (PhaseView, ActionView) {
    release_with(Err(Error::StorageUnavailable))
}

/// The phase and the action after a failure inside a transaction.
pub open spec fn roll_back() -> (PhaseView, ActionView) {
    (PhaseView::RollingBack, ActionView::Rollback)
}

/// What the engine does once it holds a connection.
pub open spec fn on_connection(operation: OperationView, internal_id: int) -> (
    PhaseView,
    ActionView,
) {
    match operation {
        OperationView::Merge { strategy: Strategy::PessimisticLock, .. } => (
            PhaseView::AwaitingTransaction,
            ActionView::Begin,
        ),
        OperationView::Merge { strategy: Strategy::AtomicUpsert, request } => (
            PhaseView::AwaitingUpsert,
            ActionView::Upsert {
                internal_id,
                one: column_write_of(request.one),
                two: column_write_of(request.two),
            },
        ),
        OperationView::Fetch => (PhaseView::AwaitingSelect, ActionView::Select { internal_id }),
    }
}

/// What the engine does once it holds the locked row, or knows that there is
/// none: it merges the request with the row and writes the result, as an
/// update of the row or as a new row.
pub open spec fn on_row(operation: OperationView, internal_id: int, existing: Option<RecordView>) -> (
    PhaseView,
    ActionView,
) {
    match operation {
        OperationView::Merge { request, .. } => {
            let fields = resolve_fields(fields_of(existing), request);
            match existing {
                Some(row) => (
                    PhaseView::AwaitingUpdate(RecordView::assemble(row.id, internal_id, fields)),
                    ActionView::Update { internal_id, fields },
                ),
                None => (
                    PhaseView::AwaitingInsert(fields),
                    ActionView::Insert { internal_id, fields },
                ),
            }
        },
        OperationView::Fetch => roll_back(),
    }
}

/// The mathematical value of a row that may not exist.
pub open spec fn row_view(row: Option<Record>) -> Option<RecordView> {
    match row {
        Some(record) => Some(record@),
        None => None,
    }
}

/// How many answers the engine takes at most before it is done.
pub open spec fn steps_left(phase: PhaseView) -> nat {
    match phase {
        PhaseView::AwaitingConnection => 6,
        PhaseView::AwaitingTransaction => 5,
        PhaseView::AwaitingRow => 4,
        PhaseView::AwaitingUpdate(_) => 3,
        PhaseView::AwaitingInsert(_) => 3,
        PhaseView::AwaitingCommit(_) => 2,
        PhaseView::AwaitingUpsert => 2,
        PhaseView::AwaitingSelect => 2,
        PhaseView::RollingBack => 2,
        PhaseView::Releasing(_) => 1,
        PhaseView::Done(_) => 0,
    }
}

/// Whether the engine holds a connection in this phase.
pub open spec fn holds_connection(phase: PhaseView) -> bool {
    match phase {
        PhaseView::AwaitingConnection => false,
        PhaseView::Releasing(_) => false,
        PhaseView::Done(_) => false,
        _ => true,
    }
}

/// Whether the engine has a transaction open in this phase that it has not
/// yet asked to end.
pub open spec fn holds_transaction(phase: PhaseView) -> bool {
    match phase {
        PhaseView::AwaitingRow => true,
        PhaseView::AwaitingUpdate(_) => true,
        PhaseView::AwaitingInsert(_) => true,
        _ => false,
    }
}

/// Whether `outcome` is one that `operation` can end with: a record, a
/// storage failure, or, for a read, that nothing was found.
pub open spec fn possible_outcome(operation: OperationView, outcome: Result<RecordView, Error>) -> bool {
    match outcome {
        Ok(_) => true,
        Err(Error::StorageUnavailable) => true,
        Err(Error::NotFound) => operation is Fetch,
        Err(_) => false,
    }
}

impl EngineView {
    /// The engine in another phase.
    pub open spec fn at(self, phase: PhaseView) -> EngineView {
        EngineView { phase, ..self }
    }

    /// The engine as it is started: it waits for a connection.
    pub open spec fn started(operation: OperationView, internal_id: int) -> EngineView {
        EngineView { operation, internal_id, phase: PhaseView::AwaitingConnection }
    }

    /// Whether the phase fits the operation: the engine is in a phase that
    /// a run of its operation passes through, with a planned record under
    /// its own key and an outcome that the operation can end with.
    pub open spec fn consistent(self) -> bool {
        match self.phase {
            PhaseView::AwaitingConnection => true,
            PhaseView::AwaitingTransaction => self.locks(),
            PhaseView::AwaitingRow => self.locks(),
            PhaseView::AwaitingUpdate(record) => self.locks() && record.internal_id
                == self.internal_id,
            PhaseView::AwaitingInsert(_) => self.locks(),
            PhaseView::AwaitingCommit(record) => self.locks() && record.internal_id
                == self.internal_id,
            PhaseView::RollingBack => self.locks(),
            PhaseView::AwaitingUpsert => self.operation matches OperationView::Merge {
                strategy: Strategy::AtomicUpsert,
                ..
            },
            PhaseView::AwaitingSelect => self.operation is Fetch,
            PhaseView::Releasing(outcome) => possible_outcome(self.operation, outcome),
            PhaseView::Done(outcome) => possible_outcome(self.operation, outcome),
        }
    }

    /// Whether the engine merges under a row lock.
    pub open spec fn locks(self) -> bool {
        self.operation matches OperationView::Merge { strategy: Strategy::PessimisticLock, .. }
    }

    /// The phase that the engine enters on `event`, and the action that it
    /// hands out.
    ///
    /// In each phase one kind of event is the answer that the engine waits
    /// for. Any other event, [`EventView::Failed`] first of all, is a
    /// failure: the engine rolls back where a transaction is open, gives
    /// the connection back where it holds one, and finishes with
    /// [`Error::StorageUnavailable`].
    pub open spec fn decide(self, event: EventView) -> (PhaseView, ActionView) {
        match self.phase {
            PhaseView::AwaitingConnection => match event {
                EventView::Acquired => on_connection(self.operation, self.internal_id),
                _ => (
                    PhaseView::Done(Err(Error::StorageUnavailable)),
                    ActionView::Finish(Err(Error::StorageUnavailable)),
                ),
            },
            PhaseView::AwaitingTransaction => match event {
                EventView::Begun => (
                    PhaseView::AwaitingRow,
                    ActionView::LockRow { internal_id: self.internal_id },
                ),
                _ => give_up(),
            },
            PhaseView::AwaitingRow => match event {
                EventView::Row(existing) => on_row(self.operation, self.internal_id, existing),
                _ => roll_back(),
            },
            PhaseView::AwaitingUpdate(record) => match event {
                EventView::Updated => (PhaseView::AwaitingCommit(record), ActionView::Commit),
                _ => roll_back(),
            },
            PhaseView::AwaitingInsert(fields) => match event {
                EventView::Inserted { id } => (
                    PhaseView::AwaitingCommit(RecordView::assemble(id, self.internal_id, fields)),
                    ActionView::Commit,
                ),
                _ => roll_back(),
            },
            PhaseView::AwaitingCommit(record) => match event {
                EventView::Committed => release_with(Ok(record)),
                _ => give_up(),
            },
            PhaseView::AwaitingUpsert => match event {
                EventView::Upserted(record) => release_with(Ok(record)),
                _ => give_up(),
            },
            PhaseView::AwaitingSelect => match event {
                EventView::Row(Some(record)) => release_with(Ok(record)),
                EventView::Row(None) => release_with(Err(Error::NotFound)),
                _ => give_up(),
            },
            PhaseView::RollingBack => give_up(),
            PhaseView::Releasing(outcome) => (PhaseView::Done(outcome), ActionView::Finish(outcome)),
            PhaseView::Done(outcome) => (PhaseView::Done(outcome), ActionView::Finish(outcome)),
        }
    }

    /// The engine and its action after `event`: the operation and the key
    /// stay, the phase moves on as [`Self::decide`] says.
    pub open spec fn transition(self, event: EventView) -> (EngineView, ActionView) {
        let (phase, action) = self.decide(event);
        (self.at(phase), action)
    }
}

/// An engine that has just been started is consistent, and stays so
/// whatever the answers are.
pub proof fn lemma_engine_stays_consistent(engine: EngineView, event: EventView)
    ensures
        EngineView::started(engine.operation, engine.internal_id).consistent(),
        engine.consistent() ==> engine.transition(event).0.consistent(),
{
}

/// Each answer brings the engine nearer to its end: an engine that is not
/// done is done after at most [`steps_left`] answers, whatever they are.
pub proof fn lemma_engine_terminates(engine: EngineView, event: EventView)
    requires
        !(engine.phase is Done),
    ensures
        steps_left(engine.transition(event).0.phase) < steps_left(engine.phase),
        engine.transition(event).0.operation == engine.operation,
        engine.transition(event).0.internal_id == engine.internal_id,
{
}

/// The connection goes back to the pool on every path: the engine finishes
/// only when it holds none, and while it holds one every answer either
/// leaves it holding the connection or makes it give the connection back.
pub proof fn lemma_connection_is_given_back(engine: EngineView, event: EventView)
    ensures
        ({
            let (next, action) = engine.transition(event);
            &&& action is Finish ==> !holds_connection(engine.phase)
            &&& holds_connection(engine.phase) ==> holds_connection(next.phase) || (action
                is Release && next.phase is Releasing)
            &&& action is Release ==> holds_connection(engine.phase)
            &&& !(action is Acquire)
        }),
{
}

/// A transaction is ended before the connection goes back: with a
/// transaction open the engine asks only for work inside it, for its commit
/// or for its rollback, and a failure inside it is answered by a rollback.
pub proof fn lemma_transaction_is_ended(engine: EngineView, event: EventView)
    ensures
        ({
            let (next, action) = engine.transition(event);
            &&& holds_transaction(engine.phase) ==> holds_transaction(next.phase) || action
                is Commit || action is Rollback
            &&& holds_transaction(engine.phase) && event is Failed ==> action is Rollback
            &&& action is Release || action is Finish ==> !holds_transaction(engine.phase)
            &&& action is Commit ==> (engine.phase is AwaitingUpdate && event is Updated) || (
            engine.phase is AwaitingInsert && event is Inserted)
        }),
{
}

/// A failure never ends in a record: once an action has failed, the engine
/// hands out no write and no commit any more, and its outcome is
/// [`Error::StorageUnavailable`].
pub proof fn lemma_failure_is_final(engine: EngineView)
    requires
        !(engine.phase is Releasing),
        !(engine.phase is Done),
    ensures
        ({
            let (next, action) = engine.transition(EventView::Failed);
            let (last, then) = next.transition(EventView::Failed);
            let (end, finish) = last.transition(EventView::Failed);
            &&& action is Rollback || action is Release || action is Finish
            &&& then is Release || then is Finish
            &&& finish == ActionView::Finish(Err(Error::StorageUnavailable))
        }),
{
}

/// A copy of an outcome.
fn copy_outcome(outcome: &Result<Record, Error>) -> (copy: Result<Record, Error>)
    ensures
        copy == *outcome,
{
    match outcome {
        Ok(record) => Ok(record.clone()),
        Err(error) => Err(*error),
    }
}

impl UpsertEngine {
    #[verifier::type_invariant]
    spec fn is_consistent(self) -> bool {
        self@.consistent()
    }

    /// Starts the merge of `request` into the record under `internal_id`.
    ///
    /// A request without a key is turned down with [`Error::KeyRequired`].
    /// Otherwise the engine is returned together with its first action,
    /// which is to take a connection.
    pub fn merge(strategy: Strategy, internal_id: Option<i64>, request: UpdateRequest) -> (started:
        Result<(UpsertEngine, Action), Error>)
        ensures
            internal_id is None ==> started == Err::<(UpsertEngine, Action), Error>(
                Error::KeyRequired,
            ),
            internal_id matches Some(key) ==> started is Ok && started->Ok_0.0@
                == EngineView::started(
                OperationView::Merge { strategy, request: request@ },
                key as int,
            ) && started->Ok_0.1 == Action::Acquire,
    {
        match internal_id {
            None => Err(Error::KeyRequired),
            Some(key) => Ok(
                (
                    UpsertEngine {
                        operation: Operation::Merge { strategy, request },
                        internal_id: key,
                        phase: Phase::AwaitingConnection,
                    },
                    Action::Acquire,
                ),
            ),
        }
    }

    /// Starts the read of the record under `internal_id`.
    ///
    /// A read without a key is turned down with [`Error::KeyRequired`].
    /// Otherwise the engine is returned together with its first action,
    /// which is to take a connection.
    pub fn fetch(internal_id: Option<i64>) -> (started: Result<(UpsertEngine, Action), Error>)
        ensures
            internal_id is None ==> started == Err::<(UpsertEngine, Action), Error>(
                Error::KeyRequired,
            ),
            internal_id matches Some(key) ==> started is Ok && started->Ok_0.0@
                == EngineView::started(OperationView::Fetch, key as int) && started->Ok_0.1
                == Action::Acquire,
    {
        match internal_id {
            None => Err(Error::KeyRequired),
            Some(key) => Ok(
                (
                    UpsertEngine {
                        operation: Operation::Fetch,
                        internal_id: key,
                        phase: Phase::AwaitingConnection,
                    },
                    Action::Acquire,
                ),
            ),
        }
    }

    /// The key of the record that the engine works on.
    pub fn internal_id(&self) -> (key: i64)
        ensures
            key as int == self@.internal_id,
    {
        self.internal_id
    }

    /// How many answers the engine takes at most before it is done.
    pub fn steps_left(&self) -> (left: u8)
        ensures
            left as nat == steps_left(self@.phase),
    {
        match &self.phase {
            Phase::AwaitingConnection => 6,
            Phase::AwaitingTransaction => 5,
            Phase::AwaitingRow => 4,
            Phase::AwaitingUpdate(_) => 3,
            Phase::AwaitingInsert(_) => 3,
            Phase::AwaitingCommit(_) => 2,
            Phase::AwaitingUpsert => 2,
            Phase::AwaitingSelect => 2,
            Phase::RollingBack => 2,
            Phase::Releasing(_) => 1,
            Phase::Done(_) => 0,
        }
    }

    /// Whether the engine has handed out its outcome.
    pub fn is_done(&self) -> (done: bool)
        ensures
            done == (self@.phase is Done),
    {
        match &self.phase {
            Phase::Done(_) => true,
            _ => false,
        }
    }

    fn on_connection(operation: &Operation, key: i64) -> (next: (Phase, Action))
        ensures
            (next.0@, next.1@) == on_connection(operation@, key as int),
    {
        match operation {
            Operation::Merge { strategy: Strategy::PessimisticLock, .. } => (
                Phase::AwaitingTransaction,
                Action::Begin,
            ),
            Operation::Merge { strategy: Strategy::AtomicUpsert, request } => {
                let one = column_write(request.one());
                let two = column_write(request.two());
                (Phase::AwaitingUpsert, Action::Upsert { internal_id: key, one, two })
            },
            Operation::Fetch => (Phase::AwaitingSelect, Action::Select { internal_id: key }),
        }
    }

    fn on_row(operation: &Operation, key: i64, existing: Option<Record>) -> (next: (
        Phase,
        Action,
    ))
        ensures
            (next.0@, next.1@) == on_row(operation@, key as int, row_view(existing)),
    {
        match operation {
            Operation::Merge { request, .. } => match existing {
                Some(row) => {
                    let fields = resolve(Some(&row), request);
                    let planned = Record::assemble(row.id, key, fields.clone());
                    (Phase::AwaitingUpdate(planned), Action::Update { internal_id: key, fields })
                },
                None => {
                    let fields = resolve(None, request);
                    let planned = fields.clone();
                    (Phase::AwaitingInsert(planned), Action::Insert { internal_id: key, fields })
                },
            },
            Operation::Fetch => (Phase::RollingBack, Action::Rollback),
        }
    }

    fn decide(operation: &Operation, key: i64, phase: Phase, event: Event) -> (next: (
        Phase,
        Action,
    ))
        ensures
            (next.0@, next.1@) == (EngineView {
                operation: operation@,
                internal_id: key as int,
                phase: phase@,
            }).decide(event@),
    {
        let failed: Result<Record, Error> = Err(Error::StorageUnavailable);
        match phase {
            Phase::AwaitingConnection => match event {
                Event::Acquired => Self::on_connection(operation, key),
                _ => (Phase::Done(Err(Error::StorageUnavailable)), Action::Finish(failed)),
            },
            Phase::AwaitingTransaction => match event {
                Event::Begun => (
                    Phase::AwaitingRow,
                    Action::LockRow { internal_id: key },
                ),
                _ => (Phase::Releasing(failed), Action::Release),
            },
            Phase::AwaitingRow => match event {
                Event::Row(existing) => Self::on_row(operation, key, existing),
                _ => (Phase::RollingBack, Action::Rollback),
            },
            Phase::AwaitingUpdate(record) => match event {
                Event::Updated => (Phase::AwaitingCommit(record), Action::Commit),
                _ => (Phase::RollingBack, Action::Rollback),
            },
            Phase::AwaitingInsert(fields) => match event {
                Event::Inserted { id } => (
                    Phase::AwaitingCommit(Record::assemble(id, key, fields)),
                    Action::Commit,
                ),
                _ => (Phase::RollingBack, Action::Rollback),
            },
            Phase::AwaitingCommit(record) => match event {
                Event::Committed => (Phase::Releasing(Ok(record)), Action::Release),
                _ => (Phase::Releasing(failed), Action::Release),
            },
            Phase::AwaitingUpsert => match event {
                Event::Upserted(record) => (Phase::Releasing(Ok(record)), Action::Release),
                _ => (Phase::Releasing(failed), Action::Release),
            },
            Phase::AwaitingSelect => match event {
                Event::Row(Some(record)) => (Phase::Releasing(Ok(record)), Action::Release),
                Event::Row(None) => (Phase::Releasing(Err(Error::NotFound)), Action::Release),
                _ => (Phase::Releasing(failed), Action::Release),
            },
            Phase::RollingBack => (Phase::Releasing(failed), Action::Release),
            Phase::Releasing(outcome) => {
                let copy = copy_outcome(&outcome);
                (Phase::Done(outcome), Action::Finish(copy))
            },
            Phase::Done(outcome) => {
                let copy = copy_outcome(&outcome);
                (Phase::Done(outcome), Action::Finish(copy))
            },
        }
    }

    /// Takes what happened when the last action was carried out, and gives
    /// the engine as it stands then together with the next action.
    pub fn step(self, event: Event) -> (next: (UpsertEngine, Action))
        ensures
            (next.0@, next.1@) == self@.transition(event@),
            self@.consistent(),
            next.0@.consistent(),
    {
        proof {
            use_type_invariant(&self);
            lemma_engine_stays_consistent(self@, event@);
        }
        let UpsertEngine { operation, internal_id, phase } = self;
        let (phase, action) = Self::decide(&operation, internal_id, phase, event);
        (UpsertEngine { operation, internal_id, phase }, action)
    }
}

} // verus!

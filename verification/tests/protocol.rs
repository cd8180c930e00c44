use merge_upsert::engine::{column_write, Action, ColumnWrite, Event, Strategy, UpsertEngine};
use merge_upsert::error::Error;
use merge_upsert::patch::Patch;
use merge_upsert::record::{FieldValues, Record};
use merge_upsert::request::UpdateRequest;
use merge_upsert::wire::{Payload, WireValue};
use std::collections::BTreeMap;

/// A table in memory that answers the engine's actions as a store would.
struct Table {
    rows: BTreeMap<i64, Record>,
    staged: Option<BTreeMap<i64, Record>>,
    next_id: i64,
    lent: usize,
    answered: usize,
    fail_at: Option<usize>,
    trace: Vec<String>,
}

impl Table {
    fn new() -> Table {
        Table {
            rows: BTreeMap::new(),
            staged: None,
            next_id: 100,
            lent: 0,
            answered: 0,
            fail_at: None,
            trace: Vec::new(),
        }
    }

    fn working(&mut self) -> &mut BTreeMap<i64, Record> {
        match &mut self.staged {
            Some(rows) => rows,
            None => &mut self.rows,
        }
    }

    fn name(action: &Action) -> &'static str {
        match action {
            Action::Acquire => "acquire",
            Action::Begin => "begin",
            Action::LockRow { .. } => "lock",
            Action::Select { .. } => "select",
            Action::Update { .. } => "update",
            Action::Insert { .. } => "insert",
            Action::Upsert { .. } => "upsert",
            Action::Commit => "commit",
            Action::Rollback => "rollback",
            Action::Release => "release",
            Action::Finish(_) => "finish",
        }
    }

    fn written(write: &ColumnWrite, held: Option<&Option<String>>) -> Option<String> {
        match held {
            Some(value) if !write.touch => value.clone(),
            _ => write.value.clone(),
        }
    }

    fn answer(&mut self, action: &Action) -> Event {
        self.trace.push(Table::name(action).to_string());
        let fails = self.fail_at == Some(self.answered);
        self.answered += 1;
        if fails {
            match action {
                Action::Commit | Action::Rollback => {
                    self.staged = None;
                    return Event::Failed;
                }
                Action::Release => {}
                _ => return Event::Failed,
            }
        }
        match action {
            Action::Acquire => {
                self.lent += 1;
                Event::Acquired
            }
            Action::Begin => {
                self.staged = Some(self.rows.clone());
                Event::Begun
            }
            Action::LockRow { internal_id } | Action::Select { internal_id } => {
                Event::Row(self.working().get(internal_id).cloned())
            }
            Action::Update { internal_id, fields } => {
                if let Some(row) = self.working().get_mut(internal_id) {
                    row.one = fields.one.clone();
                    row.two = fields.two.clone();
                }
                Event::Updated
            }
            Action::Insert { internal_id, fields } => {
                if self.working().contains_key(internal_id) {
                    return Event::Failed;
                }
                let id = self.next_id;
                self.next_id += 1;
                let row = Record::assemble(id, *internal_id, fields.clone());
                self.working().insert(*internal_id, row);
                Event::Inserted { id }
            }
            Action::Upsert { internal_id, one, two } => {
                let held = self.working().get(internal_id).cloned();
                let row = match held {
                    Some(row) => Record {
                        id: row.id,
                        internal_id: row.internal_id,
                        one: Table::written(one, Some(&row.one)),
                        two: Table::written(two, Some(&row.two)),
                    },
                    None => {
                        let id = self.next_id;
                        self.next_id += 1;
                        Record {
                            id,
                            internal_id: *internal_id,
                            one: Table::written(one, None),
                            two: Table::written(two, None),
                        }
                    }
                };
                self.working().insert(*internal_id, row.clone());
                Event::Upserted(row)
            }
            Action::Commit => {
                if let Some(rows) = self.staged.take() {
                    self.rows = rows;
                }
                Event::Committed
            }
            Action::Rollback => {
                self.staged = None;
                Event::RolledBack
            }
            Action::Release => {
                self.lent -= 1;
                self.staged = None;
                Event::Released
            }
            Action::Finish(_) => unreachable!(),
        }
    }

    fn run(&mut self, started: Result<(UpsertEngine, Action), Error>) -> Result<Record, Error> {
        self.answered = 0;
        self.trace.clear();
        let (mut engine, mut action) = started?;
        for _ in 0..16 {
            if let Action::Finish(outcome) = action {
                assert!(engine.is_done());
                return outcome;
            }
            assert!(!engine.is_done());
            let event = self.answer(&action);
            let next = engine.step(event);
            engine = next.0;
            action = next.1;
        }
        panic!("the engine did not finish");
    }

    fn merge(
        &mut self,
        strategy: Strategy,
        internal_id: i64,
        request: UpdateRequest,
    ) -> Result<Record, Error> {
        self.run(UpsertEngine::merge(strategy, Some(internal_id), request))
    }

    fn fetch(&mut self, internal_id: i64) -> Result<Record, Error> {
        self.run(UpsertEngine::fetch(Some(internal_id)))
    }
}

fn set(value: &str) -> Patch<String> {
    Patch::Present(value.to_string())
}

fn text(value: &str) -> WireValue {
    WireValue::Text(value.to_string())
}

fn decoded(entries: Vec<(&str, WireValue)>) -> UpdateRequest {
    let mut payload = Payload::new();
    for (key, value) in entries {
        payload.insert(key.to_string(), value);
    }
    UpdateRequest::decode(&payload).unwrap()
}

fn both_strategies() -> [Strategy; 2] {
    [Strategy::PessimisticLock, Strategy::AtomicUpsert]
}

fn scenario(strategy: Strategy) {
    let mut table = Table::new();
    let internal_id = 1;

    // initial insert
    let payload = decoded(vec![("one", text("1")), ("two", text("1"))]);
    table.merge(strategy, internal_id, payload).unwrap();

    let user = table.fetch(internal_id).unwrap();
    assert_eq!(user.internal_id, 1);
    assert_eq!(user.one.as_deref(), Some("1"));
    assert_eq!(user.two.as_deref(), Some("1"));

    // updating both
    let payload = decoded(vec![("one", text("2")), ("two", text("2"))]);
    table.merge(strategy, internal_id, payload).unwrap();

    let user = table.fetch(internal_id).unwrap();
    assert_eq!(user.internal_id, 1);
    assert_eq!(user.one.as_deref(), Some("2"));
    assert_eq!(user.two.as_deref(), Some("2"));

    // updating one
    let payload = decoded(vec![("one", text("3"))]);
    table.merge(strategy, internal_id, payload).unwrap();

    let user = table.fetch(internal_id).unwrap();
    assert_eq!(user.one.as_deref(), Some("3"));
    assert_eq!(user.two.as_deref(), Some("2"));

    // updating the other
    let payload = decoded(vec![("two", text("3"))]);
    table.merge(strategy, internal_id, payload).unwrap();

    let user = table.fetch(internal_id).unwrap();
    assert_eq!(user.one.as_deref(), Some("3"));
    assert_eq!(user.two.as_deref(), Some("3"));

    // updating neither
    let payload = decoded(vec![]);
    table.merge(strategy, internal_id, payload).unwrap();

    let user = table.fetch(internal_id).unwrap();
    assert_eq!(user.one.as_deref(), Some("3"));
    assert_eq!(user.two.as_deref(), Some("3"));

    // setting one to `null`
    let payload = decoded(vec![("one", WireValue::Null)]);
    table.merge(strategy, internal_id, payload).unwrap();

    let user = table.fetch(internal_id).unwrap();
    assert_eq!(user.one.as_deref(), None, "one == null");
    assert_eq!(user.two.as_deref(), Some("3"));

    // change one, set two to null
    let payload = decoded(vec![("one", text("1")), ("two", WireValue::Null)]);
    table.merge(strategy, internal_id, payload).unwrap();

    let user = table.fetch(internal_id).unwrap();
    assert_eq!(user.one.as_deref(), Some("1"));
    assert_eq!(user.two.as_deref(), None);
}

#[test]
fn works() {
    scenario(Strategy::PessimisticLock);
}

#[test]
fn works_with_atomic_upsert() {
    scenario(Strategy::AtomicUpsert);
}

#[test]
fn end_to_end() {
    for strategy in both_strategies() {
        let mut table = Table::new();
        let key = 42;

        let created = table
            .merge(strategy, key, decoded(vec![("one", text("1")), ("two", text("1"))]))
            .unwrap();
        assert_eq!(created.internal_id, key);
        let fetched = table.fetch(key).unwrap();
        assert_eq!((fetched.one.as_deref(), fetched.two.as_deref()), (Some("1"), Some("1")));
        assert_eq!(fetched, created);

        table.merge(strategy, key, decoded(vec![("one", text("3"))])).unwrap();
        let fetched = table.fetch(key).unwrap();
        assert_eq!((fetched.one.as_deref(), fetched.two.as_deref()), (Some("3"), Some("1")));

        table.merge(strategy, key, decoded(vec![("one", WireValue::Null)])).unwrap();
        let fetched = table.fetch(key).unwrap();
        assert_eq!((fetched.one.as_deref(), fetched.two.as_deref()), (None, Some("1")));

        table.merge(strategy, key, decoded(vec![])).unwrap();
        let fetched = table.fetch(key).unwrap();
        assert_eq!((fetched.one.as_deref(), fetched.two.as_deref()), (None, Some("1")));
        assert_eq!(fetched.id, created.id);
    }
}

#[test]
fn merge_returns_the_persisted_record() {
    for strategy in both_strategies() {
        let mut table = Table::new();
        let created = table
            .merge(strategy, 5, UpdateRequest::new(set("a"), Patch::Missing))
            .unwrap();
        assert_eq!(
            created,
            Record { id: 100, internal_id: 5, one: Some("a".to_string()), two: None }
        );
        assert_eq!(table.rows.get(&5), Some(&created));
        let updated = table
            .merge(strategy, 5, UpdateRequest::new(Patch::Missing, set("b")))
            .unwrap();
        assert_eq!(
            updated,
            Record {
                id: 100,
                internal_id: 5,
                one: Some("a".to_string()),
                two: Some("b".to_string()),
            }
        );
        assert_eq!(table.rows.get(&5), Some(&updated));
        assert_eq!(table.lent, 0);
    }
}

#[test]
fn replay_converges() {
    for strategy in both_strategies() {
        let mut table = Table::new();
        table.merge(strategy, 1, UpdateRequest::new(set("old"), set("kept"))).unwrap();
        let request = UpdateRequest::new(set("new"), Patch::Missing);
        let once = table.merge(strategy, 1, request.clone()).unwrap();
        let twice = table.merge(strategy, 1, request).unwrap();
        assert_eq!(twice, once);
        assert_eq!(table.fetch(1), Ok(once));
        assert_eq!(table.rows.len(), 1);
    }
}

#[test]
fn replay_of_a_creating_request_converges() {
    for strategy in both_strategies() {
        let mut table = Table::new();
        let request = UpdateRequest::new(Patch::ExplicitNull, set("b"));
        let once = table.merge(strategy, 9, request.clone()).unwrap();
        let twice = table.merge(strategy, 9, request).unwrap();
        assert_eq!(twice, once);
        assert_eq!(once.one, None);
    }
}

#[test]
fn writers_of_different_fields_in_either_order() {
    for strategy in both_strategies() {
        for one_first in [true, false] {
            let mut table = Table::new();
            table.merge(strategy, 1, UpdateRequest::new(set("x"), set("y"))).unwrap();
            let first = UpdateRequest::new(set("a"), Patch::Missing);
            let second = UpdateRequest::new(Patch::Missing, set("b"));
            if one_first {
                table.merge(strategy, 1, first).unwrap();
                table.merge(strategy, 1, second).unwrap();
            } else {
                table.merge(strategy, 1, second).unwrap();
                table.merge(strategy, 1, first).unwrap();
            }
            let record = table.fetch(1).unwrap();
            assert_eq!(record.one.as_deref(), Some("a"));
            assert_eq!(record.two.as_deref(), Some("b"));
        }
    }
}

#[test]
fn different_keys_have_different_records() {
    for strategy in both_strategies() {
        let mut table = Table::new();
        let first = table.merge(strategy, 1, UpdateRequest::new(set("a"), Patch::Missing)).unwrap();
        let second =
            table.merge(strategy, 2, UpdateRequest::new(Patch::Missing, set("b"))).unwrap();
        assert_ne!(first.id, second.id);
        assert_eq!(table.fetch(1), Ok(first));
        assert_eq!(table.fetch(2), Ok(second));
    }
}

#[test]
fn key_is_required() {
    let request = UpdateRequest::new(set("a"), Patch::Missing);
    for strategy in both_strategies() {
        let started = UpsertEngine::merge(strategy, None, request.clone());
        assert_eq!(started.err(), Some(Error::KeyRequired));
    }
    assert_eq!(UpsertEngine::fetch(None).err(), Some(Error::KeyRequired));
    let mut table = Table::new();
    assert_eq!(table.run(UpsertEngine::fetch(None)), Err(Error::KeyRequired));
    assert!(table.trace.is_empty());
}

#[test]
fn engine_starts_by_taking_a_connection() {
    let request = UpdateRequest::new(set("a"), Patch::Missing);
    let (engine, action) =
        UpsertEngine::merge(Strategy::PessimisticLock, Some(7), request).unwrap();
    assert_eq!(action, Action::Acquire);
    assert_eq!(engine.internal_id(), 7);
    assert!(!engine.is_done());
    let (engine, action) = UpsertEngine::fetch(Some(-3)).unwrap();
    assert_eq!(action, Action::Acquire);
    assert_eq!(engine.internal_id(), -3);
}

#[test]
fn fetch_of_unknown_key_is_not_found() {
    let mut table = Table::new();
    assert_eq!(table.fetch(1), Err(Error::NotFound));
    assert_eq!(table.trace, vec!["acquire", "select", "release"]);
    assert_eq!(table.lent, 0);
}

#[test]
fn pessimistic_lock_sequence_on_create() {
    let mut table = Table::new();
    table.merge(Strategy::PessimisticLock, 1, UpdateRequest::new(set("a"), Patch::Missing)).unwrap();
    assert_eq!(table.trace, vec!["acquire", "begin", "lock", "insert", "commit", "release"]);
}

#[test]
fn pessimistic_lock_sequence_on_update() {
    let mut table = Table::new();
    table.merge(Strategy::PessimisticLock, 1, UpdateRequest::new(set("a"), Patch::Missing)).unwrap();
    table.merge(Strategy::PessimisticLock, 1, UpdateRequest::new(set("b"), Patch::Missing)).unwrap();
    assert_eq!(table.trace, vec!["acquire", "begin", "lock", "update", "commit", "release"]);
}

#[test]
fn atomic_upsert_is_one_statement() {
    let mut table = Table::new();
    table.merge(Strategy::AtomicUpsert, 1, UpdateRequest::new(set("a"), Patch::Missing)).unwrap();
    assert_eq!(table.trace, vec!["acquire", "upsert", "release"]);
    table.merge(Strategy::AtomicUpsert, 1, UpdateRequest::new(Patch::Missing, set("b"))).unwrap();
    assert_eq!(table.trace, vec!["acquire", "upsert", "release"]);
}

#[test]
fn actions_carry_the_merged_values() {
    let request = UpdateRequest::new(Patch::Missing, Patch::ExplicitNull);
    let (engine, _) = UpsertEngine::merge(Strategy::PessimisticLock, Some(4), request).unwrap();
    let (engine, action) = engine.step(Event::Acquired);
    assert_eq!(action, Action::Begin);
    let (engine, action) = engine.step(Event::Begun);
    assert_eq!(action, Action::LockRow { internal_id: 4 });
    let row = Record { id: 8, internal_id: 4, one: Some("v".to_string()), two: Some("w".to_string()) };
    let (engine, action) = engine.step(Event::Row(Some(row)));
    assert_eq!(
        action,
        Action::Update {
            internal_id: 4,
            fields: FieldValues { one: Some("v".to_string()), two: None },
        }
    );
    let (engine, action) = engine.step(Event::Updated);
    assert_eq!(action, Action::Commit);
    let (engine, action) = engine.step(Event::Committed);
    assert_eq!(action, Action::Release);
    let (engine, action) = engine.step(Event::Released);
    let expected = Record { id: 8, internal_id: 4, one: Some("v".to_string()), two: None };
    assert_eq!(action, Action::Finish(Ok(expected.clone())));
    assert!(engine.is_done());
    let (engine, action) = engine.step(Event::Acquired);
    assert_eq!(action, Action::Finish(Ok(expected)));
    assert!(engine.is_done());
}

#[test]
fn insert_takes_the_identity_from_the_store() {
    let request = UpdateRequest::new(set("a"), Patch::Missing);
    let (engine, _) = UpsertEngine::merge(Strategy::PessimisticLock, Some(4), request).unwrap();
    let (engine, _) = engine.step(Event::Acquired);
    let (engine, _) = engine.step(Event::Begun);
    let (engine, action) = engine.step(Event::Row(None));
    assert_eq!(
        action,
        Action::Insert {
            internal_id: 4,
            fields: FieldValues { one: Some("a".to_string()), two: None },
        }
    );
    let (engine, action) = engine.step(Event::Inserted { id: 77 });
    assert_eq!(action, Action::Commit);
    let (engine, _) = engine.step(Event::Committed);
    let (_, action) = engine.step(Event::Released);
    assert_eq!(
        action,
        Action::Finish(Ok(Record { id: 77, internal_id: 4, one: Some("a".to_string()), two: None }))
    );
}

#[test]
fn upsert_marks_the_columns_it_touches() {
    let request = UpdateRequest::new(Patch::ExplicitNull, Patch::Missing);
    let (engine, _) = UpsertEngine::merge(Strategy::AtomicUpsert, Some(4), request).unwrap();
    let (_, action) = engine.step(Event::Acquired);
    assert_eq!(
        action,
        Action::Upsert {
            internal_id: 4,
            one: ColumnWrite { touch: true, value: None },
            two: ColumnWrite { touch: false, value: None },
        }
    );
    assert_eq!(column_write(&set("v")), ColumnWrite { touch: true, value: Some("v".to_string()) });
    assert_eq!(column_write(&Patch::ExplicitNull), ColumnWrite { touch: true, value: None });
    assert_eq!(column_write(&Patch::Missing), ColumnWrite { touch: false, value: None });
}

#[test]
fn upsert_clears_a_stored_value() {
    let mut table = Table::new();
    table.merge(Strategy::AtomicUpsert, 1, UpdateRequest::new(set("a"), set("b"))).unwrap();
    let cleared = table
        .merge(Strategy::AtomicUpsert, 1, UpdateRequest::new(Patch::ExplicitNull, Patch::Missing))
        .unwrap();
    assert_eq!(cleared.one, None);
    assert_eq!(cleared.two.as_deref(), Some("b"));
}

#[test]
fn any_failure_leaves_the_rows_as_they_were() {
    for strategy in both_strategies() {
        for with_row in [true, false] {
            for fail_at in 0..7 {
                let mut table = Table::new();
                if with_row {
                    table.merge(strategy, 1, UpdateRequest::new(set("x"), set("y"))).unwrap();
                }
                let before = table.rows.clone();
                table.fail_at = Some(fail_at);
                let request = UpdateRequest::new(set("a"), Patch::ExplicitNull);
                let outcome = table.merge(strategy, 1, request);
                assert_eq!(table.lent, 0);
                assert!(table.staged.is_none());
                let released = table.trace.last().map(|name| name.as_str()) == Some("release");
                assert!(released || fail_at == 0);
                match outcome {
                    Ok(record) => {
                        assert_eq!(table.rows.get(&1), Some(&record));
                        assert_eq!(record.one.as_deref(), Some("a"));
                        assert_eq!(record.two, None);
                        assert!(fail_at + 1 >= table.trace.len());
                    }
                    Err(error) => {
                        assert_eq!(error, Error::StorageUnavailable);
                        assert_eq!(table.rows, before);
                        assert!(fail_at < table.trace.len());
                    }
                }
            }
        }
    }
}

#[test]
fn failed_write_is_rolled_back() {
    let mut table = Table::new();
    table.merge(Strategy::PessimisticLock, 1, UpdateRequest::new(set("x"), set("y"))).unwrap();
    table.fail_at = Some(3);
    let outcome =
        table.merge(Strategy::PessimisticLock, 1, UpdateRequest::new(set("a"), Patch::Missing));
    assert_eq!(outcome, Err(Error::StorageUnavailable));
    assert_eq!(table.trace, vec!["acquire", "begin", "lock", "update", "rollback", "release"]);
}

#[test]
fn failed_acquire_finishes_at_once() {
    for strategy in both_strategies() {
        let mut table = Table::new();
        table.fail_at = Some(0);
        let outcome = table.merge(strategy, 1, UpdateRequest::new(set("a"), Patch::Missing));
        assert_eq!(outcome, Err(Error::StorageUnavailable));
        assert_eq!(table.trace, vec!["acquire"]);
    }
}

#[test]
fn failed_fetch_is_a_storage_failure() {
    for fail_at in 0..2 {
        let mut table = Table::new();
        table.merge(Strategy::AtomicUpsert, 1, UpdateRequest::new(set("a"), Patch::Missing)).unwrap();
        table.fail_at = Some(fail_at);
        assert_eq!(table.fetch(1), Err(Error::StorageUnavailable));
        assert_eq!(table.lent, 0);
    }
}

#[test]
fn key_taken_during_insert_is_a_storage_failure() {
    let request = UpdateRequest::new(set("a"), Patch::Missing);
    let (engine, _) = UpsertEngine::merge(Strategy::PessimisticLock, Some(4), request).unwrap();
    let (engine, _) = engine.step(Event::Acquired);
    let (engine, _) = engine.step(Event::Begun);
    let (engine, action) = engine.step(Event::Row(None));
    assert!(matches!(action, Action::Insert { .. }));
    let (engine, action) = engine.step(Event::Failed);
    assert_eq!(action, Action::Rollback);
    let (engine, action) = engine.step(Event::RolledBack);
    assert_eq!(action, Action::Release);
    let (_, action) = engine.step(Event::Released);
    assert_eq!(action, Action::Finish(Err(Error::StorageUnavailable)));
}

#[test]
fn unexpected_answer_is_a_failure() {
    let request = UpdateRequest::new(set("a"), Patch::Missing);
    let (engine, _) = UpsertEngine::merge(Strategy::PessimisticLock, Some(4), request).unwrap();
    let (engine, _) = engine.step(Event::Acquired);
    let (engine, action) = engine.step(Event::Committed);
    assert_eq!(action, Action::Release);
    let (engine, action) = engine.step(Event::Released);
    assert_eq!(action, Action::Finish(Err(Error::StorageUnavailable)));
    assert!(engine.is_done());
}

#[test]
fn fetch_never_opens_a_transaction() {
    let (engine, _) = UpsertEngine::fetch(Some(4)).unwrap();
    let (engine, action) = engine.step(Event::Acquired);
    assert_eq!(action, Action::Select { internal_id: 4 });
    let row = Record { id: 8, internal_id: 4, one: None, two: Some("w".to_string()) };
    let (engine, action) = engine.step(Event::Row(Some(row.clone())));
    assert_eq!(action, Action::Release);
    let (_, action) = engine.step(Event::Released);
    assert_eq!(action, Action::Finish(Ok(row)));
}

#[test]
fn every_answer_brings_the_end_nearer() {
    for strategy in both_strategies() {
        for fail_at in 0..8 {
            let mut table = Table::new();
            table.fail_at = Some(fail_at);
            let request = UpdateRequest::new(set("a"), Patch::Missing);
            let (mut engine, mut action) =
                UpsertEngine::merge(strategy, Some(1), request).unwrap();
            assert_eq!(engine.steps_left(), 6);
            while !matches!(action, Action::Finish(_)) {
                let before = engine.steps_left();
                let event = table.answer(&action);
                (engine, action) = engine.step(event);
                assert!(engine.steps_left() < before);
            }
            assert_eq!(engine.steps_left(), 0);
        }
    }
}

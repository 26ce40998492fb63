// Scenarios run against a real libsql database: the statements come from the library,
// the rows go back to the library, and the results are compared with the expected ones.

use libsql::Builder;
use turso_storage::config::TursoConfig;
use turso_storage::open::{open_start, open_step, OpenAction, OpenPhase, StepOutcome};
use turso_storage::operation::OperationRecord;
use turso_storage::statement::{SqlValue, Statement};
use taskchampion::{Operation, Uuid};
use turso_storage::txn::{
    add_operation_row, add_operation_statement, operations_from_rows, task_operations, add_to_working_set_plan, create_task_statement, is_empty_from_count,
    operation_count, set_task_statement, task_deleted, task_from_data, working_set_from_rows,
    WorkingSetRow,
};

struct Db {
    rt: tokio::runtime::Runtime,
    conn: libsql::Connection,
    _db: libsql::Database,
}

fn to_value(value: SqlValue) -> libsql::Value {
    match value {
        SqlValue::Integer(i) => libsql::Value::Integer(i),
        SqlValue::Text(s) => libsql::Value::Text(s),
        SqlValue::Blob(b) => libsql::Value::Blob(b),
    }
}

fn params_of(statement: &Statement) -> Vec<libsql::Value> {
    statement.params().into_iter().map(to_value).collect()
}

impl Db {
    fn open(config: TursoConfig) -> Db {
        let rt = tokio::runtime::Runtime::new().unwrap();
        let path = match &config {
            TursoConfig::Local { path } => path.clone(),
            _ => panic!("these scenarios use a local database"),
        };
        let (mut phase, mut action) = open_start(&config);
        let mut db: Option<libsql::Database> = None;
        let mut conn: Option<libsql::Connection> = None;
        loop {
            let outcome = match action {
                OpenAction::Build => {
                    db = Some(rt.block_on(Builder::new_local(path.clone()).build()).unwrap());
                    StepOutcome::Succeeded
                }
                OpenAction::Sync => match rt.block_on(db.as_ref().unwrap().sync()) {
                    Ok(_) => StepOutcome::Succeeded,
                    Err(_) => StepOutcome::Failed,
                },
                OpenAction::Connect => {
                    conn = Some(db.as_ref().unwrap().connect().unwrap());
                    StepOutcome::Succeeded
                }
                OpenAction::Execute(statement) => {
                    let c = conn.as_ref().unwrap();
                    rt.block_on(c.execute(statement.sql(), params_of(&statement))).unwrap();
                    StepOutcome::Succeeded
                }
                OpenAction::Finish => break,
                OpenAction::Fail | OpenAction::Reject(_) => panic!("opening failed"),
            };
            let next = open_step(phase, outcome);
            phase = next.0;
            action = next.1;
        }
        assert_eq!(phase, OpenPhase::Ready);
        Db { rt, conn: conn.unwrap(), _db: db.unwrap() }
    }

    fn execute(&self, statement: &Statement) -> u64 {
        self.rt.block_on(self.conn.execute(statement.sql(), params_of(statement))).unwrap()
    }

    // Column values are read while the row is current: a row kept past the next step of
    // the cursor no longer holds them.
    fn rows<T>(&self, statement: &Statement, read: impl Fn(&libsql::Row) -> T) -> Vec<T> {
        self.rt.block_on(async {
            let mut rows = self.conn.query(statement.sql(), params_of(statement)).await.unwrap();
            let mut out = Vec::new();
            while let Some(row) = rows.next().await.unwrap() {
                out.push(read(&row));
            }
            out
        })
    }

    fn count(&self) -> Option<i64> {
        self.rows(&Statement::CountOperations, |r| r.get::<i64>(0).unwrap()).first().copied()
    }

    fn working_set(&self) -> Vec<Option<[u8; 16]>> {
        let rows: Vec<WorkingSetRow> = self.rows(&Statement::SelectWorkingSet, |r| WorkingSetRow {
            id: r.get(0).unwrap(),
            uuid: r.get(1).unwrap(),
        });
        working_set_from_rows(&rows)
    }

    fn add_to_working_set(&self, uuid: &[u8; 16]) -> usize {
        let max_id = self
            .rows(&Statement::SelectMaxWorkingSetId, |r| r.get::<i64>(0).ok())
            .first()
            .copied()
            .flatten();
        let (statement, index) = add_to_working_set_plan(max_id, uuid);
        self.execute(&statement);
        index
    }

    fn create_task(&self, uuid: &[u8; 16]) -> bool {
        let present = !self.rows(&Statement::SelectTaskPresence { uuid: *uuid }, |_| ()).is_empty();
        match create_task_statement(present, uuid).unwrap() {
            Some(statement) => {
                self.execute(&statement);
                true
            }
            None => false,
        }
    }

    fn get_task(&self, uuid: &[u8; 16]) -> Option<std::collections::HashMap<String, String>> {
        let data: Option<String> = self
            .rows(&Statement::SelectTaskData { uuid: *uuid }, |r| r.get::<String>(0).unwrap())
            .into_iter()
            .next();
        task_from_data(data).unwrap()
    }
}

/// A path for a new database file with the given name, under the system's temporary
/// directory, that no earlier run has used.
fn fresh_path(name: &str) -> String {
    let nanos = std::time::SystemTime::now()
        .duration_since(std::time::UNIX_EPOCH)
        .unwrap()
        .as_nanos();
    format!("/tmp/turso-storage-{}-{}", nanos, name)
}

const UUID: [u8; 16] = [0x5a, 0x1b, 0x33, 0x07, 0x8c, 0x41, 0x4e, 0x2d, 0x9f, 0x10, 0x22, 0x6b, 0x71, 0x0e, 0xc3, 0x58];

fn lifecycle() {
    let config = TursoConfig::Local { path: fresh_path("test.db") };
    let storage = Db::open(config);

    // Test 1: Empty check
    assert!(is_empty_from_count(storage.count()));

    // Test 2: Add Operation
    let op = Operation::Create { uuid: Uuid::from_bytes(UUID) };
    let (statement, _) = add_operation_row(op).unwrap();
    storage.execute(&statement);

    // Test 3: Verify not empty
    assert!(!is_empty_from_count(storage.count()));
    assert_eq!(operation_count(storage.count()), 1);

    // Test 4: Working Set
    let idx = storage.add_to_working_set(&UUID);
    assert_eq!(idx, 1);
    let set = storage.working_set();
    assert_eq!(set.len(), 2); // 0 is None, 1 is uuid
    assert_eq!(set[1], Some(UUID));
}

#[test]
fn turso_test_storage_lifecycle() {
    lifecycle();
}

#[test]
fn turso_test_snippet_test_storage_lifecycle() {
    lifecycle();
}

#[test]
fn test_task_crud() {
    let config = TursoConfig::Local { path: fresh_path("test_crud.db") };
    let storage = Db::open(config);

    // Create task
    assert!(storage.create_task(&UUID));
    assert!(!storage.create_task(&UUID)); // Already exists

    // Set task data
    let mut data = std::collections::HashMap::new();
    data.insert("description".to_string(), "Verify Turso".to_string());
    storage.execute(&set_task_statement(&UUID, &data).unwrap());

    // Get task
    let task = storage.get_task(&UUID);
    assert!(task.is_some());
    assert_eq!(task.unwrap().get("description").map(|s| s.as_str()), Some("Verify Turso"));

    // Delete task
    assert!(task_deleted(storage.execute(&Statement::DeleteTask { uuid: UUID })));
    assert!(storage.get_task(&UUID).is_none());
}

#[test]
fn real_database_follows_table_model() {
    let storage = Db::open(TursoConfig::Local { path: ":memory:".to_string() });
    let other: [u8; 16] = [7; 16];

    // Operations: append, remove the newest, clear.
    storage.execute(&add_operation_statement(&OperationRecord::UndoPoint, "\"UndoPoint\"".to_string()));
    storage.execute(&add_operation_statement(&OperationRecord::Delete { uuid: other, old_task: std::collections::HashMap::new() }, "x".to_string()));
    assert_eq!(storage.count(), Some(2));
    storage.execute(&Statement::RemoveLastOperation);
    assert_eq!(storage.count(), Some(1));
    let data: Vec<String> = storage.rows(&Statement::SelectOperationData, |r| r.get(0).unwrap());
    assert_eq!(data, vec!["\"UndoPoint\"".to_string()]);
    storage.execute(&Statement::ClearOperations);
    assert!(is_empty_from_count(storage.count()));

    // Working set: indexes grow from one; replacing and removing items.
    assert_eq!(storage.add_to_working_set(&UUID), 1);
    assert_eq!(storage.add_to_working_set(&other), 2);
    storage.execute(&turso_storage::txn::set_working_set_item_statement(1, Some(other)));
    storage.execute(&turso_storage::txn::set_working_set_item_statement(2, None));
    assert_eq!(storage.working_set(), vec![None, Some(other)]);
    storage.execute(&Statement::ClearWorkingSet);
    assert_eq!(storage.working_set(), vec![None]);
    assert_eq!(storage.add_to_working_set(&UUID), 1);

    // Deleting a missing task changes nothing.
    assert!(!task_deleted(storage.execute(&Statement::DeleteTask { uuid: other })));

    // The base version is nil until set.
    let value: Option<Vec<u8>> =
        storage.rows(&Statement::SelectBaseVersion, |r| r.get::<Vec<u8>>(0).unwrap()).into_iter().next();
    assert_eq!(turso_storage::txn::base_version_from_value(&value), [0u8; 16]);
    storage.execute(&Statement::ReplaceBaseVersion { uuid: UUID });
    let value: Option<Vec<u8>> =
        storage.rows(&Statement::SelectBaseVersion, |r| r.get::<Vec<u8>>(0).unwrap()).into_iter().next();
    assert_eq!(turso_storage::txn::base_version_from_value(&value), UUID);
}

#[test]
fn operations_round_trip_through_database() {
    let storage = Db::open(TursoConfig::Local { path: ":memory:".to_string() });
    let a = Uuid::from_u128(1);
    let b = Uuid::from_u128(2);
    let mut old_task = std::collections::HashMap::new();
    old_task.insert("description".to_string(), "Verify Turso".to_string());
    let ops = vec![
        Operation::Create { uuid: a },
        Operation::UndoPoint,
        Operation::Create { uuid: b },
        Operation::Delete { uuid: a, old_task },
    ];
    let mut records = Vec::new();
    for op in ops {
        let (statement, record) = add_operation_row(op).unwrap();
        storage.execute(&statement);
        records.push(record);
        // Each operation reads back equal, in last place.
        let texts: Vec<String> = storage.rows(&Statement::SelectOperationData, |r| r.get(0).unwrap());
        assert_eq!(operations_from_rows(&texts).unwrap(), records);
    }
    assert_eq!(operation_count(storage.count()), 4);
    let texts: Vec<String> = storage.rows(&Statement::SelectOperationData, |r| r.get(0).unwrap());
    let read = operations_from_rows(&texts).unwrap();
    assert_eq!(task_operations(read.clone(), a.as_bytes()), vec![records[0].clone(), records[3].clone()]);
    assert_eq!(task_operations(read.clone(), b.as_bytes()), vec![records[2].clone()]);
    assert!(task_operations(read, Uuid::from_u128(3).as_bytes()).is_empty());
}

// Examples of each function of the library on concrete values.

use std::collections::HashMap;
use turso_storage::ids::{uuid_from_blob, uuid_to_blob, uuids_equal};
use turso_storage::config::{check_config, ConfigError, TursoConfig};
use turso_storage::open::{open_start, open_step, schema_statement, OpenAction, OpenPhase, StepOutcome};
use turso_storage::operation::OperationRecord;
use turso_storage::statement::{SqlValue, Statement};
use turso_storage::txn::{
    add_operation_row, add_operation_statement, add_to_working_set_plan, operations_from_rows,
    task_operations, all_tasks_from_rows,
    base_version_from_value, create_task_statement, is_empty_from_count, operation_count,
    pending_task_uuids, pending_tasks, set_task_statement, set_working_set_item_statement,
    task_deleted, task_from_data, task_uuids_from_rows,
    working_set_from_rows, StoreError, TaskRow, WorkingSetRow,
};

const A: [u8; 16] = [1, 2, 3, 4, 5, 6, 7, 8, 9, 10, 11, 12, 13, 14, 15, 16];
const B: [u8; 16] = [0xff; 16];

#[test]
fn blob_of_sixteen_bytes_is_the_uuid() {
    assert_eq!(uuid_from_blob(&A.to_vec()), A);
    assert_eq!(uuid_to_blob(&A), A.to_vec());
}

#[test]
fn blob_of_other_length_is_nil() {
    assert_eq!(uuid_from_blob(&vec![1, 2, 3]), [0u8; 16]);
    assert_eq!(uuid_from_blob(&Vec::new()), [0u8; 16]);
    assert_eq!(uuid_from_blob(&vec![9u8; 17]), [0u8; 16]);
}

#[test]
fn uuid_equality() {
    assert!(uuids_equal(&A, &A));
    assert!(!uuids_equal(&A, &B));
    let mut c = A;
    c[15] = 0;
    assert!(!uuids_equal(&A, &c));
}

#[test]
fn emptiness_from_count() {
    assert!(is_empty_from_count(Some(0)));
    assert!(is_empty_from_count(None));
    assert!(!is_empty_from_count(Some(3)));
}

#[test]
fn count_of_operations() {
    assert_eq!(operation_count(Some(7)), 7);
    assert_eq!(operation_count(None), 0);
    assert_eq!(operation_count(Some(-1)), usize::MAX);
}

#[test]
fn operation_rows_carry_task_or_zeros() {
    let s = add_operation_statement(&update(A, 5), "u".to_string());
    assert_eq!(s, Statement::InsertOperation { uuid: A, data: "u".to_string() });
    assert_eq!(s.sql(), "INSERT INTO operations (uuid, data) VALUES (?, ?)");
    assert_eq!(s.params(), vec![SqlValue::Blob(A.to_vec()), SqlValue::Text("u".to_string())]);
    let s = add_operation_statement(&OperationRecord::UndoPoint, "p".to_string());
    assert_eq!(s, Statement::InsertOperation { uuid: [0u8; 16], data: "p".to_string() });
    assert_eq!(OperationRecord::Delete { uuid: B, old_task: HashMap::new() }.task_uuid(), Some(B));
    assert_eq!(OperationRecord::UndoPoint.task_uuid(), None);
    assert_eq!(OperationRecord::Create { uuid: A }.row_uuid(), A);
}

#[test]
fn statements_without_parameters() {
    assert!(Statement::CountOperations.params().is_empty());
    assert_eq!(Statement::CountOperations.sql(), "SELECT count(*) FROM operations");
    assert_eq!(
        Statement::RemoveLastOperation.sql(),
        "DELETE FROM operations WHERE id = (SELECT MAX(id) FROM operations)"
    );
    assert_eq!(
        Statement::SelectBaseVersion.sql(),
        "SELECT value FROM meta WHERE key = 'base_version'"
    );
}

#[test]
fn working_set_of_no_rows_is_one_empty_slot() {
    assert_eq!(working_set_from_rows(&Vec::new()), vec![None]);
}

#[test]
fn working_set_places_items_at_their_index() {
    let rows = vec![
        WorkingSetRow { id: 1, uuid: Some(A.to_vec()) },
        WorkingSetRow { id: 3, uuid: Some(B.to_vec()) },
    ];
    assert_eq!(working_set_from_rows(&rows), vec![None, Some(A), None, Some(B)]);
}

#[test]
fn working_set_slot_zero_is_always_empty() {
    let rows = vec![
        WorkingSetRow { id: 0, uuid: Some(A.to_vec()) },
        WorkingSetRow { id: 2, uuid: None },
    ];
    assert_eq!(working_set_from_rows(&rows), vec![None, None, None]);
    let rows = vec![WorkingSetRow { id: 0, uuid: Some(A.to_vec()) }];
    assert_eq!(working_set_from_rows(&rows), vec![None]);
}

#[test]
fn working_set_short_blob_reads_as_nil() {
    let rows = vec![WorkingSetRow { id: 1, uuid: Some(vec![1, 2]) }];
    assert_eq!(working_set_from_rows(&rows), vec![None, Some([0u8; 16])]);
}

#[test]
fn working_set_later_row_wins() {
    let rows = vec![
        WorkingSetRow { id: 1, uuid: Some(A.to_vec()) },
        WorkingSetRow { id: 1, uuid: Some(B.to_vec()) },
    ];
    assert_eq!(working_set_from_rows(&rows), vec![None, Some(B)]);
}

#[test]
fn add_to_working_set_uses_next_index() {
    let (s, index) = add_to_working_set_plan(None, &A);
    assert_eq!(s, Statement::InsertWorkingSetItem { id: 1, uuid: A });
    assert_eq!(index, 1);
    let (s, index) = add_to_working_set_plan(Some(41), &B);
    assert_eq!(s, Statement::InsertWorkingSetItem { id: 42, uuid: B });
    assert_eq!(index, 42);
    assert_eq!(s.params(), vec![SqlValue::Integer(42), SqlValue::Blob(B.to_vec())]);
}

#[test]
fn set_working_set_item_replaces_or_removes() {
    assert_eq!(
        set_working_set_item_statement(3, Some(A)),
        Statement::ReplaceWorkingSetItem { id: 3, uuid: A }
    );
    assert_eq!(set_working_set_item_statement(3, None), Statement::DeleteWorkingSetItem { id: 3 });
    assert_eq!(
        Statement::DeleteWorkingSetItem { id: 3 }.sql(),
        "DELETE FROM working_set WHERE id = ?"
    );
}

#[test]
fn pending_uuids_skip_empty_slots() {
    assert_eq!(pending_task_uuids(&vec![None, Some(A), None, Some(B)]), vec![A, B]);
    assert_eq!(pending_task_uuids(&vec![None]), Vec::<[u8; 16]>::new());
}

#[test]
fn pending_tasks_skip_missing_tasks() {
    let got = pending_tasks(&vec![A, B], vec![None, Some("b")]);
    assert_eq!(got, vec![(B, "b")]);
    let got = pending_tasks(&vec![A, B], vec![Some(1), Some(2)]);
    assert_eq!(got, vec![(A, 1), (B, 2)]);
}

#[test]
fn task_from_missing_row_is_none() {
    assert!(task_from_data(None).unwrap().is_none());
}

#[test]
fn task_from_text() {
    let task = task_from_data(Some("{\"description\":\"Verify Turso\"}".to_string())).unwrap().unwrap();
    assert_eq!(task.get("description").map(|s| s.as_str()), Some("Verify Turso"));
    assert_eq!(task.len(), 1);
}

#[test]
fn task_from_bad_text_is_database_error() {
    match task_from_data(Some("not json".to_string())) {
        Err(StoreError::Database(_)) => {}
        other => panic!("unexpected {:?}", other),
    }
    assert!(task_from_data(Some("{\"a\": 1}".to_string())).is_err());
}

#[test]
fn create_task_inserts_empty_task_only_when_absent() {
    assert_eq!(create_task_statement(true, &A).unwrap(), None);
    assert_eq!(
        create_task_statement(false, &A).unwrap(),
        Some(Statement::InsertTask { uuid: A, data: "{}".to_string() })
    );
}

#[test]
fn set_task_writes_json_of_task() {
    let mut task = HashMap::new();
    task.insert("description".to_string(), "Verify Turso".to_string());
    match set_task_statement(&A, &task).unwrap() {
        Statement::ReplaceTask { uuid, data } => {
            assert_eq!(uuid, A);
            assert_eq!(data, "{\"description\":\"Verify Turso\"}");
            assert_eq!(task_from_data(Some(data)).unwrap(), Some(task));
        }
        other => panic!("unexpected {:?}", other),
    }
    let empty = HashMap::new();
    assert_eq!(
        set_task_statement(&B, &empty).unwrap(),
        Statement::ReplaceTask { uuid: B, data: "{}".to_string() }
    );
}

#[test]
fn delete_reports_changed_rows() {
    assert!(task_deleted(1));
    assert!(!task_deleted(0));
}

#[test]
fn all_tasks_read_each_row() {
    let rows = vec![
        TaskRow { uuid: A.to_vec(), data: "{}".to_string() },
        TaskRow { uuid: vec![1], data: "{\"k\":\"v\"}".to_string() },
    ];
    let tasks = all_tasks_from_rows(&rows).unwrap();
    assert_eq!(tasks.len(), 2);
    assert_eq!(tasks[0].0, A);
    assert!(tasks[0].1.is_empty());
    assert_eq!(tasks[1].0, [0u8; 16]);
    assert_eq!(tasks[1].1.get("k").map(|s| s.as_str()), Some("v"));
}

#[test]
fn all_tasks_fail_on_bad_row() {
    let rows = vec![
        TaskRow { uuid: A.to_vec(), data: "{}".to_string() },
        TaskRow { uuid: B.to_vec(), data: "[".to_string() },
    ];
    assert!(matches!(all_tasks_from_rows(&rows), Err(StoreError::Database(_))));
}

#[test]
fn task_uuids_from_blobs() {
    assert_eq!(task_uuids_from_rows(&vec![B.to_vec(), vec![]]), vec![B, [0u8; 16]]);
}

#[test]
fn base_version_defaults_to_nil() {
    assert_eq!(base_version_from_value(&None), [0u8; 16]);
    assert_eq!(base_version_from_value(&Some(A.to_vec())), A);
    assert_eq!(base_version_from_value(&Some(vec![1, 2])), [0u8; 16]);
}

fn update(uuid: [u8; 16], seconds: i64) -> OperationRecord {
    OperationRecord::Update {
        uuid,
        property: "description".to_string(),
        old_value: None,
        value: Some("Verify Turso".to_string()),
        seconds,
        nanos: 0,
    }
}

#[test]
fn task_operations_are_selected_in_order() {
    let ops = vec![
        OperationRecord::Create { uuid: A },
        OperationRecord::UndoPoint,
        update(B, 1),
        update(A, 2),
        OperationRecord::Delete { uuid: A, old_task: HashMap::new() },
    ];
    assert_eq!(task_operations(ops.clone(), &A), vec![ops[0].clone(), ops[3].clone(), ops[4].clone()]);
    assert_eq!(task_operations(ops.clone(), &B), vec![ops[2].clone()]);
    assert_eq!(task_operations(ops, &[0u8; 16]), Vec::<OperationRecord>::new());
}

#[test]
fn opening_runs_all_steps_in_order() {
    let config = TursoConfig::Remote { url: "libsql://db.turso.io".to_string(), token: "t".to_string() };
    let (mut phase, mut action) = open_start(&config);
    assert_eq!(action, OpenAction::Build);
    let mut actions = vec![];
    for outcome in [
        StepOutcome::Succeeded,
        StepOutcome::Failed, // sync failure is ignored
        StepOutcome::Succeeded,
        StepOutcome::Succeeded,
        StepOutcome::Succeeded,
        StepOutcome::Succeeded,
        StepOutcome::Succeeded,
    ] {
        let next = open_step(phase, outcome);
        phase = next.0;
        action = next.1;
        actions.push(format!("{:?}", action));
    }
    assert_eq!(phase, OpenPhase::Ready);
    assert_eq!(action, OpenAction::Finish);
    assert_eq!(
        actions,
        vec![
            "Sync".to_string(),
            "Connect".to_string(),
            format!("{:?}", OpenAction::Execute(Statement::CreateOperationsTable)),
            format!("{:?}", OpenAction::Execute(Statement::CreateWorkingSetTable)),
            format!("{:?}", OpenAction::Execute(Statement::CreateTasksTable)),
            format!("{:?}", OpenAction::Execute(Statement::CreateMetaTable)),
            "Finish".to_string(),
        ]
    );
    assert_eq!(schema_statement(2), Statement::CreateTasksTable);
}

#[test]
fn opening_fails_on_build_connect_or_schema_failure() {
    assert_eq!(open_step(OpenPhase::Building, StepOutcome::Failed), (OpenPhase::Failed, OpenAction::Fail));
    assert_eq!(open_step(OpenPhase::Connecting, StepOutcome::Failed), (OpenPhase::Failed, OpenAction::Fail));
    assert_eq!(
        open_step(OpenPhase::CreatingTable { index: 1 }, StepOutcome::Failed),
        (OpenPhase::Failed, OpenAction::Fail)
    );
    assert_eq!(open_step(OpenPhase::Failed, StepOutcome::Succeeded), (OpenPhase::Failed, OpenAction::Fail));
    assert_eq!(open_step(OpenPhase::Ready, StepOutcome::Failed), (OpenPhase::Ready, OpenAction::Finish));
}

#[test]
fn remote_and_local_configurations_are_accepted() {
    let remote = TursoConfig::Remote { url: "libsql://db.turso.io".to_string(), token: "t".to_string() };
    assert_eq!(check_config(&remote), Ok(()));
    assert_eq!(check_config(&TursoConfig::Local { path: "test.db".to_string() }), Ok(()));
}

#[test]
fn embedded_replica_is_refused_before_anything_is_built() {
    let config = TursoConfig::EmbeddedReplica {
        path: "tasks.db".to_string(),
        url: "libsql://db.turso.io".to_string(),
        token: "t".to_string(),
    };
    assert_eq!(check_config(&config), Err(ConfigError::EmbeddedReplica));
    let (phase, action) = open_start(&config);
    assert_eq!(phase, OpenPhase::Failed);
    assert_eq!(action, OpenAction::Reject(ConfigError::EmbeddedReplica));
    assert_eq!(open_step(phase, StepOutcome::Succeeded), (OpenPhase::Failed, OpenAction::Fail));
}

#[test]
fn remote_without_url_or_token_is_refused() {
    let no_url = TursoConfig::Remote { url: String::new(), token: "t".to_string() };
    assert_eq!(check_config(&no_url), Err(ConfigError::EmptyUrl));
    assert_eq!(open_start(&no_url), (OpenPhase::Failed, OpenAction::Reject(ConfigError::EmptyUrl)));
    let no_token = TursoConfig::Remote { url: "libsql://db.turso.io".to_string(), token: String::new() };
    assert_eq!(check_config(&no_token), Err(ConfigError::EmptyToken));
    let neither = TursoConfig::Remote { url: String::new(), token: String::new() };
    assert_eq!(check_config(&neither), Err(ConfigError::EmptyUrl));
}

#[test]
fn set_task_text_reads_back_as_the_task() {
    let mut task = HashMap::new();
    task.insert("description".to_string(), "say \"hi\"\n".to_string());
    task.insert("status".to_string(), "pending".to_string());
    task.insert("tag_ü".to_string(), String::new());
    match set_task_statement(&A, &task).unwrap() {
        Statement::ReplaceTask { uuid, data } => {
            assert_eq!(uuid, A);
            assert_eq!(task_from_data(Some(data)).unwrap(), Some(task));
        }
        other => panic!("unexpected {:?}", other),
    }
}

#[test]
fn operation_rows_store_json_and_task() {
    let op = taskchampion::Operation::Create { uuid: taskchampion::Uuid::from_bytes(A) };
    match add_operation_row(op).unwrap() {
        (Statement::InsertOperation { uuid, data }, record) => {
            assert_eq!(uuid, A);
            assert_eq!(record, OperationRecord::Create { uuid: A });
            assert_eq!(operations_from_rows(&vec![data]).unwrap(), vec![record]);
        }
        other => panic!("unexpected {:?}", other),
    }
    match add_operation_row(taskchampion::Operation::UndoPoint).unwrap() {
        (Statement::InsertOperation { uuid, data }, record) => {
            assert_eq!(uuid, [0u8; 16]);
            assert_eq!(data, "\"UndoPoint\"");
            assert_eq!(record, OperationRecord::UndoPoint);
        }
        other => panic!("unexpected {:?}", other),
    }
}

#[test]
fn update_operation_keeps_every_field() {
    let time = taskchampion::chrono::DateTime::from_timestamp(1_700_000_000, 123_456_789).unwrap();
    let op = taskchampion::Operation::Update {
        uuid: taskchampion::Uuid::from_bytes(B),
        property: "description".to_string(),
        old_value: Some("old".to_string()),
        value: None,
        timestamp: time,
    };
    let (statement, record) = add_operation_row(op).unwrap();
    assert_eq!(
        record,
        OperationRecord::Update {
            uuid: B,
            property: "description".to_string(),
            old_value: Some("old".to_string()),
            value: None,
            seconds: 1_700_000_000,
            nanos: 123_456_789,
        }
    );
    match statement {
        Statement::InsertOperation { uuid, data } => {
            assert_eq!(uuid, B);
            assert_eq!(operations_from_rows(&vec![data]).unwrap(), vec![record]);
        }
        other => panic!("unexpected {:?}", other),
    }
}

#[test]
fn operations_from_bad_row_is_database_error() {
    let rows = vec!["\"UndoPoint\"".to_string(), "{".to_string()];
    assert!(matches!(operations_from_rows(&rows), Err(StoreError::Database(_))));
}

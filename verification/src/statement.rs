//! The SQL statements that the storage issues, with their parameters.

use vstd::prelude::*;
use crate::ids::{UuidBytes, uuid_to_blob};

verus! {

/// A parameter bound to a `?` of a statement.
#[derive(Debug, PartialEq, Eq)]
pub enum SqlValue {
    /// An SQL integer.
    Integer(i64),
    /// An SQL text value.
    Text(String),
    /// An SQL blob.
    Blob(Vec<u8>),
}

/// The mathematical value of a parameter.
pub enum ParamView {
    Integer(int),
    Text(Seq<char>),
    Blob(Seq<u8>),
}

impl View for SqlValue {
    type V = ParamView;

    open spec fn view(&self) -> ParamView {
        match self {
            SqlValue::Integer(i) => ParamView::Integer(*i as int),
            SqlValue::Text(s) => ParamView::Text(s@),
            SqlValue::Blob(b) => ParamView::Blob(b@),
        }
    }
}

/// Every statement that the storage sends to the database.
#[derive(Debug, PartialEq, Eq)]
pub enum Statement {
    /// Creates the table of operations, unless it exists.
    CreateOperationsTable,
    /// Creates the table of the working set, unless it exists.
    CreateWorkingSetTable,
    /// Creates the table of tasks, unless it exists.
    CreateTasksTable,
    /// Creates the table of metadata, unless it exists.
    CreateMetaTable,
    /// Counts the stored operations.
    CountOperations,
    /// Appends an operation: the UUID of its task and its JSON text.
    InsertOperation { uuid: UuidBytes, data: String },
    /// Removes the most recently appended operation.
    RemoveLastOperation,
    /// Removes every operation.
    ClearOperations,
    /// Reads the working set, by ascending index.
    SelectWorkingSet,
    /// Reads the highest index of the working set.
    SelectMaxWorkingSetId,
    /// Adds a working-set item at a new index.
    InsertWorkingSetItem { id: i64, uuid: UuidBytes },
    /// Sets the working-set item at an index, replacing what was there.
    ReplaceWorkingSetItem { id: i64, uuid: UuidBytes },
    /// Removes the working-set item at an index.
    DeleteWorkingSetItem { id: i64 },
    /// Removes every working-set item.
    ClearWorkingSet,
    /// Reads the JSON text of a task.
    SelectTaskData { uuid: UuidBytes },
    /// Asks whether a task exists.
    SelectTaskPresence { uuid: UuidBytes },
    /// Adds a task that does not exist yet.
    InsertTask { uuid: UuidBytes, data: String },
    /// Sets a task, replacing what was there.
    ReplaceTask { uuid: UuidBytes, data: String },
    /// Removes a task.
    DeleteTask { uuid: UuidBytes },
    /// Reads every task with its UUID.
    SelectAllTasks,
    /// Reads the UUID of every task.
    SelectAllTaskUuids,
    /// Reads the base version.
    SelectBaseVersion,
    /// Sets the base version, replacing what was there.
    ReplaceBaseVersion { uuid: UuidBytes },
    /// Reads the JSON text of every operation, oldest first.
    SelectOperationData,
}

/// The mathematical value of a statement: its kind and its arguments.
pub enum StatementView {
    CreateOperationsTable,
    CreateWorkingSetTable,
    CreateTasksTable,
    CreateMetaTable,
    CountOperations,
    InsertOperation { uuid: Seq<u8>, data: Seq<char> },
    RemoveLastOperation,
    ClearOperations,
    SelectWorkingSet,
    SelectMaxWorkingSetId,
    InsertWorkingSetItem { id: int, uuid: Seq<u8> },
    ReplaceWorkingSetItem { id: int, uuid: Seq<u8> },
    DeleteWorkingSetItem { id: int },
    ClearWorkingSet,
    SelectTaskData { uuid: Seq<u8> },
    SelectTaskPresence { uuid: Seq<u8> },
    InsertTask { uuid: Seq<u8>, data: Seq<char> },
    ReplaceTask { uuid: Seq<u8>, data: Seq<char> },
    DeleteTask { uuid: Seq<u8> },
    SelectAllTasks,
    SelectAllTaskUuids,
    SelectBaseVersion,
    ReplaceBaseVersion { uuid: Seq<u8> },
    SelectOperationData,
}

impl View for Statement {
    type V = StatementView;

    open spec fn view(&self) -> StatementView {
        match self {
            Statement::CreateOperationsTable => StatementView::CreateOperationsTable,
            Statement::CreateWorkingSetTable => StatementView::CreateWorkingSetTable,
            Statement::CreateTasksTable => StatementView::CreateTasksTable,
            Statement::CreateMetaTable => StatementView::CreateMetaTable,
            Statement::CountOperations => StatementView::CountOperations,
            Statement::InsertOperation { uuid, data } => StatementView::InsertOperation {
                uuid: uuid@,
                data: data@,
            },
            Statement::RemoveLastOperation => StatementView::RemoveLastOperation,
            Statement::ClearOperations => StatementView::ClearOperations,
            Statement::SelectWorkingSet => StatementView::SelectWorkingSet,
            Statement::SelectMaxWorkingSetId => StatementView::SelectMaxWorkingSetId,
            Statement::InsertWorkingSetItem { id, uuid } => StatementView::InsertWorkingSetItem {
                id: *id as int,
                uuid: uuid@,
            },
            Statement::ReplaceWorkingSetItem { id, uuid } => StatementView::ReplaceWorkingSetItem {
                id: *id as int,
                uuid: uuid@,
            },
            Statement::DeleteWorkingSetItem { id } => StatementView::DeleteWorkingSetItem {
                id: *id as int,
            },
            Statement::ClearWorkingSet => StatementView::ClearWorkingSet,
            Statement::SelectTaskData { uuid } => StatementView::SelectTaskData { uuid: uuid@ },
            Statement::SelectTaskPresence { uuid } => StatementView::SelectTaskPresence {
                uuid: uuid@,
            },
            Statement::InsertTask { uuid, data } => StatementView::InsertTask {
                uuid: uuid@,
                data: data@,
            },
            Statement::ReplaceTask { uuid, data } => StatementView::ReplaceTask {
                uuid: uuid@,
                data: data@,
            },
            Statement::DeleteTask { uuid } => StatementView::DeleteTask { uuid: uuid@ },
            Statement::SelectAllTasks => StatementView::SelectAllTasks,
            Statement::SelectAllTaskUuids => StatementView::SelectAllTaskUuids,
            Statement::SelectBaseVersion => StatementView::SelectBaseVersion,
            Statement::ReplaceBaseVersion { uuid } => StatementView::ReplaceBaseVersion {
                uuid: uuid@,
            },
            Statement::SelectOperationData => StatementView::SelectOperationData,
        }
    }
}

/// The SQL text of a statement, with one `?` for each parameter.
pub open spec fn sql_text(s: StatementView) -> Seq<char> {
    match s {
        StatementView::CreateOperationsTable => "CREATE TABLE IF NOT EXISTS operations (id INTEGER PRIMARY KEY AUTOINCREMENT, uuid BLOB NOT NULL, data TEXT NOT NULL, timestamp INTEGER)"@,
        StatementView::CreateWorkingSetTable => "CREATE TABLE IF NOT EXISTS working_set (id INTEGER PRIMARY KEY, uuid BLOB)"@,
        StatementView::CreateTasksTable => "CREATE TABLE IF NOT EXISTS tasks (uuid BLOB PRIMARY KEY, data TEXT)"@,
        StatementView::CreateMetaTable => "CREATE TABLE IF NOT EXISTS meta (key TEXT PRIMARY KEY, value BLOB)"@,
        StatementView::CountOperations => "SELECT count(*) FROM operations"@,
        StatementView::InsertOperation { .. } => "INSERT INTO operations (uuid, data) VALUES (?, ?)"@,
        StatementView::RemoveLastOperation => "DELETE FROM operations WHERE id = (SELECT MAX(id) FROM operations)"@,
        StatementView::ClearOperations => "DELETE FROM operations"@,
        StatementView::SelectWorkingSet => "SELECT id, uuid FROM working_set ORDER BY id ASC"@,
        StatementView::SelectMaxWorkingSetId => "SELECT MAX(id) FROM working_set"@,
        StatementView::InsertWorkingSetItem { .. } => "INSERT INTO working_set (id, uuid) VALUES (?, ?)"@,
        StatementView::ReplaceWorkingSetItem { .. } => "INSERT OR REPLACE INTO working_set (id, uuid) VALUES (?, ?)"@,
        StatementView::DeleteWorkingSetItem { .. } => "DELETE FROM working_set WHERE id = ?"@,
        StatementView::ClearWorkingSet => "DELETE FROM working_set"@,
        StatementView::SelectTaskData { .. } => "SELECT data FROM tasks WHERE uuid = ?"@,
        StatementView::SelectTaskPresence { .. } => "SELECT 1 FROM tasks WHERE uuid = ?"@,
        StatementView::InsertTask { .. } => "INSERT INTO tasks (uuid, data) VALUES (?, ?)"@,
        StatementView::ReplaceTask { .. } => "INSERT OR REPLACE INTO tasks (uuid, data) VALUES (?, ?)"@,
        StatementView::DeleteTask { .. } => "DELETE FROM tasks WHERE uuid = ?"@,
        StatementView::SelectAllTasks => "SELECT uuid, data FROM tasks"@,
        StatementView::SelectAllTaskUuids => "SELECT uuid FROM tasks"@,
        StatementView::SelectBaseVersion => "SELECT value FROM meta WHERE key = 'base_version'"@,
        StatementView::ReplaceBaseVersion { .. } => "INSERT OR REPLACE INTO meta (key, value) VALUES ('base_version', ?)"@,
        StatementView::SelectOperationData => "SELECT data FROM operations ORDER BY id ASC"@,
    }
}

/// The parameters of a statement, in the order of its `?` marks.
pub open spec fn param_values(s: StatementView) -> Seq<ParamView> {
    match s {
        StatementView::InsertOperation { uuid, data } => seq![ParamView::Blob(uuid), ParamView::Text(data)],
        StatementView::InsertWorkingSetItem { id, uuid } => seq![ParamView::Integer(id), ParamView::Blob(uuid)],
        StatementView::ReplaceWorkingSetItem { id, uuid } => seq![ParamView::Integer(id), ParamView::Blob(uuid)],
        StatementView::DeleteWorkingSetItem { id } => seq![ParamView::Integer(id)],
        StatementView::SelectTaskData { uuid } => seq![ParamView::Blob(uuid)],
        StatementView::SelectTaskPresence { uuid } => seq![ParamView::Blob(uuid)],
        StatementView::InsertTask { uuid, data } => seq![ParamView::Blob(uuid), ParamView::Text(data)],
        StatementView::ReplaceTask { uuid, data } => seq![ParamView::Blob(uuid), ParamView::Text(data)],
        StatementView::DeleteTask { uuid } => seq![ParamView::Blob(uuid)],
        StatementView::ReplaceBaseVersion { uuid } => seq![ParamView::Blob(uuid)],
        _ => Seq::empty(),
    }
}

impl Statement {
    /// The SQL text of the statement.
    pub fn sql(&self) -> (res: &'static str)
        ensures
            res@ == sql_text(self@),
    {
        match self {
            Statement::CreateOperationsTable => "CREATE TABLE IF NOT EXISTS operations (id INTEGER PRIMARY KEY AUTOINCREMENT, uuid BLOB NOT NULL, data TEXT NOT NULL, timestamp INTEGER)",
            Statement::CreateWorkingSetTable => "CREATE TABLE IF NOT EXISTS working_set (id INTEGER PRIMARY KEY, uuid BLOB)",
            Statement::CreateTasksTable => "CREATE TABLE IF NOT EXISTS tasks (uuid BLOB PRIMARY KEY, data TEXT)",
            Statement::CreateMetaTable => "CREATE TABLE IF NOT EXISTS meta (key TEXT PRIMARY KEY, value BLOB)",
            Statement::CountOperations => "SELECT count(*) FROM operations",
            Statement::InsertOperation { .. } => "INSERT INTO operations (uuid, data) VALUES (?, ?)",
            Statement::RemoveLastOperation => "DELETE FROM operations WHERE id = (SELECT MAX(id) FROM operations)",
            Statement::ClearOperations => "DELETE FROM operations",
            Statement::SelectWorkingSet => "SELECT id, uuid FROM working_set ORDER BY id ASC",
            Statement::SelectMaxWorkingSetId => "SELECT MAX(id) FROM working_set",
            Statement::InsertWorkingSetItem { .. } => "INSERT INTO working_set (id, uuid) VALUES (?, ?)",
            Statement::ReplaceWorkingSetItem { .. } => "INSERT OR REPLACE INTO working_set (id, uuid) VALUES (?, ?)",
            Statement::DeleteWorkingSetItem { .. } => "DELETE FROM working_set WHERE id = ?",
            Statement::ClearWorkingSet => "DELETE FROM working_set",
            Statement::SelectTaskData { .. } => "SELECT data FROM tasks WHERE uuid = ?",
            Statement::SelectTaskPresence { .. } => "SELECT 1 FROM tasks WHERE uuid = ?",
            Statement::InsertTask { .. } => "INSERT INTO tasks (uuid, data) VALUES (?, ?)",
            Statement::ReplaceTask { .. } => "INSERT OR REPLACE INTO tasks (uuid, data) VALUES (?, ?)",
            Statement::DeleteTask { .. } => "DELETE FROM tasks WHERE uuid = ?",
            Statement::SelectAllTasks => "SELECT uuid, data FROM tasks",
            Statement::SelectAllTaskUuids => "SELECT uuid FROM tasks",
            Statement::SelectBaseVersion => "SELECT value FROM meta WHERE key = 'base_version'",
            Statement::ReplaceBaseVersion { .. } => "INSERT OR REPLACE INTO meta (key, value) VALUES ('base_version', ?)",
            Statement::SelectOperationData => "SELECT data FROM operations ORDER BY id ASC",
        }
    }

    /// The parameters of the statement, in the order of its `?` marks.
    pub fn params(&self) -> (res: Vec<SqlValue>)
        ensures
            res@.map_values(|p: SqlValue| p@) == param_values(self@),
    {
        let mut res: Vec<SqlValue> = Vec::new();
        match self {
            Statement::InsertOperation { uuid, data } => {
                res.push(SqlValue::Blob(uuid_to_blob(uuid)));
                res.push(SqlValue::Text(data.clone()));
            },
            Statement::InsertWorkingSetItem { id, uuid } => {
                res.push(SqlValue::Integer(*id));
                res.push(SqlValue::Blob(uuid_to_blob(uuid)));
            },
            Statement::ReplaceWorkingSetItem { id, uuid } => {
                res.push(SqlValue::Integer(*id));
                res.push(SqlValue::Blob(uuid_to_blob(uuid)));
            },
            Statement::DeleteWorkingSetItem { id } => {
                res.push(SqlValue::Integer(*id));
            },
            Statement::SelectTaskData { uuid } => {
                res.push(SqlValue::Blob(uuid_to_blob(uuid)));
            },
            Statement::SelectTaskPresence { uuid } => {
                res.push(SqlValue::Blob(uuid_to_blob(uuid)));
            },
            Statement::InsertTask { uuid, data } => {
                res.push(SqlValue::Blob(uuid_to_blob(uuid)));
                res.push(SqlValue::Text(data.clone()));
            },
            Statement::ReplaceTask { uuid, data } => {
                res.push(SqlValue::Blob(uuid_to_blob(uuid)));
                res.push(SqlValue::Text(data.clone()));
            },
            Statement::DeleteTask { uuid } => {
                res.push(SqlValue::Blob(uuid_to_blob(uuid)));
            },
            Statement::ReplaceBaseVersion { uuid } => {
                res.push(SqlValue::Blob(uuid_to_blob(uuid)));
            },
            _ => {},
        }
        assert(res@.map_values(|p: SqlValue| p@) =~= param_values(self@));
        res
    }
}

} // verus!

//! The contents of the database that the storage reads and writes, as mathematical values,
//! and what each statement does to them.
//!
//! The four tables are those that opening the storage creates: the log of operations
//! not yet synced, the working set, the tasks, and the metadata row that holds the base
//! version.  `Tables::execute` states the meaning of each `Statement`; the query answers
//! state what each reading statement returns.

use vstd::prelude::*;
use crate::statement::StatementView;

verus! {

/// A row of the `operations` table: the UUID column and the JSON text of the operation.
pub struct OperationRow {
    pub uuid: Seq<u8>,
    pub data: Seq<char>,
}

/// The contents of the storage's tables.
pub struct Tables {
    /// The operations table, oldest row first.
    pub operations: Seq<OperationRow>,
    /// The working-set table: for each index, the UUID blob stored there (which may be NULL).
    pub working_set: Map<int, Option<Seq<u8>>>,
    /// The tasks table: for each UUID blob, the JSON text of the task.
    pub tasks: Map<Seq<u8>, Seq<char>>,
    /// The value of the `base_version` row of the metadata table, if it exists.
    pub base_version: Option<Seq<u8>>,
}

/// The greatest element of a finite, non-empty set of integers.
pub open spec fn greatest(s: Set<int>) -> int {
    choose|m: int| s.contains(m) && forall|k: int| s.contains(k) ==> k <= m
}

/// A finite, non-empty set of integers has a greatest element.
pub proof fn lemma_greatest(s: Set<int>)
    requires
        s.finite(),
        s.len() > 0,
    ensures
        s.contains(greatest(s)),
        forall|k: int| s.contains(k) ==> k <= greatest(s),
    decreases s.len(),
{
    let x = s.choose();
    let r = s.remove(x);
    if r.len() == 0 {
        assert forall|k: int| s.contains(k) implies k <= x by {
            if k != x {
                assert(r.contains(k));
            }
        }
    } else {
        lemma_greatest(r);
        let m = greatest(r);
        let g = if x > m { x } else { m };
        assert forall|k: int| s.contains(k) implies k <= g by {
            if k != x {
                assert(r.contains(k));
            }
        }
        assert(s.contains(g));
    }
}

impl Tables {
    /// The tables of a database in which the storage has just created its schema.
    pub open spec fn fresh() -> Tables {
        Tables {
            operations: Seq::empty(),
            working_set: Map::empty(),
            tasks: Map::empty(),
            base_version: None,
        }
    }

    /// The tables are finite and every working-set index fits in an SQL integer.
    pub open spec fn well_formed(self) -> bool {
        &&& self.working_set.dom().finite()
        &&& self.tasks.dom().finite()
        &&& forall|id: int| #[trigger]
            self.working_set.contains_key(id) ==> i64::MIN <= id <= i64::MAX
    }

    /// What executing a statement leaves in the tables; `None` where the statement fails
    /// because a plain `INSERT` meets an existing key.  Reading statements and the
    /// statements that create tables leave the contents as they are.
    pub open spec fn execute(self, s: StatementView) -> Option<Tables> {
        match s {
            StatementView::InsertOperation { uuid, data } => Some(
                Tables {
                    operations: self.operations.push(OperationRow { uuid, data }),
                    ..self
                },
            ),
            StatementView::RemoveLastOperation => Some(
                Tables {
                    operations: if self.operations.len() == 0 {
                        self.operations
                    } else {
                        self.operations.drop_last()
                    },
                    ..self
                },
            ),
            StatementView::ClearOperations => Some(Tables { operations: Seq::empty(), ..self }),
            StatementView::InsertWorkingSetItem { id, uuid } => if self.working_set.contains_key(
                id,
            ) {
                None
            } else {
                Some(Tables { working_set: self.working_set.insert(id, Some(uuid)), ..self })
            },
            StatementView::ReplaceWorkingSetItem { id, uuid } => Some(
                Tables { working_set: self.working_set.insert(id, Some(uuid)), ..self },
            ),
            StatementView::DeleteWorkingSetItem { id } => Some(
                Tables { working_set: self.working_set.remove(id), ..self },
            ),
            StatementView::ClearWorkingSet => Some(Tables { working_set: Map::empty(), ..self }),
            StatementView::InsertTask { uuid, data } => if self.tasks.contains_key(uuid) {
                None
            } else {
                Some(Tables { tasks: self.tasks.insert(uuid, data), ..self })
            },
            StatementView::ReplaceTask { uuid, data } => Some(
                Tables { tasks: self.tasks.insert(uuid, data), ..self },
            ),
            StatementView::DeleteTask { uuid } => Some(
                Tables { tasks: self.tasks.remove(uuid), ..self },
            ),
            StatementView::ReplaceBaseVersion { uuid } => Some(
                Tables { base_version: Some(uuid), ..self },
            ),
            _ => Some(self),
        }
    }

    /// The number of rows that a `DELETE FROM tasks WHERE uuid = ?` removes.
    pub open spec fn tasks_deleted(self, uuid: Seq<u8>) -> nat {
        if self.tasks.contains_key(uuid) {
            1
        } else {
            0
        }
    }

    /// The answer to `SELECT count(*) FROM operations`.
    pub open spec fn operation_count(self) -> int {
        self.operations.len() as int
    }

    /// The answer to `SELECT MAX(id) FROM working_set`: NULL when the table is empty.
    pub open spec fn max_working_set_id(self) -> Option<int> {
        if self.working_set.dom().len() == 0 {
            None
        } else {
            Some(greatest(self.working_set.dom()))
        }
    }

    /// The answer to `SELECT data FROM tasks WHERE uuid = ?`: the task's text, if it exists.
    pub open spec fn task_data(self, uuid: Seq<u8>) -> Option<Seq<char>> {
        if self.tasks.contains_key(uuid) {
            Some(self.tasks[uuid])
        } else {
            None
        }
    }

    /// The answer to `SELECT 1 FROM tasks WHERE uuid = ?`: whether a row comes back.
    pub open spec fn task_present(self, uuid: Seq<u8>) -> bool {
        self.tasks.contains_key(uuid)
    }

    /// The answer to `SELECT data FROM operations ORDER BY id ASC`.
    pub open spec fn operation_data(self) -> Seq<Seq<char>> {
        self.operations.map_values(|r: OperationRow| r.data)
    }
}

/// The rows `(id, uuid)` list the working-set table: each index once, with its value.
/// `SELECT id, uuid FROM working_set ORDER BY id ASC` returns such a list.
pub open spec fn lists_working_set(
    rows: Seq<(int, Option<Seq<u8>>)>,
    table: Map<int, Option<Seq<u8>>>,
) -> bool {
    &&& forall|a: int, b: int| 0 <= a < b < rows.len() ==> #[trigger] rows[a].0 != #[trigger] rows[b].0
    &&& forall|k: int| 0 <= k < rows.len() ==> #[trigger] table.contains_key(rows[k].0) && table[rows[k].0] == rows[k].1
    &&& forall|id: int| #[trigger] table.contains_key(id) ==> exists|k: int| 0 <= k < rows.len() && #[trigger] rows[k].0 == id
}

/// The rows `(uuid, data)` list the tasks table: each task once, with its text.
/// `SELECT uuid, data FROM tasks` returns such a list, in an undefined order.
pub open spec fn lists_tasks(rows: Seq<(Seq<u8>, Seq<char>)>, table: Map<Seq<u8>, Seq<char>>) -> bool {
    &&& forall|a: int, b: int| 0 <= a < b < rows.len() ==> #[trigger] rows[a].0 != #[trigger] rows[b].0
    &&& forall|k: int| 0 <= k < rows.len() ==> #[trigger] table.contains_key(rows[k].0) && table[rows[k].0] == rows[k].1
    &&& forall|u: Seq<u8>| #[trigger] table.contains_key(u) ==> exists|k: int| 0 <= k < rows.len() && #[trigger] rows[k].0 == u
}

/// The rows list the UUIDs of the tasks table: each task's UUID once.
/// `SELECT uuid FROM tasks` returns such a list, in an undefined order.
pub open spec fn lists_task_uuids(rows: Seq<Seq<u8>>, table: Map<Seq<u8>, Seq<char>>) -> bool {
    &&& forall|a: int, b: int| 0 <= a < b < rows.len() ==> #[trigger] rows[a] != #[trigger] rows[b]
    &&& forall|k: int| 0 <= k < rows.len() ==> #[trigger] table.contains_key(rows[k])
    &&& forall|u: Seq<u8>| #[trigger] table.contains_key(u) ==> exists|k: int| 0 <= k < rows.len() && #[trigger] rows[k] == u
}

/// The SQL text whose meaning over the four tables, in SQLite, is what this module states
/// for each statement: `execute` for the statements that write, and for those that read,
/// the answers above (`operation_count` for the count, `max_working_set_id` for the
/// greatest index, `task_data` for a task's text, `task_present` for its presence,
/// `operation_data` for the log, `base_version` for the metadata row, and rows that
/// `lists_working_set`, `lists_tasks` or `lists_task_uuids` for the listings).  Each `?`
/// stands for a parameter, in the order of `crate::statement::param_values`.
pub open spec fn modelled_sql(s: StatementView) -> Seq<char> {
    match s {
        StatementView::CreateOperationsTable => "CREATE TABLE IF NOT EXISTS operations (id INTEGER PRIMARY KEY AUTOINCREMENT, uuid BLOB NOT NULL, data TEXT NOT NULL, timestamp INTEGER)"@,
        StatementView::CreateWorkingSetTable => "CREATE TABLE IF NOT EXISTS working_set (id INTEGER PRIMARY KEY, uuid BLOB)"@,
        StatementView::CreateTasksTable => "CREATE TABLE IF NOT EXISTS tasks (uuid BLOB PRIMARY KEY, data TEXT)"@,
        StatementView::CreateMetaTable => "CREATE TABLE IF NOT EXISTS meta (key TEXT PRIMARY KEY, value BLOB)"@,
        // One row: the number of stored operations.
        StatementView::CountOperations => "SELECT count(*) FROM operations"@,
        // Appends a row after every stored operation.
        StatementView::InsertOperation { .. } => "INSERT INTO operations (uuid, data) VALUES (?, ?)"@,
        // Removes the row with the greatest id: the newest operation.
        StatementView::RemoveLastOperation => "DELETE FROM operations WHERE id = (SELECT MAX(id) FROM operations)"@,
        StatementView::ClearOperations => "DELETE FROM operations"@,
        // Every row of the working set, each index once.
        StatementView::SelectWorkingSet => "SELECT id, uuid FROM working_set ORDER BY id ASC"@,
        // One row: the greatest index in use, NULL when there is none.
        StatementView::SelectMaxWorkingSetId => "SELECT MAX(id) FROM working_set"@,
        StatementView::InsertWorkingSetItem { .. } => "INSERT INTO working_set (id, uuid) VALUES (?, ?)"@,
        StatementView::ReplaceWorkingSetItem { .. } => "INSERT OR REPLACE INTO working_set (id, uuid) VALUES (?, ?)"@,
        StatementView::DeleteWorkingSetItem { .. } => "DELETE FROM working_set WHERE id = ?"@,
        StatementView::ClearWorkingSet => "DELETE FROM working_set"@,
        // The stored text of the task with that UUID, whatever the text is.
        StatementView::SelectTaskData { .. } => "SELECT data FROM tasks WHERE uuid = ?"@,
        StatementView::SelectTaskPresence { .. } => "SELECT 1 FROM tasks WHERE uuid = ?"@,
        StatementView::InsertTask { .. } => "INSERT INTO tasks (uuid, data) VALUES (?, ?)"@,
        StatementView::ReplaceTask { .. } => "INSERT OR REPLACE INTO tasks (uuid, data) VALUES (?, ?)"@,
        StatementView::DeleteTask { .. } => "DELETE FROM tasks WHERE uuid = ?"@,
        // Every row of the tasks table, with no condition.
        StatementView::SelectAllTasks => "SELECT uuid, data FROM tasks"@,
        StatementView::SelectAllTaskUuids => "SELECT uuid FROM tasks"@,
        StatementView::SelectBaseVersion => "SELECT value FROM meta WHERE key = 'base_version'"@,
        StatementView::ReplaceBaseVersion { .. } => "INSERT OR REPLACE INTO meta (key, value) VALUES ('base_version', ?)"@,
        // Every operation's text, oldest first.
        StatementView::SelectOperationData => "SELECT data FROM operations ORDER BY id ASC"@,
    }
}

} // verus!

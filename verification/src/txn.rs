//! What each storage call computes around the statements it issues: the statement and its
//! parameters, and how the rows that come back become the call's result.

use vstd::prelude::*;
use crate::ids::{UuidBytes, nil_uuid, uuid_of_blob, uuid_from_blob, uuids_equal};
use crate::operation::{OperationRecord, OperationView};
use crate::statement::{Statement, StatementView};
use crate::json::{
    task_map_of_json, parse_task_map, task_map_to_json, json_error_message,
    operation_of_json, parse_operation, operation_to_json,
};
use std::collections::HashMap;
use taskchampion::Operation;

verus! {

/// The error that a storage call reports; the text says what went wrong.
#[derive(Debug)]
pub enum StoreError {
    /// The database, or the data found in it, could not be used.
    Database(String),
}

/// A row of `SELECT id, uuid FROM working_set`.
pub struct WorkingSetRow {
    /// The (one-based) index of the item.
    pub id: i64,
    /// The UUID blob stored at that index, which may be NULL.
    pub uuid: Option<Vec<u8>>,
}

impl View for WorkingSetRow {
    type V = (int, Option<Seq<u8>>);

    open spec fn view(&self) -> (int, Option<Seq<u8>>) {
        (
            self.id as int,
            match self.uuid {
                Some(b) => Some(b@),
                None => None,
            },
        )
    }
}

/// An optional UUID as a mathematical value.
pub open spec fn opt_uuid_view(o: Option<UuidBytes>) -> Option<Seq<u8>> {
    match o {
        Some(u) => Some(u@),
        None => None,
    }
}

/// The value of a count column, where a missing row counts as zero.
pub open spec fn count_of(count: Option<i64>) -> int {
    match count {
        Some(n) => n as int,
        None => 0,
    }
}

/// Whether the storage holds no operation, from the answer to `SELECT count(*) FROM
/// operations` (`None` when no row came back).
pub fn is_empty_from_count(count: Option<i64>) -> (res: bool)
    ensures
        res == (count_of(count) == 0),
{
    let n: i64 = match count {
        Some(n) => n,
        None => 0,
    };
    n == 0
}

/// The number of operations not yet synced, from the answer to `SELECT count(*) FROM
/// operations` (`None` when no row came back).  The count is converted to `usize` as
/// Rust's `as` converts it.
pub fn operation_count(count: Option<i64>) -> (res: usize)
    ensures
        res == (count_of(count) as i64) as usize,
{
    let n: i64 = match count {
        Some(n) => n,
        None => 0,
    };
    n as usize
}

/// The statement that appends an operation, given the operation and its JSON text.  An undo
/// point is stored with sixteen zero bytes in place of a task's UUID.
pub fn add_operation_statement(op: &OperationRecord, data: String) -> (res: Statement)
    ensures
        res@ == (StatementView::InsertOperation { uuid: op@.row_uuid(), data: data@ }),
{
    Statement::InsertOperation { uuid: op.row_uuid(), data }
}

/// One more than the greatest index among the rows, or zero for no rows.
pub open spec fn id_limit(rows: Seq<(int, Option<Seq<u8>>)>) -> int
    decreases rows.len(),
{
    if rows.len() == 0 {
        0
    } else {
        let rest = id_limit(rows.drop_last());
        let here = rows.last().0 + 1;
        if rest < here {
            here
        } else {
            rest
        }
    }
}

/// The UUID at index `i` according to the rows: that of the last row with index `i`, read
/// from its blob (a NULL blob gives `None`), or `None` when no row has index `i`.
pub open spec fn entry_at(rows: Seq<(int, Option<Seq<u8>>)>, i: int) -> Option<Seq<u8>>
    decreases rows.len(),
{
    if rows.len() == 0 {
        None
    } else if rows.last().0 == i {
        match rows.last().1 {
            Some(b) => Some(uuid_of_blob(b)),
            None => None,
        }
    } else {
        entry_at(rows.drop_last(), i)
    }
}

/// The working set that the rows describe: one slot for each index from zero up to the
/// greatest index among the rows (a single slot when there are none); slot zero is always
/// empty, and every other slot holds the UUID that the rows give for its index.
pub open spec fn working_set_of_rows(rows: Seq<(int, Option<Seq<u8>>)>) -> Seq<Option<Seq<u8>>> {
    let len = if id_limit(rows) < 1 {
        1
    } else {
        id_limit(rows)
    };
    Seq::new(len as nat, |i: int| if i == 0 { None } else { entry_at(rows, i) })
}

/// No row gives a UUID at an index at or beyond `id_limit`.
proof fn lemma_entry_beyond_limit(rows: Seq<(int, Option<Seq<u8>>)>, i: int)
    requires
        i >= id_limit(rows),
    ensures
        entry_at(rows, i) is None,
    decreases rows.len(),
{
    if rows.len() > 0 {
        lemma_entry_beyond_limit(rows.drop_last(), i);
    }
}

/// The rows of a working-set query, as mathematical values.
pub open spec fn working_set_rows_view(rows: Seq<WorkingSetRow>) -> Seq<(int, Option<Seq<u8>>)> {
    rows.map_values(|r: WorkingSetRow| r@)
}

/// The working set, from the rows of `SELECT id, uuid FROM working_set ORDER BY id ASC`.
/// Slot zero is always empty; slot `i` holds the UUID stored at index `i`.
pub fn working_set_from_rows(rows: &Vec<WorkingSetRow>) -> (res: Vec<Option<UuidBytes>>)
    requires
        forall|k: int| 0 <= k < rows.len() ==> 0 <= #[trigger] rows@[k].id < usize::MAX,
    ensures
        res@.map_values(|o: Option<UuidBytes>| opt_uuid_view(o)) == working_set_of_rows(
            working_set_rows_view(rows@),
        ),
{
    let ghost all = working_set_rows_view(rows@);
    let mut set: Vec<Option<UuidBytes>> = Vec::new();
    let mut k: usize = 0;
    while k < rows.len()
        invariant
            0 <= k <= rows.len(),
            all == working_set_rows_view(rows@),
            forall|j: int| 0 <= j < rows.len() ==> 0 <= #[trigger] rows@[j].id < usize::MAX,
            set.len() == id_limit(all.take(k as int)),
            forall|i: int| 0 <= i < set.len() ==> opt_uuid_view(#[trigger] set@[i]) == entry_at(all.take(k as int), i),
        decreases rows.len() - k,
    {
        let ghost prefix = all.take(k as int);
        let ghost next = all.take(k + 1);
        assert(next.drop_last() =~= prefix);
        assert(next.last() == rows@[k as int]@);
        let row = &rows[k];
        let uuid: Option<UuidBytes> = match &row.uuid {
            Some(b) => Some(uuid_from_blob(b)),
            None => None,
        };
        let idx: usize = row.id as usize;
        let ghost old_len = set.len();
        while set.len() <= idx
            invariant
                old_len == id_limit(prefix),
                old_len <= set.len(),
                set.len() > old_len ==> set.len() <= idx + 1,
                idx < usize::MAX,
                forall|i: int| 0 <= i < old_len ==> opt_uuid_view(#[trigger] set@[i]) == entry_at(prefix, i),
                forall|i: int| old_len <= i < set.len() ==> #[trigger] set@[i] is None,
            decreases idx + 1 - set.len(),
        {
            set.push(None);
        }
        set[idx] = uuid;
        assert forall|i: int| 0 <= i < set.len() implies opt_uuid_view(#[trigger] set@[i]) == entry_at(next, i) by {
            if i != idx {
                if i >= old_len {
                    lemma_entry_beyond_limit(prefix, i);
                }
            }
        }
        k += 1;
    }
    assert(all.take(rows.len() as int) =~= all);
    if set.len() == 0 {
        set.push(None);
    } else {
        set[0] = None;
    }
    assert(set@.map_values(|o: Option<UuidBytes>| opt_uuid_view(o)) =~= working_set_of_rows(all));
    set
}

/// The index that `add_to_working_set` gives a new item: one more than the greatest index
/// in use, where `max_id` is the answer to `SELECT MAX(id) FROM working_set` (`None` when the
/// table is empty or no value could be read, which counts as zero).
pub open spec fn next_working_set_id(max_id: Option<i64>) -> int {
    count_of(max_id) + 1
}

/// The statement that adds `uuid` to the working set, and the index returned to the
/// caller, given the answer to `SELECT MAX(id) FROM working_set`.
pub fn add_to_working_set_plan(max_id: Option<i64>, uuid: &UuidBytes) -> (res: (Statement, usize))
    requires
        count_of(max_id) < i64::MAX,
    ensures
        res.0@ == (StatementView::InsertWorkingSetItem {
            id: next_working_set_id(max_id),
            uuid: uuid@,
        }),
        res.1 == (next_working_set_id(max_id) as i64) as usize,
{
    let max: i64 = match max_id {
        Some(m) => m,
        None => 0,
    };
    let new_id: i64 = max + 1;
    (Statement::InsertWorkingSetItem { id: new_id, uuid: *uuid }, new_id as usize)
}

/// The statement that sets the working-set item at `index`: a UUID is written over
/// whatever was there, and `None` removes the item.  The index is converted to the SQL
/// integer as Rust's `as` converts it.
pub fn set_working_set_item_statement(index: usize, uuid: Option<UuidBytes>) -> (res: Statement)
    ensures
        res@ == match uuid {
            Some(u) => StatementView::ReplaceWorkingSetItem { id: (index as i64) as int, uuid: u@ },
            None => StatementView::DeleteWorkingSetItem { id: (index as i64) as int },
        },
{
    let id: i64 = index as i64;
    match uuid {
        Some(u) => Statement::ReplaceWorkingSetItem { id, uuid: u },
        None => Statement::DeleteWorkingSetItem { id },
    }
}

/// The UUIDs of the working set's items, in the order of their indexes.
pub open spec fn present_uuids(set: Seq<Option<Seq<u8>>>) -> Seq<Seq<u8>>
    decreases set.len(),
{
    if set.len() == 0 {
        Seq::empty()
    } else {
        let rest = present_uuids(set.drop_last());
        match set.last() {
            Some(u) => rest.push(u),
            None => rest,
        }
    }
}

/// The UUIDs present in a working set, in the order of their indexes; these are the tasks
/// that `get_pending_tasks` looks up.
pub fn pending_task_uuids(set: &Vec<Option<UuidBytes>>) -> (res: Vec<UuidBytes>)
    ensures
        res@.map_values(|u: UuidBytes| u@) == present_uuids(
            set@.map_values(|o: Option<UuidBytes>| opt_uuid_view(o)),
        ),
{
    let ghost all = set@.map_values(|o: Option<UuidBytes>| opt_uuid_view(o));
    let mut res: Vec<UuidBytes> = Vec::new();
    let mut k: usize = 0;
    while k < set.len()
        invariant
            0 <= k <= set.len(),
            all == set@.map_values(|o: Option<UuidBytes>| opt_uuid_view(o)),
            res@.map_values(|u: UuidBytes| u@) == present_uuids(all.take(k as int)),
        decreases set.len() - k,
    {
        assert(all.take(k + 1).drop_last() =~= all.take(k as int));
        match set[k] {
            Some(u) => {
                res.push(u);
                assert(res@.map_values(|u: UuidBytes| u@) =~= present_uuids(all.take(k as int)).push(u@));
            },
            None => {},
        }
        k += 1;
    }
    assert(all.take(set.len() as int) =~= all);
    res
}

/// The pending tasks: each UUID paired with the task found for it, in order, leaving out
/// the UUIDs for which no task was found.
pub open spec fn found_pairs<T>(uuids: Seq<Seq<u8>>, found: Seq<Option<T>>) -> Seq<(Seq<u8>, T)>
    decreases found.len(),
{
    if found.len() == 0 {
        Seq::empty()
    } else {
        let rest = found_pairs(uuids.drop_last(), found.drop_last());
        match found.last() {
            Some(t) => rest.push((uuids[found.len() - 1], t)),
            None => rest,
        }
    }
}

/// Pairs each looked-up UUID with the task found for it, in order, leaving out those for
/// which no task exists; `found[i]` is what looking up `uuids[i]` gave.
pub fn pending_tasks<T>(uuids: &Vec<UuidBytes>, found: Vec<Option<T>>) -> (res: Vec<(UuidBytes, T)>)
    requires
        uuids.len() == found.len(),
    ensures
        res@.map_values(|p: (UuidBytes, T)| (p.0@, p.1)) == found_pairs(
            uuids@.map_values(|u: UuidBytes| u@),
            found@,
        ),
{
    let ghost us = uuids@.map_values(|u: UuidBytes| u@);
    let ghost all = found@;
    let mut rest = found;
    let mut res: Vec<(UuidBytes, T)> = Vec::new();
    let mut k: usize = 0;
    while rest.len() > 0
        invariant
            0 <= k <= uuids.len(),
            uuids.len() == all.len(),
            us == uuids@.map_values(|u: UuidBytes| u@),
            rest@ == all.subrange(k as int, all.len() as int),
            res@.map_values(|p: (UuidBytes, T)| (p.0@, p.1)) == found_pairs(
                us.take(k as int),
                all.take(k as int),
            ),
        decreases rest.len(),
    {
        assert(all.take(k + 1).drop_last() =~= all.take(k as int));
        assert(us.take(k + 1).drop_last() =~= us.take(k as int));
        let f = rest.remove(0);
        assert(f == all[k as int]);
        match f {
            Some(t) => {
                res.push((uuids[k], t));
                assert(res@.map_values(|p: (UuidBytes, T)| (p.0@, p.1)) =~= found_pairs(
                    us.take(k as int),
                    all.take(k as int),
                ).push((us[k as int], t)));
            },
            None => {},
        }
        assert(rest@ =~= all.subrange(k + 1, all.len() as int));
        k += 1;
    }
    assert(all.take(k as int) =~= all);
    assert(us.take(k as int) =~= us);
    res
}

/// Whether `delete_task` removed a task, from the number of rows that its `DELETE` changed.
pub fn task_deleted(changes: u64) -> (res: bool)
    ensures
        res == (changes > 0),
{
    changes > 0
}

/// The task UUIDs, from the blobs of `SELECT uuid FROM tasks`; a blob that is not sixteen
/// bytes long reads as the nil UUID.
pub fn task_uuids_from_rows(rows: &Vec<Vec<u8>>) -> (res: Vec<UuidBytes>)
    ensures
        res@.len() == rows@.len(),
        forall|k: int| 0 <= k < rows@.len() ==> (#[trigger] res@[k])@ == uuid_of_blob(rows@[k]@),
{
    let mut res: Vec<UuidBytes> = Vec::new();
    let mut k: usize = 0;
    while k < rows.len()
        invariant
            0 <= k <= rows.len(),
            res@.len() == k,
            forall|j: int| 0 <= j < k ==> (#[trigger] res@[j])@ == uuid_of_blob(rows@[j]@),
        decreases rows.len() - k,
    {
        res.push(uuid_from_blob(&rows[k]));
        k += 1;
    }
    res
}

/// The base version that the value of its metadata row stands for: the nil UUID when the
/// row does not exist.
pub open spec fn base_version_read(value: Option<Seq<u8>>) -> Seq<u8> {
    match value {
        Some(b) => uuid_of_blob(b),
        None => nil_uuid(),
    }
}

/// The base version, from the value of `SELECT value FROM meta WHERE key = 'base_version'`
/// (`None` when no row came back): the nil UUID when unset.
pub fn base_version_from_value(value: &Option<Vec<u8>>) -> (res: UuidBytes)
    ensures
        res@ == base_version_read(
            match value {
                Some(b) => Some(b@),
                None => None,
            },
        ),
{
    match value {
        Some(b) => uuid_from_blob(b),
        None => {
            let zeros: UuidBytes = [0u8; 16];
            assert(zeros@ =~= nil_uuid());
            zeros
        },
    }
}

/// A row of `SELECT uuid, data FROM tasks`.
pub struct TaskRow {
    /// The UUID blob of the task.
    pub uuid: Vec<u8>,
    /// The JSON text of the task's properties.
    pub data: String,
}

/// The storage error for a JSON text that could not be read or written.
fn json_failure(e: &serde_json::Error) -> (res: StoreError)
    ensures
        res is Database,
{
    StoreError::Database(json_error_message(e))
}

/// What reading a task gives, from the text of the row that came back, if one did: no
/// task without a row, the properties that the text describes, or `None` for an error when
/// the text describes none.
pub open spec fn task_read(data: Option<Seq<char>>) -> Option<Option<Map<String, String>>> {
    match data {
        None => Some(None),
        Some(d) => match task_map_of_json(d) {
            Some(m) => Some(Some(m)),
            None => None,
        },
    }
}

/// An optional task as a mathematical value.
pub open spec fn opt_task_view(o: Option<HashMap<String, String>>) -> Option<Map<String, String>> {
    match o {
        Some(m) => Some(m@),
        None => None,
    }
}

/// The text of an optional row as a mathematical value.
pub open spec fn opt_text_view(o: Option<String>) -> Option<Seq<char>> {
    match o {
        Some(s) => Some(s@),
        None => None,
    }
}

/// The task read back from `SELECT data FROM tasks WHERE uuid = ?`, where `data` is the text
/// of the row that came back, if one did: no task without a row, the task's properties when
/// the text describes them, and an error otherwise.
pub fn task_from_data(data: Option<String>) -> (res: Result<Option<HashMap<String, String>>, StoreError>)
    ensures
        match res {
            Ok(o) => task_read(opt_text_view(data)) == Some(opt_task_view(o)),
            Err(_) => task_read(opt_text_view(data)) is None,
        },
{
    match data {
        None => Ok(None),
        Some(d) => match parse_task_map(d.as_str()) {
            Ok(m) => Ok(Some(m)),
            Err(e) => Err(json_failure(&e)),
        },
    }
}

/// What `create_task` issues, given whether the task exists: nothing when it does, and
/// otherwise the insertion of the task with no properties.
pub open spec fn create_task_view(present: bool, uuid: Seq<u8>) -> Option<StatementView> {
    if present {
        None
    } else {
        Some(StatementView::InsertTask { uuid, data: "{}"@ })
    }
}

/// An optional statement as a mathematical value.
pub open spec fn opt_statement_view(o: Option<Statement>) -> Option<StatementView> {
    match o {
        Some(s) => Some(s@),
        None => None,
    }
}

/// What `create_task` does, given whether `SELECT 1 FROM tasks WHERE uuid = ?` found the
/// task: nothing when it exists (`create_task` then reports `false`), and otherwise the
/// statement that inserts it with no properties (`create_task` then reports `true`).
pub fn create_task_statement(present: bool, uuid: &UuidBytes) -> (res: Result<Option<Statement>, StoreError>)
    ensures
        res matches Ok(o) && opt_statement_view(o) == create_task_view(present, uuid@),
        !present ==> task_read(Some("{}"@)) == Some(Some(Map::<String, String>::empty())),
{
    if present {
        return Ok(None);
    }
    let empty: HashMap<String, String> = HashMap::new();
    match task_map_to_json(&empty) {
        Ok(json) => Ok(Some(Statement::InsertTask { uuid: *uuid, data: json })),
        Err(e) => Err(json_failure(&e)),
    }
}

/// The statement that stores `task` under `uuid`, replacing any task stored there; its
/// text reads back as exactly `task` (and is `{}` for a task with no properties).
pub fn set_task_statement(uuid: &UuidBytes, task: &HashMap<String, String>) -> (res: Result<Statement, StoreError>)
    ensures
        res matches Ok(s) && (s@ matches StatementView::ReplaceTask { uuid: u, data } && u == uuid@
            && task_read(Some(data)) == Some(Some(task@)) && (task@.dom() == Set::<String>::empty()
            ==> data == "{}"@)),
{
    match task_map_to_json(task) {
        Ok(json) => Ok(Statement::ReplaceTask { uuid: *uuid, data: json }),
        Err(e) => Err(json_failure(&e)),
    }
}

/// Every task with its UUID, from the rows of `SELECT uuid, data FROM tasks`, in the order
/// of the rows; an error exactly when some row's text does not describe a task.
pub fn all_tasks_from_rows(rows: &Vec<TaskRow>) -> (res: Result<Vec<(UuidBytes, HashMap<String, String>)>, StoreError>)
    ensures
        match res {
            Ok(v) => {
                &&& v@.len() == rows@.len()
                &&& forall|k: int| 0 <= k < rows@.len() ==> (#[trigger] v@[k]).0@ == uuid_of_blob(rows@[k].uuid@)
                    && task_map_of_json(rows@[k].data@) == Some(v@[k].1@)
            },
            Err(_) => exists|k: int| 0 <= k < rows@.len() && task_map_of_json(#[trigger] rows@[k].data@) is None,
        },
{
    let mut res: Vec<(UuidBytes, HashMap<String, String>)> = Vec::new();
    let mut k: usize = 0;
    while k < rows.len()
        invariant
            0 <= k <= rows.len(),
            res@.len() == k,
            forall|j: int| 0 <= j < k ==> (#[trigger] res@[j]).0@ == uuid_of_blob(rows@[j].uuid@)
                && task_map_of_json(rows@[j].data@) == Some(res@[j].1@),
        decreases rows.len() - k,
    {
        let row = &rows[k];
        let uuid = uuid_from_blob(&row.uuid);
        match parse_task_map(row.data.as_str()) {
            Ok(task) => res.push((uuid, task)),
            Err(e) => {
                assert(task_map_of_json(rows@[k as int].data@) is None);
                return Err(json_failure(&e));
            },
        }
        k += 1;
    }
    Ok(res)
}

/// The statement that appends `op` to the stored operations, and `op` as a record: the
/// statement's text is the operation's JSON, which reads back as exactly that record, and
/// its UUID column holds the operation's task (sixteen zero bytes for an undo point).
pub fn add_operation_row(op: Operation) -> (res: Result<(Statement, OperationRecord), StoreError>)
    ensures
        res matches Ok((s, r)) && (s@ matches StatementView::InsertOperation { uuid, data }
            && uuid == r@.row_uuid() && operation_of_json(data) == Some(r@)),
{
    match operation_to_json(op) {
        Ok((json, record)) => {
            let statement = add_operation_statement(&record, json);
            Ok((statement, record))
        },
        Err(e) => Err(json_failure(&e)),
    }
}

/// The operations that the texts describe, in order, or `None` when some text describes
/// no operation.
pub open spec fn operations_read(texts: Seq<Seq<char>>) -> Option<Seq<OperationView>>
    decreases texts.len(),
{
    if texts.len() == 0 {
        Some(Seq::empty())
    } else {
        match (operations_read(texts.drop_last()), operation_of_json(texts.last())) {
            (Some(v), Some(o)) => Some(v.push(o)),
            _ => None,
        }
    }
}

/// The texts of a query's rows as mathematical values.
pub open spec fn texts_view(rows: Seq<String>) -> Seq<Seq<char>> {
    rows.map_values(|s: String| s@)
}

/// Operations as mathematical values.
pub open spec fn records_view(ops: Seq<OperationRecord>) -> Seq<OperationView> {
    ops.map_values(|r: OperationRecord| r@)
}

/// The texts can all be read exactly when each of them describes an operation; the
/// operations read are then those, in order.
pub proof fn lemma_operations_read(texts: Seq<Seq<char>>)
    ensures
        operations_read(texts) is Some <==> forall|k: int| 0 <= k < texts.len() ==> operation_of_json(#[trigger] texts[k]) is Some,
        operations_read(texts) matches Some(v) ==> v.len() == texts.len() && forall|k: int| 0 <= k < texts.len()
            ==> operation_of_json(#[trigger] texts[k]) == Some(v[k]),
    decreases texts.len(),
{
    if texts.len() > 0 {
        let init = texts.drop_last();
        lemma_operations_read(init);
        assert forall|k: int| 0 <= k < init.len() implies init[k] == texts[k] by {}
        if operations_read(texts) is None {
            if forall|k: int| 0 <= k < texts.len() ==> operation_of_json(#[trigger] texts[k]) is Some {
                assert(operation_of_json(texts[texts.len() - 1]) is Some);
                assert forall|k: int| 0 <= k < init.len() implies operation_of_json(#[trigger] init[k]) is Some by {
                    assert(init[k] == texts[k]);
                }
            }
        }
    }
}

/// The operations read back from the texts of `SELECT data FROM operations ORDER BY id
/// ASC`: the operations that the texts describe, oldest first; an error exactly when some
/// text describes no operation.
pub fn operations_from_rows(rows: &Vec<String>) -> (res: Result<Vec<OperationRecord>, StoreError>)
    ensures
        match res {
            Ok(ops) => operations_read(texts_view(rows@)) == Some(records_view(ops@)),
            Err(_) => operations_read(texts_view(rows@)) is None,
        },
{
    let ghost texts = texts_view(rows@);
    let mut ops: Vec<OperationRecord> = Vec::new();
    let mut k: usize = 0;
    while k < rows.len()
        invariant
            0 <= k <= rows.len(),
            texts == texts_view(rows@),
            operations_read(texts.take(k as int)) == Some(records_view(ops@)),
        decreases rows.len() - k,
    {
        assert(texts.take(k + 1).drop_last() =~= texts.take(k as int));
        assert(texts.take(k + 1).last() == rows@[k as int]@);
        match parse_operation(rows[k].as_str()) {
            Ok(op) => {
                ops.push(op);
                assert(records_view(ops@) =~= records_view(ops@.drop_last()).push(op@));
            },
            Err(e) => {
                proof {
                    lemma_operations_read(texts);
                    assert(texts[k as int] == rows@[k as int]@);
                }
                return Err(json_failure(&e));
            },
        }
        k += 1;
    }
    assert(texts.take(rows.len() as int) =~= texts);
    Ok(ops)
}

/// The operations, in order, that concern the task `uuid`.
pub open spec fn operations_of_task(ops: Seq<OperationView>, uuid: Seq<u8>) -> Seq<OperationView> {
    ops.filter(|o: OperationView| o.task() == Some(uuid))
}

/// The operations among `ops` that concern the task `uuid`, in their order.
pub fn task_operations(ops: Vec<OperationRecord>, uuid: &UuidBytes) -> (res: Vec<OperationRecord>)
    ensures
        records_view(res@) == operations_of_task(records_view(ops@), uuid@),
{
    let ghost all = ops@;
    let ghost pred = |o: OperationView| o.task() == Some(uuid@);
    let n: usize = ops.len();
    let mut rest = ops;
    let mut res: Vec<OperationRecord> = Vec::new();
    let mut k: usize = 0;
    while rest.len() > 0
        invariant
            0 <= k <= all.len(),
            all.len() == n,
            rest@ == all.subrange(k as int, all.len() as int),
            k + rest@.len() == all.len(),
            pred == (|o: OperationView| o.task() == Some(uuid@)),
            records_view(res@) == records_view(all.take(k as int)).filter(pred),
        decreases rest.len(),
    {
        let ghost before = records_view(all.take(k as int));
        let ghost after = records_view(all.take(k + 1));
        assert(after.drop_last() =~= before);
        assert(after.last() == all[k as int]@);
        let op = rest.remove(0);
        assert(op == all[k as int]);
        let keep = match op.task_uuid() {
            Some(u) => uuids_equal(&u, uuid),
            None => false,
        };
        proof {
            reveal_with_fuel(Seq::<_>::filter, 1);
        }
        if keep {
            res.push(op);
            assert(records_view(res@) =~= before.filter(pred).push(op@));
        } else {
            assert(after.filter(pred) == before.filter(pred));
        }
        assert(rest@ =~= all.subrange(k + 1, all.len() as int));
        k += 1;
    }
    assert(all.take(k as int) =~= all);
    res
}

} // verus!

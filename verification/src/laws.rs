//! Properties of the storage as a whole: what a later call reads of what an earlier call
//! wrote, stated over the tables of `crate::tables` and the results that the functions of
//! `crate::txn` and `crate::open` compute.

use vstd::prelude::*;
use crate::ids::{nil_uuid, uuid_of_blob};
use crate::operation::OperationView;
use crate::json::operation_of_json;
use crate::statement::{StatementView, sql_text};
use crate::tables::{Tables, OperationRow, modelled_sql, lists_working_set, lists_tasks, lists_task_uuids, greatest, lemma_greatest};
use crate::txn::{
    count_of, id_limit, entry_at, working_set_of_rows, next_working_set_id, create_task_view,
    task_read, base_version_read, present_uuids, found_pairs, operations_read, operations_of_task,
};
use crate::open::{OpenPhase, OpenActionView, StepOutcome, open_transition, open_first, schema_view, SCHEMA_STATEMENTS};
use crate::config::{TursoConfig, ConfigError, config_error};

verus! {

/// The answer to `SELECT count(*) FROM operations` as the storage receives it.
pub open spec fn count_answer(t: Tables) -> Option<i64> {
    Some(t.operation_count() as i64)
}

/// The answer to `SELECT MAX(id) FROM working_set` as the storage receives it.
pub open spec fn max_id_answer(t: Tables) -> Option<i64> {
    match t.max_working_set_id() {
        Some(m) => Some(m as i64),
        None => None,
    }
}

/// Every working-set index is at least zero.
pub open spec fn indexes_not_negative(table: Map<int, Option<Seq<u8>>>) -> bool {
    forall|id: int| #[trigger] table.contains_key(id) ==> id >= 0
}

/// The working set that a working-set table holds: one slot for each index from zero up to
/// the greatest index in use (a single slot when there is none); slot zero is empty, and
/// slot `i` holds the UUID stored at index `i`, if any.
pub open spec fn working_set_of_table(table: Map<int, Option<Seq<u8>>>) -> Seq<Option<Seq<u8>>> {
    let len = if table.dom().len() == 0 {
        1
    } else {
        greatest(table.dom()) + 1
    };
    Seq::new(
        len as nat,
        |i: int|
            if i == 0 {
                None
            } else if table.contains_key(i) {
                match table[i] {
                    Some(b) => Some(uuid_of_blob(b)),
                    None => None,
                }
            } else {
                None
            },
    )
}

/// `is_empty` is true exactly when no operation is stored, and `num_unsynced_operations`
/// is the number of stored operations.
pub proof fn law_count_reports_operations(t: Tables)
    requires
        t.operations.len() <= i64::MAX,
        t.operations.len() <= usize::MAX,
    ensures
        (count_of(count_answer(t)) == 0) <==> t.operations.len() == 0,
        ((count_of(count_answer(t)) as i64) as usize) == t.operations.len(),
{
}

/// `add_operation` appends the operation after all stored ones, so one more operation is
/// counted and the storage is no longer empty; the operations read back are the earlier
/// ones followed by the new one.
pub proof fn law_add_operation_appends(t: Tables, op: OperationView, data: Seq<char>)
    requires
        t.operations.len() < i64::MAX,
    ensures
        t.execute(StatementView::InsertOperation { uuid: op.row_uuid(), data }) matches Some(t2) && {
            &&& t2.operations == t.operations.push(OperationRow { uuid: op.row_uuid(), data })
            &&& count_of(count_answer(t2)) == count_of(count_answer(t)) + 1
            &&& count_of(count_answer(t2)) != 0
            &&& t2.operation_data() == t.operation_data().push(data)
        },
{
    let t2 = t.execute(StatementView::InsertOperation { uuid: op.row_uuid(), data }).unwrap();
    assert(t2.operation_data() =~= t.operation_data().push(data));
}

/// `remove_operation` removes the most recently added operation.
pub proof fn law_remove_operation_drops_newest(t: Tables)
    ensures
        t.execute(StatementView::RemoveLastOperation) matches Some(t2) && t2.operations == (
        if t.operations.len() == 0 {
            t.operations
        } else {
            t.operations.drop_last()
        }),
{
}

/// After `add_operation` and then `remove_operation`, the operations are as before.
pub proof fn law_remove_undoes_add(t: Tables, op: OperationView, data: Seq<char>)
    ensures
        t.execute(StatementView::InsertOperation { uuid: op.row_uuid(), data }) matches Some(t2)
            && t2.execute(StatementView::RemoveLastOperation) matches Some(t3) && t3 == t,
{
    let t2 = t.execute(StatementView::InsertOperation { uuid: op.row_uuid(), data }).unwrap();
    let t3 = t2.execute(StatementView::RemoveLastOperation).unwrap();
    assert(t3.operations =~= t.operations);
}

/// After `sync_complete` no operation is left: the storage counts none and is empty.
pub proof fn law_sync_complete_empties(t: Tables)
    ensures
        t.execute(StatementView::ClearOperations) matches Some(t2) && t2.operations.len() == 0
            && count_of(count_answer(t2)) == 0,
{
}

/// The greatest index among the rows bounds every row's index.
proof fn lemma_id_limit_bounds(rows: Seq<(int, Option<Seq<u8>>)>, k: int)
    requires
        0 <= k < rows.len(),
    ensures
        rows[k].0 + 1 <= id_limit(rows),
    decreases rows.len(),
{
    if k < rows.len() - 1 {
        lemma_id_limit_bounds(rows.drop_last(), k);
        assert(rows.drop_last()[k] == rows[k]);
    }
}

/// Some row attains the greatest index.
proof fn lemma_id_limit_attained(rows: Seq<(int, Option<Seq<u8>>)>)
    requires
        rows.len() > 0,
        forall|k: int| 0 <= k < rows.len() ==> #[trigger] rows[k].0 >= 0,
    ensures
        exists|k: int| 0 <= k < rows.len() && id_limit(rows) == #[trigger] rows[k].0 + 1,
    decreases rows.len(),
{
    if rows.len() == 1 {
        assert(rows.drop_last().len() == 0);
        assert(id_limit(rows) == rows[0].0 + 1);
    } else {
        assert forall|k: int| 0 <= k < rows.drop_last().len() implies #[trigger] rows.drop_last()[k].0 >= 0 by {
            assert(rows.drop_last()[k] == rows[k]);
        }
        lemma_id_limit_attained(rows.drop_last());
        let k = choose|k: int| 0 <= k < rows.drop_last().len() && id_limit(rows.drop_last()) == #[trigger] rows.drop_last()[k].0 + 1;
        assert(rows.drop_last()[k] == rows[k]);
        if id_limit(rows) == rows.last().0 + 1 {
            assert(id_limit(rows) == rows[rows.len() - 1].0 + 1);
        } else {
            assert(id_limit(rows) == rows[k].0 + 1);
        }
    }
}

/// With each index on at most one row, the UUID at index `i` is that of the row with index
/// `i`, and there is none when no row has index `i`.
proof fn lemma_entry_of_unique_rows(rows: Seq<(int, Option<Seq<u8>>)>, i: int)
    requires
        forall|a: int, b: int| 0 <= a < b < rows.len() ==> #[trigger] rows[a].0 != #[trigger] rows[b].0,
    ensures
        forall|k: int| 0 <= k < rows.len() && #[trigger] rows[k].0 == i ==> entry_at(rows, i) == match rows[k].1 {
            Some(b) => Some(uuid_of_blob(b)),
            None => None,
        },
        (forall|k: int| 0 <= k < rows.len() ==> #[trigger] rows[k].0 != i) ==> entry_at(rows, i) is None,
    decreases rows.len(),
{
    if rows.len() > 0 {
        let init = rows.drop_last();
        assert forall|a: int, b: int| 0 <= a < b < init.len() implies #[trigger] init[a].0 != #[trigger] init[b].0 by {
            assert(init[a] == rows[a]);
            assert(init[b] == rows[b]);
        }
        lemma_entry_of_unique_rows(init, i);
        assert forall|k: int| 0 <= k < rows.len() && #[trigger] rows[k].0 == i implies entry_at(rows, i) == match rows[k].1 {
            Some(b) => Some(uuid_of_blob(b)),
            None => None,
        } by {
            if k < rows.len() - 1 {
                assert(rows[k] == init[k]);
                assert(rows[k].0 != rows[rows.len() - 1].0);
            }
        }
        if forall|k: int| 0 <= k < rows.len() ==> #[trigger] rows[k].0 != i {
            assert forall|k: int| 0 <= k < init.len() implies #[trigger] init[k].0 != i by {
                assert(init[k] == rows[k]);
            }
            assert(rows[rows.len() - 1].0 != i);
        }
    }
}

/// `get_working_set` reads the working-set table faithfully: for rows that list the table,
/// the working set computed from them is the one that the table holds.  In particular slot
/// zero is always empty and there is always at least one slot.
pub proof fn law_working_set_reads_table(rows: Seq<(int, Option<Seq<u8>>)>, table: Map<int, Option<Seq<u8>>>)
    requires
        lists_working_set(rows, table),
        table.dom().finite(),
        indexes_not_negative(table),
    ensures
        working_set_of_rows(rows) == working_set_of_table(table),
        working_set_of_rows(rows).len() >= 1,
        working_set_of_rows(rows)[0] is None,
{
    let a = working_set_of_rows(rows);
    let b = working_set_of_table(table);
    if rows.len() == 0 {
        assert(table.dom() =~= Set::<int>::empty()) by {
            assert forall|id: int| !table.contains_key(id) by {
                if table.contains_key(id) {
                    let k = choose|k: int| 0 <= k < rows.len() && #[trigger] rows[k].0 == id;
                }
            }
        }
        assert(id_limit(rows) == 0);
    } else {
        assert(table.contains_key(rows[0].0));
        assert(table.dom().contains(rows[0].0));
        assert(table.dom().len() > 0);
        lemma_greatest(table.dom());
        let g = greatest(table.dom());
        assert forall|k: int| 0 <= k < rows.len() implies #[trigger] rows[k].0 >= 0 by {
            assert(table.contains_key(rows[k].0));
        }
        lemma_id_limit_attained(rows);
        let k0 = choose|k: int| 0 <= k < rows.len() && id_limit(rows) == #[trigger] rows[k].0 + 1;
        assert(table.contains_key(rows[k0].0));
        let k1 = choose|k: int| 0 <= k < rows.len() && #[trigger] rows[k].0 == g;
        lemma_id_limit_bounds(rows, k1);
        assert(id_limit(rows) == g + 1);
        assert(g >= 0);
    }
    assert(a.len() == b.len());
    assert forall|i: int| 0 <= i < a.len() implies a[i] == b[i] by {
        if i != 0 {
            lemma_entry_of_unique_rows(rows, i);
            if table.contains_key(i) {
                let k = choose|k: int| 0 <= k < rows.len() && #[trigger] rows[k].0 == i;
                assert(table[rows[k].0] == rows[k].1);
            } else {
                assert forall|k: int| 0 <= k < rows.len() implies #[trigger] rows[k].0 != i by {
                    assert(table.contains_key(rows[k].0));
                }
            }
        }
    }
    assert(a =~= b);
}

/// `add_to_working_set` gives the new item the index one greater than the highest index in
/// use (one, in an empty working set), the insertion succeeds, and the new index is then
/// the highest in use.  Where no index is negative, the new index is at least one and the
/// working set read afterwards holds the UUID at that index as its last slot, with every
/// earlier slot as before.
pub proof fn law_add_to_working_set(t: Tables, uuid: Seq<u8>)
    requires
        t.well_formed(),
        count_of(max_id_answer(t)) < i64::MAX,
        uuid.len() == 16,
    ensures
        ({
            let id = next_working_set_id(max_id_answer(t));
            &&& !t.working_set.contains_key(id)
            &&& t.execute(StatementView::InsertWorkingSetItem { id, uuid }) matches Some(t2) && {
                &&& t2.well_formed()
                &&& t2.working_set == t.working_set.insert(id, Some(uuid))
                &&& t2.max_working_set_id() == Some(id)
                &&& indexes_not_negative(t.working_set) ==> {
                    &&& id >= 1
                    &&& indexes_not_negative(t2.working_set)
                    &&& working_set_of_table(t2.working_set).len() == id + 1
                    &&& working_set_of_table(t2.working_set)[id] == Some(uuid)
                    &&& forall|i: int| 0 <= i < working_set_of_table(t.working_set).len() ==> #[trigger] working_set_of_table(t2.working_set)[i]
                        == working_set_of_table(t.working_set)[i]
                }
            }
        }),
{
    let w = t.working_set;
    let id = next_working_set_id(max_id_answer(t));
    if w.dom().len() == 0 {
        assert(id == 1);
        assert(!w.contains_key(id));
    } else {
        lemma_greatest(w.dom());
        let g = greatest(w.dom());
        assert(w.contains_key(g));
        assert(i64::MIN <= g <= i64::MAX);
        assert((g as i64) as int == g);
        assert(id == g + 1);
        if w.contains_key(id) {
            assert(id <= g);
        }
    }
    let t2 = t.execute(StatementView::InsertWorkingSetItem { id, uuid }).unwrap();
    let w2 = t2.working_set;
    assert(w2 == w.insert(id, Some(uuid)));
    assert(w2.dom() == w.dom().insert(id));
    assert(w2.dom().len() > 0);
    lemma_greatest(w2.dom());
    let g2 = greatest(w2.dom());
    assert(w2.contains_key(id));
    assert(id <= g2);
    if w.dom().len() == 0 {
        assert(w2.dom().contains(g2));
        assert(g2 == id);
    } else {
        lemma_greatest(w.dom());
        let g = greatest(w.dom());
        if g2 != id {
            assert(w.contains_key(g2));
            assert(g2 <= g);
        }
        assert(g2 == id);
    }
    assert(t2.max_working_set_id() == Some(id));
    assert(i64::MIN <= id <= i64::MAX);
    if indexes_not_negative(w) {
        if w.dom().len() > 0 {
            lemma_greatest(w.dom());
            assert(w.contains_key(greatest(w.dom())));
        }
        assert(id >= 1);
        assert(working_set_of_table(w2).len() == id + 1);
        assert(working_set_of_table(w2)[id] == Some(uuid_of_blob(uuid)));
        assert forall|i: int| 0 <= i < working_set_of_table(w).len() implies #[trigger] working_set_of_table(w2)[i]
            == working_set_of_table(w)[i] by {
            if w.dom().len() > 0 {
                lemma_greatest(w.dom());
            }
            assert(i < id);
        }
    }
}

/// After `set_working_set_item` with a UUID, the working set read afterwards holds that UUID
/// at the index; after it with `None`, that slot is empty or beyond the end.  No other index
/// of the table changes.
pub proof fn law_set_working_set_item(t: Tables, index: int, uuid: Option<Seq<u8>>)
    requires
        t.well_formed(),
        indexes_not_negative(t.working_set),
        1 <= index <= i64::MAX,
        uuid matches Some(u) ==> u.len() == 16,
    ensures
        ({
            let s = match uuid {
                Some(u) => StatementView::ReplaceWorkingSetItem { id: index, uuid: u },
                None => StatementView::DeleteWorkingSetItem { id: index },
            };
            t.execute(s) matches Some(t2) && {
                &&& t2.well_formed()
                &&& indexes_not_negative(t2.working_set)
                &&& (uuid is Some ==> index < working_set_of_table(t2.working_set).len()
                    && working_set_of_table(t2.working_set)[index] == uuid)
                &&& (uuid is None ==> index >= working_set_of_table(t2.working_set).len()
                    || working_set_of_table(t2.working_set)[index] is None)
                &&& forall|i: int| i != index ==> #[trigger] t2.working_set.contains_key(i)
                    == t.working_set.contains_key(i) && (t.working_set.contains_key(i)
                    ==> t2.working_set[i] == t.working_set[i])
            }
        }),
{
    let s = match uuid {
        Some(u) => StatementView::ReplaceWorkingSetItem { id: index, uuid: u },
        None => StatementView::DeleteWorkingSetItem { id: index },
    };
    let t2 = t.execute(s).unwrap();
    let w2 = t2.working_set;
    if let Some(u) = uuid {
        assert(w2.dom() == t.working_set.dom().insert(index));
        assert(w2.contains_key(index));
        lemma_greatest(w2.dom());
        assert(index <= greatest(w2.dom()));
        assert(working_set_of_table(w2)[index] == Some(uuid_of_blob(u)));
    } else {
        assert(w2.dom() == t.working_set.dom().remove(index));
        assert(!w2.contains_key(index));
    }
}

/// After `clear_working_set` the working set read is a single empty slot.
pub proof fn law_clear_working_set(t: Tables)
    ensures
        t.execute(StatementView::ClearWorkingSet) matches Some(t2) && working_set_of_table(
            t2.working_set,
        ) == seq![None::<Seq<u8>>],
{
    let t2 = t.execute(StatementView::ClearWorkingSet).unwrap();
    assert(t2.working_set.dom() =~= Set::<int>::empty());
    assert(working_set_of_table(t2.working_set) =~= seq![None::<Seq<u8>>]);
}

/// `create_task` creates a task only if it does not exist: the first call on a new UUID
/// inserts it with no properties (and reports `true`), and a second call then issues
/// nothing (and reports `false`); the task then reads back as the empty JSON object.
pub proof fn law_create_task_once(t: Tables, uuid: Seq<u8>)
    ensures
        t.task_present(uuid) ==> create_task_view(t.task_present(uuid), uuid) is None,
        !t.task_present(uuid) ==> (create_task_view(t.task_present(uuid), uuid) matches Some(s)
            && t.execute(s) matches Some(t2) && t2.task_present(uuid) && create_task_view(
            t2.task_present(uuid),
            uuid,
        ) is None && t2.task_data(uuid) == Some("{}"@)),
{
}

/// What `set_task` stores is what `get_task` then reads: for a text written for `task` (one
/// that reads back as `task`, as every text that `set_task_statement` produces does), the
/// task read back is `task`, and no other task changes.
pub proof fn law_get_task_reads_set_task(t: Tables, uuid: Seq<u8>, data: Seq<char>, task: Map<String, String>)
    requires
        task_read(Some(data)) == Some(Some(task)),
    ensures
        t.execute(StatementView::ReplaceTask { uuid, data }) matches Some(t2) && {
            &&& t2.task_data(uuid) == Some(data)
            &&& task_read(t2.task_data(uuid)) == Some(Some(task))
            &&& forall|u: Seq<u8>| u != uuid ==> #[trigger] t2.task_data(u) == t.task_data(u)
        },
{
}

/// `delete_task` reports `true` exactly when the task existed, and afterwards `get_task`
/// finds no task.
pub proof fn law_delete_task(t: Tables, uuid: Seq<u8>)
    ensures
        (t.tasks_deleted(uuid) > 0) == t.task_present(uuid),
        t.execute(StatementView::DeleteTask { uuid }) matches Some(t2) && t2.task_data(uuid) is None
            && !t2.task_present(uuid) && task_read(t2.task_data(uuid)) == Some(
            None::<Map<String, String>>,
        ),
{
}

/// The base version is the nil UUID until one is set, and then it is the one set last.
pub proof fn law_base_version(t: Tables, uuid: Seq<u8>)
    requires
        uuid.len() == 16,
    ensures
        base_version_read(Tables::fresh().base_version) == nil_uuid(),
        t.execute(StatementView::ReplaceBaseVersion { uuid }) matches Some(t2) && base_version_read(
            t2.base_version,
        ) == uuid,
{
}

/// `get_task_operations` selects exactly the stored operations that concern the task, in
/// the order in which they were stored, and no more of them than are stored.
pub proof fn law_task_operations_select_the_task(ops: Seq<OperationView>, uuid: Seq<u8>)
    ensures
        forall|o: OperationView| #[trigger] operations_of_task(ops, uuid).contains(o) <==> ops.contains(o)
            && o.task() == Some(uuid),
        operations_of_task(ops, uuid).len() <= ops.len(),
{
    let pred = |o: OperationView| o.task() == Some(uuid);
    #[allow(deprecated)]
    ops.filter_lemma(pred);
    assert forall|o: OperationView| #[trigger] operations_of_task(ops, uuid).contains(o) <==> ops.contains(o)
        && o.task() == Some(uuid) by {
        if operations_of_task(ops, uuid).contains(o) {
            ops.lemma_filter_contains_rev(pred, o);
            let j = choose|j: int| 0 <= j < ops.filter(pred).len() && ops.filter(pred)[j] == o;
            assert(pred(ops.filter(pred)[j]));
        }
        if ops.contains(o) && o.task() == Some(uuid) {
            let i = choose|i: int| 0 <= i < ops.len() && ops[i] == o;
            assert(ops.filter(pred).contains(ops[i]));
        }
    }
}

/// An operation that `add_operation` appends reads back equal, in last place, after every
/// operation stored before it: for the text written for the operation (one that reads back
/// as it, as `add_operation_row` ensures), the operations read from the log afterwards are
/// those read before, followed by this one.
pub proof fn law_appended_operation_reads_back(t: Tables, op: OperationView, data: Seq<char>)
    requires
        operation_of_json(data) == Some(op),
    ensures
        t.execute(StatementView::InsertOperation { uuid: op.row_uuid(), data }) matches Some(t2) && match operations_read(
            t.operation_data(),
        ) {
            Some(before) => operations_read(t2.operation_data()) == Some(before.push(op)),
            None => operations_read(t2.operation_data()) is None,
        },
{
    let t2 = t.execute(StatementView::InsertOperation { uuid: op.row_uuid(), data }).unwrap();
    assert(t2.operation_data() =~= t.operation_data().push(data));
    assert(t2.operation_data().drop_last() =~= t.operation_data());
}

/// The phase and the actions of opening a configuration after the caller has reported
/// these outcomes, one for each action so far.
pub open spec fn open_run(config: TursoConfig, outcomes: Seq<StepOutcome>) -> (OpenPhase, Seq<OpenActionView>)
    decreases outcomes.len(),
{
    if outcomes.len() == 0 {
        (open_first(config).0, seq![open_first(config).1])
    } else {
        let (phase, actions) = open_run(config, outcomes.drop_last());
        let (next, action) = open_transition(phase, outcomes.last());
        (next, actions.push(action))
    }
}

/// Opening goes on to connect whatever the sync's outcome: a failed sync never makes
/// opening fail.
pub proof fn law_sync_outcome_is_ignored(outcome: StepOutcome)
    ensures
        open_transition(OpenPhase::Syncing, outcome) == (OpenPhase::Connecting, OpenActionView::Connect),
{
}

/// Once opening has failed or finished, it stays so.
pub proof fn law_open_ends_stay(outcome: StepOutcome)
    ensures
        open_transition(OpenPhase::Failed, outcome) == (OpenPhase::Failed, OpenActionView::Fail),
        open_transition(OpenPhase::Ready, outcome) == (OpenPhase::Ready, OpenActionView::Finish),
{
}

/// For a configuration that is not refused, opening ends ready exactly when building,
/// connecting and the four table creations all succeed, whatever the sync's outcome; it then has built, synced, connected, created the
/// operations, working-set, tasks and metadata tables in that order, and finished.
pub proof fn law_open_succeeds_exactly_when_steps_succeed(config: TursoConfig, outcomes: Seq<StepOutcome>)
    requires
        config_error(config) is None,
        outcomes.len() == 7,
    ensures
        (open_run(config, outcomes).0 == OpenPhase::Ready) <==> (outcomes[0] == StepOutcome::Succeeded
            && forall|i: int| 2 <= i < 7 ==> #[trigger] outcomes[i] == StepOutcome::Succeeded),
        open_run(config, outcomes).0 == OpenPhase::Ready ==> open_run(config, outcomes).1 == seq![
            OpenActionView::Build,
            OpenActionView::Sync,
            OpenActionView::Connect,
            OpenActionView::Execute(StatementView::CreateOperationsTable),
            OpenActionView::Execute(StatementView::CreateWorkingSetTable),
            OpenActionView::Execute(StatementView::CreateTasksTable),
            OpenActionView::Execute(StatementView::CreateMetaTable),
            OpenActionView::Finish,
        ],
{
    let o = outcomes;
    assert(o.take(0).len() == 0);
    let r0 = open_run(config, o.take(0));
    let r1 = open_run(config, o.take(1));
    assert(o.take(1).drop_last() =~= o.take(0));
    let r2 = open_run(config, o.take(2));
    assert(o.take(2).drop_last() =~= o.take(1));
    let r3 = open_run(config, o.take(3));
    assert(o.take(3).drop_last() =~= o.take(2));
    let r4 = open_run(config, o.take(4));
    assert(o.take(4).drop_last() =~= o.take(3));
    let r5 = open_run(config, o.take(5));
    assert(o.take(5).drop_last() =~= o.take(4));
    let r6 = open_run(config, o.take(6));
    assert(o.take(6).drop_last() =~= o.take(5));
    let r7 = open_run(config, o.take(7));
    assert(o.take(7).drop_last() =~= o.take(6));
    assert(o.take(7) =~= o);
    if open_run(config, o).0 == OpenPhase::Ready {
        assert(r1.0 != OpenPhase::Failed);
        assert(open_run(config, o).1 =~= seq![
            OpenActionView::Build,
            OpenActionView::Sync,
            OpenActionView::Connect,
            OpenActionView::Execute(StatementView::CreateOperationsTable),
            OpenActionView::Execute(StatementView::CreateWorkingSetTable),
            OpenActionView::Execute(StatementView::CreateTasksTable),
            OpenActionView::Execute(StatementView::CreateMetaTable),
            OpenActionView::Finish,
        ]);
    }
}

/// `get_pending_tasks` looks up exactly the UUIDs that the working set holds.
pub proof fn law_pending_lookups_are_working_set_uuids(set: Seq<Option<Seq<u8>>>)
    ensures
        forall|u: Seq<u8>| #[trigger] present_uuids(set).contains(u) <==> exists|i: int| 0 <= i < set.len()
            && #[trigger] set[i] == Some(u),
    decreases set.len(),
{
    if set.len() > 0 {
        let init = set.drop_last();
        law_pending_lookups_are_working_set_uuids(init);
        assert forall|u: Seq<u8>| #[trigger] present_uuids(set).contains(u) <==> exists|i: int| 0 <= i < set.len()
            && #[trigger] set[i] == Some(u) by {
            if present_uuids(set).contains(u) {
                if present_uuids(init).contains(u) {
                    let i = choose|i: int| 0 <= i < init.len() && #[trigger] init[i] == Some(u);
                    assert(set[i] == init[i]);
                } else {
                    let p = present_uuids(init);
                    let j = choose|j: int| 0 <= j < present_uuids(set).len() && present_uuids(set)[j] == u;
                    assert(set.last() == Some(u)) by {
                        if set.last() is None {
                            assert(present_uuids(set) == p);
                        } else {
                            if j < p.len() {
                                assert(p.contains(u));
                            }
                        }
                    }
                    assert(set[set.len() - 1] == Some(u));
                }
            }
            if exists|i: int| 0 <= i < set.len() && #[trigger] set[i] == Some(u) {
                let i = choose|i: int| 0 <= i < set.len() && #[trigger] set[i] == Some(u);
                if i < set.len() - 1 {
                    assert(init[i] == set[i]);
                    assert(present_uuids(init).contains(u));
                    let j = choose|j: int| 0 <= j < present_uuids(init).len() && present_uuids(init)[j] == u;
                    match set.last() {
                        Some(v) => {
                            assert(present_uuids(set)[j] == u);
                        },
                        None => {},
                    }
                } else {
                    assert(present_uuids(set) == present_uuids(init).push(u));
                    assert(present_uuids(set)[present_uuids(init).len() as int] == u);
                }
            }
        }
    }
}

/// `get_pending_tasks` returns a UUID with a task exactly when looking that UUID up found
/// that task.
pub proof fn law_pending_tasks_are_those_found<T>(uuids: Seq<Seq<u8>>, found: Seq<Option<T>>)
    requires
        uuids.len() == found.len(),
    ensures
        forall|u: Seq<u8>, t: T| #[trigger] found_pairs(uuids, found).contains((u, t)) <==> exists|i: int|
            0 <= i < found.len() && uuids[i] == u && #[trigger] found[i] == Some(t),
    decreases found.len(),
{
    if found.len() > 0 {
        let iu = uuids.drop_last();
        let ifd = found.drop_last();
        law_pending_tasks_are_those_found(iu, ifd);
        let rest = found_pairs(iu, ifd);
        let n = found.len() - 1;
        assert forall|u: Seq<u8>, t: T| #[trigger] found_pairs(uuids, found).contains((u, t)) <==> exists|i: int|
            0 <= i < found.len() && uuids[i] == u && #[trigger] found[i] == Some(t) by {
            if found_pairs(uuids, found).contains((u, t)) {
                let j = choose|j: int| 0 <= j < found_pairs(uuids, found).len() && found_pairs(uuids, found)[j] == (u, t);
                if j < rest.len() {
                    assert(rest[j] == (u, t));
                    assert(rest.contains((u, t)));
                    let i = choose|i: int| 0 <= i < ifd.len() && iu[i] == u && #[trigger] ifd[i] == Some(t);
                    assert(found[i] == ifd[i]);
                    assert(uuids[i] == iu[i]);
                } else {
                    assert(found[n] == Some(t));
                }
            }
            if exists|i: int| 0 <= i < found.len() && uuids[i] == u && #[trigger] found[i] == Some(t) {
                let i = choose|i: int| 0 <= i < found.len() && uuids[i] == u && #[trigger] found[i] == Some(t);
                if i < n {
                    assert(ifd[i] == found[i]);
                    assert(iu[i] == uuids[i]);
                    assert(rest.contains((u, t)));
                    let j = choose|j: int| 0 <= j < rest.len() && rest[j] == (u, t);
                    assert(found_pairs(uuids, found)[j] == (u, t));
                } else {
                    assert(found_pairs(uuids, found) == rest.push((u, t)));
                    assert(found_pairs(uuids, found)[rest.len() as int] == (u, t));
                }
            }
        }
    }
}

/// A configuration that is refused (an embedded replica, or a remote database without a
/// URL or a token) fails at once, whatever the caller reports afterwards: nothing is built,
/// synced, connected or executed.
pub proof fn law_open_refuses_unsupported_config(config: TursoConfig, outcomes: Seq<StepOutcome>)
    requires
        config_error(config) is Some,
    ensures
        open_run(config, outcomes).0 == OpenPhase::Failed,
        open_run(config, outcomes).1[0] == OpenActionView::Reject(config_error(config).unwrap()),
        forall|i: int| 0 < i < open_run(config, outcomes).1.len() ==> #[trigger] open_run(config, outcomes).1[i]
            == OpenActionView::Fail,
        open_run(config, outcomes).1.len() == outcomes.len() + 1,
    decreases outcomes.len(),
{
    if outcomes.len() > 0 {
        law_open_refuses_unsupported_config(config, outcomes.drop_last());
    }
}

/// A task just created reads back as the task with no properties: the text `{}` that
/// `create_task` inserts reads back as the empty map (as `create_task_statement` ensures
/// whenever it inserts).
pub proof fn law_created_task_reads_empty(t: Tables, uuid: Seq<u8>)
    requires
        !t.task_present(uuid),
        task_read(Some("{}"@)) == Some(Some(Map::<String, String>::empty())),
    ensures
        create_task_view(t.task_present(uuid), uuid) matches Some(s) && t.execute(s) matches Some(t2)
            && task_read(t2.task_data(uuid)) == Some(Some(Map::<String, String>::empty())),
{
}

/// Two successive additions to the working set hand out consecutive indexes: the second is
/// one more than the first, whatever indexes the table held before.  Where no index is
/// negative, the working set read afterwards holds each UUID at the index it was given.
pub proof fn law_add_to_working_set_twice(t: Tables, u1: Seq<u8>, u2: Seq<u8>)
    requires
        t.well_formed(),
        count_of(max_id_answer(t)) < i64::MAX - 1,
        u1.len() == 16,
        u2.len() == 16,
    ensures
        ({
            let n1 = next_working_set_id(max_id_answer(t));
            t.execute(StatementView::InsertWorkingSetItem { id: n1, uuid: u1 }) matches Some(t2) && {
                let n2 = next_working_set_id(max_id_answer(t2));
                &&& n2 == n1 + 1
                &&& t2.execute(StatementView::InsertWorkingSetItem { id: n2, uuid: u2 }) matches Some(t3)
                    && t3.working_set == t.working_set.insert(n1, Some(u1)).insert(n2, Some(u2))
                    && (indexes_not_negative(t.working_set) ==> working_set_of_table(t3.working_set)[n1]
                    == Some(u1) && working_set_of_table(t3.working_set)[n2] == Some(u2))
            }
        }),
{
    law_add_to_working_set(t, u1);
    let n1 = next_working_set_id(max_id_answer(t));
    let t2 = t.execute(StatementView::InsertWorkingSetItem { id: n1, uuid: u1 }).unwrap();
    assert(n1 <= i64::MAX - 1);
    assert((n1 as i64) as int == n1);
    assert(max_id_answer(t2) == Some(n1 as i64));
    law_add_to_working_set(t2, u2);
    let n2 = next_working_set_id(max_id_answer(t2));
    assert(n2 == n1 + 1);
    let t3 = t2.execute(StatementView::InsertWorkingSetItem { id: n2, uuid: u2 }).unwrap();
    if indexes_not_negative(t.working_set) {
        assert(working_set_of_table(t3.working_set)[n1] == working_set_of_table(t2.working_set)[n1]);
    }
}

/// `get_pending_tasks` gives each task of the working set that is stored, with the
/// properties stored for it: when every lookup of a working-set UUID returned what the
/// tasks table holds for it, a UUID comes with a task exactly when the working set holds
/// the UUID and the stored text for it reads back as that task.
pub proof fn law_pending_tasks_read_stored_tasks(
    t: Tables,
    set: Seq<Option<Seq<u8>>>,
    found: Seq<Option<Map<String, String>>>,
)
    requires
        found.len() == present_uuids(set).len(),
        forall|i: int| 0 <= i < found.len() ==> task_read(t.task_data(#[trigger] present_uuids(set)[i])) == Some(found[i]),
    ensures
        forall|u: Seq<u8>, m: Map<String, String>| #[trigger] found_pairs(present_uuids(set), found).contains((u, m))
            <==> (exists|i: int| 0 <= i < set.len() && #[trigger] set[i] == Some(u)) && task_read(t.task_data(u))
            == Some(Some(m)),
{
    let us = present_uuids(set);
    law_pending_lookups_are_working_set_uuids(set);
    law_pending_tasks_are_those_found(us, found);
    assert forall|u: Seq<u8>, m: Map<String, String>| #[trigger] found_pairs(us, found).contains((u, m))
        <==> (exists|i: int| 0 <= i < set.len() && #[trigger] set[i] == Some(u)) && task_read(t.task_data(u))
        == Some(Some(m)) by {
        if found_pairs(us, found).contains((u, m)) {
            let i = choose|i: int| 0 <= i < found.len() && us[i] == u && #[trigger] found[i] == Some(m);
            assert(us.contains(u));
            assert(task_read(t.task_data(us[i])) == Some(found[i]));
        }
        if (exists|i: int| 0 <= i < set.len() && #[trigger] set[i] == Some(u)) && task_read(t.task_data(u))
            == Some(Some(m)) {
            assert(us.contains(u));
            let i = choose|i: int| 0 <= i < us.len() && us[i] == u;
            assert(task_read(t.task_data(us[i])) == Some(found[i]));
            assert(found[i] == Some(m));
        }
    }
}

/// `all_tasks` and `all_task_uuids` give every stored task exactly once: for rows that list
/// the tasks table whose UUIDs are all sixteen bytes long, there is one row for each stored
/// task, no UUID comes twice, each row's UUID reads as itself, and each row's text is the
/// stored text of that task.
pub proof fn law_all_tasks_list_each_task_once(rows: Seq<(Seq<u8>, Seq<char>)>, t: Tables)
    requires
        t.well_formed(),
        lists_tasks(rows, t.tasks),
        forall|u: Seq<u8>| #[trigger] t.tasks.contains_key(u) ==> u.len() == 16,
    ensures
        rows.len() == t.tasks.dom().len(),
        forall|a: int, b: int| 0 <= a < b < rows.len() ==> uuid_of_blob(#[trigger] rows[a].0) != uuid_of_blob(
            #[trigger] rows[b].0,
        ),
        forall|k: int| 0 <= k < rows.len() ==> uuid_of_blob(#[trigger] rows[k].0) == rows[k].0 && t.task_data(
            rows[k].0,
        ) == Some(rows[k].1),
        forall|u: Seq<u8>| #[trigger] t.tasks.contains_key(u) ==> exists|k: int| 0 <= k < rows.len() && uuid_of_blob(
            #[trigger] rows[k].0,
        ) == u,
{
    let keys = rows.map_values(|r: (Seq<u8>, Seq<char>)| r.0);
    assert(keys.no_duplicates()) by {
        assert forall|a: int, b: int| 0 <= a < keys.len() && 0 <= b < keys.len() && a != b implies keys[a]
            != keys[b] by {
            if a < b {
                assert(rows[a].0 != rows[b].0);
            } else {
                assert(rows[b].0 != rows[a].0);
            }
        }
    }
    keys.unique_seq_to_set();
    assert(keys.to_set() =~= t.tasks.dom()) by {
        assert forall|u: Seq<u8>| keys.to_set().contains(u) <==> t.tasks.dom().contains(u) by {
            if keys.to_set().contains(u) {
                let k = choose|k: int| 0 <= k < keys.len() && keys[k] == u;
                assert(t.tasks.contains_key(rows[k].0));
            }
            if t.tasks.dom().contains(u) {
                let k = choose|k: int| 0 <= k < rows.len() && #[trigger] rows[k].0 == u;
                assert(keys[k] == u);
            }
        }
    }
    assert forall|k: int| 0 <= k < rows.len() implies uuid_of_blob(#[trigger] rows[k].0) == rows[k].0 && t.task_data(
        rows[k].0,
    ) == Some(rows[k].1) by {
        assert(t.tasks.contains_key(rows[k].0));
    }
    assert forall|a: int, b: int| 0 <= a < b < rows.len() implies uuid_of_blob(#[trigger] rows[a].0) != uuid_of_blob(
        #[trigger] rows[b].0,
    ) by {
        assert(t.tasks.contains_key(rows[a].0));
        assert(t.tasks.contains_key(rows[b].0));
    }
    assert forall|u: Seq<u8>| #[trigger] t.tasks.contains_key(u) implies exists|k: int| 0 <= k < rows.len()
        && uuid_of_blob(#[trigger] rows[k].0) == u by {
        let k = choose|k: int| 0 <= k < rows.len() && #[trigger] rows[k].0 == u;
        assert(uuid_of_blob(rows[k].0) == u);
    }
}

/// `unsynced_operations` reads back as many operations as `num_unsynced_operations` counts:
/// the texts of all stored operations, oldest first.
pub proof fn law_unsynced_listing_matches_count(t: Tables)
    requires
        t.operations.len() <= i64::MAX,
    ensures
        t.operation_data().len() == count_of(count_answer(t)),
        forall|k: int| 0 <= k < t.operations.len() ==> #[trigger] t.operation_data()[k] == t.operations[k].data,
{
}

/// Opening leaves whatever the tables already hold as it is: each statement that creates
/// the schema changes nothing in existing tables, so reopening a database shows the same
/// operations, working set, tasks and base version.
pub proof fn law_opening_keeps_existing_tables(t: Tables)
    ensures
        forall|i: int| 0 <= i < SCHEMA_STATEMENTS ==> #[trigger] t.execute(schema_view(i)) == Some(t),
{
}

/// The pending tasks of the working set, as the tables hold them: for each UUID in order,
/// the UUID with its task where a task is stored for it and its text reads as a task.
pub open spec fn stored_pending_tasks(t: Tables, uuids: Seq<Seq<u8>>) -> Seq<(Seq<u8>, Map<String, String>)>
    decreases uuids.len(),
{
    if uuids.len() == 0 {
        Seq::empty()
    } else {
        let rest = stored_pending_tasks(t, uuids.drop_last());
        match task_read(t.task_data(uuids.last())) {
            Some(Some(m)) => rest.push((uuids.last(), m)),
            _ => rest,
        }
    }
}

/// `get_pending_tasks` lists, in the order of the working set, each UUID of the working set
/// for which a task is stored, with that task: when every lookup returned what the tasks
/// table holds, the pairs that `pending_tasks` keeps are exactly those, in that order.
pub proof fn law_pending_tasks_in_working_set_order(
    t: Tables,
    uuids: Seq<Seq<u8>>,
    found: Seq<Option<Map<String, String>>>,
)
    requires
        found.len() == uuids.len(),
        forall|i: int| 0 <= i < found.len() ==> task_read(t.task_data(#[trigger] uuids[i])) == Some(found[i]),
    ensures
        found_pairs(uuids, found) == stored_pending_tasks(t, uuids),
    decreases uuids.len(),
{
    if uuids.len() > 0 {
        let iu = uuids.drop_last();
        let ifd = found.drop_last();
        assert forall|i: int| 0 <= i < ifd.len() implies task_read(t.task_data(#[trigger] iu[i])) == Some(ifd[i]) by {
            assert(iu[i] == uuids[i]);
            assert(ifd[i] == found[i]);
        }
        law_pending_tasks_in_working_set_order(t, iu, ifd);
        assert(task_read(t.task_data(uuids[uuids.len() - 1])) == Some(found[found.len() - 1]));
    }
}

/// Some row of `SELECT uuid, data FROM tasks` reads as the UUID `u`.
pub open spec fn named_by_task_rows(rows: Seq<(Seq<u8>, Seq<char>)>, u: Seq<u8>) -> bool {
    exists|k: int| 0 <= k < rows.len() && uuid_of_blob(#[trigger] rows[k].0) == u
}

/// Some row of `SELECT uuid FROM tasks` reads as the UUID `u`.
pub open spec fn named_by_uuid_rows(rows: Seq<Seq<u8>>, u: Seq<u8>) -> bool {
    exists|k: int| 0 <= k < rows.len() && uuid_of_blob(#[trigger] rows[k]) == u
}

/// `all_tasks` and `all_task_uuids`, called with no write between them, give the same
/// UUIDs, each once: for rows that list the tasks table and UUID rows that list it too,
/// both have one row per stored task and name the same tasks.
pub proof fn law_task_listings_agree(
    task_rows: Seq<(Seq<u8>, Seq<char>)>,
    uuid_rows: Seq<Seq<u8>>,
    t: Tables,
)
    requires
        t.well_formed(),
        lists_tasks(task_rows, t.tasks),
        lists_task_uuids(uuid_rows, t.tasks),
        forall|u: Seq<u8>| #[trigger] t.tasks.contains_key(u) ==> u.len() == 16,
    ensures
        task_rows.len() == uuid_rows.len(),
        forall|u: Seq<u8>| #[trigger] named_by_task_rows(task_rows, u) <==> named_by_uuid_rows(uuid_rows, u),
{
    law_all_tasks_list_each_task_once(task_rows, t);
    let keys = uuid_rows;
    assert(keys.no_duplicates()) by {
        assert forall|a: int, b: int| 0 <= a < keys.len() && 0 <= b < keys.len() && a != b implies keys[a]
            != keys[b] by {
            if a < b {
                assert(uuid_rows[a] != uuid_rows[b]);
            } else {
                assert(uuid_rows[b] != uuid_rows[a]);
            }
        }
    }
    keys.unique_seq_to_set();
    assert(keys.to_set() =~= t.tasks.dom()) by {
        assert forall|u: Seq<u8>| keys.to_set().contains(u) <==> t.tasks.dom().contains(u) by {
            if keys.to_set().contains(u) {
                let k = choose|k: int| 0 <= k < keys.len() && keys[k] == u;
                assert(t.tasks.contains_key(uuid_rows[k]));
            }
            if t.tasks.dom().contains(u) {
                let k = choose|k: int| 0 <= k < uuid_rows.len() && #[trigger] uuid_rows[k] == u;
            }
        }
    }
    assert forall|u: Seq<u8>| #[trigger] named_by_task_rows(task_rows, u) <==> named_by_uuid_rows(uuid_rows, u) by {
        if exists|k: int| 0 <= k < task_rows.len() && uuid_of_blob(#[trigger] task_rows[k].0) == u {
            let k = choose|k: int| 0 <= k < task_rows.len() && uuid_of_blob(#[trigger] task_rows[k].0) == u;
            assert(t.tasks.contains_key(task_rows[k].0));
            assert(uuid_of_blob(task_rows[k].0) == task_rows[k].0);
            let j = choose|j: int| 0 <= j < uuid_rows.len() && #[trigger] uuid_rows[j] == u;
            assert(uuid_of_blob(uuid_rows[j]) == u);
        }
        if exists|k: int| 0 <= k < uuid_rows.len() && uuid_of_blob(#[trigger] uuid_rows[k]) == u {
            let k = choose|k: int| 0 <= k < uuid_rows.len() && uuid_of_blob(#[trigger] uuid_rows[k]) == u;
            assert(t.tasks.contains_key(uuid_rows[k]));
            assert(uuid_of_blob(uuid_rows[k]) == uuid_rows[k]);
            let j = choose|j: int| 0 <= j < task_rows.len() && uuid_of_blob(#[trigger] task_rows[j].0) == u;
        }
    }
}

/// Every statement issues the SQL whose meaning the table model states: `all_tasks` asks
/// for every row of the tasks table with no condition, `add_to_working_set` asks for the
/// greatest index in use, `get_task` asks for the stored text of the task whatever it is,
/// and so on for each statement.  So the laws proved over the model hold of what the
/// database is asked.
pub proof fn law_statements_issue_the_modelled_sql(s: StatementView)
    ensures
        sql_text(s) == modelled_sql(s),
{
}

/// The queries that the listing laws rest on, by name: listing all tasks has no condition
/// and reads the whole tasks table, the next working-set index is read from the greatest
/// index in use, and a task's text is read by its UUID alone.
pub proof fn law_reading_statements_have_no_extra_condition(uuid: Seq<u8>)
    ensures
        sql_text(StatementView::SelectAllTasks) == "SELECT uuid, data FROM tasks"@,
        sql_text(StatementView::SelectAllTaskUuids) == "SELECT uuid FROM tasks"@,
        sql_text(StatementView::SelectMaxWorkingSetId) == "SELECT MAX(id) FROM working_set"@,
        sql_text(StatementView::SelectTaskData { uuid }) == "SELECT data FROM tasks WHERE uuid = ?"@,
        sql_text(StatementView::SelectWorkingSet) == "SELECT id, uuid FROM working_set ORDER BY id ASC"@,
{
    law_statements_issue_the_modelled_sql(StatementView::SelectAllTasks);
}

/// Opening hands out the storage only when it is ready: every transition whose action is
/// `Finish` ends in the ready phase, and every failure of building, connecting or creating
/// a table ends opening with `Fail`, never with `Finish`.
pub proof fn law_finish_only_when_ready(phase: OpenPhase, outcome: StepOutcome)
    ensures
        open_transition(phase, outcome).1 == OpenActionView::Finish ==> open_transition(phase, outcome).0
            == OpenPhase::Ready,
        open_transition(phase, outcome).0 == OpenPhase::Ready ==> open_transition(phase, outcome).1
            == OpenActionView::Finish,
        (outcome == StepOutcome::Failed && phase != OpenPhase::Syncing && phase != OpenPhase::Ready)
            ==> open_transition(phase, outcome) == (OpenPhase::Failed, OpenActionView::Fail),
        (outcome == StepOutcome::Failed && phase is CreatingTable) ==> open_transition(phase, outcome).1
            != OpenActionView::Finish,
{
}

/// The ready phase is reached only by a successful creation of the last table.
pub proof fn law_ready_only_after_last_table(phase: OpenPhase, outcome: StepOutcome)
    requires
        phase != OpenPhase::Ready,
        phase.well_formed(),
    ensures
        open_transition(phase, outcome).0 == OpenPhase::Ready ==> outcome == StepOutcome::Succeeded
            && phase == (OpenPhase::CreatingTable { index: (SCHEMA_STATEMENTS - 1) as usize }),
{
}

/// A configuration is refused exactly when it asks for an embedded replica, or for a
/// remote database with an empty URL or an empty token: any remote configuration with a
/// URL and a token, of whatever length, and any local one, is accepted.
pub proof fn law_config_refused_exactly_when_unsupported(config: TursoConfig)
    ensures
        config_error(config) is Some <==> match config {
            TursoConfig::EmbeddedReplica { .. } => true,
            TursoConfig::Remote { url, token } => url@.len() == 0 || token@.len() == 0,
            TursoConfig::Local { .. } => false,
        },
        config matches TursoConfig::Remote { url, token } ==> (url@.len() == 0 ==> config_error(config)
            == Some(ConfigError::EmptyUrl)) && (url@.len() > 0 && token@.len() == 0 ==> config_error(config)
            == Some(ConfigError::EmptyToken)),
        config is EmbeddedReplica ==> config_error(config) == Some(ConfigError::EmbeddedReplica),
{
}

} // verus!

//! TaskChampion operations as plain values: what the storage writes and reads back.

use vstd::prelude::*;
use std::collections::HashMap;
use crate::ids::{UuidBytes, nil_uuid};

verus! {

/// A TaskChampion operation, with its task's UUID as bytes and its time as a Unix time.
#[derive(Clone, Debug, PartialEq, Eq)]
pub enum OperationRecord {
    /// A task was created.
    Create { uuid: UuidBytes },
    /// A property of a task was set (`value`) or removed (`None`), at the given UTC time:
    /// whole seconds since the Unix epoch and the nanoseconds past them.
    Update {
        uuid: UuidBytes,
        property: String,
        old_value: Option<String>,
        value: Option<String>,
        seconds: i64,
        nanos: u32,
    },
    /// A task was deleted; `old_task` holds its properties before.
    Delete { uuid: UuidBytes, old_task: HashMap<String, String> },
    /// A point to which the user may undo; it concerns no task.
    UndoPoint,
}

/// An operation as a mathematical value.
pub enum OperationView {
    Create { uuid: Seq<u8> },
    Update {
        uuid: Seq<u8>,
        property: Seq<char>,
        old_value: Option<Seq<char>>,
        value: Option<Seq<char>>,
        seconds: int,
        nanos: int,
    },
    Delete { uuid: Seq<u8>, old_task: Map<String, String> },
    UndoPoint,
}

/// An optional text as a mathematical value.
pub open spec fn opt_string_view(o: Option<String>) -> Option<Seq<char>> {
    match o {
        Some(s) => Some(s@),
        None => None,
    }
}

impl View for OperationRecord {
    type V = OperationView;

    open spec fn view(&self) -> OperationView {
        match self {
            OperationRecord::Create { uuid } => OperationView::Create { uuid: uuid@ },
            OperationRecord::Update { uuid, property, old_value, value, seconds, nanos } => OperationView::Update {
                uuid: uuid@,
                property: property@,
                old_value: opt_string_view(*old_value),
                value: opt_string_view(*value),
                seconds: *seconds as int,
                nanos: *nanos as int,
            },
            OperationRecord::Delete { uuid, old_task } => OperationView::Delete {
                uuid: uuid@,
                old_task: old_task@,
            },
            OperationRecord::UndoPoint => OperationView::UndoPoint,
        }
    }
}

impl OperationView {
    /// The task that the operation concerns, if any.
    pub open spec fn task(self) -> Option<Seq<u8>> {
        match self {
            OperationView::Create { uuid } => Some(uuid),
            OperationView::Update { uuid, .. } => Some(uuid),
            OperationView::Delete { uuid, .. } => Some(uuid),
            OperationView::UndoPoint => None,
        }
    }

    /// The value written to the `uuid` column of the operation's row: the task's UUID,
    /// or sixteen zero bytes for an undo point.
    pub open spec fn row_uuid(self) -> Seq<u8> {
        match self.task() {
            Some(u) => u,
            None => nil_uuid(),
        }
    }
}

impl OperationRecord {
    /// The task that the operation concerns, if any.
    pub fn task_uuid(&self) -> (res: Option<UuidBytes>)
        ensures
            match res {
                Some(u) => self@.task() == Some(u@),
                None => self@.task() is None,
            },
    {
        match self {
            OperationRecord::Create { uuid } => Some(*uuid),
            OperationRecord::Update { uuid, .. } => Some(*uuid),
            OperationRecord::Delete { uuid, .. } => Some(*uuid),
            OperationRecord::UndoPoint => None,
        }
    }

    /// The value for the `uuid` column of the operation's row.
    pub fn row_uuid(&self) -> (res: UuidBytes)
        ensures
            res@ == self@.row_uuid(),
    {
        match self {
            OperationRecord::Create { uuid } => *uuid,
            OperationRecord::Update { uuid, .. } => *uuid,
            OperationRecord::Delete { uuid, .. } => *uuid,
            OperationRecord::UndoPoint => {
                let zeros: UuidBytes = [0u8; 16];
                assert(zeros@ =~= nil_uuid());
                zeros
            },
        }
    }
}

} // verus!

//! Tasks and operations are stored as JSON text; this module reads and writes that text
//! with `serde_json`.

use vstd::prelude::*;
use std::collections::HashMap;
use taskchampion::Operation;
use crate::operation::{OperationRecord, OperationView};

verus! {

/// An error of `serde_json`, carried from a failed conversion to the error the storage reports.
#[verifier::external_type_specification]
#[verifier::external_body]
pub struct ExJsonError(serde_json::Error);

/// The property map that a JSON text describes, or `None` where the text is not a JSON
/// object whose values are all strings.
pub uninterp spec fn task_map_of_json(json: Seq<char>) -> Option<Map<String, String>>;

/// `serde_json::from_str` into a map of strings.  The contract claims that the outcome is a
/// function of the text alone, named `task_map_of_json`: a map exactly when that name gives
/// one, and an error otherwise.
#[verifier::external_body]
pub(crate) fn parse_task_map(json: &str) -> (res: Result<HashMap<String, String>, serde_json::Error>)
    ensures
        match res {
            Ok(m) => task_map_of_json(json@) == Some(m@),
            Err(_) => task_map_of_json(json@) is None,
        },
{
    serde_json::from_str(json)
}

/// `serde_json::to_string` of a map of strings.  The contract claims that writing never
/// fails (keys are strings, and writing strings into a `String` cannot fail), that the text
/// reads back, through `serde_json::from_str`, as the same map, and that an empty map is
/// written as `{}`.  The order in which a non-empty map's entries are written follows the
/// map's iteration order, which changes from one process to the next, so the text itself
/// is not fixed.
#[verifier::external_body]
pub(crate) fn task_map_to_json(task: &HashMap<String, String>) -> (res: Result<String, serde_json::Error>)
    ensures
        match res {
            Ok(s) => task_map_of_json(s@) == Some(task@) && (task@.dom() == Set::<String>::empty() ==> s@ == "{}"@),
            Err(_) => false,
        },
{
    serde_json::to_string(task)
}

/// The message of a `serde_json` error, as its `Display` implementation writes it.
/// Nothing is claimed of the text.
#[verifier::external_body]
pub(crate) fn json_error_message(e: &serde_json::Error) -> String {
    e.to_string()
}

/// A TaskChampion operation, carried into the wrapper that writes it.
#[verifier::external_type_specification]
#[verifier::external_body]
pub struct ExOperation(taskchampion::Operation);

/// The operation that a JSON text describes, or `None` where the text describes no
/// operation.
pub uninterp spec fn operation_of_json(json: Seq<char>) -> Option<OperationView>;

/// `serde_json::from_str` into a TaskChampion operation, converted field by field into an
/// `OperationRecord` (the UUID as its bytes, the time as its Unix seconds and nanoseconds).
/// The contract claims that the outcome is a function of the text, named
/// `operation_of_json`: a record exactly when that name gives one, and then that record.
#[verifier::external_body]
pub(crate) fn parse_operation(json: &str) -> (res: Result<OperationRecord, serde_json::Error>)
    ensures
        match res {
            Ok(r) => operation_of_json(json@) == Some(r@),
            Err(_) => operation_of_json(json@) is None,
        },
{
    Ok(match serde_json::from_str(json)? {
        Operation::Create { uuid } => OperationRecord::Create { uuid: *uuid.as_bytes() },
        Operation::Update { uuid, property, old_value, value, timestamp } => OperationRecord::Update {
            uuid: *uuid.as_bytes(), property, old_value, value,
            seconds: timestamp.timestamp(), nanos: timestamp.timestamp_subsec_nanos(),
        },
        Operation::Delete { uuid, old_task } => OperationRecord::Delete { uuid: *uuid.as_bytes(), old_task },
        Operation::UndoPoint => OperationRecord::UndoPoint,
    })
}

/// `serde_json::to_string` of a TaskChampion operation, returned with the operation
/// converted field by field into an `OperationRecord`.  The contract claims that writing
/// never fails (every map in an operation has string keys, and a UTC time is written as
/// RFC 3339 text) and that the text reads back, through `serde_json::from_str`, as that
/// record.
#[verifier::external_body]
pub(crate) fn operation_to_json(op: Operation) -> (res: Result<(String, OperationRecord), serde_json::Error>)
    ensures
        match res {
            Ok((json, r)) => operation_of_json(json@) == Some(r@),
            Err(_) => false,
        },
{
    let json = serde_json::to_string(&op)?;
    Ok((json, match op {
        Operation::Create { uuid } => OperationRecord::Create { uuid: *uuid.as_bytes() },
        Operation::Update { uuid, property, old_value, value, timestamp } => OperationRecord::Update {
            uuid: *uuid.as_bytes(), property, old_value, value,
            seconds: timestamp.timestamp(), nanos: timestamp.timestamp_subsec_nanos(),
        },
        Operation::Delete { uuid, old_task } => OperationRecord::Delete { uuid: *uuid.as_bytes(), old_task },
        Operation::UndoPoint => OperationRecord::UndoPoint,
    }))
}

} // verus!

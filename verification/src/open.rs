//! The steps of opening the storage: refusing a configuration that is not supported,
//! building the database handle for the configuration, a best-effort sync, connecting, and
//! creating the four tables.  The caller performs each
//! action and reports whether it succeeded; `open_step` decides what comes next.

use vstd::prelude::*;
use crate::statement::{Statement, StatementView};
use crate::config::{TursoConfig, ConfigError, config_error, check_config};

verus! {

/// How many statements create the schema.
pub const SCHEMA_STATEMENTS: usize = 4;

/// The statements that create the schema, in the order in which they are issued.
pub open spec fn schema_view(i: int) -> StatementView {
    if i == 0 {
        StatementView::CreateOperationsTable
    } else if i == 1 {
        StatementView::CreateWorkingSetTable
    } else if i == 2 {
        StatementView::CreateTasksTable
    } else {
        StatementView::CreateMetaTable
    }
}

/// The `i`-th statement that creates the schema.
pub fn schema_statement(i: usize) -> (res: Statement)
    requires
        i < SCHEMA_STATEMENTS,
    ensures
        res@ == schema_view(i as int),
{
    if i == 0 {
        Statement::CreateOperationsTable
    } else if i == 1 {
        Statement::CreateWorkingSetTable
    } else if i == 2 {
        Statement::CreateTasksTable
    } else {
        Statement::CreateMetaTable
    }
}

/// Which action of opening is outstanding.
#[derive(Clone, Copy, Debug, PartialEq, Eq, Structural)]
pub enum OpenPhase {
    /// The database handle for the configuration is being built.
    Building,
    /// The database is being synced.
    Syncing,
    /// A connection is being opened.
    Connecting,
    /// The schema statement with this index is being executed.
    CreatingTable { index: usize },
    /// The storage is open.
    Ready,
    /// Opening failed.
    Failed,
}

impl OpenPhase {
    /// The phase names an existing schema statement.
    pub open spec fn well_formed(self) -> bool {
        self matches OpenPhase::CreatingTable { index } ==> index < SCHEMA_STATEMENTS
    }
}

/// What the caller does next.
#[derive(Debug, PartialEq, Eq)]
pub enum OpenAction {
    /// Build the database handle that the configuration describes.
    Build,
    /// Sync the database with its remote side.
    Sync,
    /// Open a connection.
    Connect,
    /// Execute a statement on the connection.
    Execute(Statement),
    /// Opening is complete: hand out the storage.
    Finish,
    /// Opening failed: report the error of the last action.
    Fail,
    /// The configuration is refused: report why; nothing was built or opened.
    Reject(ConfigError),
}

/// An action as a mathematical value.
pub enum OpenActionView {
    Build,
    Sync,
    Connect,
    Execute(StatementView),
    Finish,
    Fail,
    Reject(ConfigError),
}

impl View for OpenAction {
    type V = OpenActionView;

    open spec fn view(&self) -> OpenActionView {
        match self {
            OpenAction::Build => OpenActionView::Build,
            OpenAction::Sync => OpenActionView::Sync,
            OpenAction::Connect => OpenActionView::Connect,
            OpenAction::Execute(s) => OpenActionView::Execute(s@),
            OpenAction::Finish => OpenActionView::Finish,
            OpenAction::Fail => OpenActionView::Fail,
            OpenAction::Reject(e) => OpenActionView::Reject(*e),
        }
    }
}

/// How the last action went.
#[derive(Clone, Copy, Debug, PartialEq, Eq, Structural)]
pub enum StepOutcome {
    Succeeded,
    Failed,
}

/// The phase and the action that follow a phase whose action ended with `outcome`.
/// A failed sync does not stop opening: the storage then works with what the database
/// already holds.  Every other failure ends opening.
pub open spec fn open_transition(phase: OpenPhase, outcome: StepOutcome) -> (OpenPhase, OpenActionView) {
    match phase {
        OpenPhase::Building => match outcome {
            StepOutcome::Succeeded => (OpenPhase::Syncing, OpenActionView::Sync),
            StepOutcome::Failed => (OpenPhase::Failed, OpenActionView::Fail),
        },
        OpenPhase::Syncing => (OpenPhase::Connecting, OpenActionView::Connect),
        OpenPhase::Connecting => match outcome {
            StepOutcome::Succeeded => (
                OpenPhase::CreatingTable { index: 0 },
                OpenActionView::Execute(schema_view(0)),
            ),
            StepOutcome::Failed => (OpenPhase::Failed, OpenActionView::Fail),
        },
        OpenPhase::CreatingTable { index } => match outcome {
            StepOutcome::Succeeded => if index + 1 < SCHEMA_STATEMENTS {
                (
                    OpenPhase::CreatingTable { index: (index + 1) as usize },
                    OpenActionView::Execute(schema_view(index + 1)),
                )
            } else {
                (OpenPhase::Ready, OpenActionView::Finish)
            },
            StepOutcome::Failed => (OpenPhase::Failed, OpenActionView::Fail),
        },
        OpenPhase::Ready => (OpenPhase::Ready, OpenActionView::Finish),
        OpenPhase::Failed => (OpenPhase::Failed, OpenActionView::Fail),
    }
}

/// The first phase of opening a configuration and its action: a refused configuration
/// fails at once, with nothing built; any other starts by building the database handle.
pub open spec fn open_first(config: TursoConfig) -> (OpenPhase, OpenActionView) {
    match config_error(config) {
        Some(e) => (OpenPhase::Failed, OpenActionView::Reject(e)),
        None => (OpenPhase::Building, OpenActionView::Build),
    }
}

/// The first phase of opening and its action.
pub fn open_start(config: &TursoConfig) -> (res: (OpenPhase, OpenAction))
    ensures
        (res.0, res.1@) == open_first(*config),
{
    match check_config(config) {
        Ok(()) => (OpenPhase::Building, OpenAction::Build),
        Err(e) => (OpenPhase::Failed, OpenAction::Reject(e)),
    }
}

/// The next phase and action of opening, after the action of `phase` ended with `outcome`.
pub fn open_step(phase: OpenPhase, outcome: StepOutcome) -> (res: (OpenPhase, OpenAction))
    requires
        phase.well_formed(),
    ensures
        (res.0, res.1@) == open_transition(phase, outcome),
        res.0.well_formed(),
{
    match phase {
        OpenPhase::Building => match outcome {
            StepOutcome::Succeeded => (OpenPhase::Syncing, OpenAction::Sync),
            StepOutcome::Failed => (OpenPhase::Failed, OpenAction::Fail),
        },
        OpenPhase::Syncing => (OpenPhase::Connecting, OpenAction::Connect),
        OpenPhase::Connecting => match outcome {
            StepOutcome::Succeeded => (
                OpenPhase::CreatingTable { index: 0 },
                OpenAction::Execute(schema_statement(0)),
            ),
            StepOutcome::Failed => (OpenPhase::Failed, OpenAction::Fail),
        },
        OpenPhase::CreatingTable { index } => match outcome {
            StepOutcome::Succeeded => if index + 1 < SCHEMA_STATEMENTS {
                (
                    OpenPhase::CreatingTable { index: index + 1 },
                    OpenAction::Execute(schema_statement(index + 1)),
                )
            } else {
                (OpenPhase::Ready, OpenAction::Finish)
            },
            StepOutcome::Failed => (OpenPhase::Failed, OpenAction::Fail),
        },
        OpenPhase::Ready => (OpenPhase::Ready, OpenAction::Finish),
        OpenPhase::Failed => (OpenPhase::Failed, OpenAction::Fail),
    }
}

} // verus!

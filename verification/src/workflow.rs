//! The workflow orchestrator: a run is one walk of a small state machine.
//!
//! `Init` moves to `ZoneResolved` only on successful zone resolution; any
//! resolver failure is terminal. From `ZoneResolved` the chosen subcommand
//! selects exactly one operation state, and each operation state ends in
//! `Done` — no operation chains into another within one invocation.

use vstd::prelude::*;

use crate::args::DnsSubCommand;

verus! {

/// Where a run stands.
#[derive(Clone, Copy, PartialEq, Eq, Structural, Debug)]
pub enum WorkflowState {
    /// Nothing resolved yet.
    Init,
    /// A working (zone identifier, zone name) pair is fixed for the run.
    ZoneResolved,
    /// Listing the zone's records.
    Listing,
    /// Creating one record.
    Creating,
    /// Deleting selected records.
    Deleting,
    /// Updating one record.
    Updating,
    /// The chosen operation finished; the run is over.
    Done,
    /// Zone resolution failed; the run ends without an operation.
    Failed,
}

/// What moves a run along.
#[derive(Clone, Copy, PartialEq, Eq, Structural, Debug)]
pub enum WorkflowEvent {
    /// The zone resolver produced the working pair.
    ResolveSucceeded,
    /// The zone resolver failed; the run is over.
    ResolveFailed,
    /// The operator's subcommand picks the one operation of this run.
    CommandChosen(DnsSubCommand),
    /// The running operation completed (its per-item outcomes already
    /// reported).
    OperationFinished,
}

/// Is `s` one of the four operation states?
pub open spec fn is_operation_state(s: WorkflowState) -> bool {
    ||| s == WorkflowState::Listing
    ||| s == WorkflowState::Creating
    ||| s == WorkflowState::Deleting
    ||| s == WorkflowState::Updating
}

/// The operation state a subcommand selects.
pub open spec fn operation_of(cmd: DnsSubCommand) -> WorkflowState {
    match cmd {
        DnsSubCommand::List => WorkflowState::Listing,
        DnsSubCommand::Create => WorkflowState::Creating,
        DnsSubCommand::Delete => WorkflowState::Deleting,
        DnsSubCommand::Update => WorkflowState::Updating,
    }
}

/// The transition relation of the run: every step a run may take, and no
/// other. An event that does not apply to the current state leaves the
/// run where it stands.
pub open spec fn next_state(s: WorkflowState, e: WorkflowEvent) -> WorkflowState {
    match (s, e) {
        (WorkflowState::Init, WorkflowEvent::ResolveSucceeded) => WorkflowState::ZoneResolved,
        (WorkflowState::Init, WorkflowEvent::ResolveFailed) => WorkflowState::Failed,
        (WorkflowState::ZoneResolved, WorkflowEvent::CommandChosen(cmd)) => operation_of(cmd),
        (WorkflowState::Listing, WorkflowEvent::OperationFinished) => WorkflowState::Done,
        (WorkflowState::Creating, WorkflowEvent::OperationFinished) => WorkflowState::Done,
        (WorkflowState::Deleting, WorkflowEvent::OperationFinished) => WorkflowState::Done,
        (WorkflowState::Updating, WorkflowEvent::OperationFinished) => WorkflowState::Done,
        _ => s,
    }
}

/// Take one step of the run.
pub fn workflow_step(s: WorkflowState, e: WorkflowEvent) -> (r: WorkflowState)
    ensures
        r == next_state(s, e),
{
    match (s, e) {
        (WorkflowState::Init, WorkflowEvent::ResolveSucceeded) => WorkflowState::ZoneResolved,
        (WorkflowState::Init, WorkflowEvent::ResolveFailed) => WorkflowState::Failed,
        (WorkflowState::ZoneResolved, WorkflowEvent::CommandChosen(cmd)) => match cmd {
            DnsSubCommand::List => WorkflowState::Listing,
            DnsSubCommand::Create => WorkflowState::Creating,
            DnsSubCommand::Delete => WorkflowState::Deleting,
            DnsSubCommand::Update => WorkflowState::Updating,
        },
        (WorkflowState::Listing, WorkflowEvent::OperationFinished) => WorkflowState::Done,
        (WorkflowState::Creating, WorkflowEvent::OperationFinished) => WorkflowState::Done,
        (WorkflowState::Deleting, WorkflowEvent::OperationFinished) => WorkflowState::Done,
        (WorkflowState::Updating, WorkflowEvent::OperationFinished) => WorkflowState::Done,
        (other, _) => other,
    }
}

/// `Done` and `Failed` are terminal: no event leaves them.
pub proof fn lemma_terminal_states(e: WorkflowEvent)
    ensures
        next_state(WorkflowState::Done, e) == WorkflowState::Done,
        next_state(WorkflowState::Failed, e) == WorkflowState::Failed,
{
}

/// An operation state is reached only from `ZoneResolved`, by the matching
/// subcommand: work on a zone never starts before the zone is resolved.
pub proof fn lemma_operation_needs_resolution(s: WorkflowState, e: WorkflowEvent)
    requires
        !is_operation_state(s),
        is_operation_state(next_state(s, e)),
    ensures
        s == WorkflowState::ZoneResolved,
        exists|cmd: DnsSubCommand|
            e == WorkflowEvent::CommandChosen(cmd) && next_state(s, e) == operation_of(cmd),
{
    match e {
        WorkflowEvent::CommandChosen(cmd) => {
            assert(e == WorkflowEvent::CommandChosen(cmd) && next_state(s, e) == operation_of(
                cmd,
            ));
        },
        _ => {
        },
    }
}

} // verus!

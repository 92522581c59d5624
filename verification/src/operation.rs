//! The context captured for one operation on the selected libvirt connection.
use vstd::prelude::*;

verus! {

/// Where the selected connection's guests run, relative to the desktop host.
#[derive(Clone, Copy, Debug, PartialEq, Eq, Structural)]
pub enum ConnectionScope {
    LocalSystem,
    LocalSession,
    Remote,
    Test,
}

/// Whether the selected connection offers a capability.
#[derive(Clone, Copy, Debug, PartialEq, Eq, Structural)]
pub enum CapabilityState {
    Available,
    Unavailable,
}

/// The kind of work an operation performs.
#[derive(Clone, Copy, Debug, PartialEq, Eq, Structural)]
pub enum OperationKind {
    Query,
    Mutation,
    Destructive,
    HostLocal,
    Console,
}

/// What a user can do to recover from a failed precondition.
#[derive(Clone, Copy, Debug, PartialEq, Eq, Structural)]
pub enum RecoveryActionKind {
    Reselect,
    Inspect,
    Retry,
}

#[derive(Debug)]
pub struct RecoveryAction {
    pub kind: RecoveryActionKind,
    pub label: String,
    pub requires_confirmation: bool,
    pub expected_connection_id: Option<String>,
}

/// One capability of the selected connection.
#[derive(Debug)]
pub struct ConnectionCapability {
    pub kind: String,
    pub state: CapabilityState,
    pub reason_code: Option<String>,
    pub recovery_action: Option<RecoveryAction>,
    pub checked_at: String,
}

/// The exact object an operation acts on.
#[derive(Debug)]
pub struct TargetIdentity {
    pub resource_kind: String,
    pub id: String,
    pub name: String,
}

/// A connection snapshot captured when an operation starts.
#[derive(Debug)]
pub struct OperationContext {
    pub operation_id: String,
    pub operation_kind: OperationKind,
    pub connection_id: String,
    pub connection_label: String,
    pub connection_scope: ConnectionScope,
    pub capabilities: Vec<ConnectionCapability>,
    pub target: Option<TargetIdentity>,
    pub captured_at: String,
}

pub open spec fn opt_view(o: Option<String>) -> Option<Seq<char>> {
    match o {
        Some(s) => Some(s@),
        None => None,
    }
}

pub fn clone_opt_string(o: &Option<String>) -> (r: Option<String>)
    ensures
        opt_view(r) == opt_view(*o),
{
    match o {
        Some(s) => Some(s.clone()),
        None => None,
    }
}

} // verus!

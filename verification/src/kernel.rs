//! Kernel types: command classification, the error taxonomy, actors,
//! subjects, payload shapes, and list entries.

use vstd::prelude::*;

verus! {

use crate::json::Json;
use crate::text::str_eq;

/// Whether a command reads or changes state.
#[derive(Debug, Clone, Copy, PartialEq, Eq, Structural)]
pub enum CommandKind {
    ReadOnly,
    StateChanging,
}

/// The classification of a command type identifier; `None` for an
/// identifier the service does not know.
pub open spec fn command_kind_spec(s: Seq<char>) -> Option<CommandKind> {
    if s == "daemon.ping"@ || s == "workspace.list"@ || s == "project.list"@
        || s == "events.read_from"@ || s == "events.subscribe"@ {
        Some(CommandKind::ReadOnly)
    } else if s == "workspace.create"@ || s == "project.create"@ {
        Some(CommandKind::StateChanging)
    } else {
        None
    }
}

/// Classifies a command type identifier.
pub fn command_kind(command_type: &str) -> (r: Option<CommandKind>)
    ensures
        r == command_kind_spec(command_type@),
{
    if str_eq(command_type, "daemon.ping") || str_eq(command_type, "workspace.list") || str_eq(
        command_type,
        "project.list",
    ) || str_eq(command_type, "events.read_from") || str_eq(command_type, "events.subscribe") {
        Some(CommandKind::ReadOnly)
    } else if str_eq(command_type, "workspace.create") || str_eq(command_type, "project.create") {
        Some(CommandKind::StateChanging)
    } else {
        None
    }
}

/// The error taxonomy, as it appears on the wire in snake case.
#[derive(Debug, Clone, Copy, PartialEq, Eq, Structural)]
pub enum ErrorCode {
    InvalidSchema,
    UnknownCommand,
    IdempotencyKeyRequired,
    ExpectedVersionMismatch,
    ValidationFailed,
    Unauthorized,
    NotFound,
    PolicyDenied,
    Internal,
    Unknown,
}

impl ErrorCode {
    /// The wire form of each code.
    pub open spec fn wire_spec(self) -> Seq<char> {
        match self {
            ErrorCode::InvalidSchema => "invalid_schema"@,
            ErrorCode::UnknownCommand => "unknown_command"@,
            ErrorCode::IdempotencyKeyRequired => "idempotency_key_required"@,
            ErrorCode::ExpectedVersionMismatch => "expected_version_mismatch"@,
            ErrorCode::ValidationFailed => "validation_failed"@,
            ErrorCode::Unauthorized => "unauthorized"@,
            ErrorCode::NotFound => "not_found"@,
            ErrorCode::PolicyDenied => "policy_denied"@,
            ErrorCode::Internal => "internal"@,
            ErrorCode::Unknown => "unknown"@,
        }
    }

    /// Renders the code in its wire form.
    pub fn wire_str(&self) -> (r: String)
        ensures
            r@ == self.wire_spec(),
    {
        match self {
            ErrorCode::InvalidSchema => "invalid_schema".to_owned(),
            ErrorCode::UnknownCommand => "unknown_command".to_owned(),
            ErrorCode::IdempotencyKeyRequired => "idempotency_key_required".to_owned(),
            ErrorCode::ExpectedVersionMismatch => "expected_version_mismatch".to_owned(),
            ErrorCode::ValidationFailed => "validation_failed".to_owned(),
            ErrorCode::Unauthorized => "unauthorized".to_owned(),
            ErrorCode::NotFound => "not_found".to_owned(),
            ErrorCode::PolicyDenied => "policy_denied".to_owned(),
            ErrorCode::Internal => "internal".to_owned(),
            ErrorCode::Unknown => "unknown".to_owned(),
        }
    }
}

/// Who caused an event.
#[derive(Debug, Clone)]
pub struct Actor {
    pub kind: String,
    pub id: String,
    pub label: Option<String>,
}

/// The model of an actor.
#[verifier::ext_equal]
pub struct ActorV {
    pub kind: Seq<char>,
    pub id: Seq<char>,
    pub label: Option<Seq<char>>,
}

impl View for Actor {
    type V = ActorV;

    open spec fn view(&self) -> ActorV {
        ActorV { kind: self.kind@, id: self.id@, label: self.label.deep_view() }
    }
}

impl Actor {
    /// The daemon itself as an actor.
    pub fn system() -> (r: Actor)
        ensures
            r@ == (ActorV { kind: "system"@, id: "system"@, label: Some("mpd"@) }),
    {
        Actor {
            kind: "system".to_owned(),
            id: "system".to_owned(),
            label: Some("mpd".to_owned()),
        }
    }

    /// A copy with the same model.
    pub fn duplicate(&self) -> (r: Actor)
        ensures
            r@ == self@,
    {
        Actor {
            kind: self.kind.clone(),
            id: self.id.clone(),
            label: match &self.label {
                Some(l) => Some(l.clone()),
                None => None,
            },
        }
    }
}

/// What an event is about.
#[derive(Debug, Clone)]
pub struct Subject {
    pub kind: String,
    pub id: String,
}

/// The model of a subject.
#[verifier::ext_equal]
pub struct SubjectV {
    pub kind: Seq<char>,
    pub id: Seq<char>,
}

impl View for Subject {
    type V = SubjectV;

    open spec fn view(&self) -> SubjectV {
        SubjectV { kind: self.kind@, id: self.id@ }
    }
}

impl Subject {
    /// A copy with the same model.
    pub fn duplicate(&self) -> (r: Subject)
        ensures
            r@ == self@,
    {
        Subject { kind: self.kind.clone(), id: self.id.clone() }
    }
}

/// Payload of the `workspace.create` command.
#[derive(Debug, Clone)]
pub struct WorkspaceCreatePayload {
    pub name: String,
    pub path: Option<String>,
}

/// Payload of the `project.create` command.
#[derive(Debug, Clone)]
pub struct ProjectCreatePayload {
    pub workspace_id: String,
    pub name: String,
}

/// Payload of the `workspace.created` event.
#[derive(Debug, Clone)]
pub struct WorkspaceCreatedPayload {
    pub name: String,
    pub root_path: String,
}

/// Payload of the `project.created` event.
#[derive(Debug, Clone)]
pub struct ProjectCreatedPayload {
    pub workspace_id: String,
    pub name: String,
}

/// Payload of the `command.rejected` event.
#[derive(Debug)]
pub struct CommandRejectedPayload {
    pub command_type: String,
    pub code: ErrorCode,
    pub message: String,
    pub details: Option<Json>,
}

/// Reply of the daemon ping route.
#[derive(Debug, Clone)]
pub struct DaemonPingResponse {
    pub status: String,
    pub version: String,
    pub timestamp: String,
}

/// A row of the workspace projection, also the list reply entry.
#[derive(Debug, Clone)]
pub struct WorkspaceListEntry {
    pub workspace_id: String,
    pub name: String,
    pub root_path: String,
    pub created_at: String,
    pub seq_global: i64,
}

/// The model of a workspace row.
#[verifier::ext_equal]
pub struct WorkspaceListEntryV {
    pub workspace_id: Seq<char>,
    pub name: Seq<char>,
    pub root_path: Seq<char>,
    pub created_at: Seq<char>,
    pub seq_global: int,
}

impl View for WorkspaceListEntry {
    type V = WorkspaceListEntryV;

    open spec fn view(&self) -> WorkspaceListEntryV {
        WorkspaceListEntryV {
            workspace_id: self.workspace_id@,
            name: self.name@,
            root_path: self.root_path@,
            created_at: self.created_at@,
            seq_global: self.seq_global as int,
        }
    }
}

impl DeepView for WorkspaceListEntry {
    type V = WorkspaceListEntryV;

    open spec fn deep_view(&self) -> WorkspaceListEntryV {
        self@
    }
}

impl WorkspaceListEntry {
    /// A copy with the same model.
    pub fn duplicate(&self) -> (r: WorkspaceListEntry)
        ensures
            r@ == self@,
    {
        WorkspaceListEntry {
            workspace_id: self.workspace_id.clone(),
            name: self.name.clone(),
            root_path: self.root_path.clone(),
            created_at: self.created_at.clone(),
            seq_global: self.seq_global,
        }
    }
}

/// A row of the project projection, also the list reply entry.
#[derive(Debug, Clone)]
pub struct ProjectListEntry {
    pub project_id: String,
    pub workspace_id: String,
    pub name: String,
    pub created_at: String,
    pub seq_global: i64,
}

/// The model of a project row.
#[verifier::ext_equal]
pub struct ProjectListEntryV {
    pub project_id: Seq<char>,
    pub workspace_id: Seq<char>,
    pub name: Seq<char>,
    pub created_at: Seq<char>,
    pub seq_global: int,
}

impl View for ProjectListEntry {
    type V = ProjectListEntryV;

    open spec fn view(&self) -> ProjectListEntryV {
        ProjectListEntryV {
            project_id: self.project_id@,
            workspace_id: self.workspace_id@,
            name: self.name@,
            created_at: self.created_at@,
            seq_global: self.seq_global as int,
        }
    }
}

impl DeepView for ProjectListEntry {
    type V = ProjectListEntryV;

    open spec fn deep_view(&self) -> ProjectListEntryV {
        self@
    }
}

impl ProjectListEntry {
    /// A copy with the same model.
    pub fn duplicate(&self) -> (r: ProjectListEntry)
        ensures
            r@ == self@,
    {
        ProjectListEntry {
            project_id: self.project_id.clone(),
            workspace_id: self.workspace_id.clone(),
            name: self.name.clone(),
            created_at: self.created_at.clone(),
            seq_global: self.seq_global,
        }
    }
}

/// What the runtime descriptor file advertises.
#[derive(Debug, Clone)]
pub struct RuntimeInfo {
    pub addr: String,
    pub token: String,
    pub pid: u32,
    pub db_path: String,
    pub started_at: String,
}

} // verus!

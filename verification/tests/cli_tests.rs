use moduprompt::cli::{ensure_command_accepted, select_workspace, CliError};
use moduprompt::kernel::{ErrorCode, WorkspaceListEntry};
use moduprompt::pipeline::{CommandRejection, SubmitCommandResponse};

fn entry(id: &str, name: &str, root: &str) -> WorkspaceListEntry {
    WorkspaceListEntry {
        workspace_id: id.to_string(),
        name: name.to_string(),
        root_path: root.to_string(),
        created_at: "2020-01-01T00:00:00Z".to_string(),
        seq_global: 1,
    }
}

#[test]
fn select_workspace_prefers_exact_id() {
    let rows = vec![entry("w1", "alpha", "/a"), entry("w2", "beta", "/b")];
    assert_eq!(select_workspace(&rows, "w2").unwrap(), "w2");
}

#[test]
fn select_workspace_matches_unique_name_or_path() {
    let rows = vec![entry("w1", "alpha", "/a"), entry("w2", "beta", "/b")];
    assert_eq!(select_workspace(&rows, "alpha").unwrap(), "w1");
    assert_eq!(select_workspace(&rows, "/b").unwrap(), "w2");
}

#[test]
fn select_workspace_rejects_ambiguous_or_missing() {
    let rows = vec![entry("w1", "alpha", "/a"), entry("w2", "alpha", "/b")];
    let err = select_workspace(&rows, "alpha").unwrap_err();
    assert_eq!(err.error.code, ErrorCode::NotFound);
    let err = select_workspace(&rows, "gamma").unwrap_err();
    assert_eq!(err.error.code, ErrorCode::NotFound);
}

#[test]
fn ensure_command_accepted_passes_and_rejects() {
    let accepted = SubmitCommandResponse {
        accepted: true,
        events: vec![],
        rejection: None,
        trace_id: "tr_1".to_string(),
    };
    assert!(ensure_command_accepted(accepted).is_ok());

    let rejected = SubmitCommandResponse {
        accepted: false,
        events: vec![],
        rejection: Some(CommandRejection {
            code: "expected_version_mismatch".to_string(),
            message: "mismatch".to_string(),
        }),
        trace_id: "tr_2".to_string(),
    };
    let err = ensure_command_accepted(rejected).unwrap_err();
    assert_eq!(err.error.code, ErrorCode::ExpectedVersionMismatch);
    assert_eq!(
        moduprompt::cli::exit_code_for_error_code(err.error.code),
        3
    );
}

#[test]
fn cli_error_constructors_keep_fields() {
    let e = CliError::new(ErrorCode::NotFound, "missing".to_string());
    assert_eq!(e.error.code, ErrorCode::NotFound);
    assert_eq!(e.error.message, "missing");

    let from_rej = CliError::from_rejection(
        CommandRejection { code: "nonsense".to_string(), message: "m".to_string() },
        "tr_9".to_string(),
    );
    assert_eq!(from_rej.error.code, ErrorCode::Unknown);
    assert_eq!(from_rej.error.trace_id.as_deref(), Some("tr_9"));
}

use moduprompt::auth::bearer_header;
use moduprompt::cli::exit_code_for_error_code;
use moduprompt::ids::{new_idempotency_key, new_request_id, new_trace_id, new_uuid, now_rfc3339};
use moduprompt::kernel::{command_kind, CommandKind, ErrorCode};

#[test]
fn command_kind_classifies() {
    assert_eq!(command_kind("daemon.ping"), Some(CommandKind::ReadOnly));
    assert_eq!(command_kind("workspace.create"), Some(CommandKind::StateChanging));
    assert_eq!(command_kind("unknown.command"), None);
}

#[test]
fn error_code_display_matches_wire_format() {
    assert_eq!(ErrorCode::InvalidSchema.wire_str(), "invalid_schema");
    assert_eq!(ErrorCode::UnknownCommand.wire_str(), "unknown_command");
    assert_eq!(ErrorCode::IdempotencyKeyRequired.wire_str(), "idempotency_key_required");
    assert_eq!(ErrorCode::ExpectedVersionMismatch.wire_str(), "expected_version_mismatch");
    assert_eq!(ErrorCode::ValidationFailed.wire_str(), "validation_failed");
    assert_eq!(ErrorCode::Unauthorized.wire_str(), "unauthorized");
    assert_eq!(ErrorCode::NotFound.wire_str(), "not_found");
    assert_eq!(ErrorCode::Internal.wire_str(), "internal");
}

#[test]
fn exit_code_mapping_is_stable() {
    assert_eq!(exit_code_for_error_code(ErrorCode::InvalidSchema), 2);
    assert_eq!(exit_code_for_error_code(ErrorCode::ValidationFailed), 2);
    assert_eq!(exit_code_for_error_code(ErrorCode::IdempotencyKeyRequired), 2);
    assert_eq!(exit_code_for_error_code(ErrorCode::UnknownCommand), 2);
    assert_eq!(exit_code_for_error_code(ErrorCode::ExpectedVersionMismatch), 3);
    assert_eq!(exit_code_for_error_code(ErrorCode::Unauthorized), 4);
    assert_eq!(exit_code_for_error_code(ErrorCode::NotFound), 5);
    assert_eq!(exit_code_for_error_code(ErrorCode::PolicyDenied), 6);
    assert_eq!(exit_code_for_error_code(ErrorCode::Unknown), 1);
    assert_eq!(exit_code_for_error_code(ErrorCode::Internal), 1);
}

#[test]
fn new_uuid_is_valid() {
    let id = new_uuid();
    assert!(uuid::Uuid::parse_str(&id).is_ok());
}

#[test]
fn now_rfc3339_parses() {
    let ts = now_rfc3339();
    let parsed =
        time::OffsetDateTime::parse(&ts, &time::format_description::well_known::Rfc3339);
    assert!(parsed.is_ok());
}

#[test]
fn id_prefixes_are_applied() {
    let idempotency = new_idempotency_key();
    assert!(idempotency.starts_with("ik_"));
    assert!(uuid::Uuid::parse_str(&idempotency[3..]).is_ok());

    let trace = new_trace_id();
    assert!(trace.starts_with("tr_"));
    assert!(uuid::Uuid::parse_str(&trace[3..]).is_ok());

    let request = new_request_id();
    assert!(request.starts_with("rq_"));
    assert!(uuid::Uuid::parse_str(&request[3..]).is_ok());
}

#[test]
fn auth_headers_include_bearer_token() {
    assert_eq!(bearer_header("secret"), "Bearer secret");
}

#[test]
fn generated_tokens_have_expected_length() {
    let token = moduprompt::auth::generate_token();
    assert_eq!(token.len(), 43);
    assert!(moduprompt::auth::authorize(&token, &bearer_header(&token)));
    assert!(!moduprompt::auth::authorize(&token, "Bearer wrong"));
}

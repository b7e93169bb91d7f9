//! Client-side logic: error shaping, exit codes, workspace selection,
//! and command-envelope building.  The front end around it does the
//! argument parsing, the transport and the printing.

use vstd::prelude::*;

verus! {

use crate::ids::{new_idempotency_key, new_trace_id};
use crate::json::{Json, JsonV};
use crate::kernel::{ErrorCode, WorkspaceListEntry, WorkspaceListEntryV};
use crate::pipeline::{wire_code_of, CommandEnvelope, SubmitCommandResponse};
use crate::text::str_eq;

/// How a client starts the stdio transport: open, or with a shared
/// token it must present first.
#[derive(Debug)]
pub enum StdioAuthMode {
    Open,
    Token(String),
}

/// A wire error: the code, a message, and optional detail and trace.
#[derive(Debug)]
pub struct ErrorResponse {
    pub code: ErrorCode,
    pub message: String,
    pub details: Option<Json>,
    pub trace_id: Option<String>,
}

/// A front-end failure, carrying the wire error it renders.
#[derive(Debug)]
pub struct CliError {
    pub error: ErrorResponse,
}

impl CliError {
    /// An error from a code and a message.
    pub fn new(code: ErrorCode, message: String) -> (r: CliError)
        ensures
            r.error.code == code,
            r.error.message@ == message@,
            r.error.details is None,
            r.error.trace_id is None,
    {
        CliError { error: ErrorResponse { code, message, details: None, trace_id: None } }
    }

    /// An error wrapping a wire error as it came.
    pub fn from_error_response(error: ErrorResponse) -> (r: CliError)
        ensures
            r.error.code == error.code,
            r.error.message@ == error.message@,
    {
        CliError { error }
    }

    /// An error from a command rejection: the wire code is read back,
    /// an unreadable one counts as unknown.
    pub fn from_rejection(rejection: crate::pipeline::CommandRejection, trace_id: String) -> (r:
        CliError)
        ensures
            r.error.code == (match wire_code_of(rejection.code@) {
                Some(c) => c,
                None => ErrorCode::Unknown,
            }),
            r.error.message@ == rejection.message@,
            r.error.trace_id.deep_view() == Some(trace_id@),
    {
        let code = match crate::pipeline::parse_error_code(rejection.code.as_str()) {
            Some(c) => c,
            None => ErrorCode::Unknown,
        };
        CliError {
            error: ErrorResponse {
                code,
                message: rejection.message,
                details: None,
                trace_id: Some(trace_id),
            },
        }
    }
}

/// The process exit code each error code maps to.
pub open spec fn exit_code_spec(code: ErrorCode) -> int {
    match code {
        ErrorCode::InvalidSchema => 2,
        ErrorCode::ValidationFailed => 2,
        ErrorCode::IdempotencyKeyRequired => 2,
        ErrorCode::UnknownCommand => 2,
        ErrorCode::ExpectedVersionMismatch => 3,
        ErrorCode::Unauthorized => 4,
        ErrorCode::NotFound => 5,
        ErrorCode::PolicyDenied => 6,
        ErrorCode::Unknown => 1,
        ErrorCode::Internal => 1,
    }
}

/// Maps an error code to the process exit code.
pub fn exit_code_for_error_code(code: ErrorCode) -> (r: i32)
    ensures
        r as int == exit_code_spec(code),
{
    match code {
        ErrorCode::InvalidSchema | ErrorCode::ValidationFailed | ErrorCode::IdempotencyKeyRequired
            | ErrorCode::UnknownCommand => 2,
        ErrorCode::ExpectedVersionMismatch => 3,
        ErrorCode::Unauthorized => 4,
        ErrorCode::NotFound => 5,
        ErrorCode::PolicyDenied => 6,
        ErrorCode::Unknown | ErrorCode::Internal => 1,
    }
}

/// Passes an accepted response through; turns a rejected one into the
/// error it names, or `unknown` where it carries none.
pub fn ensure_command_accepted(response: SubmitCommandResponse) -> (r: Result<
    SubmitCommandResponse,
    CliError,
>)
    ensures
        match r {
            Ok(out) => response.accepted && out.accepted == response.accepted
                && out.events.deep_view() == response.events.deep_view() && out.trace_id@
                == response.trace_id@,
            Err(e) => !response.accepted && e.error.code == (match response.rejection {
                Some(rej) => match wire_code_of(rej.code@) {
                    Some(c) => c,
                    None => ErrorCode::Unknown,
                },
                None => ErrorCode::Unknown,
            }),
        },
{
    if response.accepted {
        return Ok(response);
    }
    match response.rejection {
        Some(rejection) => Err(CliError::from_rejection(rejection, response.trace_id)),
        None => Err(
            CliError::new(ErrorCode::Unknown, "command rejected without details".to_owned()),
        ),
    }
}

/// How many workspaces a selector matches by name or root path.
pub open spec fn count_selector(rows: Seq<WorkspaceListEntryV>, selector: Seq<char>) -> int
    decreases rows.len(),
{
    if rows.len() == 0 {
        0
    } else {
        (if rows[0].name == selector || rows[0].root_path == selector {
            1int
        } else {
            0int
        }) + count_selector(rows.drop_first(), selector)
    }
}

/// Whether some workspace carries the selector as its id.
pub open spec fn selector_is_id(rows: Seq<WorkspaceListEntryV>, selector: Seq<char>) -> bool {
    exists|i: int| 0 <= i < rows.len() && rows[i].workspace_id == selector
}

/// Resolves a workspace selector: the selector itself where it is an
/// id; else the id of the single workspace matching by name or root
/// path; else `not_found`.
pub fn select_workspace(workspaces: &Vec<WorkspaceListEntry>, selector: &str) -> (r: Result<
    String,
    CliError,
>)
    ensures
        match r {
            Ok(id) => {
                if selector_is_id(workspaces.deep_view(), selector@) {
                    id@ == selector@
                } else {
                    count_selector(workspaces.deep_view(), selector@) == 1 && (exists|i: int|
                        0 <= i < workspaces.deep_view().len() && {
                            let row = #[trigger] workspaces.deep_view()[i];
                            (row.name == selector@ || row.root_path == selector@)
                                && id@ == row.workspace_id
                        })
                }
            },
            Err(e) => !selector_is_id(workspaces.deep_view(), selector@) && count_selector(
                workspaces.deep_view(),
                selector@,
            ) != 1 && e.error.code == ErrorCode::NotFound,
        },
{
    broadcast use lemma_count_selector_nonneg;

    let ghost rows = workspaces.deep_view();
    let mut i: usize = 0;
    while i < workspaces.len()
        invariant
            i <= workspaces@.len(),
            rows == workspaces.deep_view(),
            rows.len() == workspaces@.len(),
            forall|j: int| 0 <= j < i ==> (#[trigger] rows[j]).workspace_id != selector@,
        decreases workspaces@.len() - i,
    {
        proof {
            assert(rows[i as int] == workspaces@[i as int]@);
        }
        if str_eq(workspaces[i].workspace_id.as_str(), selector) {
            proof {
                assert(selector_is_id(rows, selector@));
            }
            return Ok(selector.to_owned());
        }
        i += 1;
    }
    proof {
        assert(!selector_is_id(rows, selector@));
    }
    let mut count: usize = 0;
    let mut found: Option<String> = None;
    let mut k: usize = 0;
    proof {
        assert(rows.skip(0) =~= rows);
    }
    while k < workspaces.len()
        invariant
            k <= workspaces@.len(),
            rows == workspaces.deep_view(),
            rows.len() == workspaces@.len(),
            count <= k,
            count_selector(rows, selector@) == count + count_selector(
                rows.skip(k as int),
                selector@,
            ),
            count >= 1 ==> (found matches Some(id) && (exists|i2: int|
                0 <= i2 < rows.len() && {
                    let row = #[trigger] rows[i2];
                    (row.name == selector@ || row.root_path == selector@) && id@
                        == row.workspace_id
                })),
            count == 0 ==> found is None,
        decreases workspaces@.len() - k,
    {
        broadcast use lemma_count_selector_nonneg;

        proof {
            assert(rows.skip(k as int)[0] == rows[k as int]);
            assert(rows.skip(k as int).drop_first() =~= rows.skip(k + 1));
            assert(rows[k as int] == workspaces@[k as int]@);
        }
        let row = &workspaces[k];
        if str_eq(row.name.as_str(), selector) || str_eq(row.root_path.as_str(), selector) {
            count += 1;
            found = Some(row.workspace_id.clone());
            proof {
                let ghost i2 = k as int;
                assert((rows[i2].name == selector@ || rows[i2].root_path == selector@));
            }
        }
        k += 1;
    }
    proof {
        assert(rows.skip(k as int).len() == 0);
        assert(count_selector(rows, selector@) == count);
    }
    if count == 1 {
        match found {
            Some(id) => Ok(id),
            None => {
                proof {
                    assert(false);
                }
                Err(CliError::new(ErrorCode::NotFound, "workspace not found".to_owned()))
            },
        }
    } else {
        Err(
            CliError::new(
                ErrorCode::NotFound,
                "workspace not found or ambiguous".to_owned(),
            ),
        )
    }
}

/// A selector count is never negative.
pub broadcast proof fn lemma_count_selector_nonneg(
    rows: Seq<WorkspaceListEntryV>,
    selector: Seq<char>,
)
    ensures
        #[trigger] count_selector(rows, selector) >= 0,
    decreases rows.len(),
{
    if rows.len() > 0 {
        lemma_count_selector_nonneg(rows.drop_first(), selector);
    }
}

/// Builds a `workspace.create` submission: a fresh idempotency key and
/// trace id stand in where none is given.
pub fn make_workspace_create_command(
    name: String,
    path: Option<String>,
    idempotency_key: Option<String>,
    expected_version: Option<i64>,
) -> (r: CommandEnvelope)
    ensures
        r.command_type@ == "workspace.create"@,
        r.schema_version == 1,
        r.idempotency_key is Some,
        (match idempotency_key {
            Some(k) => r.idempotency_key.deep_view() == Some(k@),
            None => true,
        }),
        (match r.expected_version {
            Some(v) => expected_version == Some(v),
            None => expected_version is None,
        }),
        r.payload@.str_field("name"@) == Some(name@),
        r.payload@.str_field("path"@) == path.deep_view(),
        crate::schema::conforms(r.payload@, crate::schema::workspace_create_rules()),
{
    broadcast use crate::json::lemma_jview_fields;

    let mut fields: Vec<(String, Json)> = Vec::new();
    fields.push(("name".to_owned(), Json::Str(name)));
    match path {
        Some(p) => fields.push(("path".to_owned(), Json::Str(p))),
        None => {},
    }
    let ghost pf = fields@;
    let payload = Json::Obj(fields);
    proof {
        crate::json::lemma_jview_fields(pf);
        reveal_with_fuel(crate::json::obj_lookup, 3);
        reveal_with_fuel(crate::json::count_key, 3);
        reveal_strlit("name");
        reveal_strlit("path");
        assert("name"@.len() == 4);
        assert("path"@.len() == 4);
        assert("name"@[0] == 'n');
        assert("path"@[0] == 'p');
        let f = payload@.obj_fields();
        if pf.len() == 2 {
            assert(f.drop_first() =~= seq![f[1]]);
            assert(f.drop_first().drop_first() =~= Seq::<(Seq<char>, JsonV)>::empty());
        } else {
            assert(f.drop_first() =~= Seq::<(Seq<char>, JsonV)>::empty());
        }
        assert forall|j: int| 0 <= j < f.len() implies crate::schema::key_allowed(
            crate::schema::workspace_create_rules(),
            (#[trigger] f[j]).0,
        ) by {
            if j == 0 {
                assert(crate::schema::workspace_create_rules()[0].name == f[0].0);
            } else {
                assert(crate::schema::workspace_create_rules()[1].name == f[1].0);
            }
        }
        assert forall|j: int|
            0 <= j < crate::schema::workspace_create_rules().len() implies crate::schema::rule_ok(
            f,
            #[trigger] crate::schema::workspace_create_rules()[j],
        ) by {}
    }
    let key = match idempotency_key {
        Some(k) => k,
        None => new_idempotency_key(),
    };
    CommandEnvelope {
        command_type: "workspace.create".to_owned(),
        schema_version: 1,
        payload,
        idempotency_key: Some(key),
        expected_version,
        trace_id: new_trace_id(),
    }
}

/// Builds a `project.create` submission: a fresh idempotency key and
/// trace id stand in where none is given.
pub fn make_project_create_command(
    workspace_id: String,
    name: String,
    idempotency_key: Option<String>,
    expected_version: Option<i64>,
) -> (r: CommandEnvelope)
    ensures
        r.command_type@ == "project.create"@,
        r.schema_version == 1,
        r.idempotency_key is Some,
        (match idempotency_key {
            Some(k) => r.idempotency_key.deep_view() == Some(k@),
            None => true,
        }),
        (match r.expected_version {
            Some(v) => expected_version == Some(v),
            None => expected_version is None,
        }),
        r.payload@.str_field("workspace_id"@) == Some(workspace_id@),
        r.payload@.str_field("name"@) == Some(name@),
        crate::schema::conforms(r.payload@, crate::schema::project_create_rules()),
{
    let ghost widc = workspace_id@;
    let ghost namec = name@;
    let mut fields: Vec<(String, Json)> = Vec::new();
    fields.push(("workspace_id".to_owned(), Json::Str(workspace_id)));
    fields.push(("name".to_owned(), Json::Str(name)));
    let ghost pf = fields@;
    let payload = Json::Obj(fields);
    proof {
        crate::json::lemma_jview_fields(pf);
        reveal_with_fuel(crate::json::obj_lookup, 3);
        reveal_strlit("workspace_id");
        reveal_strlit("name");
        assert("workspace_id"@.len() == 12);
        assert("name"@.len() == 4);
        let f = payload@.obj_fields();
        assert(f =~= crate::pipeline::pr_created_payload_json(widc, namec).obj_fields());
        assert(payload@ =~= crate::pipeline::pr_created_payload_json(widc, namec));
        crate::pipeline::lemma_two_str_obj_conforms("workspace_id"@, widc, "name"@, namec);
        assert(seq![
            crate::schema::FieldRuleV {
                name: "workspace_id"@,
                kind: crate::schema::FieldKind::ReqStr,
            },
            crate::schema::FieldRuleV { name: "name"@, kind: crate::schema::FieldKind::ReqStr },
        ] =~= crate::schema::project_create_rules());
        assert(f.drop_first() =~= seq![f[1]]);
    }
    let key = match idempotency_key {
        Some(k) => k,
        None => new_idempotency_key(),
    };
    CommandEnvelope {
        command_type: "project.create".to_owned(),
        schema_version: 1,
        payload,
        idempotency_key: Some(key),
        expected_version,
        trace_id: new_trace_id(),
    }
}

} // verus!

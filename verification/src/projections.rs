//! The projection engine: a deterministic fold from events to the
//! workspace and project list tables and the per-workspace metadata.
//!
//! Tables are kept ordered by name, ascending; an upsert removes the
//! row with the same primary key and inserts the new row at its
//! ordered position, after rows with an equal name.  Projection state
//! is a pure function of the event prefix: [`proj_of`] names it, and
//! rebuilding from the log yields exactly it.

use vstd::prelude::*;

verus! {

use crate::event::{EventEnvelope, EventEnvelopeV};
use crate::json::Json;
use crate::kernel::{
    ProjectListEntry, ProjectListEntryV, WorkspaceCreatedPayload, ProjectCreatedPayload,
    WorkspaceListEntry, WorkspaceListEntryV,
};
use crate::schema::{
    conforms, payload_conforms, project_created_rules, workspace_created_rules, FieldKind,
    FieldRule,
};
use crate::text::{lex_le, str_eq, str_le};

/// A row of the per-workspace metadata table.
#[derive(Debug, Clone)]
pub struct MetaEntry {
    pub workspace_id: String,
    pub last_seq_global: i64,
}

/// The model of a metadata row.
#[verifier::ext_equal]
pub struct MetaEntryV {
    pub workspace_id: Seq<char>,
    pub last_seq_global: int,
}

impl View for MetaEntry {
    type V = MetaEntryV;

    open spec fn view(&self) -> MetaEntryV {
        MetaEntryV {
            workspace_id: self.workspace_id@,
            last_seq_global: self.last_seq_global as int,
        }
    }
}

impl DeepView for MetaEntry {
    type V = MetaEntryV;

    open spec fn deep_view(&self) -> MetaEntryV {
        self@
    }
}

/// The model of the three projection tables.
#[verifier::ext_equal]
pub struct ProjModel {
    pub workspaces: Seq<WorkspaceListEntryV>,
    pub projects: Seq<ProjectListEntryV>,
    pub metas: Seq<MetaEntryV>,
}

impl ProjModel {
    /// Empty tables.
    pub open spec fn empty() -> ProjModel {
        ProjModel { workspaces: Seq::empty(), projects: Seq::empty(), metas: Seq::empty() }
    }

    /// The tables after a workspace upsert.
    pub open spec fn with_workspace(self, row: WorkspaceListEntryV) -> ProjModel {
        ProjModel { workspaces: ws_upsert(self.workspaces, row), ..self }
    }

    /// The tables after a project upsert.
    pub open spec fn with_project(self, row: ProjectListEntryV) -> ProjModel {
        ProjModel { projects: pr_upsert(self.projects, row), ..self }
    }

    /// The tables after setting a workspace's last applied sequence.
    pub open spec fn with_meta(self, workspace_id: Seq<char>, seq_global: int) -> ProjModel {
        ProjModel { metas: meta_set(self.metas, workspace_id, seq_global), ..self }
    }
}

/// The workspace rows without the one keyed `workspace_id`.
pub open spec fn ws_remove(rows: Seq<WorkspaceListEntryV>, workspace_id: Seq<char>) -> Seq<
    WorkspaceListEntryV,
>
    decreases rows.len(),
{
    if rows.len() == 0 {
        Seq::empty()
    } else if rows.last().workspace_id == workspace_id {
        ws_remove(rows.drop_last(), workspace_id)
    } else {
        ws_remove(rows.drop_last(), workspace_id).push(rows.last())
    }
}

/// The workspace rows with `row` inserted after every row whose name is
/// at or below its own.
pub open spec fn ws_insert(rows: Seq<WorkspaceListEntryV>, row: WorkspaceListEntryV) -> Seq<
    WorkspaceListEntryV,
>
    decreases rows.len(),
{
    if rows.len() == 0 {
        seq![row]
    } else if lex_le(rows[0].name, row.name) {
        seq![rows[0]] + ws_insert(rows.drop_first(), row)
    } else {
        seq![row] + rows
    }
}

/// Replaces the row with `row`'s key and places the new row in name
/// order.
pub open spec fn ws_upsert(rows: Seq<WorkspaceListEntryV>, row: WorkspaceListEntryV) -> Seq<
    WorkspaceListEntryV,
> {
    ws_insert(ws_remove(rows, row.workspace_id), row)
}

/// The project rows without the one keyed `project_id`.
pub open spec fn pr_remove(rows: Seq<ProjectListEntryV>, project_id: Seq<char>) -> Seq<
    ProjectListEntryV,
>
    decreases rows.len(),
{
    if rows.len() == 0 {
        Seq::empty()
    } else if rows.last().project_id == project_id {
        pr_remove(rows.drop_last(), project_id)
    } else {
        pr_remove(rows.drop_last(), project_id).push(rows.last())
    }
}

/// The project rows with `row` inserted after every row whose name is
/// at or below its own.
pub open spec fn pr_insert(rows: Seq<ProjectListEntryV>, row: ProjectListEntryV) -> Seq<
    ProjectListEntryV,
>
    decreases rows.len(),
{
    if rows.len() == 0 {
        seq![row]
    } else if lex_le(rows[0].name, row.name) {
        seq![rows[0]] + pr_insert(rows.drop_first(), row)
    } else {
        seq![row] + rows
    }
}

/// Replaces the row with `row`'s key and places the new row in name
/// order.
pub open spec fn pr_upsert(rows: Seq<ProjectListEntryV>, row: ProjectListEntryV) -> Seq<
    ProjectListEntryV,
> {
    pr_insert(pr_remove(rows, row.project_id), row)
}

/// Sets a workspace's last applied sequence, keeping the rows of the
/// other workspaces.
pub open spec fn meta_set(
    metas: Seq<MetaEntryV>,
    workspace_id: Seq<char>,
    seq_global: int,
) -> Seq<MetaEntryV>
    decreases metas.len(),
{
    if metas.len() == 0 {
        seq![MetaEntryV { workspace_id, last_seq_global: seq_global }]
    } else if metas[0].workspace_id == workspace_id {
        seq![MetaEntryV { workspace_id, last_seq_global: seq_global }] + metas.drop_first()
    } else {
        seq![metas[0]] + meta_set(metas.drop_first(), workspace_id, seq_global)
    }
}

/// Where the scan stopped at position `k`, the insertion splits the
/// rows there.
proof fn lemma_ws_insert_at(rows: Seq<WorkspaceListEntryV>, row: WorkspaceListEntryV, k: int)
    requires
        0 <= k <= rows.len(),
        forall|j: int| 0 <= j < k ==> lex_le((#[trigger] rows[j]).name, row.name),
        k < rows.len() ==> !lex_le(rows[k].name, row.name),
    ensures
        ws_insert(rows, row) == rows.take(k) + seq![row] + rows.skip(k),
    decreases k,
{
    if k == 0 {
        if rows.len() == 0 {
            assert(ws_insert(rows, row) =~= rows.take(0) + seq![row] + rows.skip(0));
        } else {
            assert(ws_insert(rows, row) =~= rows.take(0) + seq![row] + rows.skip(0));
        }
    } else {
        assert(lex_le(rows[0].name, row.name));
        lemma_ws_insert_at(rows.drop_first(), row, k - 1);
        assert(seq![rows[0]] + (rows.drop_first().take(k - 1) + seq![row] + rows.drop_first().skip(
            k - 1,
        )) =~= rows.take(k) + seq![row] + rows.skip(k));
    }
}

/// Where the scan stopped at position `k`, the insertion splits the
/// rows there.
proof fn lemma_pr_insert_at(rows: Seq<ProjectListEntryV>, row: ProjectListEntryV, k: int)
    requires
        0 <= k <= rows.len(),
        forall|j: int| 0 <= j < k ==> lex_le((#[trigger] rows[j]).name, row.name),
        k < rows.len() ==> !lex_le(rows[k].name, row.name),
    ensures
        pr_insert(rows, row) == rows.take(k) + seq![row] + rows.skip(k),
    decreases k,
{
    if k == 0 {
        assert(pr_insert(rows, row) =~= rows.take(0) + seq![row] + rows.skip(0));
    } else {
        assert(lex_le(rows[0].name, row.name));
        lemma_pr_insert_at(rows.drop_first(), row, k - 1);
        assert(seq![rows[0]] + (rows.drop_first().take(k - 1) + seq![row] + rows.drop_first().skip(
            k - 1,
        )) =~= rows.take(k) + seq![row] + rows.skip(k));
    }
}

/// Setting a key that first occurs at `k` updates that row in place.
proof fn lemma_meta_set_at(
    metas: Seq<MetaEntryV>,
    workspace_id: Seq<char>,
    seq_global: int,
    k: int,
)
    requires
        0 <= k < metas.len(),
        metas[k].workspace_id == workspace_id,
        forall|j: int| 0 <= j < k ==> (#[trigger] metas[j]).workspace_id != workspace_id,
    ensures
        meta_set(metas, workspace_id, seq_global) == metas.update(
            k,
            MetaEntryV { workspace_id, last_seq_global: seq_global },
        ),
    decreases k,
{
    if k == 0 {
        assert(meta_set(metas, workspace_id, seq_global) =~= metas.update(
            0,
            MetaEntryV { workspace_id, last_seq_global: seq_global },
        ));
    } else {
        lemma_meta_set_at(metas.drop_first(), workspace_id, seq_global, k - 1);
        assert(seq![metas[0]] + metas.drop_first().update(
            k - 1,
            MetaEntryV { workspace_id, last_seq_global: seq_global },
        ) =~= metas.update(k, MetaEntryV { workspace_id, last_seq_global: seq_global }));
    }
}

/// Setting a key that occurs nowhere appends a fresh row.
proof fn lemma_meta_set_absent(metas: Seq<MetaEntryV>, workspace_id: Seq<char>, seq_global: int)
    requires
        forall|j: int|
            0 <= j < metas.len() ==> (#[trigger] metas[j]).workspace_id != workspace_id,
    ensures
        meta_set(metas, workspace_id, seq_global) == metas.push(
            MetaEntryV { workspace_id, last_seq_global: seq_global },
        ),
    decreases metas.len(),
{
    if metas.len() == 0 {
        assert(meta_set(metas, workspace_id, seq_global) =~= metas.push(
            MetaEntryV { workspace_id, last_seq_global: seq_global },
        ));
    } else {
        lemma_meta_set_absent(metas.drop_first(), workspace_id, seq_global);
        assert(seq![metas[0]] + metas.drop_first().push(
            MetaEntryV { workspace_id, last_seq_global: seq_global },
        ) =~= metas.push(MetaEntryV { workspace_id, last_seq_global: seq_global }));
    }
}

/// Whether workspace rows are ordered by name, ascending.
pub open spec fn ws_sorted(rows: Seq<WorkspaceListEntryV>) -> bool {
    forall|i: int, j: int|
        0 <= i < j < rows.len() ==> lex_le(#[trigger] rows[i].name, #[trigger] rows[j].name)
}

/// Whether project rows are ordered by name, ascending.
pub open spec fn pr_sorted(rows: Seq<ProjectListEntryV>) -> bool {
    forall|i: int, j: int|
        0 <= i < j < rows.len() ==> lex_le(#[trigger] rows[i].name, #[trigger] rows[j].name)
}

/// Every row a removal keeps was already there.
proof fn lemma_ws_remove_member(rows: Seq<WorkspaceListEntryV>, workspace_id: Seq<char>)
    ensures
        forall|k: int|
            0 <= k < ws_remove(rows, workspace_id).len() ==> exists|m: int|
                0 <= m < rows.len() && #[trigger] ws_remove(rows, workspace_id)[k] == rows[m],
    decreases rows.len(),
{
    if rows.len() > 0 {
        lemma_ws_remove_member(rows.drop_last(), workspace_id);
        let r = ws_remove(rows, workspace_id);
        let prev = ws_remove(rows.drop_last(), workspace_id);
        assert forall|k: int| 0 <= k < r.len() implies exists|m: int|
            0 <= m < rows.len() && #[trigger] r[k] == rows[m] by {
            if k < prev.len() {
                let m0 = choose|m: int| 0 <= m < rows.drop_last().len() && prev[k] == rows.drop_last()[m];
                assert(rows.drop_last()[m0] == rows[m0]);
                assert(r[k] == rows[m0]);
            } else {
                assert(r[k] == rows[rows.len() - 1]);
            }
        }
    }
}

/// Removing a row keeps the order.
proof fn lemma_ws_remove_sorted(rows: Seq<WorkspaceListEntryV>, workspace_id: Seq<char>)
    requires
        ws_sorted(rows),
    ensures
        ws_sorted(ws_remove(rows, workspace_id)),
    decreases rows.len(),
{
    if rows.len() > 0 {
        assert(ws_sorted(rows.drop_last()));
        lemma_ws_remove_sorted(rows.drop_last(), workspace_id);
        lemma_ws_remove_member(rows.drop_last(), workspace_id);
        let r = ws_remove(rows, workspace_id);
        let prev = ws_remove(rows.drop_last(), workspace_id);
        if rows.last().workspace_id == workspace_id {
        } else {
            assert forall|i: int, j: int|
                0 <= i < j < r.len() implies lex_le(#[trigger] r[i].name, #[trigger] r[j].name) by {
                if j < prev.len() {
                } else {
                    assert(r[j] == rows.last());
                    let m0 = choose|m: int|
                        0 <= m < rows.drop_last().len() && prev[i] == rows.drop_last()[m];
                    assert(rows.drop_last()[m0] == rows[m0]);
                    if m0 < rows.len() - 1 {
                        assert(lex_le(rows[m0].name, rows[rows.len() - 1].name));
                    } else {
                        crate::text::lemma_lex_total(r[i].name, r[j].name);
                    }
                }
            }
        }
    }
}

/// Every row an insertion yields is the new row or one of the old.
proof fn lemma_ws_insert_member(rows: Seq<WorkspaceListEntryV>, row: WorkspaceListEntryV)
    ensures
        forall|k: int|
            0 <= k < ws_insert(rows, row).len() ==> (#[trigger] ws_insert(rows, row)[k] == row
                || exists|m: int| 0 <= m < rows.len() && ws_insert(rows, row)[k] == rows[m]),
    decreases rows.len(),
{
    if rows.len() > 0 && lex_le(rows[0].name, row.name) {
        lemma_ws_insert_member(rows.drop_first(), row);
        let r = ws_insert(rows, row);
        let rest = ws_insert(rows.drop_first(), row);
        assert forall|k: int| 0 <= k < r.len() implies (#[trigger] r[k] == row || exists|m: int|
            0 <= m < rows.len() && r[k] == rows[m]) by {
            if k == 0 {
                assert(r[0] == rows[0]);
            } else {
                assert(r[k] == rest[k - 1]);
                if rest[k - 1] == row {
                } else {
                    let m0 = choose|m: int|
                        0 <= m < rows.drop_first().len() && rest[k - 1] == rows.drop_first()[m];
                    assert(rows.drop_first()[m0] == rows[m0 + 1]);
                }
            }
        }
    }
}

/// Inserting a row in name order keeps the order.
proof fn lemma_ws_insert_sorted(rows: Seq<WorkspaceListEntryV>, row: WorkspaceListEntryV)
    requires
        ws_sorted(rows),
    ensures
        ws_sorted(ws_insert(rows, row)),
    decreases rows.len(),
{
    let r = ws_insert(rows, row);
    if rows.len() == 0 {
    } else if lex_le(rows[0].name, row.name) {
        assert(ws_sorted(rows.drop_first())) by {
            assert forall|i: int, j: int|
                0 <= i < j < rows.drop_first().len() implies lex_le(
                #[trigger] rows.drop_first()[i].name,
                #[trigger] rows.drop_first()[j].name,
            ) by {
                assert(rows.drop_first()[i] == rows[i + 1]);
                assert(rows.drop_first()[j] == rows[j + 1]);
            }
        }
        lemma_ws_insert_sorted(rows.drop_first(), row);
        lemma_ws_insert_member(rows.drop_first(), row);
        let rest = ws_insert(rows.drop_first(), row);
        assert forall|i: int, j: int|
            0 <= i < j < r.len() implies lex_le(#[trigger] r[i].name, #[trigger] r[j].name) by {
            if i == 0 {
                assert(r[j] == rest[j - 1]);
                if rest[j - 1] == row {
                } else {
                    let m0 = choose|m: int|
                        0 <= m < rows.drop_first().len() && rest[j - 1] == rows.drop_first()[m];
                    assert(rows.drop_first()[m0] == rows[m0 + 1]);
                    assert(lex_le(rows[0].name, rows[m0 + 1].name));
                }
            } else {
                assert(r[i] == rest[i - 1]);
                assert(r[j] == rest[j - 1]);
            }
        }
    } else {
        crate::text::lemma_lex_total(rows[0].name, row.name);
        assert forall|i: int, j: int|
            0 <= i < j < r.len() implies lex_le(#[trigger] r[i].name, #[trigger] r[j].name) by {
            if i == 0 {
                assert(r[0] == row);
                assert(r[j] == rows[j - 1]);
                if j == 1 {
                } else {
                    assert(lex_le(rows[0].name, rows[j - 1].name));
                    crate::text::lemma_lex_trans(row.name, rows[0].name, rows[j - 1].name);
                }
            } else {
                assert(r[i] == rows[i - 1]);
                assert(r[j] == rows[j - 1]);
            }
        }
    }
}

/// Every row a removal keeps was already there.
proof fn lemma_pr_remove_member(rows: Seq<ProjectListEntryV>, project_id: Seq<char>)
    ensures
        forall|k: int|
            0 <= k < pr_remove(rows, project_id).len() ==> exists|m: int|
                0 <= m < rows.len() && #[trigger] pr_remove(rows, project_id)[k] == rows[m],
    decreases rows.len(),
{
    if rows.len() > 0 {
        lemma_pr_remove_member(rows.drop_last(), project_id);
        let r = pr_remove(rows, project_id);
        let prev = pr_remove(rows.drop_last(), project_id);
        assert forall|k: int| 0 <= k < r.len() implies exists|m: int|
            0 <= m < rows.len() && #[trigger] r[k] == rows[m] by {
            if k < prev.len() {
                let m0 = choose|m: int|
                    0 <= m < rows.drop_last().len() && prev[k] == rows.drop_last()[m];
                assert(rows.drop_last()[m0] == rows[m0]);
                assert(r[k] == rows[m0]);
            } else {
                assert(r[k] == rows[rows.len() - 1]);
            }
        }
    }
}

/// Removing a row keeps the order.
proof fn lemma_pr_remove_sorted(rows: Seq<ProjectListEntryV>, project_id: Seq<char>)
    requires
        pr_sorted(rows),
    ensures
        pr_sorted(pr_remove(rows, project_id)),
    decreases rows.len(),
{
    if rows.len() > 0 {
        assert(pr_sorted(rows.drop_last()));
        lemma_pr_remove_sorted(rows.drop_last(), project_id);
        lemma_pr_remove_member(rows.drop_last(), project_id);
        let r = pr_remove(rows, project_id);
        let prev = pr_remove(rows.drop_last(), project_id);
        if rows.last().project_id == project_id {
        } else {
            assert forall|i: int, j: int|
                0 <= i < j < r.len() implies lex_le(#[trigger] r[i].name, #[trigger] r[j].name) by {
                if j < prev.len() {
                } else {
                    assert(r[j] == rows.last());
                    let m0 = choose|m: int|
                        0 <= m < rows.drop_last().len() && prev[i] == rows.drop_last()[m];
                    assert(rows.drop_last()[m0] == rows[m0]);
                    if m0 < rows.len() - 1 {
                        assert(lex_le(rows[m0].name, rows[rows.len() - 1].name));
                    } else {
                        crate::text::lemma_lex_total(r[i].name, r[j].name);
                    }
                }
            }
        }
    }
}

/// Every row an insertion yields is the new row or one of the old.
proof fn lemma_pr_insert_member(rows: Seq<ProjectListEntryV>, row: ProjectListEntryV)
    ensures
        forall|k: int|
            0 <= k < pr_insert(rows, row).len() ==> (#[trigger] pr_insert(rows, row)[k] == row
                || exists|m: int| 0 <= m < rows.len() && pr_insert(rows, row)[k] == rows[m]),
    decreases rows.len(),
{
    if rows.len() > 0 && lex_le(rows[0].name, row.name) {
        lemma_pr_insert_member(rows.drop_first(), row);
        let r = pr_insert(rows, row);
        let rest = pr_insert(rows.drop_first(), row);
        assert forall|k: int| 0 <= k < r.len() implies (#[trigger] r[k] == row || exists|m: int|
            0 <= m < rows.len() && r[k] == rows[m]) by {
            if k == 0 {
                assert(r[0] == rows[0]);
            } else {
                assert(r[k] == rest[k - 1]);
                if rest[k - 1] == row {
                } else {
                    let m0 = choose|m: int|
                        0 <= m < rows.drop_first().len() && rest[k - 1] == rows.drop_first()[m];
                    assert(rows.drop_first()[m0] == rows[m0 + 1]);
                }
            }
        }
    }
}

/// Inserting a row in name order keeps the order.
proof fn lemma_pr_insert_sorted(rows: Seq<ProjectListEntryV>, row: ProjectListEntryV)
    requires
        pr_sorted(rows),
    ensures
        pr_sorted(pr_insert(rows, row)),
    decreases rows.len(),
{
    let r = pr_insert(rows, row);
    if rows.len() == 0 {
    } else if lex_le(rows[0].name, row.name) {
        assert(pr_sorted(rows.drop_first())) by {
            assert forall|i: int, j: int|
                0 <= i < j < rows.drop_first().len() implies lex_le(
                #[trigger] rows.drop_first()[i].name,
                #[trigger] rows.drop_first()[j].name,
            ) by {
                assert(rows.drop_first()[i] == rows[i + 1]);
                assert(rows.drop_first()[j] == rows[j + 1]);
            }
        }
        lemma_pr_insert_sorted(rows.drop_first(), row);
        lemma_pr_insert_member(rows.drop_first(), row);
        let rest = pr_insert(rows.drop_first(), row);
        assert forall|i: int, j: int|
            0 <= i < j < r.len() implies lex_le(#[trigger] r[i].name, #[trigger] r[j].name) by {
            if i == 0 {
                assert(r[j] == rest[j - 1]);
                if rest[j - 1] == row {
                } else {
                    let m0 = choose|m: int|
                        0 <= m < rows.drop_first().len() && rest[j - 1] == rows.drop_first()[m];
                    assert(rows.drop_first()[m0] == rows[m0 + 1]);
                    assert(lex_le(rows[0].name, rows[m0 + 1].name));
                }
            } else {
                assert(r[i] == rest[i - 1]);
                assert(r[j] == rest[j - 1]);
            }
        }
    } else {
        crate::text::lemma_lex_total(rows[0].name, row.name);
        assert forall|i: int, j: int|
            0 <= i < j < r.len() implies lex_le(#[trigger] r[i].name, #[trigger] r[j].name) by {
            if i == 0 {
                assert(r[0] == row);
                assert(r[j] == rows[j - 1]);
                if j == 1 {
                } else {
                    assert(lex_le(rows[0].name, rows[j - 1].name));
                    crate::text::lemma_lex_trans(row.name, rows[0].name, rows[j - 1].name);
                }
            } else {
                assert(r[i] == rows[i - 1]);
                assert(r[j] == rows[j - 1]);
            }
        }
    }
}

/// List ordering: the projection fold keeps both tables ordered by
/// name, ascending — so the workspace and project lists come out
/// sorted.
pub proof fn lemma_proj_of_sorted(events: Seq<EventEnvelopeV>)
    ensures
        ws_sorted(proj_of(events).workspaces),
        pr_sorted(proj_of(events).projects),
    decreases events.len(),
{
    if events.len() > 0 {
        lemma_proj_of_sorted(events.drop_last());
        let m = proj_of(events.drop_last());
        let e = events.last();
        if event_applies(e) && e.event_type == "workspace.created"@ {
            lemma_ws_remove_sorted(m.workspaces, ws_row_of(e).workspace_id);
            lemma_ws_insert_sorted(ws_remove(m.workspaces, ws_row_of(e).workspace_id), ws_row_of(e));
        } else if event_applies(e) && e.event_type == "project.created"@ {
            lemma_pr_remove_sorted(m.projects, pr_row_of(e).project_id);
            lemma_pr_insert_sorted(pr_remove(m.projects, pr_row_of(e).project_id), pr_row_of(e));
        }
    }
}

/// Whether an event can be applied to the tables: a `workspace.created`
/// or `project.created` event needs a conforming payload, the latter
/// also a project id; every other event type is a no-op.
pub open spec fn event_applies(e: EventEnvelopeV) -> bool {
    if e.event_type == "workspace.created"@ {
        conforms(e.payload, workspace_created_rules())
    } else if e.event_type == "project.created"@ {
        conforms(e.payload, project_created_rules()) && e.project_id is Some
    } else {
        true
    }
}

/// The workspace row a `workspace.created` event yields.
pub open spec fn ws_row_of(e: EventEnvelopeV) -> WorkspaceListEntryV {
    WorkspaceListEntryV {
        workspace_id: e.workspace_id,
        name: e.payload.str_field_val("name"@),
        root_path: e.payload.str_field_val("root_path"@),
        created_at: e.timestamp,
        seq_global: e.seq_global,
    }
}

/// The project row a `project.created` event yields.
pub open spec fn pr_row_of(e: EventEnvelopeV) -> ProjectListEntryV {
    ProjectListEntryV {
        project_id: crate::json::opt_str_val(e.project_id),
        workspace_id: e.payload.str_field_val("workspace_id"@),
        name: e.payload.str_field_val("name"@),
        created_at: e.timestamp,
        seq_global: e.seq_global,
    }
}

/// One step of the projection fold.  An event that cannot be applied
/// leaves the tables as they are.
pub open spec fn apply_tr(m: ProjModel, e: EventEnvelopeV) -> ProjModel {
    if !event_applies(e) {
        m
    } else if e.event_type == "workspace.created"@ {
        m.with_workspace(ws_row_of(e)).with_meta(e.workspace_id, e.seq_global)
    } else if e.event_type == "project.created"@ {
        m.with_project(pr_row_of(e)).with_meta(e.workspace_id, e.seq_global)
    } else {
        m
    }
}

/// The projection tables as a pure function of an event prefix.
pub open spec fn proj_of(events: Seq<EventEnvelopeV>) -> ProjModel
    decreases events.len(),
{
    if events.len() == 0 {
        ProjModel::empty()
    } else {
        apply_tr(proj_of(events.drop_last()), events.last())
    }
}

/// The project rows of one workspace, in table order.
pub open spec fn projects_of(rows: Seq<ProjectListEntryV>, workspace_id: Seq<char>) -> Seq<
    ProjectListEntryV,
>
    decreases rows.len(),
{
    if rows.len() == 0 {
        Seq::empty()
    } else if rows.last().workspace_id == workspace_id {
        projects_of(rows.drop_last(), workspace_id).push(rows.last())
    } else {
        projects_of(rows.drop_last(), workspace_id)
    }
}

/// A failure while applying an event to the tables.
#[derive(Debug)]
pub enum ProjectionError {
    Apply(String),
}

/// Where projection rows are written.  The daemon writes them to its
/// in-memory tables; the contract ties every write to the model.
pub trait ProjectionWriter: Sized {
    /// The tables this writer maintains.
    spec fn model(&self) -> ProjModel;

    /// Empties the tables.
    fn reset(&mut self) -> (r: Result<(), ProjectionError>)
        ensures
            r is Ok,
            final(self).model() == ProjModel::empty(),
    ;

    /// Upserts a workspace row.
    fn upsert_workspace(
        &mut self,
        workspace_id: &str,
        name: &str,
        root_path: &str,
        created_at: &str,
        seq_global: i64,
    ) -> (r: Result<(), ProjectionError>)
        ensures
            r is Ok,
            final(self).model() == old(self).model().with_workspace(
                WorkspaceListEntryV {
                    workspace_id: workspace_id@,
                    name: name@,
                    root_path: root_path@,
                    created_at: created_at@,
                    seq_global: seq_global as int,
                },
            ),
    ;

    /// Upserts a project row.
    fn upsert_project(
        &mut self,
        project_id: &str,
        workspace_id: &str,
        name: &str,
        created_at: &str,
        seq_global: i64,
    ) -> (r: Result<(), ProjectionError>)
        ensures
            r is Ok,
            final(self).model() == old(self).model().with_project(
                ProjectListEntryV {
                    project_id: project_id@,
                    workspace_id: workspace_id@,
                    name: name@,
                    created_at: created_at@,
                    seq_global: seq_global as int,
                },
            ),
    ;

    /// Records the last sequence applied for a workspace.
    fn set_meta(&mut self, workspace_id: &str, seq_global: i64) -> (r: Result<
        (),
        ProjectionError,
    >)
        ensures
            r is Ok,
            final(self).model() == old(self).model().with_meta(workspace_id@, seq_global as int),
    ;
}

/// Removes every workspace row keyed `workspace_id`, keeping order.
fn ws_table_remove(rows: &Vec<WorkspaceListEntry>, workspace_id: &str) -> (r: Vec<
    WorkspaceListEntry,
>)
    ensures
        r.deep_view() == ws_remove(rows.deep_view(), workspace_id@),
{
    let ghost rv = rows.deep_view();
    let mut kept: Vec<WorkspaceListEntry> = Vec::new();
    let mut i: usize = 0;
    proof {
        assert(rv.take(0) =~= Seq::<WorkspaceListEntryV>::empty());
        assert(kept.deep_view() =~= ws_remove(rv.take(0), workspace_id@));
    }
    while i < rows.len()
        invariant
            i <= rows@.len(),
            rv == rows.deep_view(),
            rv.len() == rows@.len(),
            kept.deep_view() == ws_remove(rv.take(i as int), workspace_id@),
        decreases rows@.len() - i,
    {
        let ghost prev = kept.deep_view();
        proof {
            assert(rv.take(i + 1).drop_last() =~= rv.take(i as int));
            assert(rv.take(i + 1).last() == rv[i as int]);
            assert(rv[i as int] == rows@[i as int]@);
        }
        if !str_eq(rows[i].workspace_id.as_str(), workspace_id) {
            let row = rows[i].duplicate();
            kept.push(row);
            proof {
                assert(kept.deep_view() =~= prev.push(rows@[i as int]@));
            }
        }
        i += 1;
    }
    proof {
        assert(rv.take(i as int) =~= rv);
    }
    kept
}

/// Inserts a workspace row after every row whose name is at or below
/// its own.
fn ws_table_insert(rows: &mut Vec<WorkspaceListEntry>, row: WorkspaceListEntry)
    ensures
        final(rows).deep_view() == ws_insert(old(rows).deep_view(), row@),
{
    let ghost rv = rows.deep_view();
    let mut pos: usize = 0;
    while pos < rows.len() && str_le(rows[pos].name.as_str(), row.name.as_str())
        invariant
            pos <= rows@.len(),
            rv == rows.deep_view(),
            rv.len() == rows@.len(),
            forall|j: int| 0 <= j < pos ==> lex_le((#[trigger] rv[j]).name, row@.name),
        decreases rows@.len() - pos,
    {
        proof {
            assert(rv[pos as int] == rows@[pos as int]@);
        }
        pos += 1;
    }
    proof {
        if pos < rv.len() {
            assert(rv[pos as int] == rows@[pos as int]@);
        }
        lemma_ws_insert_at(rv, row@, pos as int);
    }
    rows.insert(pos, row);
    proof {
        assert(final(rows).deep_view() =~= rv.take(pos as int) + seq![row@] + rv.skip(pos as int));
    }
}

/// Removes every project row keyed `project_id`, keeping order.
fn pr_table_remove(rows: &Vec<ProjectListEntry>, project_id: &str) -> (r: Vec<ProjectListEntry>)
    ensures
        r.deep_view() == pr_remove(rows.deep_view(), project_id@),
{
    let ghost rv = rows.deep_view();
    let mut kept: Vec<ProjectListEntry> = Vec::new();
    let mut i: usize = 0;
    proof {
        assert(rv.take(0) =~= Seq::<ProjectListEntryV>::empty());
        assert(kept.deep_view() =~= pr_remove(rv.take(0), project_id@));
    }
    while i < rows.len()
        invariant
            i <= rows@.len(),
            rv == rows.deep_view(),
            rv.len() == rows@.len(),
            kept.deep_view() == pr_remove(rv.take(i as int), project_id@),
        decreases rows@.len() - i,
    {
        let ghost prev = kept.deep_view();
        proof {
            assert(rv.take(i + 1).drop_last() =~= rv.take(i as int));
            assert(rv.take(i + 1).last() == rv[i as int]);
            assert(rv[i as int] == rows@[i as int]@);
        }
        if !str_eq(rows[i].project_id.as_str(), project_id) {
            let row = rows[i].duplicate();
            kept.push(row);
            proof {
                assert(kept.deep_view() =~= prev.push(rows@[i as int]@));
            }
        }
        i += 1;
    }
    proof {
        assert(rv.take(i as int) =~= rv);
    }
    kept
}

/// Inserts a project row after every row whose name is at or below its
/// own.
fn pr_table_insert(rows: &mut Vec<ProjectListEntry>, row: ProjectListEntry)
    ensures
        final(rows).deep_view() == pr_insert(old(rows).deep_view(), row@),
{
    let ghost rv = rows.deep_view();
    let mut pos: usize = 0;
    while pos < rows.len() && str_le(rows[pos].name.as_str(), row.name.as_str())
        invariant
            pos <= rows@.len(),
            rv == rows.deep_view(),
            rv.len() == rows@.len(),
            forall|j: int| 0 <= j < pos ==> lex_le((#[trigger] rv[j]).name, row@.name),
        decreases rows@.len() - pos,
    {
        proof {
            assert(rv[pos as int] == rows@[pos as int]@);
        }
        pos += 1;
    }
    proof {
        if pos < rv.len() {
            assert(rv[pos as int] == rows@[pos as int]@);
        }
        lemma_pr_insert_at(rv, row@, pos as int);
    }
    rows.insert(pos, row);
    proof {
        assert(final(rows).deep_view() =~= rv.take(pos as int) + seq![row@] + rv.skip(pos as int));
    }
}

/// Sets a workspace's last applied sequence in the metadata table.
fn meta_table_set(metas: &mut Vec<MetaEntry>, workspace_id: &str, seq_global: i64)
    ensures
        final(metas).deep_view() == meta_set(old(metas).deep_view(), workspace_id@, seq_global as int),
{
    let ghost mv = metas.deep_view();
    let mut i: usize = 0;
    while i < metas.len()
        invariant
            i <= metas@.len(),
            metas@ == old(metas)@,
            mv == metas.deep_view(),
            mv.len() == metas@.len(),
            forall|j: int| 0 <= j < i ==> (#[trigger] mv[j]).workspace_id != workspace_id@,
        decreases metas@.len() - i,
    {
        proof {
            assert(mv[i as int] == metas@[i as int]@);
        }
        if str_eq(metas[i].workspace_id.as_str(), workspace_id) {
            let entry = MetaEntry { workspace_id: workspace_id.to_owned(), last_seq_global: seq_global };
            let ghost entryv = entry@;
            metas.remove(i);
            metas.insert(i, entry);
            proof {
                lemma_meta_set_at(mv, workspace_id@, seq_global as int, i as int);
                let target = mv.update(i as int, entryv);
                assert(metas@.len() == old(metas)@.len());
                assert forall|j: int| 0 <= j < target.len() implies metas.deep_view()[j] == target[j] by {
                    if j < i {
                        assert(metas@[j] == old(metas)@[j]);
                    } else if j == i {
                        assert(metas@[j]@ == entryv);
                    } else {
                        assert(metas@[j] == old(metas)@.remove(i as int)[j - 1]);
                        assert(metas@[j] == old(metas)@[j]);
                    }
                    assert(mv[j] == old(metas)@[j]@);
                }
                assert(metas.deep_view() =~= target);
            }
            return ;
        }
        i += 1;
    }
    let entry = MetaEntry { workspace_id: workspace_id.to_owned(), last_seq_global: seq_global };
    metas.push(entry);
    proof {
        lemma_meta_set_absent(mv, workspace_id@, seq_global as int);
        assert(final(metas).deep_view() =~= mv.push(
            MetaEntryV { workspace_id: workspace_id@, last_seq_global: seq_global as int },
        ));
    }
}

/// The in-memory projection tables.
#[derive(Debug)]
pub struct ProjectionTables {
    workspaces: Vec<WorkspaceListEntry>,
    projects: Vec<ProjectListEntry>,
    metas: Vec<MetaEntry>,
}

impl ProjectionTables {
    /// Fresh, empty tables.
    pub fn new() -> (r: ProjectionTables)
        ensures
            r.model() == ProjModel::empty(),
    {
        let r = ProjectionTables { workspaces: Vec::new(), projects: Vec::new(), metas: Vec::new() };
        proof {
            assert(r.model().workspaces =~= ProjModel::empty().workspaces);
            assert(r.model().projects =~= ProjModel::empty().projects);
            assert(r.model().metas =~= ProjModel::empty().metas);
        }
        r
    }

    /// The workspace rows, in table (name) order.
    pub fn list_workspaces(&self) -> (r: Vec<WorkspaceListEntry>)
        ensures
            r.deep_view() == self.model().workspaces,
    {
        let mut out: Vec<WorkspaceListEntry> = Vec::new();
        let mut i: usize = 0;
        while i < self.workspaces.len()
            invariant
                i <= self.workspaces@.len(),
                out.deep_view() == self.model().workspaces.take(i as int),
            decreases self.workspaces@.len() - i,
        {
            let ghost prev = out.deep_view();
            let row = self.workspaces[i].duplicate();
            out.push(row);
            proof {
                assert(out.deep_view() =~= prev.push(self.workspaces@[i as int]@));
                assert(out.deep_view() =~= self.model().workspaces.take(i + 1));
            }
            i += 1;
        }
        proof {
            assert(self.model().workspaces.take(i as int) =~= self.model().workspaces);
        }
        out
    }

    /// The project rows of one workspace, in table (name) order.
    pub fn list_projects(&self, workspace_id: &str) -> (r: Vec<ProjectListEntry>)
        ensures
            r.deep_view() == projects_of(self.model().projects, workspace_id@),
    {
        let ghost pv = self.model().projects;
        let mut out: Vec<ProjectListEntry> = Vec::new();
        let mut i: usize = 0;
        proof {
            assert(pv.take(0) =~= Seq::<ProjectListEntryV>::empty());
            assert(out.deep_view() =~= projects_of(pv.take(0), workspace_id@));
        }
        while i < self.projects.len()
            invariant
                i <= self.projects@.len(),
                pv == self.model().projects,
                pv.len() == self.projects@.len(),
                out.deep_view() == projects_of(pv.take(i as int), workspace_id@),
            decreases self.projects@.len() - i,
        {
            let ghost prev = out.deep_view();
            proof {
                assert(pv.take(i + 1).drop_last() =~= pv.take(i as int));
                assert(pv.take(i + 1).last() == pv[i as int]);
                assert(pv[i as int] == self.projects@[i as int]@);
            }
            if str_eq(self.projects[i].workspace_id.as_str(), workspace_id) {
                let row = self.projects[i].duplicate();
                out.push(row);
                proof {
                    assert(out.deep_view() =~= prev.push(self.projects@[i as int]@));
                }
            }
            i += 1;
        }
        proof {
            assert(pv.take(i as int) =~= pv);
        }
        out
    }

    /// The metadata rows, in insertion order.
    pub fn list_metas(&self) -> (r: Vec<MetaEntry>)
        ensures
            r.deep_view() == self.model().metas,
    {
        let mut out: Vec<MetaEntry> = Vec::new();
        let mut i: usize = 0;
        while i < self.metas.len()
            invariant
                i <= self.metas@.len(),
                out.deep_view() == self.model().metas.take(i as int),
            decreases self.metas@.len() - i,
        {
            let ghost prev = out.deep_view();
            let row = MetaEntry {
                workspace_id: self.metas[i].workspace_id.clone(),
                last_seq_global: self.metas[i].last_seq_global,
            };
            out.push(row);
            proof {
                assert(out.deep_view() =~= prev.push(self.metas@[i as int]@));
                assert(out.deep_view() =~= self.model().metas.take(i + 1));
            }
            i += 1;
        }
        proof {
            assert(self.model().metas.take(i as int) =~= self.model().metas);
        }
        out
    }
}

impl ProjectionWriter for ProjectionTables {
    closed spec fn model(&self) -> ProjModel {
        ProjModel {
            workspaces: self.workspaces.deep_view(),
            projects: self.projects.deep_view(),
            metas: self.metas.deep_view(),
        }
    }

    fn reset(&mut self) -> (r: Result<(), ProjectionError>) {
        self.workspaces.clear();
        self.projects.clear();
        self.metas.clear();
        proof {
            assert(self.model().workspaces =~= ProjModel::empty().workspaces);
            assert(self.model().projects =~= ProjModel::empty().projects);
            assert(self.model().metas =~= ProjModel::empty().metas);
        }
        Ok(())
    }

    fn upsert_workspace(
        &mut self,
        workspace_id: &str,
        name: &str,
        root_path: &str,
        created_at: &str,
        seq_global: i64,
    ) -> (r: Result<(), ProjectionError>) {
        let row = WorkspaceListEntry {
            workspace_id: workspace_id.to_owned(),
            name: name.to_owned(),
            root_path: root_path.to_owned(),
            created_at: created_at.to_owned(),
            seq_global,
        };
        let mut kept = ws_table_remove(&self.workspaces, workspace_id);
        ws_table_insert(&mut kept, row);
        self.workspaces = kept;
        Ok(())
    }

    fn upsert_project(
        &mut self,
        project_id: &str,
        workspace_id: &str,
        name: &str,
        created_at: &str,
        seq_global: i64,
    ) -> (r: Result<(), ProjectionError>) {
        let row = ProjectListEntry {
            project_id: project_id.to_owned(),
            workspace_id: workspace_id.to_owned(),
            name: name.to_owned(),
            created_at: created_at.to_owned(),
            seq_global,
        };
        let mut kept = pr_table_remove(&self.projects, project_id);
        pr_table_insert(&mut kept, row);
        self.projects = kept;
        Ok(())
    }

    fn set_meta(&mut self, workspace_id: &str, seq_global: i64) -> (r: Result<
        (),
        ProjectionError,
    >) {
        meta_table_set(&mut self.metas, workspace_id, seq_global);
        Ok(())
    }
}

/// The `workspace.created` rules as an executable rule set.
fn ws_created_rule_vec() -> (r: Vec<FieldRule>)
    ensures
        r.deep_view() == workspace_created_rules(),
{
    let mut v: Vec<FieldRule> = Vec::new();
    v.push(FieldRule { name: "name".to_owned(), kind: FieldKind::ReqStr });
    v.push(FieldRule { name: "root_path".to_owned(), kind: FieldKind::ReqStr });
    proof {
        assert(v.deep_view() =~= workspace_created_rules());
    }
    v
}

/// The `project.created` rules as an executable rule set.
fn pr_created_rule_vec() -> (r: Vec<FieldRule>)
    ensures
        r.deep_view() == project_created_rules(),
{
    let mut v: Vec<FieldRule> = Vec::new();
    v.push(FieldRule { name: "workspace_id".to_owned(), kind: FieldKind::ReqStr });
    v.push(FieldRule { name: "name".to_owned(), kind: FieldKind::ReqStr });
    proof {
        assert(v.deep_view() =~= project_created_rules());
    }
    v
}

/// Reads a `workspace.created` payload strictly: exactly the fields
/// its schema names, both strings.
pub fn parse_workspace_created(p: &Json) -> (r: Option<WorkspaceCreatedPayload>)
    ensures
        match r {
            Some(pl) => conforms(p@, workspace_created_rules()) && pl.name@ == p@.str_field_val(
                "name"@,
            ) && pl.root_path@ == p@.str_field_val("root_path"@),
            None => !conforms(p@, workspace_created_rules()),
        },
{
    let rules = ws_created_rule_vec();
    if !payload_conforms(p, &rules) {
        return None;
    }
    proof {
        assert(crate::schema::rule_ok(p@.obj_fields(), workspace_created_rules()[0]));
        assert(crate::schema::rule_ok(p@.obj_fields(), workspace_created_rules()[1]));
    }
    let name = match p.get("name") {
        Some(v) => match v.as_str() {
            Some(s) => s.clone(),
            None => {
                proof {
                    assert(false);
                }
                return None;
            },
        },
        None => {
            proof {
                assert(false);
            }
            return None;
        },
    };
    let root_path = match p.get("root_path") {
        Some(v) => match v.as_str() {
            Some(s) => s.clone(),
            None => {
                proof {
                    assert(false);
                }
                return None;
            },
        },
        None => {
            proof {
                assert(false);
            }
            return None;
        },
    };
    Some(WorkspaceCreatedPayload { name, root_path })
}

/// Reads a `project.created` payload strictly: exactly the fields its
/// schema names, both strings.
pub fn parse_project_created(p: &Json) -> (r: Option<ProjectCreatedPayload>)
    ensures
        match r {
            Some(pl) => conforms(p@, project_created_rules()) && pl.workspace_id@
                == p@.str_field_val("workspace_id"@) && pl.name@ == p@.str_field_val("name"@),
            None => !conforms(p@, project_created_rules()),
        },
{
    let rules = pr_created_rule_vec();
    if !payload_conforms(p, &rules) {
        return None;
    }
    proof {
        assert(crate::schema::rule_ok(p@.obj_fields(), project_created_rules()[0]));
        assert(crate::schema::rule_ok(p@.obj_fields(), project_created_rules()[1]));
    }
    let workspace_id = match p.get("workspace_id") {
        Some(v) => match v.as_str() {
            Some(s) => s.clone(),
            None => {
                proof {
                    assert(false);
                }
                return None;
            },
        },
        None => {
            proof {
                assert(false);
            }
            return None;
        },
    };
    let name = match p.get("name") {
        Some(v) => match v.as_str() {
            Some(s) => s.clone(),
            None => {
                proof {
                    assert(false);
                }
                return None;
            },
        },
        None => {
            proof {
                assert(false);
            }
            return None;
        },
    };
    Some(ProjectCreatedPayload { workspace_id, name })
}

/// Applies one event to a projection writer.  Fails exactly on an
/// event that cannot be applied, leaving the tables unchanged.
pub fn apply_event<W: ProjectionWriter>(writer: &mut W, event: &EventEnvelope) -> (r: Result<
    (),
    ProjectionError,
>)
    ensures
        match r {
            Ok(_) => event_applies(event@) && final(writer).model() == apply_tr(
                old(writer).model(),
                event@,
            ),
            Err(_) => !event_applies(event@) && final(writer).model() == old(writer).model(),
        },
{
    if str_eq(event.event_type.as_str(), "workspace.created") {
        match parse_workspace_created(&event.payload) {
            Some(payload) => {
                let r1 = writer.upsert_workspace(
                    event.workspace_id.as_str(),
                    payload.name.as_str(),
                    payload.root_path.as_str(),
                    event.timestamp.as_str(),
                    event.seq_global,
                );
                if r1.is_err() {
                    proof {
                        assert(false);
                    }
                    return r1;
                }
                let r2 = writer.set_meta(event.workspace_id.as_str(), event.seq_global);
                if r2.is_err() {
                    proof {
                        assert(false);
                    }
                    return r2;
                }
                proof {
                    assert(final(writer).model() == apply_tr(old(writer).model(), event@));
                }
                Ok(())
            },
            None => Err(ProjectionError::Apply("invalid workspace.created payload".to_owned())),
        }
    } else if str_eq(event.event_type.as_str(), "project.created") {
        match parse_project_created(&event.payload) {
            Some(payload) => {
                match &event.project_id {
                    Some(project_id) => {
                        let r1 = writer.upsert_project(
                            project_id.as_str(),
                            payload.workspace_id.as_str(),
                            payload.name.as_str(),
                            event.timestamp.as_str(),
                            event.seq_global,
                        );
                        if r1.is_err() {
                            proof {
                                assert(false);
                            }
                            return r1;
                        }
                        let r2 = writer.set_meta(event.workspace_id.as_str(), event.seq_global);
                        if r2.is_err() {
                            proof {
                                assert(false);
                            }
                            return r2;
                        }
                        proof {
                            assert(final(writer).model() == apply_tr(old(writer).model(), event@));
                        }
                        Ok(())
                    },
                    None => Err(ProjectionError::Apply("project_id missing".to_owned())),
                }
            },
            None => Err(ProjectionError::Apply("invalid project.created payload".to_owned())),
        }
    } else {
        Ok(())
    }
}

/// Resets the tables and replays the given events in order.  Succeeds
/// exactly when every event can be applied, and then leaves the tables
/// at the fold of the whole sequence; stops at the first event that
/// cannot, leaving the tables at the fold of the prefix before it.
pub fn rebuild_projections<W: ProjectionWriter>(writer: &mut W, events: Vec<EventEnvelope>) -> (r:
    Result<(), ProjectionError>)
    ensures
        match r {
            Ok(_) => (forall|i: int|
                0 <= i < events.deep_view().len() ==> event_applies(
                    #[trigger] events.deep_view()[i],
                )) && final(writer).model() == proj_of(events.deep_view()),
            Err(_) => exists|k: int|
                #![auto]
                0 <= k < events.deep_view().len() && !event_applies(events.deep_view()[k]) && (
                forall|j: int| 0 <= j < k ==> event_applies(events.deep_view()[j]))
                    && final(writer).model() == proj_of(events.deep_view().take(k)),
        },
{
    let ghost ev = events.deep_view();
    let r0 = writer.reset();
    if r0.is_err() {
        proof {
            assert(false);
        }
        return r0;
    }
    let mut i: usize = 0;
    proof {
        assert(ev.take(0) =~= Seq::<EventEnvelopeV>::empty());
    }
    while i < events.len()
        invariant
            i <= events@.len(),
            ev == events.deep_view(),
            ev.len() == events@.len(),
            writer.model() == proj_of(ev.take(i as int)),
            forall|j: int| 0 <= j < i ==> event_applies(#[trigger] ev[j]),
        decreases events@.len() - i,
    {
        proof {
            assert(ev[i as int] == events@[i as int]@);
            assert(ev.take(i + 1).drop_last() =~= ev.take(i as int));
            assert(ev.take(i + 1).last() == ev[i as int]);
        }
        let r = apply_event(writer, &events[i]);
        if r.is_err() {
            proof {
                assert(ev.take(i as int) =~= ev.take(i as int));
            }
            return r;
        }
        i += 1;
    }
    proof {
        assert(ev.take(i as int) =~= ev);
    }
    Ok(())
}

} // verus!

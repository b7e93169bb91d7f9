//! The event store: an append-only log with per-workspace sequences,
//! per-stream sub-sequences, idempotency memoisation, and projection
//! tables kept in sync with the log.
//!
//! Sequences start at 1 and are contiguous per workspace and per
//! `(workspace, stream)`; the projection tables always equal the fold
//! of the log.  Both facts are part of [`EventLog::wf`] and hold after
//! every operation.

use vstd::prelude::*;

verus! {

use crate::event::{duplicate_opt_string, EventEnvelope, EventEnvelopeV, NewEvent, NewEventV};
use crate::kernel::{ProjectListEntry, WorkspaceListEntry};
use crate::projections::{
    apply_event, event_applies, proj_of, projects_of, ProjModel, ProjectionTables,
    ProjectionWriter,
};
use crate::schema::conforms;
use crate::text::str_eq;

/// What a command tells the store about itself.
#[derive(Debug)]
pub struct CommandMeta {
    pub command_type: String,
    pub idempotency_key: Option<String>,
    pub expected_version: Option<i64>,
    pub trace_id: String,
}

/// The model of command metadata.
#[verifier::ext_equal]
pub struct CommandMetaV {
    pub command_type: Seq<char>,
    pub idempotency_key: Option<Seq<char>>,
    pub expected_version: Option<int>,
    pub trace_id: Seq<char>,
}

impl View for CommandMeta {
    type V = CommandMetaV;

    open spec fn view(&self) -> CommandMetaV {
        CommandMetaV {
            command_type: self.command_type@,
            idempotency_key: self.idempotency_key.deep_view(),
            expected_version: match self.expected_version {
                Some(v) => Some(v as int),
                None => None,
            },
            trace_id: self.trace_id@,
        }
    }
}

/// A stored event together with the stream it was sequenced in.
#[derive(Debug)]
pub struct EventRecord {
    pub envelope: EventEnvelope,
    pub stream_id: String,
}

/// The model of a stored event.
#[verifier::ext_equal]
pub struct EventRecordV {
    pub envelope: EventEnvelopeV,
    pub stream_id: Seq<char>,
}

impl View for EventRecord {
    type V = EventRecordV;

    open spec fn view(&self) -> EventRecordV {
        EventRecordV { envelope: self.envelope@, stream_id: self.stream_id@ }
    }
}

impl DeepView for EventRecord {
    type V = EventRecordV;

    open spec fn deep_view(&self) -> EventRecordV {
        self@
    }
}

impl EventRecord {
    /// A copy with the same model.
    pub fn duplicate(&self) -> (r: EventRecord)
        ensures
            r@ == self@,
    {
        EventRecord { envelope: self.envelope.duplicate(), stream_id: self.stream_id.clone() }
    }
}

/// A memoised first outcome of a state-changing command.
#[derive(Debug)]
pub struct IdempotencyRecord {
    pub workspace_id: String,
    pub idempotency_key: String,
    pub command_type: String,
    pub trace_id: String,
    pub first_seq_global: i64,
    pub last_seq_global: i64,
    pub status_code: String,
}

/// The model of an idempotency record.
#[verifier::ext_equal]
pub struct IdempotencyRecordV {
    pub workspace_id: Seq<char>,
    pub idempotency_key: Seq<char>,
    pub command_type: Seq<char>,
    pub trace_id: Seq<char>,
    pub first_seq_global: int,
    pub last_seq_global: int,
    pub status_code: Seq<char>,
}

impl View for IdempotencyRecord {
    type V = IdempotencyRecordV;

    open spec fn view(&self) -> IdempotencyRecordV {
        IdempotencyRecordV {
            workspace_id: self.workspace_id@,
            idempotency_key: self.idempotency_key@,
            command_type: self.command_type@,
            trace_id: self.trace_id@,
            first_seq_global: self.first_seq_global as int,
            last_seq_global: self.last_seq_global as int,
            status_code: self.status_code@,
        }
    }
}

impl DeepView for IdempotencyRecord {
    type V = IdempotencyRecordV;

    open spec fn deep_view(&self) -> IdempotencyRecordV {
        self@
    }
}

impl IdempotencyRecord {
    /// A copy with the same model.
    pub fn duplicate(&self) -> (r: IdempotencyRecord)
        ensures
            r@ == self@,
    {
        IdempotencyRecord {
            workspace_id: self.workspace_id.clone(),
            idempotency_key: self.idempotency_key.clone(),
            command_type: self.command_type.clone(),
            trace_id: self.trace_id.clone(),
            first_seq_global: self.first_seq_global,
            last_seq_global: self.last_seq_global,
            status_code: self.status_code.clone(),
        }
    }
}

/// What an append returns: the stored envelopes, and whether they were
/// replayed from a memoised outcome.
#[derive(Debug)]
pub struct AppendResult {
    pub events: Vec<EventEnvelope>,
    pub idempotent: bool,
}

/// A store failure.
#[derive(Debug)]
pub enum StoreError {
    NotFound(String),
    Conflict(String),
    Invalid(String),
    Internal(String),
}

/// How many log records belong to a workspace.
pub open spec fn count_ws(log: Seq<EventRecordV>, workspace_id: Seq<char>) -> int
    decreases log.len(),
{
    if log.len() == 0 {
        0
    } else {
        count_ws(log.drop_last(), workspace_id) + if log.last().envelope.workspace_id
            == workspace_id {
            1int
        } else {
            0int
        }
    }
}

/// How many log records belong to a `(workspace, stream)` pair.
pub open spec fn count_stream(
    log: Seq<EventRecordV>,
    workspace_id: Seq<char>,
    stream_id: Seq<char>,
) -> int
    decreases log.len(),
{
    if log.len() == 0 {
        0
    } else {
        count_stream(log.drop_last(), workspace_id, stream_id) + if log.last().envelope.workspace_id
            == workspace_id && log.last().stream_id == stream_id {
            1int
        } else {
            0int
        }
    }
}

/// A workspace count is between zero and the log length.
pub broadcast proof fn lemma_count_ws_bounds(log: Seq<EventRecordV>, workspace_id: Seq<char>)
    ensures
        0 <= #[trigger] count_ws(log, workspace_id) <= log.len(),
    decreases log.len(),
{
    if log.len() > 0 {
        lemma_count_ws_bounds(log.drop_last(), workspace_id);
    }
}

/// A stream count never exceeds its workspace count.
pub broadcast proof fn lemma_count_stream_bounds(
    log: Seq<EventRecordV>,
    workspace_id: Seq<char>,
    stream_id: Seq<char>,
)
    ensures
        0 <= #[trigger] count_stream(log, workspace_id, stream_id) <= count_ws(log, workspace_id),
    decreases log.len(),
{
    if log.len() > 0 {
        lemma_count_stream_bounds(log.drop_last(), workspace_id, stream_id);
    }
}

/// Workspace counts add over concatenation.
pub proof fn lemma_count_ws_concat(a: Seq<EventRecordV>, b: Seq<EventRecordV>, w: Seq<char>)
    ensures
        count_ws(a + b, w) == count_ws(a, w) + count_ws(b, w),
    decreases b.len(),
{
    if b.len() == 0 {
        assert(a + b =~= a);
    } else {
        lemma_count_ws_concat(a, b.drop_last(), w);
        assert((a + b).drop_last() =~= a + b.drop_last());
        assert((a + b).last() == b.last());
    }
}

/// Stream counts add over concatenation.
pub proof fn lemma_count_stream_concat(
    a: Seq<EventRecordV>,
    b: Seq<EventRecordV>,
    w: Seq<char>,
    s: Seq<char>,
)
    ensures
        count_stream(a + b, w, s) == count_stream(a, w, s) + count_stream(b, w, s),
    decreases b.len(),
{
    if b.len() == 0 {
        assert(a + b =~= a);
    } else {
        lemma_count_stream_concat(a, b.drop_last(), w, s);
        assert((a + b).drop_last() =~= a + b.drop_last());
        assert((a + b).last() == b.last());
    }
}

/// The envelopes of the log records, in order.
pub open spec fn envelopes(log: Seq<EventRecordV>) -> Seq<EventEnvelopeV>
    decreases log.len(),
{
    if log.len() == 0 {
        Seq::empty()
    } else {
        envelopes(log.drop_last()).push(log.last().envelope)
    }
}

/// The envelope list has the record envelopes, position by position.
pub broadcast proof fn lemma_envelopes(log: Seq<EventRecordV>)
    ensures
        (#[trigger] envelopes(log)).len() == log.len(),
        forall|i: int| 0 <= i < log.len() ==> envelopes(log)[i] == log[i].envelope,
    decreases log.len(),
{
    if log.len() > 0 {
        lemma_envelopes(log.drop_last());
    }
}

/// The envelopes of a workspace's records, in log order.
pub open spec fn events_of_ws(log: Seq<EventRecordV>, workspace_id: Seq<char>) -> Seq<
    EventEnvelopeV,
>
    decreases log.len(),
{
    if log.len() == 0 {
        Seq::empty()
    } else if log.last().envelope.workspace_id == workspace_id {
        events_of_ws(log.drop_last(), workspace_id).push(log.last().envelope)
    } else {
        events_of_ws(log.drop_last(), workspace_id)
    }
}

/// The envelopes of one stream's records, in log order.
pub open spec fn events_of_stream(
    log: Seq<EventRecordV>,
    workspace_id: Seq<char>,
    stream_id: Seq<char>,
) -> Seq<EventEnvelopeV>
    decreases log.len(),
{
    if log.len() == 0 {
        Seq::empty()
    } else if log.last().envelope.workspace_id == workspace_id && log.last().stream_id
        == stream_id {
        events_of_stream(log.drop_last(), workspace_id, stream_id).push(log.last().envelope)
    } else {
        events_of_stream(log.drop_last(), workspace_id, stream_id)
    }
}

/// A workspace's envelopes with `seq_global` above `from`, in order.
pub open spec fn events_after(log: Seq<EventRecordV>, workspace_id: Seq<char>, from: int) -> Seq<
    EventEnvelopeV,
>
    decreases log.len(),
{
    if log.len() == 0 {
        Seq::empty()
    } else if log.last().envelope.workspace_id == workspace_id && log.last().envelope.seq_global
        > from {
        events_after(log.drop_last(), workspace_id, from).push(log.last().envelope)
    } else {
        events_after(log.drop_last(), workspace_id, from)
    }
}

/// A workspace's envelopes with `seq_global` in `[first, last]`.
pub open spec fn range_of(
    log: Seq<EventRecordV>,
    workspace_id: Seq<char>,
    first: int,
    last: int,
) -> Seq<EventEnvelopeV>
    decreases log.len(),
{
    if log.len() == 0 {
        Seq::empty()
    } else if log.last().envelope.workspace_id == workspace_id && first
        <= log.last().envelope.seq_global <= last {
        range_of(log.drop_last(), workspace_id, first, last).push(log.last().envelope)
    } else {
        range_of(log.drop_last(), workspace_id, first, last)
    }
}

/// The first memoised record under `(key, command_type)`.
pub open spec fn idem_lookup(
    idem: Seq<IdempotencyRecordV>,
    key: Seq<char>,
    command_type: Seq<char>,
) -> Option<IdempotencyRecordV>
    decreases idem.len(),
{
    if idem.len() == 0 {
        None
    } else if idem[0].idempotency_key == key && idem[0].command_type == command_type {
        Some(idem[0])
    } else {
        idem_lookup(idem.drop_first(), key, command_type)
    }
}

/// Where the lookup finds nothing, no record matches.
pub proof fn lemma_idem_lookup_none(
    idem: Seq<IdempotencyRecordV>,
    key: Seq<char>,
    command_type: Seq<char>,
)
    requires
        idem_lookup(idem, key, command_type) is None,
    ensures
        forall|j: int|
            0 <= j < idem.len() ==> !((#[trigger] idem[j]).idempotency_key == key
                && idem[j].command_type == command_type),
    decreases idem.len(),
{
    if idem.len() > 0 {
        lemma_idem_lookup_none(idem.drop_first(), key, command_type);
        assert forall|j: int|
            0 <= j < idem.len() implies !((#[trigger] idem[j]).idempotency_key == key
            && idem[j].command_type == command_type) by {
            if j > 0 {
                assert(idem[j] == idem.drop_first()[j - 1]);
            }
        }
    }
}

/// Whether the envelope minted from a new event will apply to the
/// projection tables.
pub open spec fn new_event_applies(ev: NewEventV) -> bool {
    if ev.event_type == "workspace.created"@ {
        conforms(ev.payload, crate::schema::workspace_created_rules())
    } else if ev.event_type == "project.created"@ {
        conforms(ev.payload, crate::schema::project_created_rules()) && ev.project_id is Some
    } else {
        true
    }
}

/// Whether an idempotency hit governs this append.
pub open spec fn idem_hit(idem: Seq<IdempotencyRecordV>, meta: CommandMetaV) -> bool {
    match meta.idempotency_key {
        Some(key) => idem_lookup(idem, key, meta.command_type) is Some,
        None => false,
    }
}

/// Where every record belongs to `w`, the count is the length.
pub proof fn lemma_count_ws_all(s: Seq<EventRecordV>, w: Seq<char>)
    requires
        forall|i: int| 0 <= i < s.len() ==> (#[trigger] s[i]).envelope.workspace_id == w,
    ensures
        count_ws(s, w) == s.len(),
    decreases s.len(),
{
    if s.len() > 0 {
        lemma_count_ws_all(s.drop_last(), w);
    }
}

/// How a freshly minted record relates to its input: every field the
/// caller supplied is kept, the stream is the input's stream, and the
/// global sequence is the one assigned.
pub open spec fn assigned_ok(rec: EventRecordV, ev: NewEventV, seq_global: int) -> bool {
    &&& rec.envelope.event_type == ev.event_type
    &&& rec.envelope.schema_version == ev.schema_version
    &&& rec.envelope.actor == ev.actor
    &&& rec.envelope.workspace_id == ev.workspace_id
    &&& rec.envelope.project_id == ev.project_id
    &&& rec.envelope.subject == ev.subject
    &&& rec.envelope.payload == ev.payload
    &&& rec.envelope.trace_id == ev.trace_id
    &&& rec.stream_id == ev.stream_of()
    &&& rec.envelope.seq_global == seq_global
}

/// The first `limit` envelopes, where a non-negative limit is given.
pub open spec fn capped(s: Seq<EventEnvelopeV>, limit: Option<int>) -> Seq<EventEnvelopeV> {
    match limit {
        None => s,
        Some(l) => if l < 0 || l >= s.len() {
            s
        } else {
            s.take(l)
        },
    }
}

/// Counts a workspace's records.
fn count_ws_exec(log: &Vec<EventRecord>, workspace_id: &str) -> (c: i64)
    requires
        log.deep_view().len() <= 0x7fff_ffff_ffff_ffff,
    ensures
        c == count_ws(log.deep_view(), workspace_id@),
{
    broadcast use lemma_count_ws_bounds;

    let ghost lv = log.deep_view();
    let mut acc: i64 = 0;
    let mut i: usize = 0;
    proof {
        assert(lv.take(0) =~= Seq::<EventRecordV>::empty());
    }
    while i < log.len()
        invariant
            i <= log@.len(),
            lv == log.deep_view(),
            lv.len() == log@.len(),
            lv.len() <= 0x7fff_ffff_ffff_ffff,
            acc == count_ws(lv.take(i as int), workspace_id@),
            0 <= acc <= i,
        decreases log@.len() - i,
    {
        proof {
            assert(lv.take(i + 1).drop_last() =~= lv.take(i as int));
            assert(lv.take(i + 1).last() == lv[i as int]);
            assert(lv[i as int] == log@[i as int]@);
        }
        if str_eq(log[i].envelope.workspace_id.as_str(), workspace_id) {
            acc += 1;
        }
        i += 1;
    }
    proof {
        assert(lv.take(i as int) =~= lv);
    }
    acc
}

/// Counts a stream's records.
fn count_stream_exec(log: &Vec<EventRecord>, workspace_id: &str, stream_id: &str) -> (c: i64)
    requires
        log.deep_view().len() <= 0x7fff_ffff_ffff_ffff,
    ensures
        c == count_stream(log.deep_view(), workspace_id@, stream_id@),
{
    broadcast use lemma_count_ws_bounds, lemma_count_stream_bounds;

    let ghost lv = log.deep_view();
    let mut acc: i64 = 0;
    let mut i: usize = 0;
    proof {
        assert(lv.take(0) =~= Seq::<EventRecordV>::empty());
    }
    while i < log.len()
        invariant
            i <= log@.len(),
            lv == log.deep_view(),
            lv.len() == log@.len(),
            lv.len() <= 0x7fff_ffff_ffff_ffff,
            acc == count_stream(lv.take(i as int), workspace_id@, stream_id@),
            0 <= acc <= i,
        decreases log@.len() - i,
    {
        proof {
            assert(lv.take(i + 1).drop_last() =~= lv.take(i as int));
            assert(lv.take(i + 1).last() == lv[i as int]);
            assert(lv[i as int] == log@[i as int]@);
            lemma_count_stream_bounds(lv.take(i + 1), workspace_id@, stream_id@);
            lemma_count_ws_bounds(lv.take(i + 1), workspace_id@);
        }
        if str_eq(log[i].envelope.workspace_id.as_str(), workspace_id) && str_eq(
            log[i].stream_id.as_str(),
            stream_id,
        ) {
            acc += 1;
        }
        i += 1;
    }
    proof {
        assert(lv.take(i as int) =~= lv);
    }
    acc
}

/// Finds the memoised record under `(key, command_type)`.
fn find_idem(idem: &Vec<IdempotencyRecord>, key: &str, command_type: &str) -> (r: Option<usize>)
    ensures
        match r {
            Some(idx) => idx < idem@.len() && idem_lookup(idem.deep_view(), key@, command_type@)
                == Some(idem.deep_view()[idx as int]),
            None => idem_lookup(idem.deep_view(), key@, command_type@) is None,
        },
{
    let ghost iv = idem.deep_view();
    let mut i: usize = 0;
    proof {
        assert(iv.skip(0) =~= iv);
    }
    while i < idem.len()
        invariant
            i <= idem@.len(),
            iv == idem.deep_view(),
            iv.len() == idem@.len(),
            idem_lookup(iv, key@, command_type@) == idem_lookup(
                iv.skip(i as int),
                key@,
                command_type@,
            ),
        decreases idem@.len() - i,
    {
        proof {
            assert(iv.skip(i as int)[0] == iv[i as int]);
            assert(iv.skip(i as int).drop_first() =~= iv.skip(i + 1));
            assert(iv[i as int] == idem@[i as int]@);
        }
        if str_eq(idem[i].idempotency_key.as_str(), key) && str_eq(
            idem[i].command_type.as_str(),
            command_type,
        ) {
            return Some(i);
        }
        i += 1;
    }
    proof {
        assert(iv.skip(i as int).len() == 0);
    }
    None
}

/// Loads a workspace's envelopes with `seq_global` in `[first, last]`.
fn load_event_range(log: &Vec<EventRecord>, workspace_id: &str, first: i64, last: i64) -> (r: Vec<
    EventEnvelope,
>)
    ensures
        r.deep_view() == range_of(log.deep_view(), workspace_id@, first as int, last as int),
{
    let ghost lv = log.deep_view();
    let mut out: Vec<EventEnvelope> = Vec::new();
    let mut i: usize = 0;
    proof {
        assert(lv.take(0) =~= Seq::<EventRecordV>::empty());
        assert(out.deep_view() =~= range_of(lv.take(0), workspace_id@, first as int, last as int));
    }
    while i < log.len()
        invariant
            i <= log@.len(),
            lv == log.deep_view(),
            lv.len() == log@.len(),
            out.deep_view() == range_of(lv.take(i as int), workspace_id@, first as int, last as int),
        decreases log@.len() - i,
    {
        let ghost prev = out.deep_view();
        proof {
            assert(lv.take(i + 1).drop_last() =~= lv.take(i as int));
            assert(lv.take(i + 1).last() == lv[i as int]);
            assert(lv[i as int] == log@[i as int]@);
        }
        let rec = &log[i];
        if str_eq(rec.envelope.workspace_id.as_str(), workspace_id) && first
            <= rec.envelope.seq_global && rec.envelope.seq_global <= last {
            let e = rec.envelope.duplicate();
            out.push(e);
            proof {
                assert(out.deep_view() =~= prev.push(log@[i as int].envelope@));
            }
        }
        i += 1;
    }
    proof {
        assert(lv.take(i as int) =~= lv);
    }
    out
}

/// Whether the envelope would apply to the projection tables.
fn check_applies(envelope: &EventEnvelope) -> (r: bool)
    ensures
        r == event_applies(envelope@),
{
    if str_eq(envelope.event_type.as_str(), "workspace.created") {
        crate::projections::parse_workspace_created(&envelope.payload).is_some()
    } else if str_eq(envelope.event_type.as_str(), "project.created") {
        crate::projections::parse_project_created(&envelope.payload).is_some()
            && envelope.project_id.is_some()
    } else {
        true
    }
}

/// Each record's `seq_global` is the workspace count of the prefix up
/// to and including it.
pub open spec fn seqs_assigned(log: Seq<EventRecordV>) -> bool {
    forall|i: int|
        0 <= i < log.len() ==> (#[trigger] log[i]).envelope.seq_global == count_ws(
            log.take(i + 1),
            log[i].envelope.workspace_id,
        )
}

/// Each record's `seq_stream` is the stream count of the prefix up to
/// and including it.
pub open spec fn streams_assigned(log: Seq<EventRecordV>) -> bool {
    forall|i: int|
        0 <= i < log.len() ==> (#[trigger] log[i]).envelope.seq_stream == count_stream(
            log.take(i + 1),
            log[i].envelope.workspace_id,
            log[i].stream_id,
        )
}

/// Assignment is a property of prefixes.
pub proof fn lemma_assigned_drop_last(log: Seq<EventRecordV>)
    requires
        log.len() > 0,
        seqs_assigned(log),
        streams_assigned(log),
    ensures
        seqs_assigned(log.drop_last()),
        streams_assigned(log.drop_last()),
{
    let d = log.drop_last();
    assert forall|i: int|
        0 <= i < d.len() implies (#[trigger] d[i]).envelope.seq_global == count_ws(
        d.take(i + 1),
        d[i].envelope.workspace_id,
    ) && d[i].envelope.seq_stream == count_stream(
        d.take(i + 1),
        d[i].envelope.workspace_id,
        d[i].stream_id,
    ) by {
        assert(d[i] == log[i]);
        assert(d.take(i + 1) =~= log.take(i + 1));
    }
}

/// Seq monotonicity: in any store prefix with assigned sequences, a
/// workspace's events carry `seq_global` values `1, 2, ..., N` in
/// commit order.
pub proof fn lemma_seq_global_contiguous(log: Seq<EventRecordV>, workspace_id: Seq<char>)
    requires
        seqs_assigned(log),
        streams_assigned(log),
    ensures
        events_of_ws(log, workspace_id).len() == count_ws(log, workspace_id),
        forall|k: int|
            0 <= k < events_of_ws(log, workspace_id).len() ==> (#[trigger] events_of_ws(
                log,
                workspace_id,
            )[k]).seq_global == k + 1,
    decreases log.len(),
{
    if log.len() > 0 {
        lemma_assigned_drop_last(log);
        lemma_seq_global_contiguous(log.drop_last(), workspace_id);
        let last = log.last();
        assert(last == log[log.len() - 1]);
        assert(log.take(log.len() as int) =~= log);
        if last.envelope.workspace_id == workspace_id {
            assert(last.envelope.seq_global == count_ws(log, workspace_id));
        }
    }
}

/// Stream monotonicity: in any store prefix with assigned sequences, a
/// stream's events carry `seq_stream` values `1, 2, ...` without gaps.
pub proof fn lemma_seq_stream_contiguous(
    log: Seq<EventRecordV>,
    workspace_id: Seq<char>,
    stream_id: Seq<char>,
)
    requires
        seqs_assigned(log),
        streams_assigned(log),
    ensures
        events_of_stream(log, workspace_id, stream_id).len() == count_stream(
            log,
            workspace_id,
            stream_id,
        ),
        forall|k: int|
            0 <= k < events_of_stream(log, workspace_id, stream_id).len() ==> (
            #[trigger] events_of_stream(log, workspace_id, stream_id)[k]).seq_stream == k + 1,
    decreases log.len(),
{
    if log.len() > 0 {
        lemma_assigned_drop_last(log);
        lemma_seq_stream_contiguous(log.drop_last(), workspace_id, stream_id);
        let last = log.last();
        assert(last == log[log.len() - 1]);
        assert(log.take(log.len() as int) =~= log);
        if last.envelope.workspace_id == workspace_id && last.stream_id == stream_id {
            assert(last.envelope.seq_stream == count_stream(log, workspace_id, stream_id));
        }
    }
}

/// What a catch-up from cursor `from` holds: exactly the workspace's
/// events above the cursor, ascending and contiguous.
pub proof fn lemma_events_after_index(log: Seq<EventRecordV>, workspace_id: Seq<char>, from: int)
    requires
        seqs_assigned(log),
        streams_assigned(log),
        from >= 0,
    ensures
        events_after(log, workspace_id, from).len() == if count_ws(log, workspace_id) >= from {
            count_ws(log, workspace_id) - from
        } else {
            0
        },
        forall|k: int|
            0 <= k < events_after(log, workspace_id, from).len() ==> (#[trigger] events_after(
                log,
                workspace_id,
                from,
            )[k]).seq_global == from + k + 1,
    decreases log.len(),
{
    if log.len() > 0 {
        lemma_assigned_drop_last(log);
        lemma_events_after_index(log.drop_last(), workspace_id, from);
        lemma_count_ws_bounds(log.drop_last(), workspace_id);
        let last = log.last();
        assert(last == log[log.len() - 1]);
        assert(log.take(log.len() as int) =~= log);
        if last.envelope.workspace_id == workspace_id {
            assert(last.envelope.seq_global == count_ws(log, workspace_id));
        }
    }
}


/// Whether persisted rows form a valid store: sequences assigned,
/// every event applicable, memoised keys unique, and the log within
/// capacity.
pub open spec fn restore_ok(records: Seq<EventRecordV>, idem: Seq<IdempotencyRecordV>) -> bool {
    &&& records.len() <= 0x7fff_ffff_ffff_ffff
    &&& seqs_assigned(records)
    &&& streams_assigned(records)
    &&& forall|i: int| 0 <= i < records.len() ==> event_applies((#[trigger] records[i]).envelope)
    &&& forall|i: int, j: int|
        0 <= i < j < idem.len() ==> !((#[trigger] idem[i]).idempotency_key == (
        #[trigger] idem[j]).idempotency_key && idem[i].command_type == idem[j].command_type)
}

/// Counts a workspace's records among the first `upto`.
fn count_ws_prefix(log: &Vec<EventRecord>, upto: usize, workspace_id: &str) -> (c: i64)
    requires
        upto <= log.deep_view().len(),
        log.deep_view().len() <= 0x7fff_ffff_ffff_ffff,
    ensures
        c == count_ws(log.deep_view().take(upto as int), workspace_id@),
{
    broadcast use lemma_count_ws_bounds;

    let ghost lv = log.deep_view();
    let mut acc: i64 = 0;
    let mut i: usize = 0;
    proof {
        assert(lv.take(0) =~= Seq::<EventRecordV>::empty());
    }
    while i < upto
        invariant
            i <= upto,
            upto <= log@.len(),
            lv == log.deep_view(),
            lv.len() == log@.len(),
            lv.len() <= 0x7fff_ffff_ffff_ffff,
            acc == count_ws(lv.take(i as int), workspace_id@),
            0 <= acc <= i,
        decreases upto - i,
    {
        proof {
            assert(lv.take(i + 1).drop_last() =~= lv.take(i as int));
            assert(lv.take(i + 1).last() == lv[i as int]);
            assert(lv[i as int] == log@[i as int]@);
            lemma_count_ws_bounds(lv.take(i as int), workspace_id@);
        }
        if str_eq(log[i].envelope.workspace_id.as_str(), workspace_id) {
            acc += 1;
        }
        i += 1;
    }
    acc
}

/// Counts a stream's records among the first `upto`.
fn count_stream_prefix(log: &Vec<EventRecord>, upto: usize, workspace_id: &str, stream_id: &str) -> (c: i64)
    requires
        upto <= log.deep_view().len(),
        log.deep_view().len() <= 0x7fff_ffff_ffff_ffff,
    ensures
        c == count_stream(log.deep_view().take(upto as int), workspace_id@, stream_id@),
{
    broadcast use lemma_count_ws_bounds, lemma_count_stream_bounds;

    let ghost lv = log.deep_view();
    let mut acc: i64 = 0;
    let mut i: usize = 0;
    proof {
        assert(lv.take(0) =~= Seq::<EventRecordV>::empty());
    }
    while i < upto
        invariant
            i <= upto,
            upto <= log@.len(),
            lv == log.deep_view(),
            lv.len() == log@.len(),
            lv.len() <= 0x7fff_ffff_ffff_ffff,
            acc == count_stream(lv.take(i as int), workspace_id@, stream_id@),
            0 <= acc <= i,
        decreases upto - i,
    {
        proof {
            assert(lv.take(i + 1).drop_last() =~= lv.take(i as int));
            assert(lv.take(i + 1).last() == lv[i as int]);
            assert(lv[i as int] == log@[i as int]@);
            lemma_count_stream_bounds(lv.take(i + 1), workspace_id@, stream_id@);
            lemma_count_ws_bounds(lv.take(i + 1), workspace_id@);
        }
        if str_eq(log[i].envelope.workspace_id.as_str(), workspace_id) && str_eq(
            log[i].stream_id.as_str(),
            stream_id,
        ) {
            acc += 1;
        }
        i += 1;
    }
    acc
}

/// Projection equivalence: in any well-formed store, rebuilding the
/// tables from the entire event log yields exactly the live tables.
pub proof fn lemma_projection_equivalence(s: EventLog)
    requires
        s.wf(),
    ensures
        s.tables_model() == proj_of(envelopes(s.records())),
{
}

/// The in-memory event store.
#[derive(Debug)]
pub struct EventLog {
    log: Vec<EventRecord>,
    idempotency: Vec<IdempotencyRecord>,
    tables: ProjectionTables,
}

impl EventLog {
    /// The stored records, in append order.
    pub closed spec fn records(self) -> Seq<EventRecordV> {
        self.log.deep_view()
    }

    /// The memoised command outcomes, in insertion order.
    pub closed spec fn idem(self) -> Seq<IdempotencyRecordV> {
        self.idempotency.deep_view()
    }

    /// The projection tables.
    pub closed spec fn tables_model(self) -> ProjModel {
        self.tables.model()
    }

    /// The store's invariant: sequences are the per-workspace and
    /// per-stream counts of the prefix up to each record, every stored
    /// event applies to the tables, the tables equal the fold of the
    /// log, and memoised keys are unique.
    pub open spec fn wf(self) -> bool {
        &&& self.records().len() <= 0x7fff_ffff_ffff_ffff
        &&& seqs_assigned(self.records())
        &&& streams_assigned(self.records())
        &&& forall|i: int|
            0 <= i < self.records().len() ==> event_applies(
                (#[trigger] self.records()[i]).envelope,
            )
        &&& self.tables_model() == proj_of(envelopes(self.records()))
        &&& forall|i: int, j: int|
            0 <= i < j < self.idem().len() ==> !((#[trigger] self.idem()[i]).idempotency_key == (
            #[trigger] self.idem()[j]).idempotency_key && self.idem()[i].command_type
                == self.idem()[j].command_type)
    }

    /// A fresh, empty store.
    pub fn new() -> (r: EventLog)
        ensures
            r.wf(),
            r.records() == Seq::<EventRecordV>::empty(),
            r.idem() == Seq::<IdempotencyRecordV>::empty(),
            r.tables_model() == ProjModel::empty(),
    {
        let r = EventLog {
            log: Vec::new(),
            idempotency: Vec::new(),
            tables: ProjectionTables::new(),
        };
        proof {
            assert(r.records() =~= Seq::<EventRecordV>::empty());
            assert(r.idem() =~= Seq::<IdempotencyRecordV>::empty());
            assert(envelopes(r.records()) =~= Seq::<EventEnvelopeV>::empty());
        }
        r
    }

    /// The highest `seq_global` a workspace has reached, 0 where it has
    /// none.
    pub fn head_seq(&self, workspace_id: &str) -> (r: Result<i64, StoreError>)
        requires
            self.wf(),
        ensures
            r matches Ok(h) && h == count_ws(self.records(), workspace_id@),
    {
        Ok(count_ws_exec(&self.log, workspace_id))
    }

    /// The events of a workspace with `seq_global` above `from_seq`,
    /// ascending, optionally capped.
    pub fn read_from(&self, workspace_id: &str, from_seq: i64, limit: Option<i64>) -> (r: Result<
        Vec<EventEnvelope>,
        StoreError,
    >)
        requires
            self.wf(),
        ensures
            r matches Ok(evs) && evs.deep_view() == capped(
                events_after(self.records(), workspace_id@, from_seq as int),
                match limit {
                    Some(l) => Some(l as int),
                    None => None,
                },
            ),
    {
        let ghost lv = self.records();
        let ghost full = events_after(lv, workspace_id@, from_seq as int);
        let mut out: Vec<EventEnvelope> = Vec::new();
        let mut i: usize = 0;
        proof {
            assert(lv.take(0) =~= Seq::<EventRecordV>::empty());
            assert(out.deep_view() =~= events_after(lv.take(0), workspace_id@, from_seq as int));
        }
        while i < self.log.len()
            invariant
                i <= self.log@.len(),
                lv == self.records(),
                lv.len() == self.log@.len(),
                out.deep_view() == events_after(lv.take(i as int), workspace_id@, from_seq as int),
                out@.len() <= i,
            decreases self.log@.len() - i,
        {
            let ghost prev = out.deep_view();
            proof {
                assert(lv.take(i + 1).drop_last() =~= lv.take(i as int));
                assert(lv.take(i + 1).last() == lv[i as int]);
                assert(lv[i as int] == self.log@[i as int]@);
            }
            let rec = &self.log[i];
            if str_eq(rec.envelope.workspace_id.as_str(), workspace_id) && rec.envelope.seq_global
                > from_seq {
                let e = rec.envelope.duplicate();
                out.push(e);
                proof {
                    assert(out.deep_view() =~= prev.push(self.log@[i as int].envelope@));
                }
            }
            i += 1;
        }
        proof {
            assert(lv.take(i as int) =~= lv);
            assert(out.deep_view() == full);
        }
        if let Some(l) = limit {
            if l >= 0 && (l as u64) < (out.len() as u64) {
                let ghost before = out.deep_view();
                out.truncate(l as usize);
                proof {
                    assert(out.deep_view() =~= before.take(l as int));
                }
            }
        }
        Ok(out)
    }

    /// The workspace rows, ordered by name, ascending.
    pub fn list_workspaces(&self) -> (r: Result<Vec<WorkspaceListEntry>, StoreError>)
        requires
            self.wf(),
        ensures
            r matches Ok(rows) && rows.deep_view() == self.tables_model().workspaces,
    {
        Ok(self.tables.list_workspaces())
    }

    /// One workspace's project rows, ordered by name, ascending.
    pub fn list_projects(&self, workspace_id: &str) -> (r: Result<Vec<ProjectListEntry>, StoreError>)
        requires
            self.wf(),
        ensures
            r matches Ok(rows) && rows.deep_view() == projects_of(
                self.tables_model().projects,
                workspace_id@,
            ),
    {
        Ok(self.tables.list_projects(workspace_id))
    }

    /// The metadata rows.
    pub fn list_metas(&self) -> (r: Vec<crate::projections::MetaEntry>)
        requires
            self.wf(),
        ensures
            r.deep_view() == self.tables_model().metas,
    {
        self.tables.list_metas()
    }

    /// Truncates the projection tables and replays the whole log.
    /// Because the tables always equal the fold of the log, this leaves
    /// the store exactly as it was.
    pub fn rebuild_projections(&mut self) -> (r: Result<(), StoreError>)
        requires
            old(self).wf(),
        ensures
            r is Ok,
            final(self).wf(),
            final(self).records() == old(self).records(),
            final(self).idem() == old(self).idem(),
            final(self).tables_model() == old(self).tables_model(),
    {
        broadcast use lemma_envelopes;

        let ghost lv = self.records();
        let mut events: Vec<EventEnvelope> = Vec::new();
        let mut i: usize = 0;
        while i < self.log.len()
            invariant
                i <= self.log@.len(),
                lv == self.records(),
                lv.len() == self.log@.len(),
                events.deep_view() == envelopes(lv).take(i as int),
            decreases self.log@.len() - i,
        {
            let ghost prev = events.deep_view();
            proof {
                lemma_envelopes(lv);
                assert(lv[i as int] == self.log@[i as int]@);
                assert(envelopes(lv)[i as int] == lv[i as int].envelope);
            }
            let e = self.log[i].envelope.duplicate();
            let ghost ev = e@;
            events.push(e);
            proof {
                lemma_envelopes(lv);
                let evv = events.deep_view();
                let tgt = envelopes(lv).take(i + 1);
                assert(envelopes(lv).len() == lv.len());
                assert(prev.len() == i);
                assert(events@.len() == i + 1);
                assert(evv.len() == i + 1);
                assert(ev == lv[i as int].envelope);
                assert(evv.len() == tgt.len());
                assert forall|j: int| 0 <= j < evv.len() implies evv[j] == tgt[j] by {
                    if j < i {
                        assert(evv[j] == prev[j]);
                        assert(prev[j] == envelopes(lv)[j]);
                    } else {
                        assert(evv[j] == ev);
                        assert(tgt[j] == envelopes(lv)[j]);
                    }
                }
                assert(events.deep_view() =~= envelopes(lv).take(i + 1));
            }
            i += 1;
        }
        proof {
            assert(envelopes(lv).take(i as int) =~= envelopes(lv));
            assert(events.deep_view() == envelopes(lv));
            assert forall|k: int| 0 <= k < events.deep_view().len() implies event_applies(
                #[trigger] events.deep_view()[k],
            ) by {
                assert(events.deep_view()[k] == lv[k].envelope);
            }
        }
        let r = crate::projections::rebuild_projections(&mut self.tables, events);
        if r.is_err() {
            proof {
                assert(false);
            }
            return Err(StoreError::Internal("projection rebuild failed".to_owned()));
        }
        proof {
            assert(self.records() == old(self).records());
            assert(self.idem() == old(self).idem());
            assert(self.tables_model() == proj_of(envelopes(self.records())));
            assert(self.tables_model() == old(self).tables_model());
            assert(self.wf());
        }
        Ok(())
    }


    /// Rebuilds a store from persisted rows, validating everything the
    /// invariant demands: each record's sequences must be the counts of
    /// its prefix, every event must be applicable, and memoised keys
    /// must be unique.  The projection tables are replayed from the
    /// log.  Succeeds exactly on rows that form a valid store.
    pub fn restore(records: Vec<EventRecord>, idempotency: Vec<IdempotencyRecord>) -> (r: Result<
        EventLog,
        StoreError,
    >)
        ensures
            match r {
                Ok(log) => {
                    &&& restore_ok(records.deep_view(), idempotency.deep_view())
                    &&& log.wf()
                    &&& log.records() == records.deep_view()
                    &&& log.idem() == idempotency.deep_view()
                },
                Err(e) => !restore_ok(records.deep_view(), idempotency.deep_view()) && e
                    is Invalid,
            },
    {
        let ghost lv = records.deep_view();
        let ghost iv = idempotency.deep_view();
        if (records.len() as u64) > 0x7fff_ffff_ffff_ffffu64 {
            return Err(StoreError::Invalid("too many events".to_owned()));
        }
        let mut i: usize = 0;
        while i < records.len()
            invariant
                i <= records@.len(),
                lv == records.deep_view(),
                lv.len() == records@.len(),
                lv.len() <= 0x7fff_ffff_ffff_ffff,
                forall|j: int|
                    0 <= j < i ==> (#[trigger] lv[j]).envelope.seq_global == count_ws(
                        lv.take(j + 1),
                        lv[j].envelope.workspace_id,
                    ),
                forall|j: int|
                    0 <= j < i ==> (#[trigger] lv[j]).envelope.seq_stream == count_stream(
                        lv.take(j + 1),
                        lv[j].envelope.workspace_id,
                        lv[j].stream_id,
                    ),
                forall|j: int| 0 <= j < i ==> event_applies((#[trigger] lv[j]).envelope),
            decreases records@.len() - i,
        {
            proof {
                assert(lv[i as int] == records@[i as int]@);
            }
            let rec = &records[i];
            let cw = count_ws_prefix(&records, i + 1, rec.envelope.workspace_id.as_str());
            if rec.envelope.seq_global != cw {
                return Err(StoreError::Invalid("seq_global out of order".to_owned()));
            }
            let cs = count_stream_prefix(
                &records,
                i + 1,
                rec.envelope.workspace_id.as_str(),
                rec.stream_id.as_str(),
            );
            if rec.envelope.seq_stream != cs {
                return Err(StoreError::Invalid("seq_stream out of order".to_owned()));
            }
            if !check_applies(&rec.envelope) {
                return Err(StoreError::Invalid("event cannot be applied".to_owned()));
            }
            i += 1;
        }
        let mut a: usize = 0;
        while a < idempotency.len()
            invariant
                a <= idempotency@.len(),
                iv == idempotency.deep_view(),
                iv.len() == idempotency@.len(),
                forall|x: int, y: int|
                    0 <= x < y < iv.len() && y < a ==> !((#[trigger] iv[x]).idempotency_key == (
                    #[trigger] iv[y]).idempotency_key && iv[x].command_type
                        == iv[y].command_type),
            decreases idempotency@.len() - a,
        {
            let mut b: usize = 0;
            while b < a
                invariant
                    b <= a,
                    a < idempotency@.len(),
                    iv == idempotency.deep_view(),
                    iv.len() == idempotency@.len(),
                    forall|x: int|
                        0 <= x < b ==> !((#[trigger] iv[x]).idempotency_key == iv[a as int].idempotency_key
                            && iv[x].command_type == iv[a as int].command_type),
                decreases a - b,
            {
                proof {
                    assert(iv[b as int] == idempotency@[b as int]@);
                    assert(iv[a as int] == idempotency@[a as int]@);
                }
                if str_eq(
                    idempotency[b].idempotency_key.as_str(),
                    idempotency[a].idempotency_key.as_str(),
                ) && str_eq(
                    idempotency[b].command_type.as_str(),
                    idempotency[a].command_type.as_str(),
                ) {
                    proof {
                        assert(!restore_ok(lv, iv));
                    }
                    return Err(StoreError::Invalid("duplicate idempotency key".to_owned()));
                }
                b += 1;
            }
            a += 1;
        }
        let mut tables = ProjectionTables::new();
        let mut k: usize = 0;
        while k < records.len()
            invariant
                k <= records@.len(),
                lv == records.deep_view(),
                lv.len() == records@.len(),
                forall|j: int| 0 <= j < lv.len() ==> event_applies((#[trigger] lv[j]).envelope),
                tables.model() == proj_of(envelopes(lv.take(k as int))),
            decreases records@.len() - k,
        {
            proof {
                lemma_envelopes(lv.take(k as int));
                lemma_envelopes(lv.take(k + 1));
                assert(lv[k as int] == records@[k as int]@);
                assert(envelopes(lv.take(k + 1)).drop_last() =~= envelopes(lv.take(k as int)))
                    by {
                    lemma_envelopes(lv.take(k + 1));
                    lemma_envelopes(lv.take(k as int));
                    assert forall|m: int|
                        0 <= m < k implies envelopes(lv.take(k + 1)).drop_last()[m] == envelopes(
                        lv.take(k as int),
                    )[m] by {
                        assert(envelopes(lv.take(k + 1))[m] == lv.take(k + 1)[m].envelope);
                        assert(envelopes(lv.take(k as int))[m] == lv.take(k as int)[m].envelope);
                    }
                }
                assert(envelopes(lv.take(k + 1)).last() == lv[k as int].envelope);
            }
            let r = apply_event(&mut tables, &records[k].envelope);
            if r.is_err() {
                proof {
                    assert(false);
                }
                return Err(StoreError::Invalid("projection replay failed".to_owned()));
            }
            proof {
                assert(proj_of(envelopes(lv.take(k + 1))) == crate::projections::apply_tr(
                    proj_of(envelopes(lv.take(k as int))),
                    lv[k as int].envelope,
                ));
            }
            k += 1;
        }
        proof {
            assert(lv.take(k as int) =~= lv);
        }
        let log = EventLog { log: records, idempotency, tables };
        proof {
            assert(log.records() == lv);
            assert(log.idem() == iv);
            assert(log.tables_model() == proj_of(envelopes(lv)));
        }
        Ok(log)
    }

    /// The stored records, copied out for persistence.
    pub fn export_records(&self) -> (r: Vec<EventRecord>)
        ensures
            r.deep_view() == self.records(),
    {
        let ghost lv = self.records();
        let mut out: Vec<EventRecord> = Vec::new();
        let mut i: usize = 0;
        while i < self.log.len()
            invariant
                i <= self.log@.len(),
                lv == self.records(),
                lv.len() == self.log@.len(),
                out.deep_view() == lv.take(i as int),
            decreases self.log@.len() - i,
        {
            let ghost prev = out.deep_view();
            proof {
                assert(lv[i as int] == self.log@[i as int]@);
            }
            let rec = self.log[i].duplicate();
            out.push(rec);
            proof {
                assert(out.deep_view() =~= prev.push(self.log@[i as int]@));
                assert(out.deep_view() =~= lv.take(i + 1));
            }
            i += 1;
        }
        proof {
            assert(lv.take(i as int) =~= lv);
        }
        out
    }

    /// The memoised outcomes, copied out for persistence.
    pub fn export_idempotency(&self) -> (r: Vec<IdempotencyRecord>)
        ensures
            r.deep_view() == self.idem(),
    {
        let ghost iv = self.idem();
        let mut out: Vec<IdempotencyRecord> = Vec::new();
        let mut i: usize = 0;
        while i < self.idempotency.len()
            invariant
                i <= self.idempotency@.len(),
                iv == self.idem(),
                iv.len() == self.idempotency@.len(),
                out.deep_view() == iv.take(i as int),
            decreases self.idempotency@.len() - i,
        {
            let ghost prev = out.deep_view();
            proof {
                assert(iv[i as int] == self.idempotency@[i as int]@);
            }
            let rec = self.idempotency[i].duplicate();
            out.push(rec);
            proof {
                assert(out.deep_view() =~= prev.push(self.idempotency@[i as int]@));
                assert(out.deep_view() =~= iv.take(i + 1));
            }
            i += 1;
        }
        proof {
            assert(iv.take(i as int) =~= iv);
        }
        out
    }

    /// Whether two stores hold the same log, memoisation and tables.
    pub open spec fn same_as(self, other: EventLog) -> bool {
        self.records() == other.records() && self.idem() == other.idem() && self.tables_model()
            == other.tables_model()
    }

    /// Appends a batch of events for one workspace, transactionally.
    ///
    /// An empty batch is a no-op.  A batch whose idempotency key is
    /// already memoised under the command type replays the original
    /// envelopes and writes nothing.  Otherwise each event gets the
    /// workspace's next `seq_global` and its stream's next
    /// `seq_stream`, a fresh id and a timestamp; the events, their
    /// projection updates and the idempotency row (where a key is
    /// given) are committed together or not at all.
    pub fn append(&mut self, meta: &CommandMeta, events: Vec<NewEvent>) -> (r: Result<
        AppendResult,
        StoreError,
    >)
        requires
            old(self).wf(),
            forall|i: int|
                0 <= i < events.deep_view().len() ==> (#[trigger] events.deep_view()[i]).workspace_id
                    == events.deep_view()[0].workspace_id,
        ensures
            final(self).wf(),
            match r {
                Ok(res) => {
                    if events.deep_view().len() == 0 {
                        &&& final(self).same_as(*old(self))
                        &&& res.events.deep_view().len() == 0
                        &&& !res.idempotent
                    } else if idem_hit(old(self).idem(), meta@) {
                        &&& final(self).same_as(*old(self))
                        &&& res.idempotent
                        &&& match meta@.idempotency_key {
                            Some(key) => match idem_lookup(
                                old(self).idem(),
                                key,
                                meta@.command_type,
                            ) {
                                Some(rec) => res.events.deep_view() == range_of(
                                    old(self).records(),
                                    rec.workspace_id,
                                    rec.first_seq_global,
                                    rec.last_seq_global,
                                ),
                                None => false,
                            },
                            None => false,
                        }
                    } else {
                        let wid = events.deep_view()[0].workspace_id;
                        let head = count_ws(old(self).records(), wid);
                        let n = events.deep_view().len() as int;
                        let old_len = old(self).records().len() as int;
                        &&& !res.idempotent
                        &&& forall|i: int|
                            0 <= i < n ==> new_event_applies(#[trigger] events.deep_view()[i])
                        &&& final(self).records().len() == old_len + n
                        &&& final(self).records().take(old_len) == old(self).records()
                        &&& forall|i: int|
                            0 <= i < n ==> assigned_ok(
                                #[trigger] final(self).records()[old_len + i],
                                events.deep_view()[i],
                                head + i + 1,
                            )
                        &&& res.events.deep_view().len() == n
                        &&& forall|i: int|
                            0 <= i < n ==> #[trigger] res.events.deep_view()[i] == final(self).records()[old_len + i].envelope
                        &&& match meta@.idempotency_key {
                            Some(key) => final(self).idem() == old(self).idem().push(
                                IdempotencyRecordV {
                                    workspace_id: wid,
                                    idempotency_key: key,
                                    command_type: meta@.command_type,
                                    trace_id: meta@.trace_id,
                                    first_seq_global: head + 1,
                                    last_seq_global: head + n,
                                    status_code: "accepted"@,
                                },
                            ),
                            None => final(self).idem() == old(self).idem(),
                        }
                    }
                },
                Err(e) => {
                    &&& final(self).same_as(*old(self))
                    &&& e is Internal
                    &&& events.deep_view().len() > 0
                    &&& !idem_hit(old(self).idem(), meta@)
                    &&& ((exists|i: int|
                        0 <= i < events.deep_view().len() && !new_event_applies(
                            #[trigger] events.deep_view()[i],
                        )) || old(self).records().len() + events.deep_view().len()
                        > 0x7fff_ffff_ffff_ffff)
                },
            },
    {
        let ghost evs = events.deep_view();
        if events.len() == 0 {
            let res = AppendResult { events: Vec::new(), idempotent: false };
            proof {
                assert(res.events.deep_view() =~= Seq::<EventEnvelopeV>::empty());
            }
            return Ok(res);
        }
        if let Some(key) = &meta.idempotency_key {
            match find_idem(&self.idempotency, key.as_str(), meta.command_type.as_str()) {
                Some(idx) => {
                    let out = load_event_range(
                        &self.log,
                        self.idempotency[idx].workspace_id.as_str(),
                        self.idempotency[idx].first_seq_global,
                        self.idempotency[idx].last_seq_global,
                    );
                    return Ok(AppendResult { events: out, idempotent: true });
                },
                None => {},
            }
        }
        proof {
            assert(!idem_hit(old(self).idem(), meta@));
        }
        let ghost no_hit_key: Option<Seq<char>> = meta@.idempotency_key;
        let workspace_id = events[0].workspace_id.clone();
        let head = count_ws_exec(&self.log, workspace_id.as_str());
        proof {
            lemma_count_ws_bounds(self.records(), workspace_id@);
        }
        let n = events.len();
        proof {
            assert(self.records().len() == self.log@.len());
        }
        if (n as u64) > (0x7fff_ffff_ffff_ffffu64 - (self.log.len() as u64)) {
            return Err(StoreError::Internal("event log capacity exhausted".to_owned()));
        }
        proof {
            assert(old(self).records().len() + n <= 0x7fff_ffff_ffff_ffff);
            assert(head + n <= 0x7fff_ffff_ffff_ffff);
        }
        let mut new_records: Vec<EventRecord> = Vec::new();
        let mut i: usize = 0;
        while i < n
            invariant
                *self == *old(self),
                self.wf(),
                i <= n,
                n == events@.len(),
                n >= 1,
                evs == events.deep_view(),
                evs.len() == n,
                forall|j: int|
                    0 <= j < evs.len() ==> (#[trigger] evs[j]).workspace_id == evs[0].workspace_id,
                workspace_id@ == evs[0].workspace_id,
                head == count_ws(self.records(), workspace_id@),
                0 <= head,
                head + n <= 0x7fff_ffff_ffff_ffff,
                old(self).records().len() + n <= 0x7fff_ffff_ffff_ffff,
                !idem_hit(old(self).idem(), meta@),
                new_records.deep_view().len() == i,
                forall|j: int|
                    0 <= j < i ==> assigned_ok(
                        #[trigger] new_records.deep_view()[j],
                        evs[j],
                        head + j + 1,
                    ),
                forall|j: int|
                    0 <= j < i ==> event_applies(
                        (#[trigger] new_records.deep_view()[j]).envelope,
                    ),
                forall|j: int|
                    0 <= j < i ==> (#[trigger] new_records.deep_view()[j]).envelope.seq_stream
                        == count_stream(
                        self.records(),
                        workspace_id@,
                        new_records.deep_view()[j].stream_id,
                    ) + count_stream(
                        new_records.deep_view().take(j + 1),
                        workspace_id@,
                        new_records.deep_view()[j].stream_id,
                    ),
            decreases n - i,
        {
            let ghost prev = new_records.deep_view();
            let ev = &events[i];
            proof {
                assert(evs[i as int] == events@[i as int]@);
            }
            let stream_id = match &ev.stream_id {
                Some(s) => s.clone(),
                None => ev.subject.id.clone(),
            };
            proof {
                assert(stream_id@ == evs[i as int].stream_of());
            }
            let base = count_stream_exec(&self.log, workspace_id.as_str(), stream_id.as_str());
            proof {
                lemma_count_stream_bounds(self.records(), workspace_id@, stream_id@);
                lemma_count_ws_bounds(new_records.deep_view(), workspace_id@);
                lemma_count_stream_bounds(new_records.deep_view(), workspace_id@, stream_id@);
            }
            let extra = count_stream_exec(&new_records, workspace_id.as_str(), stream_id.as_str());
            let seq_stream = base + extra + 1;
            let seq_global = head + (i as i64) + 1;
            let event_id = crate::ids::new_uuid();
            let timestamp = crate::ids::now_rfc3339();
            let envelope = EventEnvelope {
                event_id,
                event_type: ev.event_type.clone(),
                timestamp,
                actor: ev.actor.duplicate(),
                workspace_id: ev.workspace_id.clone(),
                project_id: duplicate_opt_string(&ev.project_id),
                subject: ev.subject.duplicate(),
                payload: ev.payload.deep_clone(),
                schema_version: ev.schema_version,
                seq_global,
                seq_stream,
                trace_id: duplicate_opt_string(&ev.trace_id),
            };
            if !check_applies(&envelope) {
                proof {
                    assert(!new_event_applies(evs[i as int]));
                }
                return Err(StoreError::Internal("event cannot be applied to projections".to_owned()));
            }
            let ghost envv = envelope@;
            let rec = EventRecord { envelope, stream_id };
            let ghost recv = rec@;
            new_records.push(rec);
            proof {
                let cur = new_records.deep_view();
                assert(cur.len() == i + 1);
                assert forall|j: int| 0 <= j < i implies cur[j] == prev[j] by {}
                assert(cur[i as int] == recv);
                assert(assigned_ok(recv, evs[i as int], head + i + 1));
                assert forall|j: int| 0 <= j <= i implies #[trigger] cur.take(j + 1) =~= if j < i {
                    prev.take(j + 1)
                } else {
                    prev.push(recv)
                } by {}
                assert(cur.take(i + 1).drop_last() =~= prev);
                assert(count_stream(cur.take(i + 1), workspace_id@, recv.stream_id) == count_stream(
                    prev,
                    workspace_id@,
                    recv.stream_id,
                ) + 1);
                assert(prev =~= prev.take(i as int));
                assert(recv.envelope.seq_stream == count_stream(
                    self.records(),
                    workspace_id@,
                    recv.stream_id,
                ) + count_stream(cur.take(i + 1), workspace_id@, recv.stream_id));
            }
            i += 1;
        }
        let ghost newv = new_records.deep_view();
        let ghost old_log = old(self).records();
        let ghost old_len = old_log.len() as int;
        let mut out: Vec<EventEnvelope> = Vec::new();
        let mut k: usize = 0;
        proof {
            assert(old_log + newv.take(0) =~= old_log);
            assert(out.deep_view() =~= Seq::<EventEnvelopeV>::empty());
        }
        while k < new_records.len()
            invariant
                k <= new_records@.len(),
                newv == new_records.deep_view(),
                newv.len() == n,
                n >= 1,
                evs.len() == n,
                workspace_id@ == evs[0].workspace_id,
                forall|j: int|
                    0 <= j < n ==> assigned_ok(#[trigger] newv[j], evs[j], head + j + 1),
                forall|j: int| 0 <= j < n ==> event_applies((#[trigger] newv[j]).envelope),
                forall|j: int|
                    0 <= j < n ==> (#[trigger] newv[j]).envelope.seq_stream == count_stream(
                        old_log,
                        workspace_id@,
                        newv[j].stream_id,
                    ) + count_stream(newv.take(j + 1), workspace_id@, newv[j].stream_id),
                forall|j: int|
                    0 <= j < evs.len() ==> (#[trigger] evs[j]).workspace_id == evs[0].workspace_id,
                old_log == old(self).records(),
                old_len == old_log.len() as int,
                head == count_ws(old_log, workspace_id@),
                0 <= head,
                head + n <= 0x7fff_ffff_ffff_ffff,
                old_log.len() + n <= 0x7fff_ffff_ffff_ffff,
                self.idem() == old(self).idem(),
                self.records() == old_log + newv.take(k as int),
                self.tables_model() == proj_of(envelopes(self.records())),
                out.deep_view().len() == k,
                forall|j: int|
                    0 <= j < k ==> #[trigger] out.deep_view()[j] == newv[j].envelope,
            decreases new_records@.len() - k,
        {
            let ghost log_before = self.records();
            let ghost out_before = out.deep_view();
            proof {
                assert(newv[k as int] == new_records@[k as int]@);
            }
            let rec = new_records[k].duplicate();
            let e2 = rec.envelope.duplicate();
            out.push(e2);
            let r = apply_event(&mut self.tables, &rec.envelope);
            if r.is_err() {
                proof {
                    assert(event_applies(newv[k as int].envelope));
                    assert(false);
                }
                return Err(StoreError::Internal("projection update failed".to_owned()));
            }
            let ghost recv = rec@;
            self.log.push(rec);
            proof {
                let cur = self.records();
                assert(cur.len() == log_before.len() + 1);
                assert forall|j: int| 0 <= j < log_before.len() implies cur[j] == log_before[j]
                    by {}
                assert(cur[log_before.len() as int] == recv);
                assert(cur =~= old_log + newv.take(k + 1));
                assert(envelopes(cur).drop_last() =~= envelopes(cur.drop_last())) by {
                    assert(cur.drop_last() =~= log_before);
                    assert(envelopes(cur).len() == cur.len()) by {
                        lemma_envelopes(cur);
                    }
                    lemma_envelopes(cur);
                    lemma_envelopes(log_before);
                    assert forall|j: int|
                        0 <= j < log_before.len() implies envelopes(cur).drop_last()[j]
                        == envelopes(log_before)[j] by {
                        assert(envelopes(cur)[j] == cur[j].envelope);
                    }
                }
                assert(cur.drop_last() =~= log_before);
                assert(envelopes(cur) == envelopes(cur.drop_last()).push(cur.last().envelope));
                assert(envelopes(cur).drop_last() =~= envelopes(log_before));
                assert(proj_of(envelopes(cur)) == crate::projections::apply_tr(
                    proj_of(envelopes(log_before)),
                    recv.envelope,
                ));
                assert(out.deep_view().len() == k + 1);
                assert forall|j: int| 0 <= j <= k implies #[trigger] out.deep_view()[j] == newv[j].envelope
                    by {
                    if j < k {
                        assert(out.deep_view()[j] == out_before[j]);
                    }
                }
            }
            k += 1;
        }
        proof {
            assert(newv.take(n as int) =~= newv);
            assert(self.records() == old_log + newv);
        }
        if let Some(key) = &meta.idempotency_key {
            let ghost idem_before = self.idem();
            let record = IdempotencyRecord {
                workspace_id: workspace_id.clone(),
                idempotency_key: key.clone(),
                command_type: meta.command_type.clone(),
                trace_id: meta.trace_id.clone(),
                first_seq_global: head + 1,
                last_seq_global: head + (n as i64),
                status_code: "accepted".to_owned(),
            };
            let ghost rv = record@;
            self.idempotency.push(record);
            proof {
                let cur = self.idem();
                assert(cur.len() == idem_before.len() + 1);
                assert forall|j: int| 0 <= j < idem_before.len() implies cur[j] == idem_before[j]
                    by {}
                assert(cur[idem_before.len() as int] == rv);
                assert(cur =~= idem_before.push(rv));
                lemma_idem_lookup_none(old(self).idem(), key@, meta@.command_type);
            }
        }
        proof {
            Self::lemma_append_wf(*old(self), *self, newv, evs, workspace_id@, head as int, n as int);
            assert(self.records().take(old_len) =~= old_log);
            assert forall|i2: int| 0 <= i2 < n as int implies new_event_applies(
                #[trigger] evs[i2],
            ) by {
                assert(assigned_ok(newv[i2], evs[i2], head + i2 + 1));
                assert(event_applies(newv[i2].envelope));
            }
            assert forall|i2: int| 0 <= i2 < n as int implies assigned_ok(
                #[trigger] self.records()[old_len + i2],
                evs[i2],
                head + i2 + 1,
            ) by {
                assert(self.records()[old_len + i2] == newv[i2]);
            }
            assert forall|i2: int| 0 <= i2 < n as int implies #[trigger] out.deep_view()[i2]
                == self.records()[old_len + i2].envelope by {
                assert(out.deep_view()[i2] == newv[i2].envelope);
                assert(self.records()[old_len + i2] == newv[i2]);
            }
        }
        Ok(AppendResult { events: out, idempotent: false })
    }

    /// The extended log satisfies the invariant: the old prefix is
    /// untouched, and each new record's sequences are the counts of its
    /// prefix.
    proof fn lemma_append_wf(
        pre: EventLog,
        post: EventLog,
        newv: Seq<EventRecordV>,
        evs: Seq<NewEventV>,
        wid: Seq<char>,
        head: int,
        n: int,
    )
        requires
            pre.wf(),
            n >= 1,
            newv.len() == n,
            evs.len() == n,
            head == count_ws(pre.records(), wid),
            pre.records().len() + n <= 0x7fff_ffff_ffff_ffff,
            forall|j: int| 0 <= j < n ==> assigned_ok(#[trigger] newv[j], evs[j], head + j + 1),
            forall|j: int| 0 <= j < n ==> event_applies((#[trigger] newv[j]).envelope),
            forall|j: int| 0 <= j < evs.len() ==> (#[trigger] evs[j]).workspace_id == wid,
            forall|j: int|
                0 <= j < n ==> (#[trigger] newv[j]).envelope.seq_stream == count_stream(
                    pre.records(),
                    wid,
                    newv[j].stream_id,
                ) + count_stream(newv.take(j + 1), wid, newv[j].stream_id),
            post.records() == pre.records() + newv,
            post.tables_model() == proj_of(envelopes(post.records())),
            forall|i: int, j: int|
                0 <= i < j < post.idem().len() ==> !((#[trigger] post.idem()[i]).idempotency_key
                    == (#[trigger] post.idem()[j]).idempotency_key && post.idem()[i].command_type
                    == post.idem()[j].command_type),
        ensures
            post.wf(),
    {
        let old_log = pre.records();
        let old_len = old_log.len() as int;
        let cur = post.records();
        assert(cur.len() == old_len + n);
        assert forall|i: int|
            0 <= i < cur.len() implies (#[trigger] cur[i]).envelope.seq_global == count_ws(
            cur.take(i + 1),
            cur[i].envelope.workspace_id,
        ) && cur[i].envelope.seq_stream == count_stream(
            cur.take(i + 1),
            cur[i].envelope.workspace_id,
            cur[i].stream_id,
        ) && event_applies(cur[i].envelope) by {
            if i < old_len {
                assert(cur.take(i + 1) =~= old_log.take(i + 1));
                assert(cur[i] == old_log[i]);
            } else {
                let j = i - old_len;
                assert(cur[i] == newv[j]);
                assert(cur.take(i + 1) =~= old_log + newv.take(j + 1));
                lemma_count_ws_concat(old_log, newv.take(j + 1), wid);
                assert forall|m: int|
                    0 <= m < newv.take(j + 1).len() implies (#[trigger] newv.take(j + 1)[m]).envelope.workspace_id
                    == wid by {
                    assert(newv.take(j + 1)[m] == newv[m]);
                    assert(assigned_ok(newv[m], evs[m], head + m + 1));
                }
                lemma_count_ws_all(newv.take(j + 1), wid);
                assert(count_ws(cur.take(i + 1), wid) == head + j + 1);
                assert(cur[i].envelope.workspace_id == wid);
                lemma_count_stream_concat(old_log, newv.take(j + 1), wid, newv[j].stream_id);
            }
        }
    }
}

} // verus!

//! Event envelopes: the immutable facts the store holds, and the inputs
//! from which it mints them.
//!
//! A `NewEvent` lacks `event_id`, `timestamp`, `seq_global` and
//! `seq_stream`; the store assigns them.  Clients never fabricate
//! sequences.

use vstd::prelude::*;

verus! {

use crate::json::{Json, JsonV};
use crate::kernel::{Actor, ActorV, Subject, SubjectV};

/// A stored, fully assigned event.
#[derive(Debug)]
pub struct EventEnvelope {
    pub event_id: String,
    pub event_type: String,
    pub timestamp: String,
    pub actor: Actor,
    pub workspace_id: String,
    pub project_id: Option<String>,
    pub subject: Subject,
    pub payload: Json,
    pub schema_version: i32,
    pub seq_global: i64,
    pub seq_stream: i64,
    pub trace_id: Option<String>,
}

/// The model of a stored event.
#[verifier::ext_equal]
pub struct EventEnvelopeV {
    pub event_id: Seq<char>,
    pub event_type: Seq<char>,
    pub timestamp: Seq<char>,
    pub actor: ActorV,
    pub workspace_id: Seq<char>,
    pub project_id: Option<Seq<char>>,
    pub subject: SubjectV,
    pub payload: JsonV,
    pub schema_version: int,
    pub seq_global: int,
    pub seq_stream: int,
    pub trace_id: Option<Seq<char>>,
}

impl View for EventEnvelope {
    type V = EventEnvelopeV;

    open spec fn view(&self) -> EventEnvelopeV {
        EventEnvelopeV {
            event_id: self.event_id@,
            event_type: self.event_type@,
            timestamp: self.timestamp@,
            actor: self.actor@,
            workspace_id: self.workspace_id@,
            project_id: self.project_id.deep_view(),
            subject: self.subject@,
            payload: self.payload@,
            schema_version: self.schema_version as int,
            seq_global: self.seq_global as int,
            seq_stream: self.seq_stream as int,
            trace_id: self.trace_id.deep_view(),
        }
    }
}

impl DeepView for EventEnvelope {
    type V = EventEnvelopeV;

    open spec fn deep_view(&self) -> EventEnvelopeV {
        self@
    }
}

/// Copies an optional string, keeping its model.
pub fn duplicate_opt_string(s: &Option<String>) -> (r: Option<String>)
    ensures
        r.deep_view() == s.deep_view(),
{
    match s {
        Some(v) => Some(v.clone()),
        None => None,
    }
}

impl EventEnvelope {
    /// A copy with the same model.
    pub fn duplicate(&self) -> (r: EventEnvelope)
        ensures
            r@ == self@,
    {
        EventEnvelope {
            event_id: self.event_id.clone(),
            event_type: self.event_type.clone(),
            timestamp: self.timestamp.clone(),
            actor: self.actor.duplicate(),
            workspace_id: self.workspace_id.clone(),
            project_id: duplicate_opt_string(&self.project_id),
            subject: self.subject.duplicate(),
            payload: self.payload.deep_clone(),
            schema_version: self.schema_version,
            seq_global: self.seq_global,
            seq_stream: self.seq_stream,
            trace_id: duplicate_opt_string(&self.trace_id),
        }
    }
}

/// An event as handed to the store, before assignment.
#[derive(Debug)]
pub struct NewEvent {
    pub event_type: String,
    pub schema_version: i32,
    pub actor: Actor,
    pub workspace_id: String,
    pub project_id: Option<String>,
    pub subject: Subject,
    pub payload: Json,
    pub trace_id: Option<String>,
    pub stream_id: Option<String>,
}

/// The model of an unassigned event.
#[verifier::ext_equal]
pub struct NewEventV {
    pub event_type: Seq<char>,
    pub schema_version: int,
    pub actor: ActorV,
    pub workspace_id: Seq<char>,
    pub project_id: Option<Seq<char>>,
    pub subject: SubjectV,
    pub payload: JsonV,
    pub trace_id: Option<Seq<char>>,
    pub stream_id: Option<Seq<char>>,
}

impl View for NewEvent {
    type V = NewEventV;

    open spec fn view(&self) -> NewEventV {
        NewEventV {
            event_type: self.event_type@,
            schema_version: self.schema_version as int,
            actor: self.actor@,
            workspace_id: self.workspace_id@,
            project_id: self.project_id.deep_view(),
            subject: self.subject@,
            payload: self.payload@,
            trace_id: self.trace_id.deep_view(),
            stream_id: self.stream_id.deep_view(),
        }
    }
}

impl DeepView for NewEvent {
    type V = NewEventV;

    open spec fn deep_view(&self) -> NewEventV {
        self@
    }
}

impl NewEventV {
    /// The stream a new event belongs to: its explicit stream id where
    /// set, else its subject's id.
    pub open spec fn stream_of(self) -> Seq<char> {
        match self.stream_id {
            Some(s) => s,
            None => self.subject.id,
        }
    }
}

} // verus!

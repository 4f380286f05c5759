//! The in-process span record: one timed, named unit of work within a trace,
//! mutable only while it is open.

use vstd::prelude::*;
use crate::ids::SpanContext;
use crate::ids::SpanId;

verus! {

/// What role a span plays in the call tree.
#[derive(Clone, Copy, PartialEq, Eq, Structural, Debug)]
pub enum SpanKind {
    Server,
    Client,
    Internal,
}

/// Outcome recorded on a span: unset until the owner decides, then a success
/// or an error with a message.
#[derive(Clone, Debug)]
pub enum SpanStatus {
    Unset,
    Okay,
    Error(String),
}

/// A value attached to a span attribute or an event attribute.
#[derive(Clone, Debug)]
pub enum AttrValue {
    Text(String),
    Flag(bool),
    Int(i64),
}

/// A named, timestamped occurrence recorded on a span.
#[derive(Clone, Debug)]
pub struct SpanEvent {
    pub name: String,
    pub timestamp: u64,
    pub attributes: Vec<(String, AttrValue)>,
}

/// A mutable record of one timed unit of work. Owned by the code path that
/// created it until closed; on close, ownership moves to the exporter.
#[derive(Clone, Debug)]
pub struct Span {
    /// This span's own wire-transmissible identity.
    pub context: SpanContext,
    /// The span id of the parent span, if this span is not a root.
    pub parent_span_id: Option<SpanId>,
    pub name: String,
    pub kind: SpanKind,
    pub start_time: u64,
    /// Unset until the span is closed; set at most once.
    pub end_time: Option<u64>,
    pub attributes: Vec<(String, AttrValue)>,
    pub events: Vec<SpanEvent>,
    pub status: SpanStatus,
}

impl Span {
    /// Whether the span has been closed.
    pub open spec fn is_closed(self) -> bool {
        self.end_time is Some
    }

    /// Well-formed: a valid identity, and an end time that never precedes the
    /// start time.
    pub open spec fn wf(self) -> bool {
        &&& self.context.is_valid()
        &&& (self.end_time matches Some(e) ==> self.start_time <= e)
    }

    /// The fields that no mutation of an open span may touch.
    pub open spec fn identity_unchanged(self, other: Span) -> bool {
        &&& self.context == other.context
        &&& self.parent_span_id == other.parent_span_id
        &&& self.name == other.name
        &&& self.kind == other.kind
        &&& self.start_time == other.start_time
        &&& self.end_time == other.end_time
    }

    /// Appends one attribute. Legal only while the span is open.
    pub fn set_attribute(&mut self, key: String, value: AttrValue)
        requires
            !old(self).is_closed(),
        ensures
            final(self).attributes@ == old(self).attributes@.push((key, value)),
            final(self).identity_unchanged(*old(self)),
            final(self).events == old(self).events,
            final(self).status == old(self).status,
    {
        self.attributes.push((key, value));
    }

    /// Appends one event, stamped with the caller's clock reading. Legal only
    /// while the span is open.
    pub fn add_event(&mut self, name: String, timestamp: u64, attributes: Vec<(String, AttrValue)>)
        requires
            !old(self).is_closed(),
        ensures
            final(self).events@ == old(self).events@.push(
                SpanEvent { name, timestamp, attributes },
            ),
            final(self).identity_unchanged(*old(self)),
            final(self).attributes == old(self).attributes,
            final(self).status == old(self).status,
    {
        self.events.push(SpanEvent { name, timestamp, attributes });
    }

    /// Replaces the status. Legal only while the span is open.
    pub fn set_status(&mut self, status: SpanStatus)
        requires
            !old(self).is_closed(),
        ensures
            final(self).status == status,
            final(self).identity_unchanged(*old(self)),
            final(self).attributes == old(self).attributes,
            final(self).events == old(self).events,
    {
        self.status = status;
    }
}

/// The span as it stands after being closed at clock reading `t`: the end
/// time is set, clamped so that it never precedes the start time.
pub open spec fn closed_at(s: Span, t: u64) -> Span {
    Span {
        end_time: Some(
            if t >= s.start_time {
                t
            } else {
                s.start_time
            },
        ),
        ..s
    }
}

/// The end time of a closed span.
pub open spec fn end_of(s: Span) -> u64 {
    match s.end_time {
        Some(e) => e,
        None => 0,
    }
}

/// Closing preserves well-formedness: every closed span satisfies
/// end time >= start time, whatever the clock returned.
pub proof fn lemma_closed_at_wf(s: Span, t: u64)
    requires
        s.wf(),
    ensures
        closed_at(s, t).wf(),
        closed_at(s, t).is_closed(),
        closed_at(s, t).start_time <= end_of(closed_at(s, t)),
{
}

/// Same-process nesting is exact: when the clock is read in nesting order
/// (the parent starts no later than its child, the child closes no later
/// than its parent, and each close follows the child's start), the closed
/// child's interval lies within the closed parent's interval.
pub proof fn lemma_nested_intervals(parent: Span, child: Span, child_close: u64, parent_close: u64)
    requires
        parent.start_time <= child.start_time,
        child.start_time <= child_close,
        child_close <= parent_close,
    ensures
        closed_at(parent, parent_close).start_time <= closed_at(child, child_close).start_time,
        end_of(closed_at(child, child_close)) <= end_of(closed_at(parent, parent_close)),
{
}

} // verus!

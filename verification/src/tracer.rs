//! The tracer: factory for live spans, and the component that hands each
//! completed span to the configured exporter exactly once.

use vstd::prelude::*;
use crate::export::Exporter;
use crate::ids::SpanContext;
use crate::ids::new_child_context;
use crate::ids::new_root_context;
use crate::span::Span;
use crate::span::SpanKind;
use crate::span::SpanStatus;
use crate::span::closed_at;

verus! {

/// Starts spans, optionally as children of an extracted parent context, and
/// submits completed spans to its exporter.
pub struct Tracer<E: Exporter> {
    pub exporter: E,
}

impl<E: Exporter> Tracer<E> {
    pub fn new(exporter: E) -> (r: Tracer<E>)
        ensures
            r.exporter == exporter,
    {
        Tracer { exporter }
    }

    /// Starts a live span at clock reading `now`. With a parent context the
    /// span joins the parent's trace, records the parent's span id and
    /// inherits its sampling decision; without one it begins a fresh trace
    /// as a root. The returned span is open, owned by the caller, and empty
    /// of attributes, events and status.
    pub fn start_span(
        &self,
        name: String,
        kind: SpanKind,
        parent: Option<&SpanContext>,
        now: u64,
    ) -> (s: Span)
        requires
            parent matches Some(p) ==> p.is_valid(),
        ensures
            s.wf(),
            !s.is_closed(),
            s.name == name,
            s.kind == kind,
            s.start_time == now,
            s.attributes@.len() == 0,
            s.events@.len() == 0,
            s.status is Unset,
            parent matches Some(p) ==> s.context.trace_id == p.trace_id && s.parent_span_id
                == Some(p.span_id) && s.context.sampled == p.sampled,
            parent is None ==> s.parent_span_id is None && s.context.sampled,
    {
        match parent {
            Some(p) => {
                let ctx = new_child_context(p);
                Span {
                    context: ctx,
                    parent_span_id: Some(p.span_id),
                    name,
                    kind,
                    start_time: now,
                    end_time: None,
                    attributes: Vec::new(),
                    events: Vec::new(),
                    status: SpanStatus::Unset,
                }
            },
            None => {
                Span {
                    context: new_root_context(),
                    parent_span_id: None,
                    name,
                    kind,
                    start_time: now,
                    end_time: None,
                    attributes: Vec::new(),
                    events: Vec::new(),
                    status: SpanStatus::Unset,
                }
            },
        }
    }

    /// Closes a span and hands it to the exporter: the one-way ownership
    /// handoff. The span is consumed, so it cannot be mutated or closed
    /// again; its end time is the clock reading, clamped to the start time.
    /// A span that is somehow already closed is rejected: it is not
    /// re-submitted and the exporter's history does not change.
    pub fn end_span(&mut self, span: Span, now: u64)
        ensures
            !span.is_closed() ==> final(self).exporter.exported() == old(
                self,
            ).exporter.exported().push(closed_at(span, now)) || final(self).exporter.exported()
                == old(self).exporter.exported(),
            span.is_closed() ==> final(self).exporter.exported() == old(self).exporter.exported(),
    {
        if span.end_time.is_some() {
            return ;
        }
        let end = if now >= span.start_time {
            now
        } else {
            span.start_time
        };
        let ghost before = span;
        let mut closed = span;
        closed.end_time = Some(end);
        proof {
            assert(closed == closed_at(before, now));
        }
        self.exporter.export(closed);
    }
}

} // verus!

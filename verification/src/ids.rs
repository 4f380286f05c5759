//! Span and trace identities, and their random generation.

use vstd::prelude::*;

verus! {

/// Identity of one end-to-end request chain; constant across every hop and
/// every span within one logical call.
#[derive(Clone, Copy, PartialEq, Eq, Structural, Debug)]
pub struct TraceId(pub u128);

/// Identity of one span, unique within its trace with overwhelming
/// probability.
#[derive(Clone, Copy, PartialEq, Eq, Structural, Debug)]
pub struct SpanId(pub u64);

/// The wire-transmissible identity of a span: trace id, span id and a
/// sampling flag. Immutable; the only thing allowed to cross the wire.
#[derive(Clone, Copy, PartialEq, Eq, Structural, Debug)]
pub struct SpanContext {
    pub trace_id: TraceId,
    pub span_id: SpanId,
    pub sampled: bool,
}

impl SpanContext {
    /// A context is valid when neither of its ids is the all-zero value.
    pub open spec fn is_valid(self) -> bool {
        self.trace_id.0 != 0 && self.span_id.0 != 0
    }
}

/// Relies on rand::random: draws a value from the thread-local generator.
/// Nothing can be promised of a random value.
pub assume_specification<T>[ rand::random::<T> ]() -> (r: T)
    where
        rand::distributions::Standard: rand::distributions::Distribution<T>,
;

/// Draws a fresh trace id; the all-zero draw is mapped to one so that the
/// result is always a valid id.
pub fn fresh_trace_id() -> (r: TraceId)
    ensures
        r.0 != 0,
{
    let raw: u128 = rand::random::<u128>();
    if raw == 0 {
        TraceId(1)
    } else {
        TraceId(raw)
    }
}

/// Draws a fresh span id; the all-zero draw is mapped to one so that the
/// result is always a valid id.
pub fn fresh_span_id() -> (r: SpanId)
    ensures
        r.0 != 0,
{
    let raw: u64 = rand::random::<u64>();
    if raw == 0 {
        SpanId(1)
    } else {
        SpanId(raw)
    }
}

/// A fresh root identity: new trace id, new span id, sampled.
/// Generated by whichever service first receives a request that carries no
/// inbound context.
pub fn new_root_context() -> (r: SpanContext)
    ensures
        r.is_valid(),
        r.sampled,
{
    SpanContext { trace_id: fresh_trace_id(), span_id: fresh_span_id(), sampled: true }
}

/// A child identity: same trace id as the parent, fresh span id, the
/// parent's sampling decision.
pub fn new_child_context(parent: &SpanContext) -> (r: SpanContext)
    ensures
        r.trace_id == parent.trace_id,
        r.sampled == parent.sampled,
        r.span_id.0 != 0,
{
    SpanContext { trace_id: parent.trace_id, span_id: fresh_span_id(), sampled: parent.sampled }
}

} // verus!

//! The per-hop orchestration pattern: extract the inbound context, open a
//! server span, nest child spans for local work and outbound calls, inject
//! the current context into outgoing headers, and close every span on the
//! way out. Each step is a decision from state to state; the surrounding
//! process performs the actual waiting and transport and hands the results
//! back in.

use vstd::prelude::*;
use crate::export::Exporter;
use crate::propagate::Carrier;
use crate::propagate::encode_ctx;
use crate::propagate::extract;
use crate::propagate::inject;
use crate::propagate::lemma_parse_encode;
use crate::propagate::parse_ctx;
use crate::propagate::traceparent_key;
use crate::span::AttrValue;
use crate::span::Span;
use crate::span::SpanKind;
use crate::span::SpanStatus;
use crate::span::closed_at;
use crate::tracer::Tracer;

verus! {

/// Receives a request: extracts the inbound context from the headers and
/// opens the server span. A missing or malformed propagation header degrades
/// to a fresh root span; it never fails the request.
pub fn begin_request<E: Exporter>(
    tracer: &Tracer<E>,
    inbound: &Carrier,
    name: String,
    now: u64,
) -> (s: Span)
    requires
        inbound.wf(),
    ensures
        s.wf(),
        !s.is_closed(),
        s.kind == SpanKind::Server,
        s.name == name,
        s.start_time == now,
        s.attributes@.len() == 0,
        s.events@.len() == 0,
        s.status is Unset,
        inbound.spec_has(traceparent_key()) ==> (parse_ctx(
            inbound.spec_get(traceparent_key()),
        ) matches Some(p) ==> s.context.trace_id == p.trace_id && s.parent_span_id == Some(
            p.span_id,
        ) && s.context.sampled == p.sampled),
        !inbound.spec_has(traceparent_key()) || parse_ctx(inbound.spec_get(traceparent_key()))
            is None ==> s.parent_span_id is None && s.context.sampled,
{
    let parent = extract(inbound);
    let parent_ref = match &parent {
        Some(p) => Some(p),
        None => None,
    };
    tracer.start_span(name, SpanKind::Server, parent_ref, now)
}

/// Opens a child span nested under the given open span: the local-work step
/// (Internal) or the opening of an outbound call (Client).
pub fn start_child_span<E: Exporter>(
    tracer: &Tracer<E>,
    parent: &Span,
    name: String,
    kind: SpanKind,
    now: u64,
) -> (s: Span)
    requires
        parent.wf(),
    ensures
        s.wf(),
        !s.is_closed(),
        s.name == name,
        s.kind == kind,
        s.start_time == now,
        s.attributes@.len() == 0,
        s.events@.len() == 0,
        s.status is Unset,
        s.context.trace_id == parent.context.trace_id,
        s.parent_span_id == Some(parent.context.span_id),
        s.context.sampled == parent.context.sampled,
{
    tracer.start_span(name, kind, Some(&parent.context), now)
}

/// Opens the outbound call: starts a client span under the given parent and
/// writes the client span's context into the outgoing headers, so that the
/// next hop links its server span into this trace. Every other header keeps
/// its value.
pub fn open_outbound_call<E: Exporter>(
    tracer: &Tracer<E>,
    parent: &Span,
    name: String,
    outbound: &mut Carrier,
    now: u64,
) -> (s: Span)
    requires
        parent.wf(),
        old(outbound).wf(),
    ensures
        s.wf(),
        !s.is_closed(),
        s.kind == SpanKind::Client,
        s.name == name,
        s.start_time == now,
        s.attributes@.len() == 0,
        s.events@.len() == 0,
        s.status is Unset,
        s.context.trace_id == parent.context.trace_id,
        s.parent_span_id == Some(parent.context.span_id),
        s.context.sampled == parent.context.sampled,
        final(outbound).wf(),
        final(outbound).spec_has(traceparent_key()),
        final(outbound).spec_get(traceparent_key()) == encode_ctx(s.context),
        forall|k: Seq<char>|
            k != traceparent_key() ==> final(outbound).spec_has(k) == old(outbound).spec_has(k),
        forall|k: Seq<char>|
            k != traceparent_key() && old(outbound).spec_has(k) ==> final(outbound).spec_get(k)
                == old(outbound).spec_get(k),
{
    let s = start_child_span(tracer, parent, name, SpanKind::Client, now);
    inject(&s.context, outbound);
    s
}

/// Records the downstream response on the client span: one event, stamped
/// with the caller's clock reading, carrying the response status as display
/// text and the trace-response header the next hop echoed back (the empty
/// string when it echoed none).
pub fn record_response(span: &mut Span, status_text: String, trace_response: String, now: u64)
    requires
        !old(span).is_closed(),
    ensures
        final(span).identity_unchanged(*old(span)),
        final(span).attributes == old(span).attributes,
        final(span).status == old(span).status,
        final(span).events@ == old(span).events@.push(final(span).events@.last()),
        final(span).events@.last().name@ == "Got response!"@,
        final(span).events@.last().timestamp == now,
        final(span).events@.last().attributes@.len() == 2,
        final(span).events@.last().attributes@[0].0@ == "status"@,
        final(span).events@.last().attributes@[0].1 == AttrValue::Text(status_text),
        final(span).events@.last().attributes@[1].0@ == "traceresponse"@,
        final(span).events@.last().attributes@[1].1 == AttrValue::Text(trace_response),
{
    let mut attrs: Vec<(String, AttrValue)> = Vec::new();
    attrs.push((String::from_str("status"), AttrValue::Text(status_text)));
    attrs.push((String::from_str("traceresponse"), AttrValue::Text(trace_response)));
    span.add_event(String::from_str("Got response!"), now, attrs);
}

/// Records an unreachable or failed downstream call on the client span: one
/// event carrying the error text. The failure surfaces on the span; it is
/// never a crash.
pub fn record_failure(span: &mut Span, error_text: String, now: u64)
    requires
        !old(span).is_closed(),
    ensures
        final(span).identity_unchanged(*old(span)),
        final(span).attributes == old(span).attributes,
        final(span).status == old(span).status,
        final(span).events@ == old(span).events@.push(final(span).events@.last()),
        final(span).events@.last().name@ == "downstream call failed"@,
        final(span).events@.last().timestamp == now,
        final(span).events@.last().attributes@.len() == 1,
        final(span).events@.last().attributes@[0].0@ == "error"@,
        final(span).events@.last().attributes@[0].1 == AttrValue::Text(error_text),
{
    let mut attrs: Vec<(String, AttrValue)> = Vec::new();
    attrs.push((String::from_str("error"), AttrValue::Text(error_text)));
    span.add_event(String::from_str("downstream call failed"), now, attrs);
}

/// The client span's outcome for a downstream response: okay exactly for a
/// success status code, otherwise the error that the caller of this hop will
/// see surfaced.
pub fn client_outcome(status_code: u16) -> (r: SpanStatus)
    ensures
        200 <= status_code < 300 ==> r is Okay,
        !(200 <= status_code < 300) ==> (r matches SpanStatus::Error(m) && m@
            == "downstream call failed"@),
{
    if 200 <= status_code && status_code < 300 {
        SpanStatus::Okay
    } else {
        SpanStatus::Error(String::from_str("downstream call failed"))
    }
}

/// The server span's status for a finished request: okay exactly when both
/// the local work and the downstream call succeeded; otherwise the error
/// result that the caller receives.
pub fn request_outcome(work_ok: bool, downstream_ok: bool) -> (r: SpanStatus)
    ensures
        work_ok && downstream_ok ==> r is Okay,
        !(work_ok && downstream_ok) ==> (r matches SpanStatus::Error(m) && m@
            == "request failed"@),
{
    if work_ok && downstream_ok {
        SpanStatus::Okay
    } else {
        SpanStatus::Error(String::from_str("request failed"))
    }
}

/// The span as it stands once its final status is recorded.
pub open spec fn with_status(s: Span, status: SpanStatus) -> Span {
    Span { status, ..s }
}

/// Closes a span on the way out: records the outcome as its status, then
/// closes it and hands it to the exporter. The span is consumed; there is no
/// way to close it a second time.
pub fn finish_span<E: Exporter>(tracer: &mut Tracer<E>, span: Span, outcome: SpanStatus, now: u64)
    requires
        !span.is_closed(),
    ensures
        final(tracer).exporter.exported() == old(tracer).exporter.exported().push(
            closed_at(with_status(span, outcome), now),
        ) || final(tracer).exporter.exported() == old(tracer).exporter.exported(),
{
    let ghost before = span;
    let mut s = span;
    s.set_status(outcome);
    proof {
        assert(s == with_status(before, outcome));
    }
    tracer.end_span(s, now);
}

/// Cross-process linkage: a server span that the next hop opened from
/// headers carrying a client span's injected context joins the client
/// span's trace and records the client span as its parent.
pub proof fn lemma_cross_hop_linkage(client: Span, outbound: Carrier, server: Span)
    requires
        client.context.is_valid(),
        outbound.spec_has(traceparent_key()),
        outbound.spec_get(traceparent_key()) == encode_ctx(client.context),
        parse_ctx(outbound.spec_get(traceparent_key())) matches Some(p) ==> server.context.trace_id
            == p.trace_id && server.parent_span_id == Some(p.span_id),
    ensures
        server.context.trace_id == client.context.trace_id,
        server.parent_span_id == Some(client.context.span_id),
{
    lemma_parse_encode(client.context);
}

} // verus!

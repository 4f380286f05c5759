use std::collections::HashSet;

use tracehop::export::{BoundedExporter, CollectingExporter};
use tracehop::hop::{
    client_outcome, record_failure, record_response, request_outcome, start_child_span,
};
use tracehop::ids::{new_child_context, new_root_context, SpanContext, SpanId, TraceId};
use tracehop::span::{AttrValue, Span, SpanKind, SpanStatus};
use tracehop::tracer::Tracer;

fn open_span(trace: u128, span: u64, start: u64) -> Span {
    Span {
        context: SpanContext {
            trace_id: TraceId(trace),
            span_id: SpanId(span),
            sampled: true,
        },
        parent_span_id: None,
        name: String::from("test"),
        kind: SpanKind::Internal,
        start_time: start,
        end_time: None,
        attributes: Vec::new(),
        events: Vec::new(),
        status: SpanStatus::Unset,
    }
}

#[test]
fn parent_linkage() {
    let tracer = Tracer::new(CollectingExporter::new());
    let parent_ctx = new_root_context();
    let server = tracer.start_span(
        String::from("handle"),
        SpanKind::Server,
        Some(&parent_ctx),
        10,
    );
    assert_eq!(server.context.trace_id, parent_ctx.trace_id);
    assert_eq!(server.parent_span_id, Some(parent_ctx.span_id));

    let child = start_child_span(&tracer, &server, String::from("work"), SpanKind::Internal, 11);
    assert_eq!(child.context.trace_id, server.context.trace_id);
    assert_eq!(child.parent_span_id, Some(server.context.span_id));
}

#[test]
fn child_context_keeps_trace_id() {
    let root = new_root_context();
    let child = new_child_context(&root);
    assert_eq!(child.trace_id, root.trace_id);
    assert_eq!(child.sampled, root.sampled);
    assert_ne!(child.span_id.0, 0);
}

#[test]
fn root_span_ids_are_distinct() {
    let mut seen: HashSet<u64> = HashSet::new();
    for _ in 0..10_000 {
        let c = new_root_context();
        assert!(seen.insert(c.span_id.0), "span id repeated");
    }
    assert_eq!(seen.len(), 10_000);
}

#[test]
fn close_sets_end_time_and_exports_once() {
    let mut tracer = Tracer::new(CollectingExporter::new());
    let span = tracer.start_span(String::from("s"), SpanKind::Server, None, 100);
    tracer.end_span(span, 150);
    assert_eq!(tracer.exporter.spans.len(), 1);
    let closed = &tracer.exporter.spans[0];
    assert_eq!(closed.start_time, 100);
    assert_eq!(closed.end_time, Some(150));
}

#[test]
fn closing_an_already_closed_span_is_rejected() {
    let mut tracer = Tracer::new(CollectingExporter::new());
    let mut span = open_span(5, 6, 100);
    span.end_time = Some(120);
    tracer.end_span(span, 300);
    // not re-submitted: the exporter saw nothing
    assert_eq!(tracer.exporter.spans.len(), 0);
}

#[test]
fn end_time_never_precedes_start_time() {
    let mut tracer = Tracer::new(CollectingExporter::new());
    // a clock that runs backwards is clamped
    let span = tracer.start_span(String::from("s"), SpanKind::Server, None, 100);
    tracer.end_span(span, 40);
    assert_eq!(tracer.exporter.spans[0].end_time, Some(100));
}

#[test]
fn same_process_nesting_is_exact() {
    let mut tracer = Tracer::new(CollectingExporter::new());
    let parent = tracer.start_span(String::from("parent"), SpanKind::Server, None, 10);
    let child = start_child_span(&tracer, &parent, String::from("child"), SpanKind::Internal, 20);
    tracer.end_span(child, 30);
    tracer.end_span(parent, 40);
    let spans = &tracer.exporter.spans;
    assert_eq!(spans.len(), 2);
    let (c, p) = (&spans[0], &spans[1]);
    assert!(p.start_time <= c.start_time);
    assert!(c.end_time.unwrap() <= p.end_time.unwrap());
    assert!(c.start_time <= c.end_time.unwrap());
    assert!(p.start_time <= p.end_time.unwrap());
}

#[test]
fn mutators_append_in_order() {
    let tracer = Tracer::new(CollectingExporter::new());
    let mut span = tracer.start_span(String::from("s"), SpanKind::Internal, None, 1);
    span.set_attribute(String::from("test-attribute-1"), AttrValue::Text(String::from("test-values-1")));
    span.set_attribute(String::from("happened"), AttrValue::Flag(true));
    span.add_event(String::from("request decoded"), 2, Vec::new());
    assert_eq!(span.attributes.len(), 2);
    assert_eq!(span.attributes[0].0, "test-attribute-1");
    assert!(matches!(span.attributes[1].1, AttrValue::Flag(true)));
    assert_eq!(span.events.len(), 1);
    assert_eq!(span.events[0].name, "request decoded");
    assert_eq!(span.events[0].timestamp, 2);
}

#[test]
fn record_response_event_shape() {
    let mut span = open_span(1, 2, 0);
    record_response(&mut span, String::from("200 OK"), String::from(""), 9);
    // recording the response touches nothing but the events
    assert!(matches!(span.status, SpanStatus::Unset));
    assert!(span.attributes.is_empty());
    assert_eq!(span.events.len(), 1);
    let ev = &span.events[0];
    assert_eq!(ev.name, "Got response!");
    assert_eq!(ev.timestamp, 9);
    assert_eq!(ev.attributes.len(), 2);
    assert_eq!(ev.attributes[0].0, "status");
    match &ev.attributes[0].1 {
        AttrValue::Text(t) => assert_eq!(t, "200 OK"),
        other => panic!("expected text, got {:?}", other),
    }
    assert_eq!(ev.attributes[1].0, "traceresponse");
    match &ev.attributes[1].1 {
        AttrValue::Text(t) => assert_eq!(t, ""),
        other => panic!("expected text, got {:?}", other),
    }
}

#[test]
fn record_response_echoed_header() {
    let mut span = open_span(1, 2, 0);
    record_response(
        &mut span,
        String::from("503 Service Unavailable"),
        String::from("00-abc"),
        4,
    );
    match &span.events[0].attributes[1].1 {
        AttrValue::Text(t) => assert_eq!(t, "00-abc"),
        other => panic!("expected text, got {:?}", other),
    }
}

#[test]
fn record_failure_event_shape() {
    let mut span = open_span(1, 4, 0);
    record_failure(&mut span, String::from("connection refused"), 7);
    assert!(matches!(span.status, SpanStatus::Unset));
    assert_eq!(span.events.len(), 1);
    let ev = &span.events[0];
    assert_eq!(ev.name, "downstream call failed");
    assert_eq!(ev.timestamp, 7);
    assert_eq!(ev.attributes.len(), 1);
    assert_eq!(ev.attributes[0].0, "error");
    match &ev.attributes[0].1 {
        AttrValue::Text(t) => assert_eq!(t, "connection refused"),
        other => panic!("expected text, got {:?}", other),
    }
}

#[test]
fn client_outcome_by_status_code() {
    assert!(matches!(client_outcome(200), SpanStatus::Okay));
    assert!(matches!(client_outcome(299), SpanStatus::Okay));
    match client_outcome(503) {
        SpanStatus::Error(m) => assert_eq!(m, "downstream call failed"),
        other => panic!("expected an error status, got {:?}", other),
    }
    assert!(matches!(client_outcome(199), SpanStatus::Error(_)));
    assert!(matches!(client_outcome(300), SpanStatus::Error(_)));
}

#[test]
fn request_outcome_needs_both_successes() {
    assert!(matches!(request_outcome(true, true), SpanStatus::Okay));
    match request_outcome(true, false) {
        SpanStatus::Error(m) => assert_eq!(m, "request failed"),
        other => panic!("expected an error status, got {:?}", other),
    }
    assert!(matches!(request_outcome(false, true), SpanStatus::Error(_)));
    assert!(matches!(request_outcome(false, false), SpanStatus::Error(_)));
}

#[test]
fn bounded_exporter_drops_instead_of_stalling() {
    let mut tracer = Tracer::new(BoundedExporter::new(1));
    let a = tracer.start_span(String::from("a"), SpanKind::Server, None, 1);
    let b = tracer.start_span(String::from("b"), SpanKind::Server, None, 2);
    tracer.end_span(a, 3);
    tracer.end_span(b, 4);
    // the second close returned and degraded to a counted drop
    assert_eq!(tracer.exporter.spans.len(), 1);
    assert_eq!(tracer.exporter.dropped, 1);
}

#[test]
fn exporter_that_accepts_nothing_never_blocks_the_request_path() {
    // capacity zero models a backend that never takes a span: every request
    // still completes and every span is dropped, not queued
    let mut tracer = Tracer::new(BoundedExporter::new(0));
    for i in 0..100u64 {
        let s = tracer.start_span(String::from("req"), SpanKind::Server, None, i);
        tracer.end_span(s, i + 1);
    }
    assert_eq!(tracer.exporter.spans.len(), 0);
    assert_eq!(tracer.exporter.dropped, 100);
}

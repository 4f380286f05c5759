use tracehop::export::CollectingExporter;
use tracehop::hop::{begin_request, finish_span, open_outbound_call, start_child_span};
use tracehop::propagate::Carrier;
use tracehop::span::{SpanKind, SpanStatus};
use tracehop::tracer::Tracer;

// One request crosses two hops: hop A receives it without a propagation
// header, does local work, calls hop B with the header injected, and both
// hops export spans that form a single two-level trace.
#[test]
fn two_hop_trace() {
    // hop A receives a request with no propagation header
    let mut tracer_a = Tracer::new(CollectingExporter::new());
    let inbound = Carrier::new();
    let server_a = begin_request(&tracer_a, &inbound, String::from("handle"), 100);
    assert_eq!(server_a.parent_span_id, None);
    let t1 = server_a.context.trace_id;

    // local work as an internal child span
    let child_a = start_child_span(
        &tracer_a,
        &server_a,
        String::from("cache lookup"),
        SpanKind::Internal,
        110,
    );
    assert_eq!(child_a.context.trace_id, t1);
    assert_eq!(child_a.parent_span_id, Some(server_a.context.span_id));
    finish_span(&mut tracer_a, child_a, SpanStatus::Okay, 120);

    // outbound call: a client span whose context rides in the headers
    let mut outbound = Carrier::new();
    let client_a = open_outbound_call(
        &tracer_a,
        &server_a,
        String::from("next hop call"),
        &mut outbound,
        130,
    );
    assert_eq!(client_a.context.trace_id, t1);
    assert_eq!(client_a.parent_span_id, Some(server_a.context.span_id));
    let client_a_span_id = client_a.context.span_id;

    // hop B receives the forwarded request
    let mut tracer_b = Tracer::new(CollectingExporter::new());
    let server_b = begin_request(&tracer_b, &outbound, String::from("handle"), 1000);
    assert_eq!(server_b.context.trace_id, t1);
    assert_eq!(server_b.parent_span_id, Some(client_a_span_id));
    finish_span(&mut tracer_b, server_b, SpanStatus::Okay, 1050);

    // hop A closes its remaining spans on the way out
    finish_span(&mut tracer_a, client_a, SpanStatus::Okay, 140);
    finish_span(&mut tracer_a, server_a, SpanStatus::Okay, 150);

    // both exporters received spans of one trace, all closed in order
    assert_eq!(tracer_a.exporter.spans.len(), 3);
    assert_eq!(tracer_b.exporter.spans.len(), 1);
    for s in tracer_a
        .exporter
        .spans
        .iter()
        .chain(tracer_b.exporter.spans.iter())
    {
        assert_eq!(s.context.trace_id, t1);
        assert!(s.start_time <= s.end_time.unwrap());
        assert!(matches!(s.status, SpanStatus::Okay));
    }
}

// An abandoned request still closes its server span, marked as an error,
// rather than leaving it open.
#[test]
fn abandoned_request_still_exports() {
    let mut tracer = Tracer::new(CollectingExporter::new());
    let inbound = Carrier::new();
    let server = begin_request(&tracer, &inbound, String::from("handle"), 10);
    finish_span(
        &mut tracer,
        server,
        SpanStatus::Error(String::from("client disconnected")),
        25,
    );
    assert_eq!(tracer.exporter.spans.len(), 1);
    let s = &tracer.exporter.spans[0];
    assert!(s.end_time.is_some());
    assert!(matches!(s.status, SpanStatus::Error(_)));
}

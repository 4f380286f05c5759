use tracehop::hex::{encode_hex, parse_hex};
use tracehop::ids::{SpanContext, SpanId, TraceId};
use tracehop::propagate::{extract, inject, parse_traceparent, traceparent, Carrier};

fn ctx(trace: u128, span: u64, sampled: bool) -> SpanContext {
    SpanContext {
        trace_id: TraceId(trace),
        span_id: SpanId(span),
        sampled,
    }
}

#[test]
fn inject_writes_fixed_format() {
    let c = ctx(0x0af7651916cd43dd8448eb211c80319c, 0xb7ad6b7169203331, true);
    let mut carrier = Carrier::new();
    inject(&c, &mut carrier);
    let value = carrier.get(&traceparent()).expect("header must be present");
    assert_eq!(
        value.as_str(),
        "00-0af7651916cd43dd8448eb211c80319c-b7ad6b7169203331-01"
    );
}

#[test]
fn round_trip_sampled() {
    let c = ctx(0x0af7651916cd43dd8448eb211c80319c, 0xb7ad6b7169203331, true);
    let mut carrier = Carrier::new();
    inject(&c, &mut carrier);
    assert_eq!(extract(&carrier), Some(c));
}

#[test]
fn round_trip_unsampled() {
    let c = ctx(1, 1, false);
    let mut carrier = Carrier::new();
    inject(&c, &mut carrier);
    let value = carrier.get(&traceparent()).expect("header must be present");
    assert_eq!(
        value.as_str(),
        "00-00000000000000000000000000000001-0000000000000001-00"
    );
    assert_eq!(extract(&carrier), Some(c));
}

#[test]
fn round_trip_extreme_ids() {
    let c = ctx(u128::MAX, u64::MAX, true);
    let mut carrier = Carrier::new();
    inject(&c, &mut carrier);
    assert_eq!(extract(&carrier), Some(c));
}

#[test]
fn extract_empty_is_none() {
    let carrier = Carrier::new();
    assert_eq!(extract(&carrier), None);
}

#[test]
fn extract_unrelated_key_is_none() {
    let mut carrier = Carrier::new();
    carrier.insert(String::from("bad-key"), String::from("garbage"));
    assert_eq!(extract(&carrier), None);
}

#[test]
fn extract_garbage_value_is_none() {
    let mut carrier = Carrier::new();
    carrier.insert(traceparent(), String::from("garbage"));
    assert_eq!(extract(&carrier), None);
}

#[test]
fn parse_rejects_malformed_values() {
    // unsupported version byte
    assert_eq!(
        parse_traceparent("01-0af7651916cd43dd8448eb211c80319c-b7ad6b7169203331-01"),
        None
    );
    // wrong separator placement
    assert_eq!(
        parse_traceparent("00+0af7651916cd43dd8448eb211c80319c-b7ad6b7169203331-01"),
        None
    );
    // uppercase hex is not the wire format
    assert_eq!(
        parse_traceparent("00-0AF7651916CD43DD8448EB211C80319C-B7AD6B7169203331-01"),
        None
    );
    // non-hex characters in the trace id
    assert_eq!(
        parse_traceparent("00-zzf7651916cd43dd8448eb211c80319c-b7ad6b7169203331-01"),
        None
    );
    // wrong length
    assert_eq!(parse_traceparent("00-abc-def-01"), None);
    // all-zero trace id
    assert_eq!(
        parse_traceparent("00-00000000000000000000000000000000-b7ad6b7169203331-01"),
        None
    );
    // all-zero span id
    assert_eq!(
        parse_traceparent("00-0af7651916cd43dd8448eb211c80319c-0000000000000000-01"),
        None
    );
}

#[test]
fn inject_replaces_and_keeps_other_headers() {
    let mut carrier = Carrier::new();
    carrier.insert(String::from("content-type"), String::from("text/html"));
    inject(&ctx(7, 7, true), &mut carrier);
    inject(&ctx(9, 9, false), &mut carrier);
    assert_eq!(extract(&carrier), Some(ctx(9, 9, false)));
    assert_eq!(
        carrier
            .get(&String::from("content-type"))
            .map(|s| s.as_str()),
        Some("text/html")
    );
}

#[test]
fn carrier_insert_overwrites() {
    let mut carrier = Carrier::new();
    carrier.insert(String::from("k"), String::from("a"));
    carrier.insert(String::from("k"), String::from("b"));
    assert_eq!(carrier.get(&String::from("k")).map(|s| s.as_str()), Some("b"));
    assert_eq!(carrier.get(&String::from("missing")), None);
}

#[test]
fn hex_encode_exact_values() {
    assert_eq!(encode_hex(0xdeadbeef, 8).as_str(), "deadbeef");
    assert_eq!(encode_hex(0, 4).as_str(), "0000");
    assert_eq!(encode_hex(0x1b, 2).as_str(), "1b");
    assert_eq!(encode_hex(u128::MAX, 32).as_str(), "ffffffffffffffffffffffffffffffff");
}

#[test]
fn hex_parse_exact_values() {
    assert_eq!(parse_hex("ff"), Some(255));
    assert_eq!(parse_hex("0"), Some(0));
    assert_eq!(parse_hex("deadbeef"), Some(0xdeadbeef));
    assert_eq!(parse_hex("FF"), None);
    assert_eq!(parse_hex("0g"), None);
    // 33 digits is longer than any id field
    assert_eq!(parse_hex("000000000000000000000000000000000"), None);
}

use promptforge::sse::{header_or_default, relay_end, relay_events_for, relay_step, sse_data_event, RelayItem};

#[test]
fn chunks_are_relayed_then_done() {
    let events = relay_events_for(&[
        RelayItem::Data("{\"a\":1}".to_string()),
        RelayItem::Data("{\"b\":2}".to_string()),
    ]);
    assert_eq!(
        events,
        vec!["data: {\"a\":1}\n\n", "data: {\"b\":2}\n\n", "data: [DONE]\n\n"]
    );
}

#[test]
fn a_failure_ends_the_relay_with_its_envelope() {
    let events = relay_events_for(&[
        RelayItem::Data("{\"a\":1}".to_string()),
        RelayItem::Error("{\"error\":\"boom\"}".to_string()),
        RelayItem::Data("{\"never\":true}".to_string()),
    ]);
    assert_eq!(
        events,
        vec!["data: {\"a\":1}\n\n", "data: {\"error\":\"boom\"}\n\n"]
    );
}

#[test]
fn an_empty_stream_is_just_done() {
    assert_eq!(relay_events_for(&[]), vec!["data: [DONE]\n\n"]);
}

#[test]
fn relay_step_stops_after_failure() {
    assert_eq!(relay_step(true, &RelayItem::Data("x".to_string())), (true, None));
    assert_eq!(
        relay_step(false, &RelayItem::Error("e".to_string())),
        (true, Some("data: e\n\n".to_string()))
    );
    assert_eq!(sse_data_event("{}"), "data: {}\n\n");
}

#[test]
fn headers_forward_valid_upstream_values() {
    assert_eq!(header_or_default(Some("text/plain"), "text/event-stream"), "text/plain");
    assert_eq!(header_or_default(Some("bad\nvalue"), "text/event-stream"), "text/event-stream");
    assert_eq!(header_or_default(None, "no-cache"), "no-cache");
}

#[test]
fn only_a_clean_end_is_marked_done() {
    assert_eq!(relay_end(false), Some("data: [DONE]\n\n".to_string()));
    assert_eq!(relay_end(true), None);
    let events = relay_events_for(&[RelayItem::Error("{\"error\":\"first\"}".to_string())]);
    assert_eq!(events, vec!["data: {\"error\":\"first\"}\n\n"]);
}

use relay::telemetry::{
    sink_body, stamp_body, SubmitOutcome, TelemetryEvent, TelemetrySender, TelemetryTag,
};

fn event(text: &str) -> TelemetryEvent {
    TelemetryEvent { tag: TelemetryTag::ForwardSuccess, body: String::from(text) }
}

#[test]
fn submit_on_saturated_queue_returns_immediately_with_drop() {
    let (tx, mut rx) = tokio::sync::mpsc::channel(1);
    let mut sender = TelemetrySender::new(tx);
    assert_eq!(sender.submit(event("{\"n\":1}")), SubmitOutcome::Sent);
    // The queue is saturated now and nothing consumes it: submission still
    // returns, the event is dropped and the drop is counted.
    assert_eq!(sender.submit(event("{\"n\":2}")), SubmitOutcome::Dropped);
    assert_eq!(sender.submit(event("{\"n\":3}")), SubmitOutcome::Dropped);
    assert_eq!(sender.sent(), 1);
    assert_eq!(sender.dropped(), 2);
    // Only the accepted event is in the queue.
    let queued = rx.try_recv().unwrap();
    assert_eq!(queued.body, "{\"n\":1}");
    assert!(rx.try_recv().is_err());
}

#[test]
fn submit_after_consumer_gone_is_discarded() {
    let (tx, rx) = tokio::sync::mpsc::channel(4);
    drop(rx);
    let mut sender = TelemetrySender::new(tx);
    assert_eq!(sender.submit(event("{}")), SubmitOutcome::Closed);
    assert_eq!(sender.sent(), 0);
    assert_eq!(sender.dropped(), 0);
}

#[test]
fn queued_event_arrives_unchanged() {
    let (tx, mut rx) = tokio::sync::mpsc::channel(4);
    let mut sender = TelemetrySender::new(tx);
    let e = TelemetryEvent {
        tag: TelemetryTag::NoDestination,
        body: String::from("{\"destination\":\"10.0.0.9\",\"content\":\"x\"}"),
    };
    assert_eq!(sender.submit(e), SubmitOutcome::Sent);
    let got = rx.try_recv().unwrap();
    assert_eq!(got.tag, TelemetryTag::NoDestination);
    assert_eq!(got.body, "{\"destination\":\"10.0.0.9\",\"content\":\"x\"}");
}

#[test]
fn sink_body_stamps_timestamp_at_dequeue_time() {
    let (body, stamp) = sink_body(event("{\"destination\":\"10.0.0.5\",\"content\":\"x\"}"));
    let ts = stamp.expect("a well-formed envelope gets a stamp");
    let v = json::parse(&body).unwrap();
    // The telemetry copy carries exactly the returned stamp; the
    // envelope's members survive.
    assert_eq!(v["timestamp"].as_str(), Some(ts.as_str()));
    assert_eq!(v["destination"].as_str(), Some("10.0.0.5"));
    assert_eq!(v["content"].as_str(), Some("x"));
    // One line of text: safe to frame for any line-based transport.
    assert!(!body.contains('\n'));
}

#[test]
fn stamp_body_adds_exactly_the_given_stamp() {
    let out = stamp_body(
        String::from("{\"destination\":\"10.0.0.5\",\"content\":7}"),
        "2001-02-03T04:05:06Z",
    );
    let v = json::parse(&out).unwrap();
    assert_eq!(v["timestamp"].as_str(), Some("2001-02-03T04:05:06Z"));
    assert_eq!(v["destination"].as_str(), Some("10.0.0.5"));
    assert_eq!(v["content"].as_u32(), Some(7));
    assert_eq!(stamp_body(String::from("not json"), "x"), "not json");
}

#[test]
fn sink_body_hands_an_unparseable_body_on_unchanged() {
    let (body, _stamp) = sink_body(event("not json"));
    assert_eq!(body, "not json");
}

use relay::addr::parse_key;
use relay::lookup::{match_ip_port, resolve_ip};
use relay::registry::{Registry, WriterHandle};
use relay::session::{forward_event, handle_line, LineAction};
use relay::telemetry::TelemetryTag;

#[test]
fn malformed_line_never_routes() {
    let reg = Registry::new();
    let me = parse_key("127.0.0.1:51000").unwrap();
    let action = handle_line("this is not json", me, &reg);
    assert!(matches!(action, LineAction::MalformedLine));
}

#[test]
fn oversized_line_is_a_decode_error() {
    let reg = Registry::new();
    let me = parse_key("127.0.0.1:51000").unwrap();
    let long = "a".repeat(70000);
    let line = format!("{{\"destination\":\"10.0.0.9\",\"content\":\"{}\"}}", long);
    let action = handle_line(&line, me, &reg);
    assert!(matches!(action, LineAction::MalformedLine));
}

#[test]
fn line_without_destination_is_dropped() {
    let reg = Registry::new();
    let me = parse_key("127.0.0.1:51000").unwrap();
    let action = handle_line("{\"content\":\"x\"}", me, &reg);
    assert!(matches!(action, LineAction::NotRoutable));
}

#[test]
fn unresolved_destination_emits_one_no_destination_event() {
    let mut reg = Registry::new();
    let me = parse_key("127.0.0.1:51000").unwrap();
    reg.register(me, WriterHandle { id: 1 });
    let action = handle_line("{\"destination\":\"10.0.0.9\",\"content\":\"x\"}", me, &reg);
    match action {
        LineAction::NoRoute { dest, reply, event } => {
            assert_eq!(dest, "10.0.0.9");
            // No forward is attempted toward any registry entry, and the
            // action carries exactly this one event.
            assert_eq!(event.tag, TelemetryTag::NoDestination);
            assert_eq!(reply, "Destination 10.0.0.9 not connected");
            // The event carries the rewritten envelope itself; the tag is
            // the classification.
            let logged = json::parse(&event.body).unwrap();
            assert_eq!(logged["source"].as_str(), Some("127.0.0.1"));
            assert_eq!(logged["destination"].as_str(), Some("10.0.0.9"));
            assert_eq!(logged["content"].as_str(), Some("x"));
        },
        _ => panic!("expected a no-route decision"),
    }
}

#[test]
fn newline_in_destination_never_splits_the_reply() {
    let reg = Registry::new();
    let me = parse_key("127.0.0.1:51000").unwrap();
    // The destination text embeds a real line terminator (via the JSON
    // escape); echoing it would split the framed notification.
    let action = handle_line("{\"destination\":\"10.0\\n0.9\"}", me, &reg);
    match action {
        LineAction::NoRoute { dest, reply, .. } => {
            assert!(dest.contains('\n'));
            assert_eq!(reply, "Destination not connected");
            assert!(!reply.contains('\n'));
        },
        _ => panic!("expected a no-route decision"),
    }
}

#[test]
fn forward_rewrites_source_and_keeps_content() {
    let mut reg = Registry::new();
    let a = parse_key("127.0.0.1:51000").unwrap();
    let b = parse_key("10.0.0.5:51001").unwrap();
    let wa = WriterHandle { id: 1 };
    let wb = WriterHandle { id: 2 };
    reg.register(a, wa);
    reg.register(b, wb);
    let line = "{\"destination\":\"10.0.0.5\",\"content\":{\"type\":\"ping\"},\"source\":\"forged\"}";
    let action = handle_line(line, a, &reg);
    match action {
        LineAction::Forward { dest, target, writer, line: out } => {
            assert_eq!(dest, "10.0.0.5");
            assert_eq!(target, b);
            assert_eq!(writer, wb);
            let sent = json::parse(&out).unwrap();
            // The relay overwrites the claimed source with the sender's own
            // address; the content is carried through unchanged.
            assert_eq!(sent["source"].as_str(), Some("127.0.0.1"));
            assert_eq!(sent["destination"].as_str(), Some("10.0.0.5"));
            assert_eq!(sent["content"]["type"].as_str(), Some("ping"));
            // Exactly one forward-success event once the write succeeded,
            // carrying the same rewritten text.
            let event = forward_event(true, out.clone());
            assert_eq!(event.tag, TelemetryTag::ForwardSuccess);
            assert_eq!(event.body, out);
        },
        _ => panic!("expected a forward decision"),
    }
}

#[test]
fn forward_failure_is_tagged_failure() {
    let event = forward_event(false, String::from("{\"destination\":\"10.0.0.5\"}"));
    assert_eq!(event.tag, TelemetryTag::ForwardFailure);
}

#[test]
fn self_addressed_line_loops_back_to_sender() {
    // A destination equal to the sender's own address is not special-cased:
    // the message loops back. Documented quirk, not corrected.
    let mut reg = Registry::new();
    let a = parse_key("127.0.0.1:51000").unwrap();
    let wa = WriterHandle { id: 1 };
    reg.register(a, wa);
    let action = handle_line("{\"destination\":\"127.0.0.1\",\"content\":1}", a, &reg);
    match action {
        LineAction::Forward { target, writer, .. } => {
            assert_eq!(target, a);
            assert_eq!(writer, wa);
        },
        _ => panic!("expected a forward decision"),
    }
}

#[test]
fn full_key_destination_resolves_exactly() {
    let mut reg = Registry::new();
    let a = parse_key("10.0.0.5:7000").unwrap();
    let wa = WriterHandle { id: 9 };
    reg.register(a, wa);
    let hit = resolve_ip("10.0.0.5:7000", &reg).unwrap();
    assert_eq!(hit.0, a);
    assert_eq!(hit.1, wa);
    // A full key that is not registered is a miss; it does not fall back
    // to the address scan.
    assert!(resolve_ip("10.0.0.5:7001", &reg).is_none());
    // The bare address still matches the live connection.
    let by_ip = resolve_ip("10.0.0.5", &reg).unwrap();
    assert_eq!(by_ip.0, a);
}

#[test]
fn match_ip_port_finds_connection_by_bare_address() {
    let mut reg = Registry::new();
    let a = parse_key("192.168.1.9:4242").unwrap();
    reg.register(a, WriterHandle { id: 3 });
    assert_eq!(match_ip_port("192.168.1.9", &reg), Some(a));
    assert_eq!(match_ip_port("192.168.1.8", &reg), None);
    assert_eq!(match_ip_port("not-an-ip", &reg), None);
}

use gateway::stream::{relay, to_sse_event, Conduit, StreamBridge, StreamEvent, UpstreamEvent};

fn chunk(parts: &[&str]) -> UpstreamEvent {
    UpstreamEvent::Chunk(parts.iter().map(|p| Some(p.to_string())).collect())
}

fn assert_fragment(ev: &StreamEvent, expected: &str) {
    match ev {
        StreamEvent::Fragment(c) => assert_eq!(c, expected),
        _ => panic!("expected a fragment"),
    }
}

#[test]
fn test_relay_normal_completion() {
    let out = relay(vec![chunk(&["Hel"]), chunk(&["lo"])]);
    assert_eq!(out.len(), 3);
    assert_fragment(&out[0], "Hel");
    assert_fragment(&out[1], "lo");
    assert!(matches!(out[2], StreamEvent::Done));
}

#[test]
fn test_relay_failure_still_ends_in_done() {
    let out = relay(vec![
        chunk(&["partial"]),
        UpstreamEvent::Failed("connection reset".to_string()),
        chunk(&["never delivered"]),
    ]);
    assert_eq!(out.len(), 3);
    assert_fragment(&out[0], "partial");
    match &out[1] {
        StreamEvent::Error(m) => assert_eq!(m, "connection reset"),
        _ => panic!("expected the failure to be reported"),
    }
    assert!(matches!(out[2], StreamEvent::Done));
}

#[test]
fn test_relay_empty_run_is_just_done() {
    let out = relay(Vec::new());
    assert_eq!(out.len(), 1);
    assert!(matches!(out[0], StreamEvent::Done));
}

#[test]
fn test_relay_skips_empty_and_absent_content() {
    let out = relay(vec![UpstreamEvent::Chunk(vec![
        Some("".to_string()),
        None,
        Some("a".to_string()),
    ])]);
    assert_eq!(out.len(), 2);
    assert_fragment(&out[0], "a");
    assert!(matches!(out[1], StreamEvent::Done));
}

#[test]
fn test_bridge_steps_match_relay() {
    let mut bridge = StreamBridge::new();
    let mut collected = bridge.on_event(chunk(&["one", "two"]));
    collected.append(&mut bridge.on_event(chunk(&["three"])));
    collected.append(&mut bridge.finish());
    let direct = relay(vec![chunk(&["one", "two"]), chunk(&["three"])]);
    assert_eq!(collected.len(), direct.len());
    assert_eq!(collected.len(), 4);
    assert_fragment(&collected[0], "one");
    assert_fragment(&collected[1], "two");
    assert_fragment(&collected[2], "three");
    assert!(matches!(collected[3], StreamEvent::Done));
}

#[test]
fn test_conduit_backpressure_bound() {
    let mut conduit = Conduit::new(2);
    assert!(conduit
        .try_push(StreamEvent::Fragment("a".to_string()))
        .is_ok());
    assert!(conduit
        .try_push(StreamEvent::Fragment("b".to_string()))
        .is_ok());
    // The consumer never reads: the third offer is refused, and the
    // buffer stays at its bound.
    let refused = conduit.try_push(StreamEvent::Fragment("c".to_string()));
    match refused {
        Err(StreamEvent::Fragment(c)) => assert_eq!(c, "c"),
        _ => panic!("expected the full conduit to hand the event back"),
    }
    assert_eq!(conduit.len(), 2);
}

#[test]
fn test_conduit_keeps_order() {
    let mut conduit = Conduit::new(8);
    conduit
        .try_push(StreamEvent::Fragment("first".to_string()))
        .unwrap();
    conduit
        .try_push(StreamEvent::Fragment("second".to_string()))
        .unwrap();
    conduit.try_push(StreamEvent::Done).unwrap();
    match conduit.pop() {
        Some(StreamEvent::Fragment(c)) => assert_eq!(c, "first"),
        _ => panic!("expected the oldest event first"),
    }
    match conduit.pop() {
        Some(StreamEvent::Fragment(c)) => assert_eq!(c, "second"),
        _ => panic!("expected arrival order to be kept"),
    }
    assert!(matches!(conduit.pop(), Some(StreamEvent::Done)));
    assert!(conduit.pop().is_none());
}

#[test]
fn test_sse_event_rendering() {
    let fragment = to_sse_event(&StreamEvent::Fragment("hi".to_string()));
    assert_eq!(fragment.event, "message");
    assert_eq!(fragment.data, "hi");

    let error = to_sse_event(&StreamEvent::Error("bad".to_string()));
    assert_eq!(error.event, "error");
    assert_eq!(error.data, "bad");

    let done = to_sse_event(&StreamEvent::Done);
    assert_eq!(done.event, "done");
    assert_eq!(done.data, "");
}

use sidecar_supervisor::coordinator::SupervisorSlot;
use sidecar_supervisor::heartbeat::Heartbeat;
use sidecar_supervisor::heartbeat::HeartbeatAction;
use sidecar_supervisor::heartbeat::LinkState;
use sidecar_supervisor::launcher::collect_forwarded;
use sidecar_supervisor::launcher::forward_one;
use sidecar_supervisor::launcher::OutputEvent;
use sidecar_supervisor::prober::ProbeDecision;
use sidecar_supervisor::prober::Prober;

#[test]
fn probe_decision_tracks_outcome() {
    let mut p = Prober::new(250);
    assert_eq!(p.on_probe(false), ProbeDecision::RetryAfter(250));
    assert!(!p.ready);
    assert_eq!(p.failed_attempts, 1);
    assert_eq!(p.on_probe(true), ProbeDecision::Ready);
    assert!(p.ready);
}

#[test]
fn heartbeat_keeps_cadence_until_severed() {
    let mut h = Heartbeat::new(500);
    assert_eq!(h.on_connect(true), HeartbeatAction::WriteAfter(500));
    for beat in 1..=3u64 {
        assert_eq!(h.on_write(true), HeartbeatAction::WriteAfter(500));
        assert_eq!(h.beats, beat);
        assert!(matches!(h.link, LinkState::Connected));
    }
    // Severing the connection makes the next write fail; the task stops and
    // never retries.
    assert_eq!(h.on_write(false), HeartbeatAction::Stop);
    assert!(matches!(h.link, LinkState::Broken));
    assert_eq!(h.beats, 3);
}

#[test]
fn heartbeat_retries_connect_while_endpoint_absent() {
    let mut h = Heartbeat::new(200);
    for attempt in 1..=4u64 {
        assert_eq!(h.on_connect(false), HeartbeatAction::RetryConnectAfter(200));
        assert_eq!(h.failed_connects, attempt);
        assert!(matches!(h.link, LinkState::Connecting));
    }
    assert_eq!(h.on_connect(true), HeartbeatAction::WriteAfter(200));
    assert!(matches!(h.link, LinkState::Connected));
}

#[test]
fn stdout_lines_forwarded_verbatim() {
    let evs = vec![
        OutputEvent::StdoutLine(String::from("listening on 4000")),
        OutputEvent::OtherEvent,
        OutputEvent::StdoutLine(String::from("request handled")),
        OutputEvent::OtherEvent,
    ];
    let out = collect_forwarded(&evs);
    assert_eq!(out.len(), 2);
    assert_eq!(out[0], "listening on 4000");
    assert_eq!(out[1], "request handled");
}

#[test]
fn forwarding_drops_other_events() {
    assert_eq!(forward_one(&OutputEvent::OtherEvent), None);
    let line = OutputEvent::StdoutLine(String::from("ready"));
    assert_eq!(forward_one(&line), Some(String::from("ready")));
}

#[test]
fn empty_stream_forwards_nothing() {
    let evs: Vec<OutputEvent> = Vec::new();
    let out = collect_forwarded(&evs);
    assert!(out.is_empty());
}

#[test]
fn take_from_empty_slot_is_noop() {
    let mut slot = SupervisorSlot::new();
    assert_eq!(slot.try_take(), None);
    assert!(!slot.torn_down);
    assert_eq!(slot.try_take(), None);
}

use sidecar_supervisor::coordinator::ChildProcess;
use sidecar_supervisor::coordinator::Liveness;
use sidecar_supervisor::coordinator::TermAction;
use sidecar_supervisor::coordinator::TermOutcome;
use sidecar_supervisor::coordinator::Termination;
use sidecar_supervisor::heartbeat::Heartbeat;
use sidecar_supervisor::heartbeat::HeartbeatAction;
use sidecar_supervisor::prober::ProbeDecision;
use sidecar_supervisor::prober::Prober;
use sidecar_supervisor::supervisor::StartupPhase;
use sidecar_supervisor::supervisor::Supervisor;

#[test]
fn spawn_failure_aborts_startup() {
    let mut s = Supervisor::new();
    let fatal = s.on_spawn(None);
    assert!(fatal);
    assert!(matches!(s.phase, StartupPhase::Aborted));
    assert!(!s.heartbeat_started);
    assert!(!s.triggers_registered);
    assert!(s.slot.child.is_none());
}

#[test]
fn normal_run_graceful_shutdown() {
    let child = ChildProcess { pid: Some(4242), liveness: Liveness::Running };
    let mut s = Supervisor::new();
    let fatal = s.on_spawn(Some(child));
    assert!(!fatal);
    assert!(matches!(s.phase, StartupPhase::Spawned));

    // Readiness succeeds after 3 failed probe attempts.
    let mut p = Prober::new(1000);
    for _ in 0..3 {
        assert_eq!(p.on_probe(false), ProbeDecision::RetryAfter(1000));
    }
    assert_eq!(p.on_probe(true), ProbeDecision::Ready);
    assert_eq!(p.failed_attempts, 3);
    s.on_ready();

    // Heartbeat connects after 2 failed attempts.
    let mut h = Heartbeat::new(500);
    for _ in 0..2 {
        assert_eq!(h.on_connect(false), HeartbeatAction::RetryConnectAfter(500));
    }
    assert_eq!(h.on_connect(true), HeartbeatAction::WriteAfter(500));
    assert_eq!(h.failed_connects, 2);
    s.on_setup_complete();
    assert!(s.heartbeat_started);
    assert!(s.triggers_registered);

    // Window-close fires once: the trigger takes the child and runs the
    // termination protocol.
    let taken = s.request_shutdown();
    assert_eq!(taken, Some(child));

    let (mut t, first) = Termination::begin(Some(4242), 2000, 100);
    assert_eq!(first, TermAction::SignalGraceful(4242));
    // The child exits 50 ms after the signal, well within the grace window:
    // the first liveness poll already finds it gone.
    let a = t.on_poll(false);
    assert_eq!(a, TermAction::Finished);
    assert!(t.finished());
    assert_eq!(t.outcome, Some(TermOutcome::Graceful));
    assert!(!t.forced);
}

#[test]
fn unresponsive_child_forced_once() {
    let (mut t, first) = Termination::begin(Some(7), 2000, 100);
    assert_eq!(first, TermAction::SignalGraceful(7));
    let mut force_kills: u32 = 0;
    let mut polls: u32 = 0;
    loop {
        let a = t.on_poll(true);
        polls += 1;
        match a {
            TermAction::PollAfter(ms) => {
                assert_eq!(ms, 100);
                // Never a kill while the window has not been waited out.
                assert!(t.elapsed_ms <= 2000);
            }
            TermAction::ForceKill => {
                force_kills += 1;
                break;
            }
            _ => panic!("unexpected action while the child stays alive"),
        }
        assert!(polls < 1000, "the protocol must decide within the window");
    }
    assert_eq!(force_kills, 1);
    // The kill came only once the full 2000 ms grace window had been waited:
    // 20 polls of 100 ms each, then the 21st observation triggers the kill.
    assert_eq!(polls, 21);
    assert_eq!(t.elapsed_ms, 2000);
    assert!(t.finished());
    assert_eq!(t.outcome, Some(TermOutcome::Forced));
    assert!(t.forced);
}

#[test]
fn double_trigger_single_signal() {
    let child = ChildProcess { pid: Some(9), liveness: Liveness::Running };
    let mut s = Supervisor::new();
    assert!(!s.on_spawn(Some(child)));
    s.on_ready();
    s.on_setup_complete();

    // Menu-quit and window-close fire within the same millisecond; the lock
    // serialises them in some order.
    let first = s.request_shutdown();
    let second = s.request_shutdown();
    assert_eq!(first, Some(child));
    assert_eq!(second, None);
    assert!(s.slot.torn_down);
}

#[test]
fn many_triggers_only_first_acts() {
    let child = ChildProcess { pid: None, liveness: Liveness::Unknown };
    let mut s = Supervisor::new();
    assert!(!s.on_spawn(Some(child)));
    s.on_ready();
    s.on_setup_complete();

    let mut took: u32 = 0;
    for _ in 0..5 {
        if s.request_shutdown().is_some() {
            took += 1;
        }
    }
    assert_eq!(took, 1);
}

#[test]
fn missing_pid_degrades_to_forced_kill() {
    let (t, first) = Termination::begin(None, 2000, 100);
    assert_eq!(first, TermAction::ForceKill);
    assert!(t.finished());
    assert_eq!(t.outcome, Some(TermOutcome::Forced));
    assert!(t.forced);
    assert!(!t.graceful_sent);
}

#[test]
fn grace_window_boundary_poll_then_kill() {
    // A window of exactly one poll interval: one in-window poll, then the
    // kill on the next observation.
    let (mut t, _) = Termination::begin(Some(1), 100, 100);
    assert_eq!(t.on_poll(true), TermAction::PollAfter(100));
    assert_eq!(t.on_poll(true), TermAction::ForceKill);
    assert_eq!(t.outcome, Some(TermOutcome::Forced));
}

#[test]
fn exit_at_window_edge_still_graceful() {
    let (mut t, _) = Termination::begin(Some(1), 100, 100);
    assert_eq!(t.on_poll(true), TermAction::PollAfter(100));
    // The child is gone by the time the window has fully elapsed: graceful,
    // no kill.
    assert_eq!(t.on_poll(false), TermAction::Finished);
    assert_eq!(t.outcome, Some(TermOutcome::Graceful));
    assert!(!t.forced);
}

//! Heartbeat emitter: the dead-man switch that lets the child detect a
//! vanished supervisor.
//!
//! A dedicated background task connects to the child's local liveness
//! endpoint, retrying at the configured interval while the endpoint does not
//! exist yet, and once connected writes one marker byte per interval,
//! indefinitely.  The first failed write ends the task silently: a severed
//! link is the intended signal, not an error, and the emitter never
//! reconnects.

use vstd::prelude::*;

verus! {

/// State of the link to the child's liveness endpoint.
#[derive(Clone, Copy, Debug, PartialEq, Eq)]
pub enum LinkState {
    /// Not connected yet; the endpoint may not exist yet.
    Connecting,
    /// Connected; a marker byte is written every interval.
    Connected,
    /// A write failed: the link is gone and the task has stopped for good.
    Broken,
}

/// What the heartbeat task must do next.
#[derive(Clone, Copy, Debug, PartialEq, Eq)]
pub enum HeartbeatAction {
    /// Sleep this many milliseconds, then try to connect again.
    RetryConnectAfter(u64),
    /// Sleep this many milliseconds, then write one marker byte.
    WriteAfter(u64),
    /// Stop the task; its silence is the signal to the child.
    Stop,
}

/// State of one heartbeat task.
#[derive(Clone, Copy, Debug)]
pub struct Heartbeat {
    /// Milliseconds between connection retries and between marker writes.
    pub interval_ms: u64,
    pub link: LinkState,
    /// Connection attempts that failed so far (saturating).
    pub failed_connects: u64,
    /// Marker bytes written successfully so far (saturating).
    pub beats: u64,
}

/// The emitter after the outcome of one marker write.
pub open spec fn spec_write(h: Heartbeat, ok: bool) -> Heartbeat {
    if !(h.link is Connected) {
        h
    } else if ok {
        (Heartbeat {
            beats: if h.beats < u64::MAX {
                (h.beats + 1) as u64
            } else {
                u64::MAX
            },
            ..h
        })
    } else {
        (Heartbeat { link: LinkState::Broken, ..h })
    }
}

/// The action the emitter asks for on the outcome of one marker write.
pub open spec fn spec_write_action(h: Heartbeat, ok: bool) -> HeartbeatAction {
    if !(h.link is Connected) {
        HeartbeatAction::Stop
    } else if ok {
        HeartbeatAction::WriteAfter(h.interval_ms)
    } else {
        HeartbeatAction::Stop
    }
}

/// The emitter after a whole sequence of write outcomes.
pub open spec fn run_writes(h: Heartbeat, oks: Seq<bool>) -> Heartbeat
    decreases oks.len(),
{
    if oks.len() == 0 {
        h
    } else {
        run_writes(spec_write(h, oks[0]), oks.drop_first())
    }
}

impl Heartbeat {
    /// A fresh emitter for an endpoint probed and beaten every `interval_ms`
    /// milliseconds.
    pub fn new(interval_ms: u64) -> (h: Heartbeat)
        ensures
            h.interval_ms == interval_ms,
            h.link is Connecting,
            h.failed_connects == 0,
            h.beats == 0,
    {
        Heartbeat {
            interval_ms,
            link: LinkState::Connecting,
            failed_connects: 0,
            beats: 0,
        }
    }

    /// Feed the outcome of one connection attempt.  While the child has not
    /// set its endpoint up yet the emitter retries at the configured
    /// interval, without bound; a successful connect starts the beat.
    pub fn on_connect(&mut self, ok: bool) -> (a: HeartbeatAction)
        requires
            old(self).link is Connecting,
        ensures
            final(self).interval_ms == old(self).interval_ms,
            final(self).beats == old(self).beats,
            ok ==> final(self).link is Connected && a == HeartbeatAction::WriteAfter(
                old(self).interval_ms,
            ) && final(self).failed_connects == old(self).failed_connects,
            !ok ==> final(self).link is Connecting && a == HeartbeatAction::RetryConnectAfter(
                old(self).interval_ms,
            ),
    {
        if ok {
            self.link = LinkState::Connected;
            HeartbeatAction::WriteAfter(self.interval_ms)
        } else {
            if self.failed_connects < u64::MAX {
                self.failed_connects = self.failed_connects + 1;
            }
            HeartbeatAction::RetryConnectAfter(self.interval_ms)
        }
    }

    /// Feed the outcome of one marker write, made one interval after the
    /// last.  A successful write keeps the beat going at the same cadence; a
    /// failed write means the link is severed, and the task stops without
    /// retrying.
    pub fn on_write(&mut self, ok: bool) -> (a: HeartbeatAction)
        requires
            old(self).link is Connected,
        ensures
            *final(self) == spec_write(*old(self), ok),
            a == spec_write_action(*old(self), ok),
            final(self).interval_ms == old(self).interval_ms,
            ok ==> final(self).link is Connected && a == HeartbeatAction::WriteAfter(
                old(self).interval_ms,
            ),
            !ok ==> final(self).link is Broken && a == HeartbeatAction::Stop,
    {
        if ok {
            if self.beats < u64::MAX {
                self.beats = self.beats + 1;
            }
            HeartbeatAction::WriteAfter(self.interval_ms)
        } else {
            self.link = LinkState::Broken;
            HeartbeatAction::Stop
        }
    }
}

/// A broken link stays broken: no write outcome changes the emitter again,
/// and the only action it ever asks for is to stop.
pub proof fn lemma_broken_stays(h: Heartbeat, oks: Seq<bool>)
    requires
        h.link is Broken,
    ensures
        run_writes(h, oks) == h,
        forall|i: int| 0 <= i < oks.len() ==> spec_write_action(
            run_writes(h, oks.take(i)),
            oks[i],
        ) == HeartbeatAction::Stop,
    decreases oks.len(),
{
    lemma_stalled_stays(h, oks);
}

proof fn lemma_stalled_stays(h: Heartbeat, oks: Seq<bool>)
    requires
        !(h.link is Connected),
    ensures
        run_writes(h, oks) == h,
        forall|i: int| 0 <= i < oks.len() ==> spec_write_action(
            run_writes(h, oks.take(i)),
            oks[i],
        ) == HeartbeatAction::Stop,
    decreases oks.len(),
{
    if oks.len() > 0 {
        assert(oks.drop_first() == oks.subrange(1, oks.len() as int));
        lemma_stalled_stays(h, oks.drop_first());
        assert forall|i: int|
            0 <= i < oks.len() implies spec_write_action(run_writes(h, oks.take(i)), oks[i])
            == HeartbeatAction::Stop by {
            lemma_run_take(h, oks, i);
            if i > 0 {
                let d = oks.drop_first();
                assert(spec_write(h, oks[0]) == h);
                assert(run_writes(h, oks.take(i)) == run_writes(h, d.take(i - 1)));
                assert(d[i - 1] == oks[i]);
                assert(spec_write_action(run_writes(h, d.take(i - 1)), d[i - 1])
                    == HeartbeatAction::Stop);
            }
        }
    }
}

/// Splitting a run after its first `i` outcomes.
proof fn lemma_run_take(h: Heartbeat, oks: Seq<bool>, i: int)
    requires
        0 <= i <= oks.len(),
    ensures
        run_writes(h, oks.take(i)) == (if i == 0 {
            h
        } else {
            run_writes(spec_write(h, oks[0]), oks.drop_first().take(i - 1))
        }),
    decreases i,
{
    if i > 0 {
        assert(oks.take(i).drop_first() =~= oks.drop_first().take(i - 1));
        assert(run_writes(h, oks.take(i)) == run_writes(
            spec_write(h, oks[0]),
            oks.take(i).drop_first(),
        ));
    }
}

/// Cadence law: once connected, the emitter writes at the configured
/// interval until the first failed write and not a moment longer.  For a
/// sequence of write outcomes whose first failure is at position `i`, every
/// earlier outcome leaves the link up and schedules the next write one
/// interval later; the failure itself breaks the link, stops the task, and
/// every later outcome is ignored with no retry.
pub proof fn lemma_heartbeat_cadence(h: Heartbeat, oks: Seq<bool>, i: int)
    requires
        h.link is Connected,
        0 <= i < oks.len(),
        !oks[i],
        forall|k: int| 0 <= k < i ==> oks[k],
    ensures
        forall|k: int| 0 <= k < i ==> run_writes(h, oks.take(k)).link is Connected,
        forall|k: int| 0 <= k < i ==> spec_write_action(run_writes(h, oks.take(k)), oks[k])
            == HeartbeatAction::WriteAfter(h.interval_ms),
        spec_write_action(run_writes(h, oks.take(i)), oks[i]) == HeartbeatAction::Stop,
        run_writes(h, oks).link is Broken,
        run_writes(h, oks).interval_ms == h.interval_ms,
        forall|k: int| i < k < oks.len() ==> spec_write_action(
            run_writes(h, oks.take(k)),
            oks[k],
        ) == HeartbeatAction::Stop,
    decreases i,
{
    lemma_connected_prefix(h, oks, i);
    let hb = spec_write(run_writes(h, oks.take(i)), oks[i]);
    assert(hb.link is Broken);
    assert(run_writes(h, oks.take(i + 1)) == hb) by {
        lemma_run_snoc(h, oks, i);
    }
    lemma_broken_stays(hb, oks.skip(i + 1));
    assert(run_writes(h, oks) == hb) by {
        lemma_run_split(h, oks, i + 1);
        assert(run_writes(hb, oks.skip(i + 1)) == hb);
    }
    assert forall|k: int| i < k < oks.len() implies spec_write_action(
        run_writes(h, oks.take(k)),
        oks[k],
    ) == HeartbeatAction::Stop by {
        lemma_run_split(h, oks.take(k), i + 1);
        assert(oks.take(k).take(i + 1) =~= oks.take(i + 1));
        assert(run_writes(h, oks.take(k)) == run_writes(hb, oks.take(k).skip(i + 1)));
        lemma_broken_stays(hb, oks.take(k).skip(i + 1));
    }
}

/// While every write succeeds, the emitter stays connected, keeps its
/// cadence, and counts one beat per write.
proof fn lemma_connected_prefix(h: Heartbeat, oks: Seq<bool>, i: int)
    requires
        h.link is Connected,
        0 <= i <= oks.len(),
        forall|k: int| 0 <= k < i ==> oks[k],
    ensures
        forall|k: int| 0 <= k <= i ==> run_writes(h, oks.take(k)).link is Connected,
        forall|k: int| 0 <= k <= i ==> run_writes(h, oks.take(k)).interval_ms == h.interval_ms,
        forall|k: int| 0 <= k < i ==> spec_write_action(run_writes(h, oks.take(k)), oks[k])
            == HeartbeatAction::WriteAfter(h.interval_ms),
    decreases i,
{
    if i == 0 {
        assert(oks.take(0) =~= Seq::<bool>::empty());
        assert(run_writes(h, oks.take(0)) == h);
    } else {
        lemma_connected_prefix(h, oks, i - 1);
        lemma_run_snoc(h, oks, i - 1);
        assert(run_writes(h, oks.take(i)) == spec_write(run_writes(h, oks.take(i - 1)), oks[
            i - 1]));
    }
}

/// A run over `i + 1` outcomes is the run over the first `i` followed by one
/// step.
proof fn lemma_run_snoc(h: Heartbeat, oks: Seq<bool>, i: int)
    requires
        0 <= i < oks.len(),
    ensures
        run_writes(h, oks.take(i + 1)) == spec_write(run_writes(h, oks.take(i)), oks[i]),
    decreases i,
{
    if i == 0 {
        assert(oks.take(1).drop_first() =~= Seq::<bool>::empty());
        assert(oks.take(0) =~= Seq::<bool>::empty());
        assert(run_writes(h, oks.take(0)) == h);
        assert(oks.take(1).len() == 1 && oks.take(1)[0] == oks[0]);
        assert(run_writes(h, oks.take(1)) == run_writes(
            spec_write(h, oks[0]),
            oks.take(1).drop_first(),
        ));
        assert(run_writes(spec_write(h, oks[0]), Seq::<bool>::empty()) == spec_write(h, oks[0]));
    } else {
        let h1 = spec_write(h, oks[0]);
        let d = oks.drop_first();
        lemma_run_snoc(h1, d, i - 1);
        lemma_run_take(h, oks, i + 1);
        lemma_run_take(h, oks, i);
        assert(d[i - 1] == oks[i]);
        assert(run_writes(h, oks.take(i + 1)) == run_writes(h1, d.take(i)));
        assert(run_writes(h, oks.take(i)) == run_writes(h1, d.take(i - 1)));
        assert(run_writes(h1, d.take(i)) == spec_write(run_writes(h1, d.take(i - 1)), d[i - 1]));
    }
}

/// A run splits at any point: running the whole sequence equals running a
/// prefix, then the rest from the state the prefix reached.
proof fn lemma_run_split(h: Heartbeat, oks: Seq<bool>, i: int)
    requires
        0 <= i <= oks.len(),
    ensures
        run_writes(h, oks) == run_writes(run_writes(h, oks.take(i)), oks.skip(i)),
    decreases i,
{
    if i == 0 {
        assert(oks.take(0) =~= Seq::<bool>::empty());
        assert(oks.skip(0) =~= oks);
    } else {
        lemma_run_split(spec_write(h, oks[0]), oks.drop_first(), i - 1);
        lemma_run_take(h, oks, i);
        assert(oks.drop_first().take(i - 1) =~= oks.take(i).drop_first());
        assert(oks.drop_first().skip(i - 1) =~= oks.skip(i));
        assert(run_writes(h, oks) == run_writes(spec_write(h, oks[0]), oks.drop_first()));
    }
}

} // verus!

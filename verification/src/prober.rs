//! Readiness prober: decides, from the outcome of each TCP probe, whether the
//! startup path may proceed or must sleep and probe again.
//!
//! The prober is a pure function of (probe outcome, retry interval): the wait
//! finishes exactly when a probe really connected, and every failed probe
//! costs one full retry interval of sleep, so a server that starts accepting
//! after some delay keeps the wait blocked at least that long.

use vstd::prelude::*;

verus! {

/// What the startup path must do after one readiness probe.
#[derive(Clone, Copy, Debug, PartialEq, Eq)]
pub enum ProbeDecision {
    /// The probe connected: the endpoint is ready, the wait returns.
    Ready,
    /// The probe failed: sleep this many milliseconds, then probe again.
    RetryAfter(u64),
}

/// State of one readiness wait.
#[derive(Clone, Copy, Debug)]
pub struct Prober {
    /// Milliseconds slept between two probes.
    pub interval_ms: u64,
    /// Probes attempted so far that failed (saturating).
    pub failed_attempts: u64,
    /// Whether a probe has succeeded, i.e. the wait has returned.
    pub ready: bool,
}

/// One step of the readiness wait, as a function of the probe's outcome.
pub open spec fn spec_probe(p: Prober, connected: bool) -> Prober {
    if p.ready {
        p
    } else if connected {
        (Prober { ready: true, ..p })
    } else {
        (Prober {
            failed_attempts: if p.failed_attempts < u64::MAX {
                (p.failed_attempts + 1) as u64
            } else {
                u64::MAX
            },
            ..p
        })
    }
}

/// The decision the wait takes on one probe outcome.
pub open spec fn spec_probe_decision(p: Prober, connected: bool) -> ProbeDecision {
    if connected {
        ProbeDecision::Ready
    } else {
        ProbeDecision::RetryAfter(p.interval_ms)
    }
}

/// The state after feeding a whole sequence of probe outcomes.
pub open spec fn run_probes(p: Prober, outcomes: Seq<bool>) -> Prober
    decreases outcomes.len(),
{
    if outcomes.len() == 0 {
        p
    } else {
        run_probes(spec_probe(p, outcomes[0]), outcomes.drop_first())
    }
}

impl Prober {
    /// A fresh wait on an endpoint probed every `interval_ms` milliseconds.
    pub fn new(interval_ms: u64) -> (p: Prober)
        ensures
            p.interval_ms == interval_ms,
            p.failed_attempts == 0,
            !p.ready,
    {
        Prober { interval_ms, failed_attempts: 0, ready: false }
    }

    /// Feed the outcome of one probe.  The wait returns `Ready` exactly when
    /// the probe connected; on failure the caller must sleep the configured
    /// interval and probe again, with no bound on the number of attempts.
    pub fn on_probe(&mut self, connected: bool) -> (d: ProbeDecision)
        requires
            !old(self).ready,
        ensures
            *final(self) == spec_probe(*old(self), connected),
            final(self).ready == connected,
            final(self).interval_ms == old(self).interval_ms,
            d == spec_probe_decision(*old(self), connected),
    {
        if connected {
            self.ready = true;
            ProbeDecision::Ready
        } else {
            if self.failed_attempts < u64::MAX {
                self.failed_attempts = self.failed_attempts + 1;
            }
            ProbeDecision::RetryAfter(self.interval_ms)
        }
    }
}

/// The readiness wait never returns before a real probe has succeeded: after
/// any sequence of probe outcomes, the wait has returned if and only if some
/// probe in the sequence connected.  In particular, while a delayed server
/// rejects every probe, the wait is still blocked and has slept one retry
/// interval per failed probe.
pub proof fn lemma_wait_blocks_until_success(p: Prober, outcomes: Seq<bool>)
    requires
        !p.ready,
    ensures
        run_probes(p, outcomes).ready <==> (exists|i: int|
            0 <= i < outcomes.len() && outcomes[i]),
    decreases outcomes.len(),
{
    if outcomes.len() > 0 {
        let p1 = spec_probe(p, outcomes[0]);
        if outcomes[0] {
            lemma_ready_stays(p1, outcomes.drop_first());
        } else {
            lemma_wait_blocks_until_success(p1, outcomes.drop_first());
            if run_probes(p, outcomes).ready {
                let i = choose|i: int|
                    0 <= i < outcomes.drop_first().len() && outcomes.drop_first()[i];
                assert(outcomes[i + 1]);
            } else {
                assert(forall|i: int| 0 <= i < outcomes.len() ==> !outcomes[i]) by {
                    assert(forall|i: int|
                        1 <= i < outcomes.len() ==> outcomes[i] == outcomes.drop_first()[
                        i - 1]);
                }
            }
        }
    }
}

/// While every probe fails, the wait only ever decides to sleep one full
/// retry interval and probe again: a server that starts accepting
/// connections only after some delay keeps the wait blocked at least that
/// long, one interval per failed probe.
pub proof fn lemma_failed_probes_cost_full_intervals(p: Prober, outcomes: Seq<bool>, i: int)
    requires
        !p.ready,
        0 <= i <= outcomes.len(),
        forall|k: int| 0 <= k < i ==> !outcomes[k],
    ensures
        forall|k: int| 0 <= k < i ==> spec_probe_decision(
            run_probes(p, outcomes.take(k)),
            outcomes[k],
        ) == ProbeDecision::RetryAfter(p.interval_ms),
{
    assert forall|k: int| 0 <= k < i implies spec_probe_decision(
        run_probes(p, outcomes.take(k)),
        outcomes[k],
    ) == ProbeDecision::RetryAfter(p.interval_ms) by {
        lemma_failed_prefix_state(p, outcomes, k);
    }
}

/// After a prefix of failed probes the wait is still blocked, with its
/// retry interval unchanged.
proof fn lemma_failed_prefix_state(p: Prober, outcomes: Seq<bool>, i: int)
    requires
        !p.ready,
        0 <= i <= outcomes.len(),
        forall|k: int| 0 <= k < i ==> !outcomes[k],
    ensures
        !run_probes(p, outcomes.take(i)).ready,
        run_probes(p, outcomes.take(i)).interval_ms == p.interval_ms,
    decreases i,
{
    if i == 0 {
        assert(outcomes.take(0).len() == 0);
    } else {
        lemma_failed_prefix_state(p, outcomes, i - 1);
        lemma_probe_run_snoc(p, outcomes, i - 1);
    }
}

/// A run over `i + 1` outcomes is the run over the first `i` followed by
/// one step.
proof fn lemma_probe_run_snoc(p: Prober, outcomes: Seq<bool>, i: int)
    requires
        0 <= i < outcomes.len(),
    ensures
        run_probes(p, outcomes.take(i + 1)) == spec_probe(
            run_probes(p, outcomes.take(i)),
            outcomes[i],
        ),
    decreases i,
{
    if i == 0 {
        assert(outcomes.take(1).drop_first() =~= Seq::<bool>::empty());
        assert(outcomes.take(0) =~= Seq::<bool>::empty());
        assert(run_probes(p, outcomes.take(0)) == p);
        assert(outcomes.take(1).len() == 1 && outcomes.take(1)[0] == outcomes[0]);
        assert(run_probes(p, outcomes.take(1)) == run_probes(
            spec_probe(p, outcomes[0]),
            outcomes.take(1).drop_first(),
        ));
        assert(run_probes(spec_probe(p, outcomes[0]), Seq::<bool>::empty()) == spec_probe(
            p,
            outcomes[0],
        ));
    } else {
        let p1 = spec_probe(p, outcomes[0]);
        let d = outcomes.drop_first();
        lemma_probe_run_snoc(p1, d, i - 1);
        assert(outcomes.take(i + 1).drop_first() =~= d.take(i));
        assert(outcomes.take(i).drop_first() =~= d.take(i - 1));
        assert(d[i - 1] == outcomes[i]);
        assert(outcomes.take(i + 1)[0] == outcomes[0]);
        assert(outcomes.take(i)[0] == outcomes[0]);
        assert(run_probes(p, outcomes.take(i + 1)) == run_probes(p1, d.take(i)));
        assert(run_probes(p, outcomes.take(i)) == run_probes(p1, d.take(i - 1)));
    }
}

/// Once the wait has returned, further probe outcomes change nothing.
pub proof fn lemma_ready_stays(p: Prober, outcomes: Seq<bool>)
    requires
        p.ready,
    ensures
        run_probes(p, outcomes) == p,
    decreases outcomes.len(),
{
    if outcomes.len() > 0 {
        lemma_ready_stays(p, outcomes.drop_first());
    }
}

} // verus!

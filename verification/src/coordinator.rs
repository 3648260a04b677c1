//! Shutdown coordinator: the guarded child-process slot and the
//! graceful-then-forceful termination protocol.
//!
//! The slot holds at most one child process and supports one atomic
//! "check-and-take" operation, performed by the caller while it holds the
//! process-wide lock.  The first shutdown trigger to find the slot occupied
//! takes the child out and runs the termination protocol; every other
//! trigger, concurrent or later, observes an empty slot and is a no-op, so
//! the protocol's irreversible actions run exactly once per process lifetime.

use vstd::prelude::*;

verus! {

/// Liveness of the supervised child, as last observed.
#[derive(Clone, Copy, Debug, PartialEq, Eq)]
pub enum Liveness {
    Unknown,
    Running,
    Terminated,
}

/// The spawned subprocess: its identifier, if the platform reported one, and
/// its last observed liveness.  The exclusive handle that signals, kills and
/// reaps the real process stays with the application; a value of this type
/// stands for that handle in the slot, owned by exactly one holder at a time.
#[derive(Clone, Copy, Debug, PartialEq, Eq)]
pub struct ChildProcess {
    /// Process identifier, assigned at spawn and immutable.  Absent when the
    /// platform could not report one; shutdown then degrades straight to a
    /// forced termination through the handle.
    pub pid: Option<u32>,
    pub liveness: Liveness,
}

/// The process-wide slot holding at most one child, accessed under mutual
/// exclusion.  `torn_down` records that a teardown has taken the child out:
/// from then on the slot is permanently empty.
#[derive(Clone, Copy, Debug)]
pub struct SupervisorSlot {
    pub child: Option<ChildProcess>,
    pub torn_down: bool,
}

/// The slot after one trigger's check-and-take.
pub open spec fn spec_take(s: SupervisorSlot) -> SupervisorSlot {
    if s.child is Some {
        (SupervisorSlot { child: None, torn_down: true })
    } else {
        s
    }
}

/// What the k-th of `n` successive triggers receives from the slot: element k
/// of this sequence is the child taken by trigger k, or `None` for a no-op.
pub open spec fn trigger_results(s: SupervisorSlot, n: nat) -> Seq<Option<ChildProcess>>
    decreases n,
{
    if n == 0 {
        Seq::empty()
    } else {
        seq![s.child] + trigger_results(spec_take(s), (n - 1) as nat)
    }
}

impl SupervisorSlot {
    /// A slot is well formed when a finished teardown has left it empty for
    /// good.
    pub open spec fn wf(self) -> bool {
        self.torn_down ==> self.child is None
    }

    /// The empty slot the supervisor starts with.
    pub fn new() -> (s: SupervisorSlot)
        ensures
            s.child is None,
            !s.torn_down,
            s.wf(),
    {
        SupervisorSlot { child: None, torn_down: false }
    }

    /// Move the freshly spawned child into the slot.  The launcher fills the
    /// slot exactly once, before any teardown.
    pub fn install(&mut self, c: ChildProcess)
        requires
            old(self).child is None,
            !old(self).torn_down,
        ensures
            final(self).child == Some(c),
            !final(self).torn_down,
            final(self).wf(),
    {
        self.child = Some(c);
    }

    /// One trigger's check-and-take, to be performed with the slot's lock
    /// held.  The first trigger to find the slot occupied receives the child
    /// and leaves the slot permanently empty; every later trigger receives
    /// `None` and changes nothing.
    pub fn try_take(&mut self) -> (r: Option<ChildProcess>)
        ensures
            r == old(self).child,
            *final(self) == spec_take(*old(self)),
            final(self).child is None,
            old(self).wf() ==> final(self).wf(),
    {
        let r = self.child.take();
        if r.is_some() {
            self.torn_down = true;
        }
        r
    }
}

/// Exactly-once law: however many shutdown triggers fire, in whatever order
/// the lock serialises them, only the first finds the child; triggers 2..n
/// all observe an empty slot and are no-ops.
pub proof fn lemma_triggers_exactly_once(s: SupervisorSlot, c: ChildProcess, n: nat)
    requires
        s.child == Some(c),
        n >= 1,
    ensures
        trigger_results(s, n).len() == n,
        trigger_results(s, n)[0] == Some(c),
        forall|k: int| 1 <= k < n ==> trigger_results(s, n)[k] is None,
{
    lemma_trigger_results_len(s, n);
    let s1 = spec_take(s);
    lemma_trigger_results_len(s1, (n - 1) as nat);
    lemma_empty_slot_all_noops(s1, (n - 1) as nat);
    assert forall|k: int| 1 <= k < n implies trigger_results(s, n)[k] is None by {
        assert(trigger_results(s, n)[k] == trigger_results(s1, (n - 1) as nat)[k - 1]);
    }
}

/// Every trigger on an empty slot is a no-op.
pub proof fn lemma_empty_slot_all_noops(s: SupervisorSlot, n: nat)
    requires
        s.child is None,
    ensures
        trigger_results(s, n).len() == n,
        forall|k: int| 0 <= k < n ==> trigger_results(s, n)[k] is None,
    decreases n,
{
    if n > 0 {
        lemma_empty_slot_all_noops(spec_take(s), (n - 1) as nat);
        assert forall|k: int| 0 <= k < n implies trigger_results(s, n)[k] is None by {
            if k >= 1 {
                assert(trigger_results(s, n)[k] == trigger_results(
                    spec_take(s),
                    (n - 1) as nat,
                )[k - 1]);
            }
        }
    }
}

proof fn lemma_trigger_results_len(s: SupervisorSlot, n: nat)
    ensures
        trigger_results(s, n).len() == n,
    decreases n,
{
    if n > 0 {
        lemma_trigger_results_len(spec_take(s), (n - 1) as nat);
    }
}

/// How graceful termination ended.
#[derive(Clone, Copy, Debug, PartialEq, Eq)]
pub enum TermOutcome {
    /// The child exited on its own within the grace window.
    Graceful,
    /// The grace window elapsed (or no pid was known) and the child was
    /// forcibly killed through the handle.
    Forced,
}

/// What the task running the protocol must do next.
#[derive(Clone, Copy, Debug, PartialEq, Eq)]
pub enum TermAction {
    /// Send the cooperative termination signal to this pid, then sleep one
    /// poll interval and feed the next liveness observation to `on_poll`.
    SignalGraceful(u32),
    /// Sleep this many milliseconds, then feed the next liveness observation
    /// to `on_poll`.
    PollAfter(u64),
    /// The grace window has fully elapsed (or no pid was known): kill the
    /// child through the exclusive handle, then report completion.
    ForceKill,
    /// Nothing is left to do but report completion.
    Finished,
}

/// Phase of one termination protocol run.
#[derive(Clone, Copy, Debug, PartialEq, Eq)]
pub enum TermPhase {
    /// Waiting for the child to exit on its own, polling its liveness.
    Polling,
    /// The protocol has decided; `outcome` says how it ended.
    Done,
}

/// One run of the graceful-then-forceful termination protocol, executed by
/// the single trigger that took the child out of the slot, outside the lock.
/// `elapsed_ms` is the time spent waiting inside the grace window so far.
#[derive(Clone, Copy, Debug)]
pub struct Termination {
    /// Length of the grace window in milliseconds.
    pub grace_ms: u64,
    /// Milliseconds between two liveness polls.
    pub poll_ms: u64,
    /// Milliseconds waited since the graceful signal was sent.
    pub elapsed_ms: u64,
    /// Whether a cooperative termination signal was sent (a pid was known).
    pub graceful_sent: bool,
    /// Whether the forced kill was issued.
    pub forced: bool,
    pub phase: TermPhase,
    /// Set exactly when the protocol is done.
    pub outcome: Option<TermOutcome>,
}

/// The protocol state after one liveness observation.
pub open spec fn spec_poll(t: Termination, alive: bool) -> Termination {
    if t.phase is Done {
        t
    } else if !alive {
        (Termination { phase: TermPhase::Done, outcome: Some(TermOutcome::Graceful), ..t })
    } else if t.elapsed_ms >= t.grace_ms {
        (Termination {
            phase: TermPhase::Done,
            outcome: Some(TermOutcome::Forced),
            forced: true,
            ..t
        })
    } else {
        (Termination { elapsed_ms: (t.elapsed_ms + t.poll_ms) as u64, ..t })
    }
}

/// The action the protocol asks for on one liveness observation.
pub open spec fn spec_poll_action(t: Termination, alive: bool) -> TermAction {
    if t.phase is Done {
        TermAction::Finished
    } else if !alive {
        TermAction::Finished
    } else if t.elapsed_ms >= t.grace_ms {
        TermAction::ForceKill
    } else {
        TermAction::PollAfter(t.poll_ms)
    }
}

/// The protocol state after a whole sequence of liveness observations.
pub open spec fn run_polls(t: Termination, polls: Seq<bool>) -> Termination
    decreases polls.len(),
{
    if polls.len() == 0 {
        t
    } else {
        run_polls(spec_poll(t, polls[0]), polls.drop_first())
    }
}

/// How many of the observations in `polls` make the protocol issue the
/// forced kill.
pub open spec fn force_count(t: Termination, polls: Seq<bool>) -> nat
    decreases polls.len(),
{
    if polls.len() == 0 {
        0
    } else {
        (if spec_poll_action(t, polls[0]) is ForceKill {
            1nat
        } else {
            0nat
        }) + force_count(spec_poll(t, polls[0]), polls.drop_first())
    }
}

impl Termination {
    /// A termination state is well formed when its bookkeeping is coherent:
    /// the waited time never runs more than one poll past the window, the
    /// outcome is present exactly when the protocol is done, the forced kill
    /// is recorded exactly when the outcome is forced, and a forced kill
    /// after a graceful signal only ever happens once the full grace window
    /// has been waited out.
    pub open spec fn wf(self) -> bool {
        &&& self.poll_ms >= 1
        &&& self.grace_ms + self.poll_ms <= u64::MAX
        &&& self.elapsed_ms < self.grace_ms + self.poll_ms
        &&& (self.phase is Done <==> self.outcome is Some)
        &&& (self.forced <==> self.outcome == Some(TermOutcome::Forced))
        &&& ((self.forced && self.graceful_sent) ==> self.elapsed_ms >= self.grace_ms)
    }

    /// Start the protocol for the child just taken from the slot.  With a
    /// known pid the cooperative signal is requested and the grace window
    /// opens; without one the protocol degrades straight to the forced kill.
    pub fn begin(pid: Option<u32>, grace_ms: u64, poll_ms: u64) -> (r: (Termination, TermAction))
        requires
            poll_ms >= 1,
            grace_ms + poll_ms <= u64::MAX,
        ensures
            r.0.wf(),
            r.0.grace_ms == grace_ms,
            r.0.poll_ms == poll_ms,
            r.0.elapsed_ms == 0,
            r.0.graceful_sent == pid is Some,
            match pid {
                Some(p) => {
                    &&& r.0.phase is Polling
                    &&& !r.0.forced
                    &&& r.0.outcome is None
                    &&& r.1 == TermAction::SignalGraceful(p)
                },
                None => {
                    &&& r.0.phase is Done
                    &&& r.0.forced
                    &&& r.0.outcome == Some(TermOutcome::Forced)
                    &&& r.1 == TermAction::ForceKill
                },
            },
    {
        match pid {
            Some(p) => (
                Termination {
                    grace_ms,
                    poll_ms,
                    elapsed_ms: 0,
                    graceful_sent: true,
                    forced: false,
                    phase: TermPhase::Polling,
                    outcome: None,
                },
                TermAction::SignalGraceful(p),
            ),
            None => (
                Termination {
                    grace_ms,
                    poll_ms,
                    elapsed_ms: 0,
                    graceful_sent: false,
                    forced: true,
                    phase: TermPhase::Done,
                    outcome: Some(TermOutcome::Forced),
                },
                TermAction::ForceKill,
            ),
        }
    }

    /// Feed one liveness observation made one poll interval after the last
    /// step.  A child seen dead ends the protocol gracefully; a child still
    /// alive once the full grace window has been waited out is forcibly
    /// killed; otherwise the protocol waits one more interval.
    pub fn on_poll(&mut self, alive: bool) -> (a: TermAction)
        requires
            old(self).phase is Polling,
            old(self).wf(),
        ensures
            *final(self) == spec_poll(*old(self), alive),
            a == spec_poll_action(*old(self), alive),
            final(self).wf(),
            !alive ==> final(self).outcome == Some(TermOutcome::Graceful) && !final(self).forced,
            final(self).forced ==> old(self).elapsed_ms >= old(self).grace_ms,
    {
        if !alive {
            self.phase = TermPhase::Done;
            self.outcome = Some(TermOutcome::Graceful);
            TermAction::Finished
        } else if self.elapsed_ms >= self.grace_ms {
            self.phase = TermPhase::Done;
            self.outcome = Some(TermOutcome::Forced);
            self.forced = true;
            TermAction::ForceKill
        } else {
            self.elapsed_ms = self.elapsed_ms + self.poll_ms;
            TermAction::PollAfter(self.poll_ms)
        }
    }

    /// Whether the protocol has decided; completion must be reported as soon
    /// as it has, whether termination was graceful or forced.
    pub fn finished(&self) -> (b: bool)
        ensures
            b == (self.phase is Done),
    {
        match self.phase {
            TermPhase::Done => true,
            TermPhase::Polling => false,
        }
    }
}

/// A done protocol stays done: further observations change nothing and ask
/// for no further irreversible action.
pub proof fn lemma_done_stable(t: Termination, polls: Seq<bool>)
    requires
        t.phase is Done,
    ensures
        run_polls(t, polls) == t,
        force_count(t, polls) == 0,
    decreases polls.len(),
{
    if polls.len() > 0 {
        lemma_done_stable(t, polls.drop_first());
    }
}

/// Each step of the protocol preserves well-formedness.
pub proof fn lemma_poll_preserves_wf(t: Termination, alive: bool)
    requires
        t.wf(),
    ensures
        spec_poll(t, alive).wf(),
{
}

/// Well-formedness holds along any run of the protocol.
pub proof fn lemma_run_preserves_wf(t: Termination, polls: Seq<bool>)
    requires
        t.wf(),
    ensures
        run_polls(t, polls).wf(),
    decreases polls.len(),
{
    if polls.len() > 0 {
        lemma_poll_preserves_wf(t, polls[0]);
        lemma_run_preserves_wf(spec_poll(t, polls[0]), polls.drop_first());
    }
}

/// The forced kill is issued at most once over any run of the protocol,
/// whatever the liveness observations are.
pub proof fn lemma_force_at_most_once(t: Termination, polls: Seq<bool>)
    ensures
        force_count(t, polls) <= 1,
    decreases polls.len(),
{
    if polls.len() > 0 {
        let t1 = spec_poll(t, polls[0]);
        if spec_poll_action(t, polls[0]) is ForceKill {
            lemma_done_stable(t1, polls.drop_first());
        } else {
            lemma_force_at_most_once(t1, polls.drop_first());
        }
    }
}

/// If the child is observed to have exited within the grace window — at the
/// `i`-th poll, before the window has been waited out — the forced
/// termination step never executes and the protocol ends gracefully.
pub proof fn lemma_exit_within_window_no_kill(t: Termination, polls: Seq<bool>, i: int)
    requires
        t.wf(),
        t.phase is Polling,
        t.elapsed_ms == 0,
        0 <= i < polls.len(),
        !polls[i],
        forall|k: int| 0 <= k < i ==> polls[k],
        i * t.poll_ms < t.grace_ms + t.poll_ms,
    ensures
        run_polls(t, polls).outcome == Some(TermOutcome::Graceful),
        !run_polls(t, polls).forced,
        force_count(t, polls) == 0,
    decreases polls.len(),
{
    lemma_exit_within_window_general(t, polls, i);
}

/// Generalisation of `lemma_exit_within_window_no_kill` over a protocol that
/// has already waited part of the window.
proof fn lemma_exit_within_window_general(t: Termination, polls: Seq<bool>, i: int)
    requires
        t.wf(),
        t.phase is Polling,
        0 <= i < polls.len(),
        !polls[i],
        forall|k: int| 0 <= k < i ==> polls[k],
        t.elapsed_ms + i * t.poll_ms < t.grace_ms + t.poll_ms,
    ensures
        run_polls(t, polls).outcome == Some(TermOutcome::Graceful),
        !run_polls(t, polls).forced,
        force_count(t, polls) == 0,
    decreases polls.len(),
{
    let t1 = spec_poll(t, polls[0]);
    if i == 0 {
        lemma_done_stable(t1, polls.drop_first());
    } else {
        assert(t.elapsed_ms < t.grace_ms) by {
            assert(i * t.poll_ms >= 1 * t.poll_ms) by (nonlinear_arith)
                requires
                    i >= 1,
                    t.poll_ms >= 1,
            ;
        }
        assert(t1.elapsed_ms + (i - 1) * t1.poll_ms < t1.grace_ms + t1.poll_ms) by {
            assert(i * t.poll_ms == (i - 1) * t.poll_ms + t.poll_ms) by (nonlinear_arith);
        }
        assert(forall|k: int|
            0 <= k < i - 1 ==> polls.drop_first()[k] == polls[k + 1]);
        lemma_exit_within_window_general(t1, polls.drop_first(), i - 1);
    }
}

/// If the child ignores the graceful signal — every poll finds it alive —
/// and polling goes on long enough to wait out the whole grace window, the
/// forced termination executes exactly once, and only after the full window
/// has been waited: at the moment of the kill the protocol has waited at
/// least `grace_ms`.
pub proof fn lemma_unresponsive_forced_once(t: Termination, polls: Seq<bool>)
    requires
        t.wf(),
        t.phase is Polling,
        t.elapsed_ms == 0,
        forall|k: int| 0 <= k < polls.len() ==> polls[k],
        polls.len() >= 1,
        (polls.len() - 1) * t.poll_ms >= t.grace_ms,
    ensures
        run_polls(t, polls).forced,
        run_polls(t, polls).outcome == Some(TermOutcome::Forced),
        run_polls(t, polls).elapsed_ms >= t.grace_ms,
        force_count(t, polls) == 1,
{
    lemma_unresponsive_general(t, polls);
    lemma_force_at_most_once(t, polls);
}

/// Shutdown always completes: the grace window is the one bounded wait in
/// the protocol, so once polling has gone on long enough to wait it out the
/// protocol has decided — gracefully or forcibly — whatever the liveness
/// observations were, and completion can be reported.
pub proof fn lemma_protocol_always_decides(t: Termination, polls: Seq<bool>)
    requires
        t.wf(),
        t.phase is Polling,
        polls.len() >= 1,
        t.elapsed_ms + (polls.len() - 1) * t.poll_ms >= t.grace_ms,
    ensures
        run_polls(t, polls).phase is Done,
        run_polls(t, polls).outcome is Some,
    decreases polls.len(),
{
    let t1 = spec_poll(t, polls[0]);
    if !polls[0] || t.elapsed_ms >= t.grace_ms {
        lemma_done_stable(t1, polls.drop_first());
        lemma_poll_preserves_wf(t, polls[0]);
    } else {
        assert(polls.len() >= 2) by {
            if polls.len() == 1 {
                assert((polls.len() - 1) * t.poll_ms == 0) by (nonlinear_arith)
                    requires
                        polls.len() == 1,
                ;
            }
        }
        assert(t1.elapsed_ms + (polls.drop_first().len() - 1) * t1.poll_ms >= t1.grace_ms) by {
            assert((polls.len() - 1) * t.poll_ms == (polls.len() - 2) * t.poll_ms + t.poll_ms)
                by (nonlinear_arith);
        }
        lemma_protocol_always_decides(t1, polls.drop_first());
    }
}

/// Generalisation of `lemma_unresponsive_forced_once` over a protocol that
/// has already waited part of the window.
proof fn lemma_unresponsive_general(t: Termination, polls: Seq<bool>)
    requires
        t.wf(),
        t.phase is Polling,
        forall|k: int| 0 <= k < polls.len() ==> polls[k],
        polls.len() >= 1,
        t.elapsed_ms + (polls.len() - 1) * t.poll_ms >= t.grace_ms,
    ensures
        run_polls(t, polls).forced,
        run_polls(t, polls).outcome == Some(TermOutcome::Forced),
        run_polls(t, polls).elapsed_ms >= t.grace_ms,
        force_count(t, polls) >= 1,
    decreases polls.len(),
{
    let t1 = spec_poll(t, polls[0]);
    if t.elapsed_ms >= t.grace_ms {
        lemma_done_stable(t1, polls.drop_first());
    } else {
        assert(polls.len() >= 2) by {
            if polls.len() == 1 {
                assert((polls.len() - 1) * t.poll_ms == 0) by (nonlinear_arith)
                    requires
                        polls.len() == 1,
                ;
            }
        }
        assert(t1.elapsed_ms + (polls.drop_first().len() - 1) * t1.poll_ms >= t1.grace_ms) by {
            assert((polls.len() - 1) * t.poll_ms == (polls.len() - 2) * t.poll_ms + t.poll_ms)
                by (nonlinear_arith);
        }
        lemma_unresponsive_general(t1, polls.drop_first());
    }
}

} // verus!

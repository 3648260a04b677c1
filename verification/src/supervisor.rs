//! Supervisor composition: sequences startup (spawn, wait for readiness,
//! start the heartbeat, register the shutdown triggers) and funnels every
//! shutdown trigger into the coordinator's single idempotent entry point.
//!
//! A spawn failure is fatal to startup: the supervisor aborts before the
//! heartbeat task exists and before any trigger is registered, and stays
//! aborted.  Once running, `request_shutdown` may be called from any number
//! of trigger sources, any number of times: the first call receives the
//! child, every other is a no-op.

use vstd::prelude::*;

use crate::coordinator::ChildProcess;
use crate::coordinator::SupervisorSlot;

verus! {

/// Phase of the supervisor's own lifetime.
#[derive(Clone, Copy, Debug, PartialEq, Eq)]
pub enum StartupPhase {
    /// Nothing has happened yet.
    Init,
    /// The child was spawned and sits in the slot; its readiness is not
    /// confirmed yet.
    Spawned,
    /// The readiness wait has returned; the heartbeat is not started yet.
    Ready,
    /// Heartbeat started and triggers registered; normal operation.
    Running,
    /// Spawning failed: startup aborted, permanently.
    Aborted,
}

/// The composition root's state: the phase of startup, the guarded child
/// slot, and whether the background heartbeat task and the shutdown triggers
/// exist yet.
#[derive(Clone, Copy, Debug)]
pub struct Supervisor {
    pub phase: StartupPhase,
    pub slot: SupervisorSlot,
    pub heartbeat_started: bool,
    pub triggers_registered: bool,
}

impl Supervisor {
    /// The phases, their slots and their background tasks are coherent: an
    /// aborted startup never has a heartbeat task or a registered trigger,
    /// the slot is filled exactly from the spawn until the first teardown,
    /// and heartbeat and triggers exist exactly from the end of setup on.
    pub open spec fn wf(self) -> bool {
        &&& self.slot.wf()
        &&& (self.phase is Init ==> self.slot.child is None && !self.slot.torn_down)
        &&& (self.phase is Aborted ==> self.slot.child is None && !self.slot.torn_down)
        &&& (self.phase is Spawned || self.phase is Ready ==> self.slot.child is Some)
        &&& (self.heartbeat_started <==> self.phase is Running)
        &&& (self.triggers_registered <==> self.phase is Running)
    }

    /// A supervisor that has not started anything yet.
    pub fn new() -> (s: Supervisor)
        ensures
            s.wf(),
            s.phase is Init,
            s.slot.child is None,
            !s.heartbeat_started,
            !s.triggers_registered,
    {
        Supervisor {
            phase: StartupPhase::Init,
            slot: SupervisorSlot::new(),
            heartbeat_started: false,
            triggers_registered: false,
        }
    }

    /// Feed the outcome of the spawn.  Success moves the child into the
    /// slot and startup goes on; failure is fatal: the supervisor aborts
    /// with no heartbeat task started and no trigger registered, and the
    /// caller must report the diagnostic and terminate the application.
    pub fn on_spawn(&mut self, spawned: Option<ChildProcess>) -> (fatal: bool)
        requires
            old(self).wf(),
            old(self).phase is Init,
        ensures
            final(self).wf(),
            fatal == (spawned is None),
            match spawned {
                Some(c) => {
                    &&& final(self).phase is Spawned
                    &&& final(self).slot.child == Some(c)
                    &&& !final(self).heartbeat_started
                    &&& !final(self).triggers_registered
                },
                None => {
                    &&& final(self).phase is Aborted
                    &&& final(self).slot.child is None
                    &&& !final(self).heartbeat_started
                    &&& !final(self).triggers_registered
                },
            },
    {
        match spawned {
            Some(c) => {
                self.slot.install(c);
                self.phase = StartupPhase::Spawned;
                false
            },
            None => {
                self.phase = StartupPhase::Aborted;
                true
            },
        }
    }

    /// The readiness wait has returned: the endpoint accepted a connection.
    pub fn on_ready(&mut self)
        requires
            old(self).wf(),
            old(self).phase is Spawned,
        ensures
            final(self).wf(),
            final(self).phase is Ready,
            final(self).slot == old(self).slot,
            !final(self).heartbeat_started,
            !final(self).triggers_registered,
    {
        self.phase = StartupPhase::Ready;
    }

    /// Setup is complete: the heartbeat task runs and the coordinator is
    /// registered against every shutdown trigger source.
    pub fn on_setup_complete(&mut self)
        requires
            old(self).wf(),
            old(self).phase is Ready,
        ensures
            final(self).wf(),
            final(self).phase is Running,
            final(self).slot == old(self).slot,
            final(self).heartbeat_started,
            final(self).triggers_registered,
    {
        self.phase = StartupPhase::Running;
        self.heartbeat_started = true;
        self.triggers_registered = true;
    }

    /// One shutdown trigger firing, from any source, any number of times.
    /// The first call takes the child out of the slot for the termination
    /// protocol; every later call observes the permanently empty slot and is
    /// a no-op.
    pub fn request_shutdown(&mut self) -> (r: Option<ChildProcess>)
        requires
            old(self).wf(),
            old(self).phase is Running,
        ensures
            final(self).wf(),
            final(self).phase is Running,
            r == old(self).slot.child,
            final(self).slot.child is None,
            old(self).slot.torn_down ==> r is None,
    {
        self.slot.try_take()
    }
}

} // verus!

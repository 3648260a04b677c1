//! Supervision core for a single long-running sidecar subprocess.
//!
//! The crate holds the decision logic of the supervisor as verified state
//! machines: a readiness prober, the forwarding rule for the child's output
//! stream, a heartbeat emitter, the graceful-then-forceful shutdown
//! coordinator, and the composition that sequences startup and funnels every
//! shutdown trigger into one idempotent entry point.  All real I/O (spawning,
//! TCP probes, socket writes, signals) is performed by the surrounding
//! application, which feeds each observed outcome into these machines and
//! carries out the action they return.

pub mod coordinator;
pub mod heartbeat;
pub mod launcher;
pub mod prober;
pub mod supervisor;

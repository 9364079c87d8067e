//! Block I/O tracing engine for a filesystem micro-benchmark harness.
//!
//! The core of the library decodes the kernel's packed binary block-trace
//! record format into structured events and derives correlated metrics
//! (completed bytes by direction, true I/O duration via sequence-number
//! matching, request counts).  Around it stand the pieces of the capture
//! session that are pure logic: the setup-request marshaling and retry
//! policy, the per-CPU trace-file discovery rules, the poller's
//! cancellation protocol, and the per-syscall statistics accumulator.
//! Device I/O itself (ioctls, polling, reads) lives outside the library
//! and hands it plain values.

pub mod benchmarks;
pub mod codec;
pub mod fileset;
pub mod operation;
pub mod poller;
pub mod session;
pub mod trace;
pub mod statistics;

//! Coordination primitives for a preemptive, priority-based real-time kernel,
//! written as state machines over plain values.
//!
//! Every type here describes what one primitive holds and how one operation
//! changes it. The blocking calls into the kernel are made by the code that
//! embeds this library; the library decides what is asked of the kernel and
//! what follows from its answer. Where an operation wakes other tasks, it
//! returns the tasks to wake.
//!
//! - [`instant`] and [`sleep`]: points in time, and the deadlines that events
//!   wait for.
//! - [`event`]: the registry of waiting tasks that the other primitives are
//!   built on.
//! - [`select`]: events that can be raced, the combinators over them, and the
//!   selection that runs exactly one of several branches.
//! - [`mutex`], [`semaphore`], [`queue`]: the kernel's own primitives.
//! - [`channel`], [`promise`], [`broadcast`], [`context`], [`timer`]: the
//!   events that tasks wait for.
//! - [`rotation`]: what a rotation sensor reports.

pub mod broadcast;
pub mod channel;
pub mod context;
pub mod error;
pub mod event;
pub mod instant;
pub mod mutex;
pub mod promise;
pub mod queue;
pub mod rotation;
pub mod select;
pub mod semaphore;
pub mod sleep;
pub mod task;
pub mod timer;

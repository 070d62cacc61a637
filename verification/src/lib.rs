//! Synchronous one-shot task runner core for a two-level cluster resource
//! manager: a length-prefixed record codec, master-locator decisions, the
//! wire-call request model, offer evaluation, the scheduler state machine,
//! and the console back-end decision logic.

pub mod console;
pub mod mesos;
pub mod network;
pub mod strutil;
pub mod scheduler;
pub mod types;

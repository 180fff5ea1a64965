//! Isolate execution and worker bookkeeping for an embedded script runtime.
//!
//! The modules hold the decisions of the runtime as verified state machines:
//! the per-isolate state that engine callbacks act on, the host's table of
//! workers, and the small text utilities around them.  Everything that talks
//! to the engine, to threads or to the terminal stays with the embedder and
//! hands plain values to these functions.
pub mod deps;
pub mod directives;
pub mod flags;
pub mod isolate;
pub mod worker_host;

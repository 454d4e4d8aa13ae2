//! The subprocess side of an out-of-process orchestration reporting
//! protocol: a short-lived compute step loads a bootstrap context, then
//! emits a strictly ordered stream of lifecycle and result envelopes for
//! the orchestrating host to read back.
//!
//! The session computes each envelope's single-line wire text; the host
//! owns the sink and appends each returned line in call order. Context
//! ingestion, the message schema, the `Created -> Opened -> Closed`
//! state machine and the rendering of every line are specified and
//! verified here.
pub mod context;
pub mod envelope;
pub mod json;
pub mod session;
pub mod shaping;

//! Deployment orchestration for an API gateway policy: argument resolution,
//! marker-anchored extraction of identifiers from diagnostic text, and the
//! three-stage upload / build / deploy state machine.

pub mod arguments;
pub mod extract;
pub mod pipeline;

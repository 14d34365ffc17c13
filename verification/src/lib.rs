//! Clipboard selection monitoring: the negotiation protocol with a selection
//! owner as an explicit state machine, the choice among the offered targets,
//! and the transport-safe encoding of the retrieved payload.

pub mod laws;
pub mod negotiation;
pub mod targets;
pub mod transcode;

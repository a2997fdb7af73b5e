//! The Host Protocol: message types, length-prefix framing and the
//! conformance fixture set.

pub mod fixtures;
pub mod framing;
pub mod messages;

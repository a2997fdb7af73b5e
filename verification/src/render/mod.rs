//! The render subsystem's logic: grapheme widths and wrapping, the
//! streaming markdown pipeline, the retained message model and its
//! projection to lines, and the terminal session's escape sequences.

pub mod cmark;
pub mod event;
pub mod frame;
pub mod highlight;
pub mod input;
pub mod markdown;
pub mod message;
pub mod projection;
pub mod state;
pub mod stream;
pub mod style;
pub mod suspend;
pub mod terminal;
pub mod thread;
pub mod width;

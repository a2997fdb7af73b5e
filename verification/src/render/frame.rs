//! The render thread's draw target, and a sink that records that it drew
//! a frame showing at least one message.

use vstd::prelude::*;
use std::sync::atomic::{AtomicBool, Ordering};
use std::sync::Arc;
use crate::render::state::RenderState;

verus! {

/// The render thread's draw target. Implementations do I/O; nothing is
/// stated of them.
pub trait FrameSink: Send {
    /// Draws the current state.
    fn draw(&mut self, state: &RenderState) -> Result<(), std::io::Error>;
}

/// A sink that sets a shared flag once it has drawn a frame with at least
/// one message (so a test can see that an event was applied before the
/// next frame).
pub struct CountingSink {
    observed: Arc<AtomicBool>,
}

impl CountingSink {
    /// A sink that sets `observed` once it draws a frame with a message.
    pub fn new(observed: Arc<AtomicBool>) -> (r: Self)
        ensures
            r.observed() == observed,
    {
        CountingSink { observed }
    }

    /// The shared flag.
    pub closed spec fn observed(&self) -> Arc<AtomicBool> {
        self.observed
    }
}

impl FrameSink for CountingSink {
    /// Always succeeds, and keeps sharing the same flag.
    fn draw(&mut self, state: &RenderState) -> (r: Result<(), std::io::Error>)
        ensures
            r is Ok,
            final(self).observed() == old(self).observed(),
    {
        if state.messages().len() > 0 {
            self.observed.store(true, Ordering::SeqCst);
        }
        Ok(())
    }
}

} // verus!

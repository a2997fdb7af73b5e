//! What flows through the render thread's channel, the error of a send
//! into it, and the check on its capacity before the threads start.

use vstd::prelude::*;
use vstd::string::StringExecFns;
use crate::render::event::RenderEvent;
use crate::render::input::InputEvent;

verus! {

/// A channel item: a render event (from the async side) or input (from
/// the reader thread).
#[derive(Debug)]
pub enum LoopEvent {
    Render(RenderEvent),
    Input(InputEvent),
}

/// The error of a send into the render thread's channel: full
/// (backpressure) or disconnected (the render thread has exited).
#[derive(Debug, Clone, Copy, PartialEq, Eq, Structural)]
pub struct SendError {
    /// `true` if the channel was full, `false` if disconnected.
    pub full: bool,
}

/// Why the render threads were not started.
#[derive(Debug, Clone, Copy, PartialEq, Eq, Structural)]
pub enum SpawnRefusal {
    /// A channel of capacity zero was asked for.
    ZeroChannelCap,
}

/// The text of a refusal.
pub open spec fn refusal_text(r: SpawnRefusal) -> Seq<char> {
    match r {
        SpawnRefusal::ZeroChannelCap => "channel_cap must be positive"@,
    }
}

impl SpawnRefusal {
    /// The refusal's message.
    pub fn describe(&self) -> (r: String)
        ensures
            r@ == refusal_text(*self),
    {
        match self {
            SpawnRefusal::ZeroChannelCap => String::from_str("channel_cap must be positive"),
        }
    }
}

/// Checks the channel capacity before the render threads are spawned: a
/// capacity of zero is refused, any other accepted.
pub fn check_channel_cap(channel_cap: usize) -> (r: Result<(), SpawnRefusal>)
    ensures
        channel_cap == 0 ==> r == Err::<(), SpawnRefusal>(SpawnRefusal::ZeroChannelCap),
        channel_cap > 0 ==> r is Ok,
{
    if channel_cap == 0 {
        Err(SpawnRefusal::ZeroChannelCap)
    } else {
        Ok(())
    }
}

} // verus!

//! Input the render loop acts on, and the translation of key presses into
//! it: Ctrl+C quits at any time; `q` quits when pressed (not on release).

use vstd::prelude::*;

verus! {

/// Input the render thread acts on.
#[derive(Debug, Clone, Copy, PartialEq, Eq, Structural)]
pub enum InputEvent {
    /// The user asked to quit.
    Quit,
}

/// Whether a key event is a press, a repeat or a release.
#[derive(Debug, Clone, Copy, PartialEq, Eq, Structural)]
pub enum KeyKind {
    Press,
    Repeat,
    Release,
}

/// A key event, as the translation reads it: the character of a character
/// key (`None` for any other key), whether Control was held, and the
/// event's kind.
#[derive(Debug, Clone, Copy, PartialEq, Eq, Structural)]
pub struct KeyInput {
    pub ch: Option<char>,
    pub control: bool,
    pub kind: KeyKind,
}

/// The input a key event means: Ctrl+C quits (whatever the kind); `q`
/// quits when pressed; anything else means nothing.
pub open spec fn translate_key_spec(key: KeyInput) -> Option<InputEvent> {
    if key.control && key.ch == Some('c') {
        Some(InputEvent::Quit)
    } else if key.kind == KeyKind::Press && key.ch == Some('q') {
        Some(InputEvent::Quit)
    } else {
        None
    }
}

/// Translates a key event into input.
pub fn translate_key(key: KeyInput) -> (r: Option<InputEvent>)
    ensures
        r == translate_key_spec(key),
{
    if key.control && key.ch == Some('c') {
        return Some(InputEvent::Quit);
    }
    if key.kind == KeyKind::Press && key.ch == Some('q') {
        return Some(InputEvent::Quit);
    }
    None
}

/// The reader thread's input source: `poll` blocks up to `timeout` and
/// gives `None` when no input arrived. Implementations do I/O; nothing is
/// stated of them.
pub trait InputSource: Send {
    fn poll(&mut self, timeout: std::time::Duration) -> Result<Option<InputEvent>, std::io::Error>;
}

} // verus!

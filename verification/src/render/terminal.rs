//! The terminal session's escape sequences: entering (alternate screen,
//! mouse capture, optionally kitty keyboard flags) and restoring. Restore
//! is idempotent: once restored, a guard writes nothing more.

use vstd::prelude::*;
use crossterm::Command;

verus! {

/// A control sequence: `ESC [` then `tail`, as bytes.
pub open spec fn csi(tail: Seq<char>) -> Seq<u8> {
    seq![0x1bu8, 0x5bu8] + tail.map_values(|c: char| c as u8)
}

/// The alternate screen on.
pub open spec fn enter_alt_bytes() -> Seq<u8> {
    csi(seq!['?', '1', '0', '4', '9', 'h'])
}

/// The alternate screen off.
pub open spec fn leave_alt_bytes() -> Seq<u8> {
    csi(seq!['?', '1', '0', '4', '9', 'l'])
}

/// Mouse capture on: normal, button-event, any-event, RXVT and SGR
/// tracking.
pub open spec fn enable_mouse_bytes() -> Seq<u8> {
    csi(seq!['?', '1', '0', '0', '0', 'h']) + csi(seq!['?', '1', '0', '0', '2', 'h']) + csi(
        seq!['?', '1', '0', '0', '3', 'h'],
    ) + csi(seq!['?', '1', '0', '1', '5', 'h']) + csi(seq!['?', '1', '0', '0', '6', 'h'])
}

/// Mouse capture off, in the reverse order.
pub open spec fn disable_mouse_bytes() -> Seq<u8> {
    csi(seq!['?', '1', '0', '0', '6', 'l']) + csi(seq!['?', '1', '0', '1', '5', 'l']) + csi(
        seq!['?', '1', '0', '0', '3', 'l'],
    ) + csi(seq!['?', '1', '0', '0', '2', 'l']) + csi(seq!['?', '1', '0', '0', '0', 'l'])
}

/// Kitty keyboard flags pushed (disambiguate escape codes).
pub open spec fn push_kitty_bytes() -> Seq<u8> {
    csi(seq!['>', '1', 'u'])
}

/// Kitty keyboard flags popped.
pub open spec fn pop_kitty_bytes() -> Seq<u8> {
    csi(seq!['<', '1', 'u'])
}

/// The enter sequence: alternate screen, mouse capture, and the kitty
/// keyboard push if asked for.
pub open spec fn enter_bytes(push_kitty: bool) -> Seq<u8> {
    enter_alt_bytes() + enable_mouse_bytes() + if push_kitty {
        push_kitty_bytes()
    } else {
        seq![]
    }
}

/// The restore sequence: alternate screen off, mouse capture off, and the
/// kitty keyboard pop if the flags were pushed.
pub open spec fn restore_bytes(kitty_pushed: bool) -> Seq<u8> {
    leave_alt_bytes() + disable_mouse_bytes() + if kitty_pushed {
        pop_kitty_bytes()
    } else {
        seq![]
    }
}

/// `crossterm::terminal::EnterAlternateScreen` written as ANSI
/// (`Command::write_ansi`): `ESC[?1049h`.
#[verifier::external_body]
fn enter_alternate_screen_ansi() -> (r: Vec<u8>)
    ensures
        r@ == enter_alt_bytes(),
{
    let mut s = String::new();
    let _ = crossterm::terminal::EnterAlternateScreen.write_ansi(&mut s);
    s.into_bytes()
}

/// `crossterm::terminal::LeaveAlternateScreen` written as ANSI:
/// `ESC[?1049l`.
#[verifier::external_body]
fn leave_alternate_screen_ansi() -> (r: Vec<u8>)
    ensures
        r@ == leave_alt_bytes(),
{
    let mut s = String::new();
    let _ = crossterm::terminal::LeaveAlternateScreen.write_ansi(&mut s);
    s.into_bytes()
}

/// `crossterm::event::EnableMouseCapture` written as ANSI:
/// `ESC[?1000h ESC[?1002h ESC[?1003h ESC[?1015h ESC[?1006h`.
#[verifier::external_body]
fn enable_mouse_capture_ansi() -> (r: Vec<u8>)
    ensures
        r@ == enable_mouse_bytes(),
{
    let mut s = String::new();
    let _ = crossterm::event::EnableMouseCapture.write_ansi(&mut s);
    s.into_bytes()
}

/// `crossterm::event::DisableMouseCapture` written as ANSI:
/// `ESC[?1006l ESC[?1015l ESC[?1003l ESC[?1002l ESC[?1000l`.
#[verifier::external_body]
fn disable_mouse_capture_ansi() -> (r: Vec<u8>)
    ensures
        r@ == disable_mouse_bytes(),
{
    let mut s = String::new();
    let _ = crossterm::event::DisableMouseCapture.write_ansi(&mut s);
    s.into_bytes()
}

/// `crossterm::event::PushKeyboardEnhancementFlags` with
/// `DISAMBIGUATE_ESCAPE_CODES` (bits 1) written as ANSI: `ESC[>1u`.
#[verifier::external_body]
fn push_kitty_flags_ansi() -> (r: Vec<u8>)
    ensures
        r@ == push_kitty_bytes(),
{
    let flags = crossterm::event::KeyboardEnhancementFlags::DISAMBIGUATE_ESCAPE_CODES;
    let mut s = String::new();
    let _ = crossterm::event::PushKeyboardEnhancementFlags(flags).write_ansi(&mut s);
    s.into_bytes()
}

/// `crossterm::event::PopKeyboardEnhancementFlags` written as ANSI:
/// `ESC[<1u`.
#[verifier::external_body]
fn pop_kitty_flags_ansi() -> (r: Vec<u8>)
    ensures
        r@ == pop_kitty_bytes(),
{
    let mut s = String::new();
    let _ = crossterm::event::PopKeyboardEnhancementFlags.write_ansi(&mut s);
    s.into_bytes()
}

/// The enter sequence as bytes.
pub fn enter_sequence(push_kitty: bool) -> (r: Vec<u8>)
    ensures
        r@ == enter_bytes(push_kitty),
{
    let mut out = enter_alternate_screen_ansi();
    let mut mouse = enable_mouse_capture_ansi();
    out.append(&mut mouse);
    if push_kitty {
        let mut kitty = push_kitty_flags_ansi();
        out.append(&mut kitty);
    }
    assert(out@ =~= enter_bytes(push_kitty));
    out
}

/// The restore sequence as bytes.
pub fn restore_sequence(kitty_pushed: bool) -> (r: Vec<u8>)
    ensures
        r@ == restore_bytes(kitty_pushed),
{
    let mut out = leave_alternate_screen_ansi();
    let mut mouse = disable_mouse_capture_ansi();
    out.append(&mut mouse);
    if kitty_pushed {
        let mut kitty = pop_kitty_flags_ansi();
        out.append(&mut kitty);
    }
    assert(out@ =~= restore_bytes(kitty_pushed));
    out
}

/// A terminal session: entering it gives a guard that restores it.
pub struct Session;

/// Owns the terminal restore. Restoring is idempotent: a second restore
/// writes nothing.
pub struct TerminalGuard {
    restored: bool,
    kitty_pushed: bool,
    raw_mode_enabled: bool,
}

impl TerminalGuard {
    /// Whether the terminal has been restored.
    pub closed spec fn is_restored(&self) -> bool {
        self.restored
    }

    /// Whether kitty keyboard flags were pushed on enter.
    pub closed spec fn pushed_kitty(&self) -> bool {
        self.kitty_pushed
    }

    /// Whether raw mode was enabled on enter.
    pub closed spec fn raw_mode(&self) -> bool {
        self.raw_mode_enabled
    }

    /// Writes the restore sequence to `w`, unless already restored: a
    /// second call writes nothing.
    pub fn restore_to(&mut self, w: &mut Vec<u8>)
        ensures
            final(w)@ == old(w)@ + if old(self).is_restored() {
                Seq::<u8>::empty()
            } else {
                restore_bytes(old(self).pushed_kitty())
            },
            final(self).is_restored(),
            final(self).pushed_kitty() == old(self).pushed_kitty(),
            final(self).raw_mode() == old(self).raw_mode(),
    {
        if self.restored {
            assert(w@ =~= w@ + Seq::<u8>::empty());
            return;
        }
        let mut bytes = restore_sequence(self.kitty_pushed);
        w.append(&mut bytes);
        self.restored = true;
    }

    /// Whether kitty keyboard flags were pushed on enter (so restore pops
    /// them).
    pub fn kitty_pushed(&self) -> (r: bool)
        ensures
            r == self.pushed_kitty(),
    {
        self.kitty_pushed
    }

    /// Whether raw mode was enabled on enter.
    pub fn raw_mode_enabled(&self) -> (r: bool)
        ensures
            r == self.raw_mode(),
    {
        self.raw_mode_enabled
    }

    /// Records that raw mode is on (raw mode is a terminal setting, not an
    /// escape sequence; the caller that enters the real terminal sets it).
    pub fn set_raw_mode_enabled(&mut self)
        ensures
            final(self).raw_mode(),
            final(self).is_restored() == old(self).is_restored(),
            final(self).pushed_kitty() == old(self).pushed_kitty(),
    {
        self.raw_mode_enabled = true;
    }
}

impl Session {
    /// Writes the enter sequence to `w` (alternate screen, mouse capture,
    /// and kitty keyboard flags if `push_kitty`) and gives a guard that
    /// has not restored yet and records whether kitty flags were pushed.
    /// Raw mode is the caller's concern.
    pub fn enter_to(w: &mut Vec<u8>, push_kitty: bool) -> (r: TerminalGuard)
        ensures
            final(w)@ == old(w)@ + enter_bytes(push_kitty),
            !r.is_restored(),
            r.pushed_kitty() == push_kitty,
            !r.raw_mode(),
    {
        let mut bytes = enter_sequence(push_kitty);
        w.append(&mut bytes);
        TerminalGuard { restored: false, kitty_pushed: push_kitty, raw_mode_enabled: false }
    }
}

} // verus!

//! Suspend and resume (SIGTSTP / SIGCONT): the terminal must be restored
//! before the process stops and entered again when it continues. The
//! sequences are computed here; installing the signal handlers is not
//! implemented and reports so.

use vstd::prelude::*;
use crate::render::terminal::{enter_bytes, enter_sequence, restore_bytes, restore_sequence};

verus! {

/// An I/O error, carried opaque.
#[verifier::external_type_specification]
#[verifier::external_body]
pub struct ExIoError(std::io::Error);

/// The enter sequence (alternate screen, mouse capture, optionally the
/// kitty keyboard push) as bytes, without touching the terminal.
pub fn enter_ansi(push_kitty: bool) -> (r: Vec<u8>)
    ensures
        r@ == enter_bytes(push_kitty),
{
    enter_sequence(push_kitty)
}

/// The restore sequence (alternate screen off, mouse capture off,
/// optionally the kitty keyboard pop) as bytes, without touching the
/// terminal.
pub fn restore_ansi(kitty_pushed: bool) -> (r: Vec<u8>)
    ensures
        r@ == restore_bytes(kitty_pushed),
{
    restore_sequence(kitty_pushed)
}

/// What `std::io::Error::new(ErrorKind::Unsupported, message)` returns: an
/// error of kind `Unsupported` carrying `message`.
pub uninterp spec fn unsupported_io_error(message: Seq<char>) -> std::io::Error;

/// `std::io::Error::new` of kind `Unsupported` with a message.
#[verifier::external_body]
fn unsupported_error(message: &str) -> (r: std::io::Error)
    ensures
        r == unsupported_io_error(message@),
{
    std::io::Error::new(std::io::ErrorKind::Unsupported, message.to_string())
}

/// The message the suspend handler's error carries.
pub open spec fn suspend_deferred_text() -> Seq<char> {
    "install_suspend_handler is deferred to Phase 3 (P14); see crates/pi-render/src/suspend.rs"@
}

/// Installs the SIGTSTP / SIGCONT handlers. Not implemented: always an
/// error of kind `Unsupported` saying that the handler is deferred.
pub fn install_suspend_handler(_restore: Vec<u8>, _enter: Vec<u8>) -> (r: Result<(), std::io::Error>)
    ensures
        r == Err::<(), std::io::Error>(unsupported_io_error(suspend_deferred_text())),
{
    let text = "install_suspend_handler is deferred to Phase 3 (P14); see crates/pi-render/src/suspend.rs";
    proof {
        reveal_strlit("install_suspend_handler is deferred to Phase 3 (P14); see crates/pi-render/src/suspend.rs");
    }
    Err(unsupported_error(text))
}

} // verus!

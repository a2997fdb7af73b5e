//! The verified core of a coding-agent runtime: the host protocol's
//! messages and framing and the host lifecycle decisions, the session file
//! format (naming, migrations, context reconstruction), and the terminal
//! renderer's logic (grapheme-width wrapping, streaming markdown with code
//! highlighting, the retained message model and its projection to lines).

pub mod host;
pub mod json;
pub mod protocol;
pub mod render;
pub mod session;
pub mod text;
pub mod time;
pub mod vecs;

use vstd::prelude::*;

verus! {

/// The crate version.
pub fn version() -> (v: &'static str)
    ensures
        v@ == "0.1.0-dev"@,
{
    "0.1.0-dev"
}

} // verus!

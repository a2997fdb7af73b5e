//! The core side of the Host Protocol: the host lifecycle state machine,
//! the supervisor's decisions, and the mock host's reply rules.

pub mod host_state;
pub mod mock_host;
pub mod supervisor;

use vstd::prelude::*;

verus! {

/// The crate version (the workspace package version).
pub fn version() -> (v: &'static str)
    ensures
        v@ == "0.1.0-dev"@,
{
    "0.1.0-dev"
}

} // verus!

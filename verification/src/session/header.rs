//! The session header and the format version.

use vstd::prelude::*;

verus! {

/// The current session file version. Version 1 headers omit the version;
/// versions 2 and 3 set it. New sessions are written at version 3.
pub const CURRENT_SESSION_VERSION: u32 = 3;

/// The wire tag of a header line: `session`.
pub open spec fn header_type_spec() -> Seq<char> {
    seq!['s', 'e', 's', 's', 'i', 'o', 'n']
}

/// The wire tag of a header line.
pub fn header_type() -> (r: String)
    ensures
        r@ == header_type_spec(),
{
    let r = String::from_str("session");
    proof {
        reveal_strlit("session");
    }
    assert(r@ =~= header_type_spec());
    r
}

/// The first line of a session file. `version` is absent on version 1
/// files; `parent_session` is set on forked sessions. `type_tag` is the wire
/// `type` field, always `session`.
#[derive(Debug, Clone, PartialEq, Eq)]
pub struct SessionHeader {
    pub type_tag: String,
    pub version: Option<u32>,
    pub id: String,
    pub timestamp: String,
    pub cwd: String,
    pub parent_session: Option<String>,
}

impl SessionHeader {
    /// A header for a new session at the current version.
    pub fn new(id: String, timestamp: String, cwd: String) -> (r: Self)
        ensures
            r.type_tag@ == header_type_spec(),
            r.version == Some(CURRENT_SESSION_VERSION),
            r.id@ == id@,
            r.timestamp@ == timestamp@,
            r.cwd@ == cwd@,
            r.parent_session is None,
    {
        SessionHeader {
            type_tag: header_type(),
            version: Some(CURRENT_SESSION_VERSION),
            id,
            timestamp,
            cwd,
            parent_session: None,
        }
    }
}

} // verus!

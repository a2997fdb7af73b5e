//! The session entry taxonomy: nine entry types over a shared base, and the
//! file entry (header or entry) a session file is made of. `custom` entries
//! carry extension state and take no part in model context;
//! `custom_message` entries do.

use vstd::prelude::*;
use crate::session::header::SessionHeader;

verus! {

/// The fields every non-header entry carries. `id` and `parent_id` make
/// the entry tree. Version 1 entries have an empty `id` until migration
/// assigns one.
#[derive(Debug, Clone, PartialEq, Eq)]
pub struct EntryBase {
    pub id: String,
    pub parent_id: Option<String>,
    pub timestamp: String,
}

/// A session entry; its wire `type` selects the variant. Message bodies,
/// extension data and usage records are JSON carried opaque.
#[derive(Debug, Clone, PartialEq, Eq)]
pub enum SessionEntry {
    /// `message`: an agent message (user, assistant or tool result).
    Message { base: EntryBase, message: serde_json::Value },
    /// `thinking_level_change`.
    ThinkingLevelChange { base: EntryBase, thinking_level: String },
    /// `model_change`.
    ModelChange { base: EntryBase, provider: String, model_id: String },
    /// `compaction`: context before it is replaced by the compaction and
    /// the entries from `first_kept_entry_id` on. Version 1 files carry a
    /// positional `first_kept_entry_index` instead, which migration turns
    /// into an id.
    Compaction {
        base: EntryBase,
        summary: String,
        first_kept_entry_id: Option<String>,
        first_kept_entry_index: Option<u64>,
        tokens_before: u64,
        details: Option<serde_json::Value>,
        usage: Option<serde_json::Value>,
        from_hook: Option<bool>,
    },
    /// `branch_summary`.
    BranchSummary {
        base: EntryBase,
        from_id: String,
        summary: String,
        details: Option<serde_json::Value>,
        usage: Option<serde_json::Value>,
        from_hook: Option<bool>,
    },
    /// `custom`: extension state, not part of model context.
    Custom { base: EntryBase, custom_type: String, data: Option<serde_json::Value> },
    /// `custom_message`: an extension message, part of model context as a
    /// user message.
    CustomMessage {
        base: EntryBase,
        custom_type: String,
        content: serde_json::Value,
        details: Option<serde_json::Value>,
        display: bool,
    },
    /// `label`: a bookmark on an entry; no label clears it.
    Label { base: EntryBase, target_id: String, label: Option<String> },
    /// `session_info`: the session's display name; the latest wins.
    SessionInfo { base: EntryBase, name: Option<String> },
}

impl SessionEntry {
    /// The shared base of an entry.
    pub open spec fn base_spec(&self) -> EntryBase {
        match self {
            SessionEntry::Message { base, .. } => *base,
            SessionEntry::ThinkingLevelChange { base, .. } => *base,
            SessionEntry::ModelChange { base, .. } => *base,
            SessionEntry::Compaction { base, .. } => *base,
            SessionEntry::BranchSummary { base, .. } => *base,
            SessionEntry::Custom { base, .. } => *base,
            SessionEntry::CustomMessage { base, .. } => *base,
            SessionEntry::Label { base, .. } => *base,
            SessionEntry::SessionInfo { base, .. } => *base,
        }
    }

    /// The entry's id, as data.
    pub open spec fn id_spec(&self) -> Seq<char> {
        self.base_spec().id@
    }

    /// The entry's parent id, as data.
    pub open spec fn parent_spec(&self) -> Option<Seq<char>> {
        match self.base_spec().parent_id {
            Some(p) => Some(p@),
            None => None,
        }
    }

    fn base_ref(&self) -> (r: &EntryBase)
        ensures
            *r == self.base_spec(),
    {
        match self {
            SessionEntry::Message { base, .. } => base,
            SessionEntry::ThinkingLevelChange { base, .. } => base,
            SessionEntry::ModelChange { base, .. } => base,
            SessionEntry::Compaction { base, .. } => base,
            SessionEntry::BranchSummary { base, .. } => base,
            SessionEntry::Custom { base, .. } => base,
            SessionEntry::CustomMessage { base, .. } => base,
            SessionEntry::Label { base, .. } => base,
            SessionEntry::SessionInfo { base, .. } => base,
        }
    }

    /// The entry's id (its identity in the entry tree).
    pub fn id(&self) -> (r: &str)
        ensures
            r@ == self.id_spec(),
    {
        self.base_ref().id.as_str()
    }

    /// The entry's parent id; `None` for a root.
    pub fn parent_id(&self) -> (r: Option<&str>)
        ensures
            match r {
                Some(p) => self.parent_spec() == Some(p@),
                None => self.parent_spec() is None,
            },
    {
        match &self.base_ref().parent_id {
            Some(p) => Some(p.as_str()),
            None => None,
        }
    }
}

/// A line of a session file: the header or an entry.
#[derive(Debug, Clone, PartialEq, Eq)]
pub enum FileEntry {
    Header(SessionHeader),
    Entry(SessionEntry),
}

} // verus!

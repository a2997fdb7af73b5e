use pi_rs::session::context::{
    build_context_entries, build_session_path, session_entry_to_context_messages, ContextContribution,
};
use pi_rs::session::entry::{EntryBase, FileEntry, SessionEntry};
use pi_rs::session::header::{header_type, SessionHeader, CURRENT_SESSION_VERSION};
use pi_rs::session::migrate::migrate_to_current_version;
use pi_rs::session::naming::{session_dir_slug, session_file_name};
use pi_rs::session::parse::{classify_session_lines, line_kind, session_lines, LineKind};

fn base(id: &str, parent: Option<&str>) -> EntryBase {
    EntryBase { id: id.into(), parent_id: parent.map(str::to_string), timestamp: "t".into() }
}

fn user_message() -> serde_json::Value {
    let mut m = serde_json::Map::new();
    m.insert("role".into(), serde_json::Value::String("user".into()));
    m.insert("content".into(), serde_json::Value::String("hi".into()));
    serde_json::Value::Object(m)
}

fn msg(id: &str, parent: Option<&str>) -> SessionEntry {
    SessionEntry::Message { base: base(id, parent), message: user_message() }
}

fn compaction(id: &str, parent: Option<&str>, kept: Option<&str>) -> SessionEntry {
    SessionEntry::Compaction {
        base: base(id, parent),
        summary: "s".into(),
        first_kept_entry_id: kept.map(str::to_string),
        first_kept_entry_index: None,
        tokens_before: 100,
        details: None,
        usage: None,
        from_hook: None,
    }
}

fn v1_header() -> FileEntry {
    FileEntry::Header(SessionHeader {
        type_tag: header_type(),
        version: None,
        id: "h".into(),
        timestamp: "t".into(),
        cwd: "/c".into(),
        parent_session: None,
    })
}

#[test]
fn slug_strips_leading_separator_and_dashes_the_rest() {
    assert_eq!(session_dir_slug("/Users/simonsanladerer/git/pi-rs"), "--Users-simonsanladerer-git-pi-rs--");
    assert_eq!(session_dir_slug("C:\\Users\\simon"), "--C--Users-simon--");
    assert_eq!(session_dir_slug("/a:b"), "--a-b--");
}

#[test]
fn file_name_replaces_colons_and_dots_in_timestamp() {
    let name = session_file_name("2026-07-25T12:34:56.789Z", "0197d001-uuidv7");
    assert_eq!(name, "2026-07-25T12-34-56-789Z_0197d001-uuidv7.jsonl");
}

#[test]
fn base_helper_compiles() {
    let _ = base("custom", None);
}

#[test]
fn entry_id_and_parent_id_accessors() {
    let entry = SessionEntry::ThinkingLevelChange { base: base("e1", Some("p1")), thinking_level: "high".into() };
    assert_eq!(entry.id(), "e1");
    assert_eq!(entry.parent_id(), Some("p1"));
    assert_eq!(msg("r", None).parent_id(), None);
}

#[test]
fn header_new_is_current_version() {
    let h = SessionHeader::new("id".into(), "ts".into(), "/cwd".into());
    assert_eq!(h.version, Some(CURRENT_SESSION_VERSION));
    assert_eq!(h.type_tag, "session");
    assert_eq!(h.parent_session, None);
}

#[test]
fn path_walks_leaf_to_root_reversed() {
    let entries = vec![msg("m1", None), msg("m2", Some("m1")), msg("m3", Some("m2"))];
    let path = build_session_path(&entries, Some("m3"));
    assert_eq!(path.iter().map(|e| e.id()).collect::<Vec<_>>(), vec!["m1", "m2", "m3"]);
}

#[test]
fn path_defaults_to_last_entry_and_follows_branches() {
    let entries = vec![msg("m1", None), msg("a", Some("m1")), msg("b", Some("m1"))];
    let path = build_session_path(&entries, None);
    assert_eq!(path.iter().map(|e| e.id()).collect::<Vec<_>>(), vec!["m1", "b"]);
    let path = build_session_path(&entries, Some("a"));
    assert_eq!(path.iter().map(|e| e.id()).collect::<Vec<_>>(), vec!["m1", "a"]);
    let path = build_session_path(&entries, Some("missing"));
    assert_eq!(path.iter().map(|e| e.id()).collect::<Vec<_>>(), vec!["m1", "b"]);
    let none: Vec<SessionEntry> = Vec::new();
    assert!(build_session_path(&none, None).is_empty());
}

#[test]
fn context_entries_without_compaction_is_the_path() {
    let entries = vec![msg("m1", None), msg("m2", Some("m1"))];
    let ctx = build_context_entries(&entries, Some("m2"));
    assert_eq!(ctx.len(), 2);
}

#[test]
fn context_entries_replaces_prefix_before_compaction() {
    let entries = vec![
        msg("m1", None),
        compaction("c1", Some("m1"), Some("m2")),
        msg("m2", Some("c1")),
        msg("m3", Some("m2")),
    ];
    let ctx = build_context_entries(&entries, Some("m3"));
    let ids: Vec<&str> = ctx.iter().map(|e| e.id()).collect();
    assert_eq!(ids, vec!["c1", "m2", "m3"], "m1 dropped, compaction + kept + after");
}

#[test]
fn context_keeps_entries_before_compaction_from_first_kept() {
    let entries = vec![
        msg("m1", None),
        msg("m2", Some("m1")),
        msg("m3", Some("m2")),
        compaction("c1", Some("m3"), Some("m2")),
        msg("m4", Some("c1")),
    ];
    let ctx = build_context_entries(&entries, None);
    let ids: Vec<&str> = ctx.iter().map(|e| e.id()).collect();
    assert_eq!(ids, vec!["c1", "m2", "m3", "m4"]);
    let entries = vec![msg("m1", None), compaction("c1", Some("m1"), None), msg("m2", Some("c1"))];
    let ctx = build_context_entries(&entries, None);
    let ids: Vec<&str> = ctx.iter().map(|e| e.id()).collect();
    assert_eq!(ids, vec!["c1", "m2"]);
}

#[test]
fn custom_does_not_contribute_custom_message_does() {
    let custom = SessionEntry::Custom { base: base("c1", None), custom_type: "x".into(), data: None };
    let custom_msg = SessionEntry::CustomMessage {
        base: base("cm1", None),
        custom_type: "x".into(),
        content: serde_json::Value::String("hi".into()),
        details: None,
        display: true,
    };
    assert_eq!(session_entry_to_context_messages(&custom), None);
    assert_eq!(session_entry_to_context_messages(&custom_msg), Some(ContextContribution::CustomMessage));
}

#[test]
fn label_and_session_info_do_not_contribute() {
    let label = SessionEntry::Label { base: base("l1", None), target_id: "x".into(), label: Some("m".into()) };
    let info = SessionEntry::SessionInfo { base: base("s1", None), name: Some("n".into()) };
    assert_eq!(session_entry_to_context_messages(&label), None);
    assert_eq!(session_entry_to_context_messages(&info), None);
}

#[test]
fn branch_summary_contributes_only_when_non_empty() {
    let summary = |s: &str| SessionEntry::BranchSummary {
        base: base("b", None),
        from_id: "x".into(),
        summary: s.into(),
        details: None,
        usage: None,
        from_hook: None,
    };
    assert_eq!(session_entry_to_context_messages(&summary("")), None);
    assert_eq!(session_entry_to_context_messages(&summary("s")), Some(ContextContribution::BranchSummary));
    assert_eq!(session_entry_to_context_messages(&msg("m", None)), Some(ContextContribution::Message));
}

#[test]
fn no_migration_needed_at_v3() {
    let mut entries = vec![FileEntry::Header(SessionHeader::new("h".into(), "t".into(), "/c".into()))];
    assert!(!migrate_to_current_version(&mut entries));
}

#[test]
fn v1_headed_to_v3_gets_version_and_ids() {
    let mut entries = vec![
        v1_header(),
        FileEntry::Entry(SessionEntry::Label {
            base: EntryBase { id: String::new(), parent_id: None, timestamp: "t".into() },
            target_id: "x".into(),
            label: Some("mark".into()),
        }),
    ];
    assert!(migrate_to_current_version(&mut entries));
    match &entries[0] {
        FileEntry::Header(h) => assert_eq!(h.version, Some(3)),
        _ => panic!("header moved"),
    }
    match &entries[1] {
        FileEntry::Entry(SessionEntry::Label { base, .. }) => {
            assert!(!base.id.is_empty(), "id assigned");
            assert_eq!(base.parent_id, None, "first entry has no parent");
        }
        _ => panic!("entry moved"),
    }
}

#[test]
fn v2_hook_message_role_renamed_to_custom() {
    let mut message = serde_json::Map::new();
    message.insert("role".into(), serde_json::Value::String("hookMessage".into()));
    message.insert("content".into(), serde_json::Value::String("hi".into()));
    let mut entries = vec![
        FileEntry::Header(SessionHeader {
            type_tag: header_type(),
            version: Some(2),
            id: "h".into(),
            timestamp: "t".into(),
            cwd: "/c".into(),
            parent_session: None,
        }),
        FileEntry::Entry(SessionEntry::Message {
            base: EntryBase { id: "m1".into(), parent_id: None, timestamp: "t".into() },
            message: serde_json::Value::Object(message),
        }),
    ];
    assert!(migrate_to_current_version(&mut entries));
    match &entries[1] {
        FileEntry::Entry(SessionEntry::Message { message, .. }) => {
            assert_eq!(message["role"], "custom", "hookMessage -> custom");
            assert_eq!(message["content"], "hi");
        }
        _ => panic!("entry moved"),
    }
}

#[test]
fn v1_ids_chain_parents_and_resolve_kept_index() {
    let mut entries = vec![
        v1_header(),
        FileEntry::Entry(SessionEntry::Message { base: base("", None), message: user_message() }),
        FileEntry::Entry(SessionEntry::Message { base: base("keep", None), message: user_message() }),
        FileEntry::Entry(SessionEntry::Compaction {
            base: base("", None),
            summary: "s".into(),
            first_kept_entry_id: None,
            first_kept_entry_index: Some(2),
            tokens_before: 1,
            details: None,
            usage: None,
            from_hook: None,
        }),
    ];
    assert!(migrate_to_current_version(&mut entries));
    let ids: Vec<String> = entries[1..]
        .iter()
        .map(|e| match e {
            FileEntry::Entry(x) => x.id().to_string(),
            _ => panic!("entry moved"),
        })
        .collect();
    assert_eq!(ids[0].len(), 8);
    assert!(ids[0].chars().all(|c| c.is_ascii_hexdigit()));
    assert_eq!(ids[1], "keep");
    assert_ne!(ids[2], ids[0]);
    match &entries[2] {
        FileEntry::Entry(e) => assert_eq!(e.parent_id(), Some(ids[0].as_str())),
        _ => panic!("entry moved"),
    }
    match &entries[3] {
        FileEntry::Entry(SessionEntry::Compaction { base, first_kept_entry_id, first_kept_entry_index, .. }) => {
            assert_eq!(base.parent_id.as_deref(), Some("keep"));
            assert_eq!(first_kept_entry_id.as_deref(), Some("keep"));
            assert_eq!(*first_kept_entry_index, None);
        }
        _ => panic!("entry moved"),
    }
    assert!(!migrate_to_current_version(&mut entries), "a migrated file needs no migration");
}

#[test]
fn empty_input_yields_no_entries() {
    assert!(classify_session_lines("").is_empty());
    assert!(classify_session_lines("\n\n  \n").is_empty());
}

#[test]
fn skips_blank_and_malformed_lines() {
    let contents = "\n{\"type\":\"session\",\"version\":3,\"id\":\"h\",\"timestamp\":\"t\",\"cwd\":\"/c\"}\nthis is not json\n\n{\"type\":\"label\",\"id\":\"l\",\"parentId\":null,\"timestamp\":\"t\",\"targetId\":\"x\"}\n";
    let lines = classify_session_lines(contents);
    assert_eq!(lines.len(), 2, "blank and malformed lines skipped");
    assert_eq!(lines[0].0, LineKind::Header);
    assert_eq!(lines[1].0, LineKind::Entry);
}

#[test]
fn session_lines_are_trimmed_and_non_blank() {
    assert_eq!(session_lines("  a \r\n\n b\n"), vec!["a".to_string(), "b".to_string()]);
}

#[test]
fn line_kind_reads_the_type_field() {
    let v: serde_json::Value = serde_json::from_str("{\"type\":\"session\"}").unwrap();
    assert_eq!(line_kind(&v), Some(LineKind::Header));
    let v: serde_json::Value = serde_json::from_str("{\"type\":\"message\"}").unwrap();
    assert_eq!(line_kind(&v), Some(LineKind::Entry));
    let v: serde_json::Value = serde_json::from_str("{\"type\":3}").unwrap();
    assert_eq!(line_kind(&v), None);
    let v: serde_json::Value = serde_json::from_str("[1]").unwrap();
    assert_eq!(line_kind(&v), None);
}

#[test]
fn v1_fresh_id_is_short_hex() {
    let mut entries = vec![
        v1_header(),
        FileEntry::Entry(SessionEntry::Label {
            base: EntryBase { id: String::new(), parent_id: None, timestamp: "t".into() },
            target_id: "x".into(),
            label: Some("mark".into()),
        }),
    ];
    assert!(migrate_to_current_version(&mut entries));
    match &entries[1] {
        FileEntry::Entry(SessionEntry::Label { base, target_id, label }) => {
            assert_eq!(base.id.len(), 8);
            assert!(base.id.chars().all(|c| c.is_ascii_digit() || ('a'..='f').contains(&c)));
            assert_eq!(target_id, "x");
            assert_eq!(label.as_deref(), Some("mark"));
        }
        _ => panic!("entry moved"),
    }
    let before = entries.clone();
    assert!(!migrate_to_current_version(&mut entries));
    assert_eq!(entries, before);
}

#[test]
fn v2_hook_message_keeps_other_fields() {
    let mut message = serde_json::Map::new();
    message.insert("role".into(), serde_json::Value::String("hookMessage".into()));
    message.insert("content".into(), serde_json::Value::String("hi".into()));
    message.insert("n".into(), serde_json::Value::from(7));
    let mut entries = vec![
        FileEntry::Header(SessionHeader {
            type_tag: header_type(),
            version: Some(2),
            id: "h".into(),
            timestamp: "t".into(),
            cwd: "/c".into(),
            parent_session: None,
        }),
        FileEntry::Entry(SessionEntry::Message {
            base: EntryBase { id: "m1".into(), parent_id: None, timestamp: "t".into() },
            message: serde_json::Value::Object(message.clone()),
        }),
    ];
    assert!(migrate_to_current_version(&mut entries));
    message.insert("role".into(), serde_json::Value::String("custom".into()));
    let expected = FileEntry::Entry(SessionEntry::Message {
        base: EntryBase { id: "m1".into(), parent_id: None, timestamp: "t".into() },
        message: serde_json::Value::Object(message),
    });
    assert_eq!(entries[1], expected);
}

use yulink::autostart::{
    approval_from_raw, command_line, enabled_mark, ensure_current, parse_registered_exe, same_exe,
    set_enabled, sync, RunEntryAction, Sync,
};

#[test]
fn parses_quoted_and_legacy_values() {
    assert_eq!(
        parse_registered_exe("\"C:\\a b\\YuLink.exe\""),
        "C:\\a b\\YuLink.exe"
    );
    assert_eq!(
        parse_registered_exe("\"C:\\a b\\YuLink.exe\" --minimized"),
        "C:\\a b\\YuLink.exe"
    );
    assert_eq!(parse_registered_exe("C:\\a\\YuLink.exe "), "C:\\a\\YuLink.exe");
    assert_eq!(
        parse_registered_exe("C:\\a\\YuLink.EXE --minimized"),
        "C:\\a\\YuLink.EXE"
    );
    assert_eq!(parse_registered_exe(""), "");
}

#[test]
fn compares_paths_loosely() {
    assert!(same_exe("C:\\Tools\\YuLink.exe", "c:/tools/yulink.exe"));
    assert!(same_exe("C:\\Tools\\YuLink.exe\\", "C:\\Tools\\YuLink.exe"));
    assert!(same_exe("\"C:\\Tools\\YuLink.exe\"", "C:\\Tools\\YuLink.exe"));
    assert!(!same_exe("C:\\Tools\\YuLinkc.exe", "C:\\Tools\\YuLink.exe"));
    assert!(!same_exe("", "C:\\Tools\\YuLink.exe"));
}

/// The self-healing flow of the startup entry, against a registry kept in
/// memory: missing entry, entry of a renamed program, current entry,
/// switched off.
#[test]
fn registry_entry_self_heals() {
    let exe = "C:\\Program Files\\YuLink\\YuLink.exe";
    let mut value: Option<String> = None;
    let mut approved: Option<Vec<u8>> = None;
    let mut apply = |action: RunEntryAction, value: &mut Option<String>, approved: &mut Option<Vec<u8>>| match action {
        RunEntryAction::Keep => {}
        RunEntryAction::Remove => {
            *value = None;
            *approved = None;
        }
        RunEntryAction::Write { command } => {
            *value = Some(command);
            *approved = Some(enabled_mark());
        }
    };

    // 1) missing entry: the current program is written
    let (found, action) = sync(true, exe, value.as_deref(), approved.as_deref().and_then(approval_from_raw));
    assert_eq!(found, Sync::Repaired { previous: None });
    apply(action, &mut value, &mut approved);
    let written = value.clone().expect("entry written");
    assert!(written.starts_with('"'), "entry must be quoted: {written}");
    assert_eq!(parse_registered_exe(&written), exe);

    // 2) entry names an old program: rewritten to the current one
    value = Some("\"D:\\Old\\yulink-v0.exe\"".to_string());
    let (found, action) = sync(true, exe, value.as_deref(), approved.as_deref().and_then(approval_from_raw));
    assert_eq!(
        found,
        Sync::Repaired {
            previous: Some("D:\\Old\\yulink-v0.exe".into())
        }
    );
    apply(action, &mut value, &mut approved);
    assert!(same_exe(&parse_registered_exe(value.as_deref().unwrap()), exe));

    // 3) current entry: nothing changes
    let (found, action) = sync(true, exe, value.as_deref(), approved.as_deref().and_then(approval_from_raw));
    assert_eq!(found, Sync::UpToDate);
    assert_eq!(action, RunEntryAction::Keep);

    // 4) switched off: entry and mark removed
    let (found, action) = sync(false, exe, value.as_deref(), approved.as_deref().and_then(approval_from_raw));
    assert_eq!(found, Sync::Disabled);
    apply(action, &mut value, &mut approved);
    assert_eq!(value, None);
    assert_eq!(approved, None);
}

#[test]
fn user_switch_in_task_manager_is_respected() {
    let mut disabled = vec![3u8];
    disabled.extend_from_slice(&[0x10, 0x20, 0, 0, 0, 0, 0, 0, 0, 0, 0]);
    assert_eq!(approval_from_raw(&disabled), Some(false));
    let (found, action) = sync(true, "C:\\YuLink.exe", Some("\"D:\\Old.exe\""), Some(false));
    assert_eq!(found, Sync::DisabledByUser);
    assert_eq!(action, RunEntryAction::Keep);
}

#[test]
fn approval_marks() {
    assert_eq!(approval_from_raw(&enabled_mark()), Some(true));
    assert_eq!(approval_from_raw(&[2, 0, 0]), None);
    assert_eq!(approval_from_raw(&[]), None);
    assert_eq!(enabled_mark().len(), 12);
}

#[test]
fn command_line_is_quoted_and_reads_back() {
    let exe = "C:\\a b\\YuLink.exe";
    assert_eq!(command_line(exe), "\"C:\\a b\\YuLink.exe\"");
    assert_eq!(parse_registered_exe(&command_line(exe)), exe);
}

#[test]
fn settings_switch_writes_or_removes() {
    assert_eq!(
        set_enabled(true, "C:\\YuLink.exe"),
        RunEntryAction::Write { command: "\"C:\\YuLink.exe\"".to_string() }
    );
    assert_eq!(set_enabled(false, "C:\\YuLink.exe"), RunEntryAction::Remove);
}

#[test]
fn watch_rewrites_only_a_stale_entry() {
    assert_eq!(ensure_current("C:\\YuLink.exe", None), (false, RunEntryAction::Keep));
    assert_eq!(
        ensure_current("C:\\YuLink.exe", Some("\"c:/yulink.exe\"")),
        (false, RunEntryAction::Keep)
    );
    assert_eq!(
        ensure_current("C:\\YuLink.exe", Some("\"D:\\Old\\YuLink.exe\"")),
        (true, RunEntryAction::Write { command: "\"C:\\YuLink.exe\"".to_string() })
    );
}

#[test]
fn path_comparison_is_symmetric_and_unicode_aware() {
    assert_eq!(same_exe("C:\\ÄÖ\\x.exe", "c:\\äö\\x.exe"), same_exe("c:\\äö\\x.exe", "C:\\ÄÖ\\x.exe"));
    assert!(same_exe("C:\\ÄÖ\\x.exe", "c:\\äö\\x.exe"));
    assert!(!same_exe("\"\"", "\"\""));
    assert!(same_exe("C:/x.exe", "c:\\X.EXE") && same_exe("c:\\X.EXE", "\"C:\\x.exe\"") && same_exe("C:/x.exe", "\"C:\\x.exe\""));
}

use wip_git::metadata::WipMetadata;

#[test]
fn test_roundtrip() {
    let meta = WipMetadata {
        message: "fix auth flow".to_string(),
        branch: "main".to_string(),
        task: Some("JIRA-123".to_string()),
        files: 3,
        untracked: 1,
    };

    let msg = meta.to_commit_message();
    let parsed = WipMetadata::from_commit_message(&msg);

    assert_eq!(parsed.message, "fix auth flow");
    assert_eq!(parsed.branch, "main");
    assert_eq!(parsed.task.as_deref(), Some("JIRA-123"));
    assert_eq!(parsed.files, 3);
    assert_eq!(parsed.untracked, 1);
}

#[test]
fn test_parse_without_task() {
    let meta = WipMetadata {
        message: "wip".to_string(),
        branch: "feature-x".to_string(),
        task: None,
        files: 5,
        untracked: 0,
    };

    let msg = meta.to_commit_message();
    let parsed = WipMetadata::from_commit_message(&msg);

    assert_eq!(parsed.message, "wip");
    assert_eq!(parsed.branch, "feature-x");
    assert!(parsed.task.is_none());
    assert_eq!(parsed.files, 5);
    assert_eq!(parsed.untracked, 0);
}

#[test]
fn test_parse_minimal() {
    let msg = "wip: stuff\n\n[wip-push]\nbranch=main\nfiles=0\nuntracked=0";
    let parsed = WipMetadata::from_commit_message(msg);

    assert_eq!(parsed.message, "stuff");
    assert_eq!(parsed.branch, "main");
    assert!(parsed.task.is_none());
    assert_eq!(parsed.files, 0);
    assert_eq!(parsed.untracked, 0);
}

#[test]
fn commit_message_text_is_exact() {
    let meta = WipMetadata {
        message: "trying new approach".to_string(),
        branch: "feature/dual-mode".to_string(),
        task: Some("AUTH-123".to_string()),
        files: 3,
        untracked: 1,
    };
    assert_eq!(
        meta.to_commit_message(),
        "wip: trying new approach\n\n[wip-push]\nbranch=feature/dual-mode\ntask=AUTH-123\nfiles=3\nuntracked=1"
    );
}

#[test]
fn parse_ignores_fields_before_marker() {
    let msg = "wip: hello\nbranch=nope\n\n[wip-push]\nfiles=7";
    let parsed = WipMetadata::from_commit_message(msg);
    assert_eq!(parsed.message, "hello\nbranch=nope");
    assert_eq!(parsed.branch, "");
    assert_eq!(parsed.files, 7);
}

#[test]
fn parse_multi_line_description() {
    let msg = "wip: a\nb\n\n[wip-push]\nbranch=m\nfiles=1\nuntracked=0";
    let parsed = WipMetadata::from_commit_message(msg);
    assert_eq!(parsed.message, "a\nb");
    assert_eq!(parsed.branch, "m");
    assert_eq!(parsed.files, 1);
    assert_eq!(parsed.untracked, 0);
}

#[test]
fn roundtrip_multi_line_description() {
    let meta = WipMetadata {
        message: "first line\n\nsecond paragraph\n".to_string(),
        branch: "dev".to_string(),
        task: None,
        files: 2,
        untracked: 0,
    };
    let parsed = WipMetadata::from_commit_message(&meta.to_commit_message());
    assert_eq!(parsed.message, "first line\n\nsecond paragraph\n");
    assert_eq!(parsed.branch, "dev");
    assert_eq!(parsed.files, 2);
}

#[test]
fn parse_description_starts_at_wip_line() {
    let msg = "preamble\nwip: real\nmore\n[wip-push]\nbranch=x";
    let parsed = WipMetadata::from_commit_message(msg);
    assert_eq!(parsed.message, "real\nmore");
    assert_eq!(parsed.branch, "x");
}

#[test]
fn parse_git_log_output_with_trailing_newline() {
    let msg = "wip: saved\n\n[wip-push]\nbranch=main\ntask=T-1\nfiles=4\nuntracked=2\n";
    let parsed = WipMetadata::from_commit_message(msg);
    assert_eq!(parsed.message, "saved");
    assert_eq!(parsed.task.as_deref(), Some("T-1"));
    assert_eq!(parsed.files, 4);
    assert_eq!(parsed.untracked, 2);
}

#[test]
fn parse_bad_counts_read_as_zero() {
    let msg = "wip: x\n[wip-push]\nfiles=lots\nuntracked=-1";
    let parsed = WipMetadata::from_commit_message(msg);
    assert_eq!(parsed.files, 0);
    assert_eq!(parsed.untracked, 0);
}

#[test]
fn parse_marker_with_spaces_and_crlf() {
    let msg = "wip: windows\r\n\r\n  [wip-push]  \r\nbranch=dev\r\nuntracked=+4";
    let parsed = WipMetadata::from_commit_message(msg);
    assert_eq!(parsed.message, "windows");
    assert_eq!(parsed.branch, "dev");
    assert_eq!(parsed.untracked, 4);
}

#[test]
fn parse_without_trailer() {
    let parsed = WipMetadata::from_commit_message("just a message");
    assert_eq!(parsed.message, "");
    assert_eq!(parsed.branch, "");
    assert!(parsed.task.is_none());
}

use wip_git::commands::drop::DropResult;
use wip_git::commands::gc::{ExpiredEntry, GcResult};
use wip_git::commands::list::{ListResult, WipEntry};
use wip_git::commands::load::LoadResult;
use wip_git::commands::save::SaveResult;
use wip_git::commands::show::ShowResult;
use wip_git::metadata::WipMetadata;
use wip_git::report::{drop_reply, gc_reply, list_reply, load_reply, save_reply, show_reply};

fn saved(clean: bool, stashed: bool, task: Option<&str>) -> SaveResult {
    SaveResult {
        name: "auth-fix-01".to_string(),
        wip_ref: "refs/wip/alice/auth-fix-01".to_string(),
        sha: "0123456789abcdef".to_string(),
        files: 3,
        untracked: 1,
        task: task.map(|t| t.to_string()),
        clean,
        stashed,
    }
}

#[test]
fn save_reply_saved_with_task() {
    assert_eq!(
        save_reply(&saved(false, false, Some("JIRA-1"))),
        "Saved \"auth-fix-01\" → refs/wip/alice/auth-fix-01 (0123456)\n3 files, 1 untracked\nTask: JIRA-1"
    );
}

#[test]
fn save_reply_stashed_without_task() {
    assert_eq!(
        save_reply(&saved(false, true, None)),
        "Stashed \"auth-fix-01\" → refs/wip/alice/auth-fix-01 (0123456)\n3 files, 1 untracked"
    );
}

#[test]
fn save_reply_clean_tree() {
    let mut r = saved(true, false, None);
    r.sha = String::new();
    assert_eq!(save_reply(&r), "Nothing to save — working tree clean.");
}

fn loaded(conflicts: bool, popped: bool, auto_stashed: bool) -> LoadResult {
    LoadResult { name: "x".to_string(), conflicts, popped, auto_stashed }
}

#[test]
fn load_reply_variants() {
    assert_eq!(load_reply(&loaded(false, false, false)), "Loaded \"x\" successfully.");
    assert_eq!(
        load_reply(&loaded(false, true, true)),
        "Loaded \"x\" successfully.\nAuto-stashed local changes restored.\nRemote ref dropped."
    );
    assert_eq!(
        load_reply(&loaded(true, false, true)),
        "Loaded \"x\" with CONFLICTS — resolve them manually.\nLocal changes stashed — run 'git stash pop' after resolving."
    );
    assert_eq!(load_reply(&loaded(true, false, false)), "Loaded \"x\" with CONFLICTS — resolve them manually.");
}

fn meta(message: &str, task: Option<&str>) -> WipMetadata {
    WipMetadata {
        message: message.to_string(),
        branch: "main".to_string(),
        task: task.map(|t| t.to_string()),
        files: 2,
        untracked: 0,
    }
}

#[test]
fn show_reply_text() {
    let r = ShowResult { name: "s".to_string(), metadata: meta("hi", Some("T-9")), diff: "diff --git a b".to_string() };
    assert_eq!(
        show_reply(&r),
        "WIP: s\n  message: hi\n  branch: main\n  files: 2, untracked: 0\n  task: T-9\n\ndiff --git a b"
    );
}

#[test]
fn drop_reply_text() {
    let r = DropResult { name: "d".to_string(), wip_ref: "refs/wip/u/d".to_string() };
    assert_eq!(drop_reply(&r), "Dropped \"d\" (refs/wip/u/d)");
}

fn entry(name: &str, sha: &str, message: &str, task: Option<&str>) -> WipEntry {
    WipEntry {
        name: name.to_string(),
        user: "alice".to_string(),
        sha: sha.to_string(),
        metadata: meta(message, task),
        timestamp: 0,
    }
}

#[test]
fn list_reply_lines() {
    let r = ListResult {
        entries: vec![
            entry("a", "abcdef0123", "working on it", Some("P-1")),
            entry("b", "abc", "wip", None),
            entry("c", "1234567", "", None),
        ],
    };
    let ages = vec!["5m ago".to_string(), "just now".to_string(), "2d ago".to_string()];
    assert_eq!(
        list_reply(&r, &ages),
        "alice/a abcdef0 \"working on it\" main 5m ago [P-1]\nalice/b abc main just now\nalice/c 1234567 main 2d ago"
    );
}

#[test]
fn list_reply_empty() {
    let r = ListResult { entries: vec![] };
    assert_eq!(list_reply(&r, &vec![]), "No WIP entries found.");
}

fn expired(name: &str, age_days: i64) -> ExpiredEntry {
    ExpiredEntry { name: name.to_string(), wip_ref: format!("refs/wip/u/{name}"), age_days }
}

#[test]
fn gc_reply_dry_run() {
    let r = GcResult { entries: vec![expired("old", 40), expired("older", 90)], dry_run: true };
    assert_eq!(
        gc_reply(&r),
        "would drop old (40d old)\nwould drop older (90d old)\n\n2 entries would be dropped. Run without dry_run to delete."
    );
}

#[test]
fn gc_reply_dropped_and_empty() {
    let r = GcResult { entries: vec![expired("old", 31), expired("skew", -1)], dry_run: false };
    assert_eq!(gc_reply(&r), "dropped old (31d old)\ndropped skew (-1d old)");
    let none = GcResult { entries: vec![], dry_run: false };
    assert_eq!(gc_reply(&none), "Nothing to clean.");
}

#[test]
fn save_reply_cuts_id_after_seven_bytes() {
    let mut r = saved(false, false, None);
    r.sha = "abcdeé€".to_string();
    assert_eq!(
        save_reply(&r),
        "Saved \"auth-fix-01\" → refs/wip/alice/auth-fix-01 (abcdeé)\n3 files, 1 untracked"
    );
}

#[test]
fn list_reply_keeps_short_non_ascii_id() {
    let r = ListResult { entries: vec![entry("a", "é", "", None), entry("b", "aéééx", "", None)] };
    let ages = vec!["just now".to_string(), "1h ago".to_string()];
    assert_eq!(list_reply(&r, &ages), "alice/a é main just now\nalice/b aééé main 1h ago");
}

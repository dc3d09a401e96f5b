//! Commands driven against scripted `git` answers: each call a command asks
//! for is checked against the script and answered from it.

use wip_git::commands::{self, Action};
use wip_git::git::GitOutput;
use wip_git::metadata::WipMetadata;

type Reply = Result<GitOutput, String>;

fn ok(stdout: &str) -> Reply {
    Ok(GitOutput { stdout: stdout.to_string(), stderr: String::new() })
}

fn ok_err(stdout: &str, stderr: &str) -> Reply {
    Ok(GitOutput { stdout: stdout.to_string(), stderr: stderr.to_string() })
}

fn fail(msg: &str) -> Reply {
    Err(msg.to_string())
}

fn drive<S, T>(
    start: (S, Action<T>),
    resume: impl Fn(S, Reply) -> (S, Action<T>),
    script: Vec<(Vec<String>, Reply)>,
) -> Result<T, String> {
    let (mut state, mut action) = start;
    let mut script = script.into_iter();
    loop {
        match action {
            Action::Done(r) => {
                assert!(script.next().is_none(), "the command ended before the script did");
                return r;
            }
            Action::Git(call) => {
                let (expected, reply) = script.next().expect("a call the script does not hold");
                assert_eq!(call.args, expected);
                let (s, a) = resume(state, reply);
                state = s;
                action = a;
            }
        }
    }
}

fn call(args: &[&str]) -> Vec<String> {
    args.iter().map(|a| a.to_string()).collect()
}

/// `wip.user` unset, `user.name` is "Test User": the user is `test-user`.
fn user_steps() -> Vec<(Vec<String>, Reply)> {
    vec![
        (call(&["config", "wip.user"]), fail("git config wip.user failed: ")),
        (call(&["config", "user.name"]), ok("Test User")),
    ]
}

fn message(meta: &WipMetadata) -> String {
    meta.to_commit_message()
}

fn meta(msg: &str, branch: &str, task: Option<&str>, files: usize, untracked: usize) -> WipMetadata {
    WipMetadata {
        message: msg.to_string(),
        branch: branch.to_string(),
        task: task.map(|t| t.to_string()),
        files,
        untracked,
    }
}

/// The calls of a save of one new file under `name` (already numbered).
fn save_steps(base: &str, name: &str, listing: &str, msg: &str, task: Option<&str>, stash: bool) -> Vec<(Vec<String>, Reply)> {
    let wip_ref = format!("refs/wip/test-user/{name}");
    let mut steps = user_steps();
    steps.push((call(&["ls-remote", "origin", &format!("refs/wip/test-user/{base}-*")]), ok(listing)));
    steps.push((call(&["rev-parse", "HEAD"]), ok("1111111111111111111111111111111111111111")));
    steps.push((call(&["rev-parse", "--abbrev-ref", "HEAD"]), ok("master")));
    steps.push((call(&["add", "-A"]), ok("")));
    steps.push((call(&["status", "--porcelain"]), ok("A  work.txt")));
    let m = message(&meta(msg, "master", task, 1, 1));
    steps.push((call(&["commit", "--allow-empty", "-m", &m]), ok("")));
    steps.push((call(&["rev-parse", "HEAD"]), ok("2222222222222222222222222222222222222222")));
    steps.push((
        call(&["push", "origin", &format!("2222222222222222222222222222222222222222:{wip_ref}"), "--force"]),
        ok(""),
    ));
    if stash {
        steps.push((call(&["reset", "1111111111111111111111111111111111111111", "--hard"]), ok("")));
        steps.push((call(&["clean", "-fd"]), ok("")));
    } else {
        steps.push((call(&["reset", "1111111111111111111111111111111111111111", "--mixed"]), ok("")));
    }
    steps
}

#[test]
fn test_save_and_list() {
    let r = drive(
        commands::save::run(Some("my-wip".into()), "test save".into(), None, false, false, false, "origin".into()),
        commands::save::resume,
        save_steps("my-wip", "my-wip-01", "", "test save", None, false),
    )
    .unwrap();
    assert!(!r.clean);
    assert_eq!(r.name, "my-wip-01");
    assert_eq!(r.wip_ref, "refs/wip/test-user/my-wip-01");

    let mut steps = user_steps();
    steps.push((
        call(&["ls-remote", "origin", "refs/wip/test-user/*"]),
        ok("2222222222222222222222222222222222222222\trefs/wip/test-user/my-wip-01"),
    ));
    steps.push((call(&["fetch", "origin", "refs/wip/test-user/my-wip-01"]), ok("")));
    steps.push((call(&["log", "-1", "--format=%B", "FETCH_HEAD"]), ok(&message(&meta("test save", "master", None, 1, 1)))));
    steps.push((call(&["log", "-1", "--format=%ct", "FETCH_HEAD"]), ok("1700000000")));
    let l = drive(commands::list::run(false, None, "origin".into()), commands::list::resume, steps).unwrap();
    assert_eq!(l.entries.len(), 1);
    assert_eq!(l.entries[0].name, "my-wip-01");
    assert_eq!(l.entries[0].user, "test-user");
    assert_eq!(l.entries[0].metadata.message, "test save");
    assert_eq!(l.entries[0].timestamp, 1700000000);
}

fn auto_named_save(name: &str, listing: &str, msg: &str) -> commands::save::SaveResult {
    drive(
        commands::save::run(None, msg.into(), None, false, false, false, "origin".into()),
        commands::save::resume,
        {
            let mut steps = save_steps("master", name, listing, msg, None, false);
            steps.insert(2, (call(&["rev-parse", "--abbrev-ref", "HEAD"]), ok("master")));
            steps
        },
    )
    .unwrap()
}

#[test]
fn test_save_auto_increment() {
    let first = auto_named_save("master-01", "", "first");
    assert!(first.name.ends_with("-01"), "first save should be -01: {}", first.name);

    let listing = "2222222222222222222222222222222222222222\trefs/wip/test-user/master-01";
    let second = auto_named_save("master-02", listing, "second");
    assert!(second.name.ends_with("-02"), "second save should be -02: {}", second.name);

    let mut steps = user_steps();
    steps.push((
        call(&["ls-remote", "origin", "refs/wip/test-user/*"]),
        ok("2222222222222222222222222222222222222222\trefs/wip/test-user/master-01\n\
            2222222222222222222222222222222222222222\trefs/wip/test-user/master-02"),
    ));
    for (n, msg, ts) in [("master-01", "first", "1700000000"), ("master-02", "second", "1700000100")] {
        let r = format!("refs/wip/test-user/{n}");
        steps.push((call(&["fetch", "origin", &r]), ok("")));
        steps.push((call(&["log", "-1", "--format=%B", "FETCH_HEAD"]), ok(&message(&meta(msg, "master", None, 1, 1)))));
        steps.push((call(&["log", "-1", "--format=%ct", "FETCH_HEAD"]), ok(ts)));
    }
    let l = drive(commands::list::run(false, None, "origin".into()), commands::list::resume, steps).unwrap();
    let names: Vec<&str> = l.entries.iter().map(|e| e.name.as_str()).collect();
    assert!(names.iter().any(|n| n.ends_with("-01")), "list should contain -01");
    assert!(names.iter().any(|n| n.ends_with("-02")), "list should contain -02");
}

#[test]
fn test_save_duplicate_without_force() {
    let first = drive(
        commands::save::run(Some("dup-name".into()), "wip".into(), None, false, false, false, "origin".into()),
        commands::save::resume,
        save_steps("dup-name", "dup-name-01", "", "wip", None, false),
    )
    .unwrap();
    assert_eq!(first.name, "dup-name-01");

    let listing = "2222222222222222222222222222222222222222\trefs/wip/test-user/dup-name-01";
    let second = drive(
        commands::save::run(Some("dup-name".into()), "wip".into(), None, false, false, false, "origin".into()),
        commands::save::resume,
        save_steps("dup-name", "dup-name-02", listing, "wip", None, false),
    )
    .unwrap();
    assert_eq!(second.name, "dup-name-02");
    assert_eq!(second.wip_ref, "refs/wip/test-user/dup-name-02");
}

#[test]
fn test_save_auto_name() {
    let r = drive(
        commands::save::run(None, "auto-named".into(), None, false, false, false, "origin".into()),
        commands::save::resume,
        {
            let mut steps = save_steps("feature-login", "feature-login-01", "", "auto-named", None, false);
            steps.insert(2, (call(&["rev-parse", "--abbrev-ref", "HEAD"]), ok("Feature/Login")));
            steps
        },
    )
    .unwrap();
    assert_eq!(r.name, "feature-login-01");
}

#[test]
fn test_save_force_overwrite() {
    let mut steps = user_steps();
    steps.push((call(&["rev-parse", "HEAD"]), ok("1111111111111111111111111111111111111111")));
    steps.push((call(&["rev-parse", "--abbrev-ref", "HEAD"]), ok("master")));
    steps.push((call(&["add", "-A"]), ok("")));
    steps.push((call(&["status", "--porcelain"]), ok("M  v1.txt\nA  v2.txt")));
    let m = message(&meta("wip", "master", None, 2, 1));
    steps.push((call(&["commit", "--allow-empty", "-m", &m]), ok("")));
    steps.push((call(&["rev-parse", "HEAD"]), ok("3333333")));
    steps.push((call(&["push", "origin", "3333333:refs/wip/test-user/overwrite-me", "--force"]), ok("")));
    steps.push((call(&["reset", "1111111111111111111111111111111111111111", "--mixed"]), ok("")));
    let r = drive(
        commands::save::run(Some("overwrite-me".into()), "wip".into(), None, true, false, false, "origin".into()),
        commands::save::resume,
        steps,
    )
    .unwrap();
    assert_eq!(r.name, "overwrite-me");
    assert_eq!(r.files, 2);
    assert_eq!(r.untracked, 1);
}

#[test]
fn test_save_clean_tree() {
    let mut steps = user_steps();
    steps.push((call(&["ls-remote", "origin", "refs/wip/test-user/clean-test-*"]), ok("")));
    steps.push((call(&["rev-parse", "HEAD"]), ok("1111111")));
    steps.push((call(&["rev-parse", "--abbrev-ref", "HEAD"]), ok("master")));
    steps.push((call(&["add", "-A"]), ok("")));
    steps.push((call(&["status", "--porcelain"]), ok("")));
    let r = drive(
        commands::save::run(Some("clean-test".into()), "wip".into(), None, false, false, false, "origin".into()),
        commands::save::resume,
        steps,
    )
    .unwrap();
    assert!(r.clean);
    assert_eq!(r.sha, "");
    assert_eq!(r.files, 0);
}

#[test]
fn test_save_with_stash() {
    let r = drive(
        commands::save::run(Some("stash-test".into()), "wip".into(), None, false, false, true, "origin".into()),
        commands::save::resume,
        save_steps("stash-test", "stash-test-01", "", "wip", None, true),
    )
    .unwrap();
    assert!(r.stashed);
}

#[test]
fn test_save_with_task() {
    let r = drive(
        commands::save::run(
            Some("task-test".into()),
            "for ticket".into(),
            Some("PROJ-42".into()),
            false,
            false,
            false,
            "origin".into(),
        ),
        commands::save::resume,
        save_steps("task-test", "task-test-01", "", "for ticket", Some("PROJ-42"), false),
    )
    .unwrap();
    assert_eq!(r.task.as_deref(), Some("PROJ-42"));
}

#[test]
fn save_push_failure_resets_first() {
    let mut steps = save_steps("x", "x-01", "", "wip", None, false);
    let n = steps.len();
    steps[n - 2].1 = fail("git push failed: denied");
    let r = drive(
        commands::save::run(Some("x".into()), "wip".into(), None, false, false, false, "origin".into()),
        commands::save::resume,
        steps,
    );
    assert_eq!(r.err().unwrap(), "git push failed: denied");
}

#[test]
fn save_unreachable_remote() {
    let mut steps = user_steps();
    steps.push((call(&["ls-remote", "nowhere", "refs/wip/test-user/x-*"]), fail("boom")));
    let r = drive(
        commands::save::run(Some("x".into()), "wip".into(), None, false, false, false, "nowhere".into()),
        commands::save::resume,
        steps,
    );
    assert_eq!(r.err().unwrap(), "could not reach remote 'nowhere': boom");
}

fn load_steps(name: &str, dirty: bool, pick: Reply, extra: &[&str]) -> Vec<(Vec<String>, Reply)> {
    let wip_ref = format!("refs/wip/test-user/{name}");
    let mut steps = user_steps();
    steps.push((call(&["status", "--porcelain"]), ok(if dirty { "?? unrelated.txt" } else { "" })));
    if dirty {
        steps.push((call(&["stash", "push", "--include-untracked", "-m", "wip-push autostash"]), ok("")));
    }
    steps.push((call(&["fetch", "origin", &wip_ref]), ok("")));
    let mut pick_args = vec!["cherry-pick", "--no-commit", "FETCH_HEAD"];
    pick_args.extend_from_slice(extra);
    steps.push((call(&pick_args), pick));
    steps
}

#[test]
fn test_save_and_load() {
    let mut steps = load_steps("restore-test-01", false, ok(""), &[]);
    steps.push((call(&["reset", "HEAD"]), ok("")));
    let r = drive(
        commands::load::run("restore-test-01".into(), false, false, false, "origin".into()),
        commands::load::resume,
        steps,
    )
    .unwrap();
    assert_eq!(r.name, "restore-test-01");
    assert!(!r.conflicts);
    assert!(!r.popped);
    assert!(!r.auto_stashed);
}

#[test]
fn test_load_with_pop() {
    let mut steps = load_steps("pop-test-01", false, ok(""), &[]);
    steps.push((call(&["reset", "HEAD"]), ok("")));
    steps.push((call(&["push", "origin", ":refs/wip/test-user/pop-test-01"]), ok("")));
    let r = drive(
        commands::load::run("pop-test-01".into(), true, false, false, "origin".into()),
        commands::load::resume,
        steps,
    )
    .unwrap();
    assert!(r.popped);
}

#[test]
fn test_load_with_conflict() {
    let steps = load_steps("conflict-test-01", false, ok_err("", "CONFLICT (content): Merge conflict in README"), &[]);
    let r = drive(
        commands::load::run("conflict-test-01".into(), false, false, false, "origin".into()),
        commands::load::resume,
        steps,
    )
    .unwrap();
    assert!(r.conflicts);
}

#[test]
fn test_load_with_theirs() {
    let mut steps = load_steps("theirs-test-01", false, ok(""), &["--strategy-option", "theirs"]);
    steps.push((call(&["reset", "HEAD"]), ok("")));
    let r = drive(
        commands::load::run("theirs-test-01".into(), false, true, false, "origin".into()),
        commands::load::resume,
        steps,
    )
    .unwrap();
    assert!(!r.conflicts);
}

#[test]
fn test_load_dirty_tree_autostash() {
    let mut steps = load_steps("dirty-test-01", true, ok(""), &[]);
    steps.push((call(&["reset", "HEAD"]), ok("")));
    steps.push((call(&["stash", "pop"]), ok("")));
    let r = drive(
        commands::load::run("dirty-test-01".into(), false, false, false, "origin".into()),
        commands::load::resume,
        steps,
    )
    .unwrap();
    assert!(r.auto_stashed);
    assert!(!r.conflicts);
}

#[test]
fn load_conflict_keeps_autostash() {
    let steps = load_steps("c-01", true, ok_err("CONFLICT (add/add)", ""), &[]);
    let r = drive(
        commands::load::run("c-01".into(), false, false, false, "origin".into()),
        commands::load::resume,
        steps,
    )
    .unwrap();
    assert!(r.auto_stashed);
    assert!(r.conflicts);
}

#[test]
fn load_failed_pick_is_an_error() {
    let steps = load_steps("e-01", false, ok_err("", "error: could not apply"), &["--strategy-option", "ours"]);
    let r = drive(
        commands::load::run("e-01".into(), false, false, true, "origin".into()),
        commands::load::resume,
        steps,
    );
    assert_eq!(r.err().unwrap(), "cherry-pick failed: error: could not apply");
}

#[test]
fn load_by_position() {
    let mut steps = user_steps();
    steps.push((
        call(&["ls-remote", "origin", "refs/wip/test-user/*"]),
        ok("aaa\trefs/wip/test-user/old-01\nbbb\trefs/wip/test-user/new-01\nccc\trefs/wip/test-user/mid-01"),
    ));
    for (name, t) in [("old-01", "100"), ("new-01", "300"), ("mid-01", "200")] {
        steps.push((call(&["fetch", "origin", &format!("refs/wip/test-user/{name}")]), ok("")));
        steps.push((call(&["log", "-1", "--format=%ct", "FETCH_HEAD"]), ok(t)));
    }
    steps.push((call(&["status", "--porcelain"]), ok("")));
    steps.push((call(&["fetch", "origin", "refs/wip/test-user/mid-01"]), ok("")));
    steps.push((call(&["cherry-pick", "--no-commit", "FETCH_HEAD"]), ok("")));
    steps.push((call(&["reset", "HEAD"]), ok("")));
    let r = drive(
        commands::load::run("1".into(), false, false, false, "origin".into()),
        commands::load::resume,
        steps,
    )
    .unwrap();
    assert_eq!(r.name, "mid-01");
}

#[test]
fn show_position_out_of_range() {
    let mut steps = user_steps();
    steps.push((call(&["ls-remote", "origin", "refs/wip/test-user/*"]), ok("")));
    let r = drive(commands::show::run("0".into(), "origin".into()), commands::show::resume, steps);
    assert_eq!(r.err().unwrap(), "no WIP entry at index 0");
}

#[test]
fn test_save_and_show() {
    let mut steps = user_steps();
    steps.push((call(&["fetch", "origin", "refs/wip/test-user/show-test-01"]), ok("")));
    steps.push((call(&["log", "-1", "--format=%B", "FETCH_HEAD"]), ok(&message(&meta("showing", "master", None, 1, 1)))));
    steps.push((call(&["diff", "FETCH_HEAD~1..FETCH_HEAD"]), ok("diff --git a/show-me.txt b/show-me.txt")));
    let r = drive(commands::show::run("show-test-01".into(), "origin".into()), commands::show::resume, steps).unwrap();
    assert_eq!(r.name, "show-test-01");
    assert_eq!(r.metadata.message, "showing");
    assert!(r.diff.contains("show-me.txt"));
}

#[test]
fn test_save_and_drop() {
    let mut steps = user_steps();
    steps.push((call(&["push", "origin", ":refs/wip/test-user/drop-me"]), ok("")));
    let r = drive(commands::drop::run("drop-me".into(), "origin".into()), commands::drop::resume, steps).unwrap();
    assert_eq!(r.name, "drop-me");
    assert_eq!(r.wip_ref, "refs/wip/test-user/drop-me");
}

#[test]
fn drop_uses_wip_user_as_is() {
    let steps = vec![
        (call(&["config", "wip.user"]), ok("Alice")),
        (call(&["push", "origin", ":refs/wip/Alice/x"]), fail("git push origin :refs/wip/Alice/x failed: nope")),
    ];
    let r = drive(commands::drop::run("x".into(), "origin".into()), commands::drop::resume, steps);
    assert_eq!(r.err().unwrap(), "git push origin :refs/wip/Alice/x failed: nope");
}

#[test]
fn test_list_shows_metadata() {
    let mut steps = user_steps();
    steps.push((
        call(&["ls-remote", "origin", "refs/wip/test-user/*"]),
        ok("abc\trefs/wip/test-user/meta-test-01\ndef\trefs/wip/test-user/other-01\n\n"),
    ));
    steps.push((call(&["fetch", "origin", "refs/wip/test-user/meta-test-01"]), ok("")));
    steps.push((
        call(&["log", "-1", "--format=%B", "FETCH_HEAD"]),
        ok(&message(&meta("halfway through OAuth", "master", Some("PROJ-42"), 1, 1))),
    ));
    steps.push((call(&["log", "-1", "--format=%ct", "FETCH_HEAD"]), ok("1700000000")));
    steps.push((call(&["fetch", "origin", "refs/wip/test-user/other-01"]), ok("")));
    steps.push((call(&["log", "-1", "--format=%B", "FETCH_HEAD"]), ok(&message(&meta("other", "master", None, 1, 0)))));
    let l = drive(
        commands::list::run(false, Some("PROJ-42".into()), "origin".into()),
        commands::list::resume,
        steps,
    )
    .unwrap();
    assert_eq!(l.entries.len(), 1);
    assert_eq!(l.entries[0].name, "meta-test-01");
    assert_eq!(l.entries[0].metadata.message, "halfway through OAuth");
    assert_eq!(l.entries[0].metadata.task.as_deref(), Some("PROJ-42"));
}

#[test]
fn list_all_users_and_bad_timestamp() {
    let mut steps = user_steps();
    steps.push((call(&["ls-remote", "origin", "refs/wip/*"]), ok("abc\trefs/wip/bob/x-01")));
    steps.push((call(&["fetch", "origin", "refs/wip/bob/x-01"]), ok("")));
    steps.push((call(&["log", "-1", "--format=%B", "FETCH_HEAD"]), ok("wip: x")));
    steps.push((call(&["log", "-1", "--format=%ct", "FETCH_HEAD"]), ok("soon")));
    let r = drive(commands::list::run(true, None, "origin".into()), commands::list::resume, steps);
    assert_eq!(r.err().unwrap(), "bad timestamp for refs/wip/bob/x-01");
}

#[test]
fn list_empty_remote() {
    let mut steps = user_steps();
    steps.push((call(&["ls-remote", "origin", "refs/wip/test-user/*"]), ok("")));
    let l = drive(commands::list::run(false, None, "origin".into()), commands::list::resume, steps).unwrap();
    assert!(l.entries.is_empty());
}

fn gc_steps(now_old: &str, dry_run: bool) -> Vec<(Vec<String>, Reply)> {
    let mut steps = user_steps();
    steps.push((
        call(&["ls-remote", "origin", "refs/wip/test-user/*"]),
        ok("abc\trefs/wip/test-user/gc-target"),
    ));
    steps.push((call(&["fetch", "origin", "refs/wip/test-user/gc-target"]), ok("")));
    steps.push((call(&["log", "-1", "--format=%ct", "FETCH_HEAD"]), ok(now_old)));
    if !dry_run {
        steps.push((call(&["push", "origin", ":refs/wip/test-user/gc-target"]), ok("")));
    }
    steps
}

#[test]
fn test_gc_expires_old() {
    // 2020-01-01T00:00:00+00:00
    let r = drive(
        commands::gc::run("7d".into(), true, "origin".into()),
        commands::gc::resume,
        gc_steps("1577836800", true),
    )
    .unwrap();
    assert!(r.dry_run);
    assert_eq!(r.entries.len(), 1);
    assert_eq!(r.entries[0].name, "test-user/gc-target");
    assert!(r.entries[0].age_days > 7);
}

#[test]
fn gc_deletes_without_dry_run() {
    let r = drive(
        commands::gc::run("1d".into(), false, "origin".into()),
        |s, reply| commands::gc::resume_at(s, reply, Some(1577836800 + 3 * 86400 + 5)),
        gc_steps("1577836800", false),
    )
    .unwrap();
    assert!(!r.dry_run);
    assert_eq!(r.entries.len(), 1);
    assert_eq!(r.entries[0].age_days, 3);
    assert_eq!(r.entries[0].wip_ref, "refs/wip/test-user/gc-target");
}

#[test]
fn gc_keeps_young_entries() {
    let mut steps = user_steps();
    steps.push((call(&["ls-remote", "origin", "refs/wip/test-user/*"]), ok("abc\trefs/wip/test-user/young")));
    steps.push((call(&["fetch", "origin", "refs/wip/test-user/young"]), ok("")));
    steps.push((call(&["log", "-1", "--format=%ct", "FETCH_HEAD"]), ok("1000")));
    let r = drive(
        commands::gc::run("30d".into(), false, "origin".into()),
        |s, reply| commands::gc::resume_at(s, reply, Some(2000)),
        steps,
    )
    .unwrap();
    assert!(r.entries.is_empty());
}

#[test]
fn gc_bad_expire() {
    let r = drive(commands::gc::run("soon".into(), false, "origin".into()), commands::gc::resume, user_steps());
    assert_eq!(r.err().unwrap(), "invalid duration: soon (use e.g. 7d, 24h)");
}

#[test]
fn gc_without_a_clock() {
    let mut steps = user_steps();
    steps.push((call(&["ls-remote", "origin", "refs/wip/test-user/*"]), ok("abc\trefs/wip/test-user/x")));
    let r = drive(
        commands::gc::run("7d".into(), true, "origin".into()),
        |s, reply| commands::gc::resume_at(s, reply, None),
        steps,
    );
    assert_eq!(r.err().unwrap(), "system time before Unix epoch");
}

#[test]
fn load_pop_keeps_ref_after_conflicts() {
    let steps = load_steps("pc-01", false, ok_err("", "CONFLICT (content): Merge conflict in README"), &[]);
    let r = drive(
        commands::load::run("pc-01".into(), true, false, false, "origin".into()),
        commands::load::resume,
        steps,
    )
    .unwrap();
    assert!(r.conflicts);
    assert!(!r.popped);
}

#[test]
fn drop_keeps_given_name_as_is() {
    let mut steps = user_steps();
    steps.push((call(&["push", "origin", ":refs/wip/test-user/Feature/Auth"]), ok("")));
    let r = drive(commands::drop::run("Feature/Auth".into(), "origin".into()), commands::drop::resume, steps).unwrap();
    assert_eq!(r.name, "Feature/Auth");
    assert_eq!(r.wip_ref, "refs/wip/test-user/Feature/Auth");
}

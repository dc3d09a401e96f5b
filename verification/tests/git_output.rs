use wip_git::git::{git, git_allow_fail, git_stdout, GitOutput};

fn args(a: &[&str]) -> Vec<String> {
    a.iter().map(|s| s.to_string()).collect()
}

#[test]
fn successful_run_is_trimmed() {
    let out = git(&args(&["status"]), true, b"  M a.txt\n", b"\n").unwrap();
    assert_eq!(out.stdout, "M a.txt");
    assert_eq!(out.stderr, "");
}

#[test]
fn failed_run_reports_args_and_stderr() {
    let e = git(&args(&["push", "origin", ":refs/wip/a/b"]), false, b"", b"fatal: nope\n").err().unwrap();
    assert_eq!(e, "git push origin :refs/wip/a/b failed: fatal: nope");
}

#[test]
fn allow_fail_keeps_both_streams() {
    let out = git_allow_fail(b"CONFLICT (content)\n", b" error: x ");
    assert_eq!(out.stdout, "CONFLICT (content)");
    assert_eq!(out.stderr, "error: x");
}

#[test]
fn invalid_utf8_is_replaced() {
    let out = git_allow_fail(b"a\xffb", b"");
    assert_eq!(out.stdout, "a\u{fffd}b");
}

#[test]
fn stdout_of_reply() {
    let ok = Ok(GitOutput { stdout: "abc".to_string(), stderr: "warn".to_string() });
    assert_eq!(git_stdout(ok).unwrap(), "abc");
    assert_eq!(git_stdout(Err("bad".to_string())).unwrap_err(), "bad");
}

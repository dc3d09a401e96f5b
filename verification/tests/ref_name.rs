use wip_git::config::{self, UserStage};
use wip_git::ref_name::{auto_name, list_pattern, resolve_name, slugify, user, wip_ref, Lookup};

#[test]
fn test_wip_ref() {
    assert_eq!(wip_ref("auth-fix", "alice"), "refs/wip/alice/auth-fix");
    assert_eq!(wip_ref("my-wip", "bob"), "refs/wip/bob/my-wip");
}

#[test]
fn test_slugify() {
    assert_eq!(slugify("Hello World"), "hello-world");
    assert_eq!(slugify("Feature/Auth"), "feature-auth");
    assert_eq!(slugify("--leading-trailing--"), "leading-trailing");
    assert_eq!(slugify("UPPER"), "upper");
    assert_eq!(slugify("special!@#chars"), "special---chars");
    assert_eq!(slugify("already-valid"), "already-valid");
}

#[test]
fn test_list_pattern() {
    assert_eq!(list_pattern(Some("alice")), "refs/wip/alice/");
    assert_eq!(list_pattern(None), "refs/wip/");
}

#[test]
fn slugify_edge_cases() {
    assert_eq!(slugify(""), "");
    assert_eq!(slugify("---"), "");
    assert_eq!(slugify("Ünïcode Straße"), "ünïcode-straße");
    assert_eq!(slugify("a b\tc"), "a-b-c");
}

#[test]
fn resolve_given_name_is_used_as_is() {
    match resolve_name(Some("Feature/Auth".to_string())) {
        Lookup::Ready(Ok(n)) => assert_eq!(n, "Feature/Auth"),
        _ => panic!("a given name needs no git call"),
    }
}

#[test]
fn resolve_missing_name_asks_for_branch() {
    match resolve_name(None) {
        Lookup::Ask(c) => {
            assert_eq!(c.args, vec!["rev-parse", "--abbrev-ref", "HEAD"]);
            assert!(!c.allow_fail);
        }
        _ => panic!("the branch must be asked for"),
    }
    assert_eq!(auto_name(Ok("Feature/Login".to_string())).unwrap(), "feature-login");
    assert_eq!(auto_name(Err("boom".to_string())).unwrap_err(), "boom");
}

#[test]
fn user_prefers_wip_user() {
    match user(UserStage::WipUser, Ok("Custom Name".to_string())) {
        Lookup::Ready(Ok(u)) => assert_eq!(u, "Custom Name"),
        _ => panic!("wip.user is used as it is"),
    }
}

#[test]
fn user_falls_back_to_user_name() {
    match user(UserStage::WipUser, Ok(String::new())) {
        Lookup::Ask(c) => assert_eq!(c.args, vec!["config", "user.name"]),
        _ => panic!("an empty wip.user falls back"),
    }
    match user(UserStage::WipUser, Err("no such key".to_string())) {
        Lookup::Ask(c) => assert_eq!(c.args, vec!["config", "user.name"]),
        _ => panic!("a missing wip.user falls back"),
    }
    match config::user(UserStage::UserName, Ok("Test User".to_string())) {
        Lookup::Ready(Ok(u)) => assert_eq!(u, "test-user"),
        _ => panic!("user.name is slugified"),
    }
}

#[test]
fn user_error_without_any_name() {
    for reply in [Ok(String::new()), Err("missing".to_string())] {
        match config::user(UserStage::UserName, reply) {
            Lookup::Ready(Err(e)) => {
                assert_eq!(e, "could not determine user: set git user.name or wip.user")
            }
            _ => panic!("no user can be determined"),
        }
    }
}

#[test]
fn default_expire_reads_config() {
    assert_eq!(config::default_expire(Ok("7d".to_string())), "7d");
    assert_eq!(config::default_expire(Err("unset".to_string())), "30d");
    assert_eq!(config::expire_call().args, vec!["config", "wip.expire"]);
}

#[test]
fn default_remote_reads_config() {
    assert_eq!(config::default_remote(Ok("upstream".to_string())), "upstream");
    assert_eq!(config::default_remote(Err("unset".to_string())), "origin");
    assert_eq!(config::remote_call().args, vec!["config", "wip.remote"]);
}

#[test]
fn slug_of_a_slug_is_itself() {
    for s in ["Hello World!", "already-valid", "--Feature/Auth--", "x"] {
        let once = slugify(s);
        assert_eq!(slugify(&once), once);
    }
}

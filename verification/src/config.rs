//! The `wip.*` git configuration values.

use vstd::prelude::*;
use crate::git::{arg, call_args, checked, GitCall};
use crate::ref_name::{slug, slugify, Lookup};

verus! {

/// Which configuration value the user lookup waits for.
#[derive(Clone, Copy, PartialEq, Eq, Structural)]
pub enum UserStage {
    /// `git config wip.user`
    WipUser,
    /// `git config user.name`
    UserName,
}

pub open spec fn user_query(stage: UserStage) -> Seq<Seq<char>> {
    match stage {
        UserStage::WipUser => seq!["config"@, "wip.user"@],
        UserStage::UserName => seq!["config"@, "user.name"@],
    }
}

/// The call that reads the configuration value that `stage` waits for.
pub fn user_call(stage: UserStage) -> (c: GitCall)
    ensures
        call_args(c) == user_query(stage),
        !c.allow_fail,
{
    let c = match stage {
        UserStage::WipUser => checked(vec![arg("config"), arg("wip.user")]),
        UserStage::UserName => checked(vec![arg("config"), arg("user.name")]),
    };
    assert(call_args(c) =~= user_query(stage));
    c
}

pub open spec fn no_user_message() -> Seq<char> {
    "could not determine user: set git user.name or wip.user"@
}

/// How the user lookup goes on once git answered the value that `stage`
/// waits for: ask for the next value, or the user (or why there is none).
pub enum UserNext {
    Ask(UserStage),
    Found(Seq<char>),
    Failed(Seq<char>),
}

/// `wip.user` is taken as it is when git reads a non-empty value; otherwise
/// `user.name` is asked for, and its slug is the user when it is not empty.
pub open spec fn user_next(stage: UserStage, reply: Result<Seq<char>, Seq<char>>) -> UserNext {
    match stage {
        UserStage::WipUser => match reply {
            Ok(u) => if u.len() > 0 { UserNext::Found(u) } else { UserNext::Ask(UserStage::UserName) },
            Err(_) => UserNext::Ask(UserStage::UserName),
        },
        UserStage::UserName => match reply {
            Ok(n) => if n.len() > 0 { UserNext::Found(slug(n)) } else { UserNext::Failed(no_user_message()) },
            Err(_) => UserNext::Failed(no_user_message()),
        },
    }
}

pub open spec fn text_result(r: Result<String, String>) -> Result<Seq<char>, Seq<char>> {
    match r {
        Ok(s) => Ok(s@),
        Err(e) => Err(e@),
    }
}

/// The lookup `r` carries out `n`.
pub open spec fn user_lookup_is(r: Lookup<Result<String, String>>, n: UserNext) -> bool {
    match n {
        UserNext::Ask(st) => r matches Lookup::Ask(c) && call_args(c) == user_query(st) && !c.allow_fail,
        UserNext::Found(u) => r matches Lookup::Ready(Ok(v)) && v@ == u,
        UserNext::Failed(e) => r matches Lookup::Ready(Err(v)) && v@ == e,
    }
}

/// Resolve the current user slug: `wip.user` config (as it is), falling back
/// to the slug of `user.name`. `stage` names the value that `reply` answers.
pub fn user(stage: UserStage, reply: Result<String, String>) -> (r: Lookup<Result<String, String>>)
    ensures
        user_lookup_is(r, user_next(stage, text_result(reply))),
{
    match stage {
        UserStage::WipUser => match reply {
            Ok(u) => {
                if u.as_str().is_empty() {
                    Lookup::Ask(user_call(UserStage::UserName))
                } else {
                    Lookup::Ready(Ok(u))
                }
            },
            Err(_) => Lookup::Ask(user_call(UserStage::UserName)),
        },
        UserStage::UserName => match reply {
            Ok(n) => {
                if n.as_str().is_empty() {
                    Lookup::Ready(Err(arg("could not determine user: set git user.name or wip.user")))
                } else {
                    Lookup::Ready(Ok(slugify(n.as_str())))
                }
            },
            Err(_) => Lookup::Ready(Err(arg("could not determine user: set git user.name or wip.user"))),
        },
    }
}

/// The call that reads `wip.expire`.
pub fn expire_call() -> (c: GitCall)
    ensures
        call_args(c) == seq!["config"@, "wip.expire"@],
        !c.allow_fail,
{
    let c = checked(vec![arg("config"), arg("wip.expire")]);
    assert(call_args(c) =~= seq!["config"@, "wip.expire"@]);
    c
}

/// Return the configured expiry threshold (`wip.expire`), defaulting to `"30d"`
/// when git could not read it.
pub fn default_expire(reply: Result<String, String>) -> (r: String)
    ensures
        match reply {
            Ok(v) => r@ == v@,
            Err(_) => r@ == "30d"@,
        },
{
    match reply {
        Ok(v) => v,
        Err(_) => arg("30d"),
    }
}

/// The call that reads `wip.remote`.
pub fn remote_call() -> (c: GitCall)
    ensures
        call_args(c) == seq!["config"@, "wip.remote"@],
        !c.allow_fail,
{
    let c = checked(vec![arg("config"), arg("wip.remote")]);
    assert(call_args(c) =~= seq!["config"@, "wip.remote"@]);
    c
}

/// Return the configured default remote (`wip.remote`), defaulting to
/// `"origin"` when git could not read it.
pub fn default_remote(reply: Result<String, String>) -> (r: String)
    ensures
        match reply {
            Ok(v) => r@ == v@,
            Err(_) => r@ == "origin"@,
        },
{
    match reply {
        Ok(v) => v,
        Err(_) => arg("origin"),
    }
}

} // verus!

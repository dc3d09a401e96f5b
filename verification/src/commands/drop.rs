//! `wip drop`: delete a WIP entry from the remote.

use vstd::prelude::*;
use crate::commands::{finished_message, step_view, Action, Reply, Step};
use crate::config::{user, user_call, user_next, user_query, UserNext, UserStage};
use crate::git::{arg, checked, reply_view, stdout_view, git_stdout, GitOutput};
use crate::ref_name::{ref_path, wip_ref, Lookup};
use crate::text::{append_str, string_from_chars};

verus! {

pub struct DropResult {
    pub name: String,
    pub wip_ref: String,
}

pub struct DropResultView {
    pub name: Seq<char>,
    pub wip_ref: Seq<char>,
}

impl View for DropResult {
    type V = DropResultView;

    open spec fn view(&self) -> DropResultView {
        DropResultView { name: self.name@, wip_ref: self.wip_ref@ }
    }
}

/// Where a drop stands.
pub enum DropState<T> {
    /// Waiting for the configuration value that `stage` names.
    User { stage: UserStage, name: T, remote: T },
    /// Waiting for the push that deletes the ref.
    Deleting { name: T, wip_ref: T },
    Finished,
}

impl View for DropState<String> {
    type V = DropState<Seq<char>>;

    open spec fn view(&self) -> DropState<Seq<char>> {
        match self {
            DropState::User { stage, name, remote } => DropState::User { stage: *stage, name: name@, remote: remote@ },
            DropState::Deleting { name, wip_ref } => DropState::Deleting { name: name@, wip_ref: wip_ref@ },
            DropState::Finished => DropState::Finished,
        }
    }
}

/// The refspec that deletes a ref when pushed: `:<ref>`.
pub open spec fn delete_refspec(r: Seq<char>) -> Seq<char> {
    seq![':'] + r
}

pub fn delete_refspec_of(r: &String) -> (s: String)
    ensures
        s@ == delete_refspec(r@),
{
    let mut v: Vec<char> = Vec::new();
    v.push(':');
    append_str(&mut v, r.as_str());
    assert(v@ =~= delete_refspec(r@));
    string_from_chars(&v)
}

/// A drop of `name` on `remote`: first the user's configuration is read.
pub open spec fn drop_start(name: Seq<char>, remote: Seq<char>) -> (DropState<Seq<char>>, Step<DropResultView>) {
    (DropState::User { stage: UserStage::WipUser, name, remote }, Step::Git(user_query(UserStage::WipUser), false))
}

/// How a drop goes on from `s` once git answered `r`: with the user known, the
/// name is used as given and `git push <remote> :refs/wip/<user>/<name>` deletes
/// the ref; a failed push is the command's error.
pub open spec fn drop_next(s: DropState<Seq<char>>, r: Reply) -> (DropState<Seq<char>>, Step<DropResultView>) {
    match s {
        DropState::User { stage, name, remote } => match user_next(stage, stdout_view(r)) {
            UserNext::Ask(st) => (DropState::User { stage: st, name, remote }, Step::Git(user_query(st), false)),
            UserNext::Failed(e) => (DropState::Finished, Step::Done(Err(e))),
            UserNext::Found(u) => {
                let n = name;
                let w = ref_path(n, u);
                (DropState::Deleting { name: n, wip_ref: w }, Step::Git(seq!["push"@, remote, delete_refspec(w)], false))
            },
        },
        DropState::Deleting { name, wip_ref } => match r {
            Ok(_) => (DropState::Finished, Step::Done(Ok(DropResultView { name, wip_ref }))),
            Err(e) => (DropState::Finished, Step::Done(Err(e))),
        },
        DropState::Finished => (DropState::Finished, Step::Done(Err(finished_message()))),
    }
}

/// Start dropping the WIP entry `name` from `remote`.
pub fn run(name: String, remote: String) -> (out: (DropState<String>, Action<DropResult>))
    ensures
        (out.0@, step_view(out.1)) == drop_start(name@, remote@),
{
    (DropState::User { stage: UserStage::WipUser, name, remote }, Action::Git(user_call(UserStage::WipUser)))
}

/// Go on with a drop once git answered the last call.
pub fn resume(s: DropState<String>, reply: Result<GitOutput, String>) -> (out: (DropState<String>, Action<DropResult>))
    ensures
        (out.0@, step_view(out.1)) == drop_next(s@, reply_view(reply)),
{
    match s {
        DropState::User { stage, name, remote } => {
            let stdout = git_stdout(reply);
            match user(stage, stdout) {
                Lookup::Ask(c) => (DropState::User { stage: UserStage::UserName, name, remote }, Action::Git(c)),
                Lookup::Ready(Err(e)) => (DropState::Finished, Action::Done(Err(e))),
                Lookup::Ready(Ok(u)) => {
                    let n = name;
                    let w = wip_ref(n.as_str(), u.as_str());
                    let spec = delete_refspec_of(&w);
                    let c = checked(vec![arg("push"), remote, spec]);
                    let ghost args = crate::git::call_args(c);
                    assert(args =~= seq!["push"@, remote@, delete_refspec(w@)]);
                    (DropState::Deleting { name: n, wip_ref: w }, Action::Git(c))
                },
            }
        },
        DropState::Deleting { name, wip_ref } => match reply {
            Ok(_) => (DropState::Finished, Action::Done(Ok(DropResult { name, wip_ref }))),
            Err(e) => (DropState::Finished, Action::Done(Err(e))),
        },
        DropState::Finished => (DropState::Finished, Action::Done(Err(arg("the command has already ended")))),
    }
}

} // verus!

//! `wip show`: the metadata and diff of a WIP entry.

use vstd::prelude::*;
use crate::commands::{finished_message, step_view, Action, Reply, Step};
use crate::config::{user, user_call, user_next, user_query, UserNext, UserStage};
use crate::git::{arg, checked, git_stdout, reply_view, stdout_view, GitOutput};
use crate::metadata::{parse_commit_message, MetadataView, WipMetadata};
use crate::ref_name::{ref_path, wip_ref, Lookup};
use crate::commands::recent::{
    self, name_position, position_of, recent_next, recent_start, RecentAction, RecentState,
    RecentStateView, RecentStep,
};

verus! {

pub struct ShowResult {
    pub name: String,
    pub metadata: WipMetadata,
    pub diff: String,
}

pub struct ShowResultView {
    pub name: Seq<char>,
    pub metadata: MetadataView,
    pub diff: Seq<char>,
}

impl View for ShowResult {
    type V = ShowResultView;

    open spec fn view(&self) -> ShowResultView {
        ShowResultView { name: self.name@, metadata: self.metadata@, diff: self.diff@ }
    }
}

/// Where a show stands; `T` is the text type, `M` the metadata type and
/// `R` the type of a lookup by position.
pub enum ShowState<T, M, R> {
    /// Waiting for the configuration value that `stage` names.
    User { stage: UserStage, name: T, remote: T },
    /// Looking up which entry a numeric name stands for.
    Recent { lookup: R },
    /// Waiting for the fetch of the ref.
    Fetching { name: T },
    /// Waiting for the commit message.
    Reading { name: T },
    /// Waiting for the diff against the parent commit.
    Diffing { name: T, metadata: M },
    Finished,
}

impl View for ShowState<String, WipMetadata, RecentState> {
    type V = ShowState<Seq<char>, MetadataView, RecentStateView>;

    open spec fn view(&self) -> ShowState<Seq<char>, MetadataView, RecentStateView> {
        match self {
            ShowState::User { stage, name, remote } => ShowState::User { stage: *stage, name: name@, remote: remote@ },
            ShowState::Recent { lookup } => ShowState::Recent { lookup: lookup@ },
            ShowState::Fetching { name } => ShowState::Fetching { name: name@ },
            ShowState::Reading { name } => ShowState::Reading { name: name@ },
            ShowState::Diffing { name, metadata } => ShowState::Diffing { name: name@, metadata: metadata@ },
            ShowState::Finished => ShowState::Finished,
        }
    }
}

pub open spec fn message_query() -> Seq<Seq<char>> {
    seq!["log"@, "-1"@, "--format=%B"@, "FETCH_HEAD"@]
}

pub open spec fn diff_query() -> Seq<Seq<char>> {
    seq!["diff"@, "FETCH_HEAD~1..FETCH_HEAD"@]
}

/// The step of a show that starts a lookup by position (whose first step is
/// always a call).
pub open spec fn show_recent_step(st: RecentStep) -> Step<ShowResultView> {
    match st {
        RecentStep::Git(args, f) => Step::Git(args, f),
        RecentStep::Found(_, _) => Step::Done(Err(finished_message())),
        RecentStep::Failed(e) => Step::Done(Err(e)),
    }
}

/// A show of `name` from `remote`: first the user's configuration is read.
pub open spec fn show_start(name: Seq<char>, remote: Seq<char>) -> (ShowState<Seq<char>, MetadataView, RecentStateView>, Step<ShowResultView>) {
    (ShowState::User { stage: UserStage::WipUser, name, remote }, Step::Git(user_query(UserStage::WipUser), false))
}

/// How a show goes on: fetch `refs/wip/<user>/<name>` (or, for a numeric name,
/// the ref of the entry at that position from most to least recent), read the
/// metadata from the fetched commit's message, then its diff against its
/// parent. Any git error ends the command with that error.
pub open spec fn show_next(s: ShowState<Seq<char>, MetadataView, RecentStateView>, r: Reply) -> (ShowState<Seq<char>, MetadataView, RecentStateView>, Step<ShowResultView>) {
    match s {
        ShowState::User { stage, name, remote } => match user_next(stage, stdout_view(r)) {
            UserNext::Ask(st) => (ShowState::User { stage: st, name, remote }, Step::Git(user_query(st), false)),
            UserNext::Failed(e) => (ShowState::Finished, Step::Done(Err(e))),
            UserNext::Found(u) => match name_position(name) {
                Some(k) => {
                    let (l, st) = recent_start(k, remote, u);
                    (ShowState::Recent { lookup: l }, show_recent_step(st))
                },
                None => {
                    let n = name;
                    (ShowState::Fetching { name: n }, Step::Git(seq!["fetch"@, remote, ref_path(n, u)], false))
                },
            },
        },
        ShowState::Recent { lookup } => match recent_next(lookup, r) {
            (l, RecentStep::Git(args, f)) => (ShowState::Recent { lookup: l }, Step::Git(args, f)),
            (_, RecentStep::Failed(e)) => (ShowState::Finished, Step::Done(Err(e))),
            (_, RecentStep::Found(n, w)) => (ShowState::Fetching { name: n }, Step::Git(seq!["fetch"@, lookup.remote, w], false)),
        },
        ShowState::Fetching { name } => match r {
            Ok(_) => (ShowState::Reading { name }, Step::Git(message_query(), false)),
            Err(e) => (ShowState::Finished, Step::Done(Err(e))),
        },
        ShowState::Reading { name } => match r {
            Ok((msg, _)) => (ShowState::Diffing { name, metadata: parse_commit_message(msg) }, Step::Git(diff_query(), false)),
            Err(e) => (ShowState::Finished, Step::Done(Err(e))),
        },
        ShowState::Diffing { name, metadata } => match r {
            Ok((diff, _)) => (ShowState::Finished, Step::Done(Ok(ShowResultView { name, metadata, diff }))),
            Err(e) => (ShowState::Finished, Step::Done(Err(e))),
        },
        ShowState::Finished => (ShowState::Finished, Step::Done(Err(finished_message()))),
    }
}

/// Start showing the WIP entry `name` from `remote`.
pub fn run(name: String, remote: String) -> (out: (ShowState<String, WipMetadata, RecentState>, Action<ShowResult>))
    ensures
        (out.0@, step_view(out.1)) == show_start(name@, remote@),
{
    (ShowState::User { stage: UserStage::WipUser, name, remote }, Action::Git(user_call(UserStage::WipUser)))
}

/// Go on with a show once git answered the last call.
pub fn resume(s: ShowState<String, WipMetadata, RecentState>, reply: Result<GitOutput, String>) -> (out: (ShowState<String, WipMetadata, RecentState>, Action<ShowResult>))
    ensures
        (out.0@, step_view(out.1)) == show_next(s@, reply_view(reply)),
{
    match s {
        ShowState::User { stage, name, remote } => match user(stage, git_stdout(reply)) {
            Lookup::Ask(c) => (ShowState::User { stage: UserStage::UserName, name, remote }, Action::Git(c)),
            Lookup::Ready(Err(e)) => (ShowState::Finished, Action::Done(Err(e))),
            Lookup::Ready(Ok(u)) => match position_of(name.as_str()) {
                Some(k) => {
                    let (l, a) = recent::start(k, &remote, &u);
                    match a {
                        RecentAction::Git(c) => (ShowState::Recent { lookup: l }, Action::Git(c)),
                        RecentAction::Found(_, _) => (ShowState::Recent { lookup: l }, Action::Done(Err(arg("the command has already ended")))),
                        RecentAction::Failed(e) => (ShowState::Recent { lookup: l }, Action::Done(Err(e))),
                    }
                },
                None => {
                    let n = name;
                    let w = wip_ref(n.as_str(), u.as_str());
                    let c = checked(vec![arg("fetch"), remote, w]);
                    assert(crate::git::call_args(c) =~= seq!["fetch"@, remote@, ref_path(n@, u@)]);
                    (ShowState::Fetching { name: n }, Action::Git(c))
                },
            },
        },
        ShowState::Recent { lookup } => {
            let remote = lookup.remote.clone();
            match recent::resume(lookup, reply) {
                (l, RecentAction::Git(c)) => (ShowState::Recent { lookup: l }, Action::Git(c)),
                (_, RecentAction::Failed(e)) => (ShowState::Finished, Action::Done(Err(e))),
                (_, RecentAction::Found(n, w)) => {
                    let c = checked(vec![arg("fetch"), remote, w]);
                    assert(crate::git::call_args(c) =~= seq!["fetch"@, lookup@.remote, w@]);
                    (ShowState::Fetching { name: n }, Action::Git(c))
                },
            }
        },
        ShowState::Fetching { name } => match reply {
            Ok(_) => {
                let c = checked(vec![arg("log"), arg("-1"), arg("--format=%B"), arg("FETCH_HEAD")]);
                assert(crate::git::call_args(c) =~= message_query());
                (ShowState::Reading { name }, Action::Git(c))
            },
            Err(e) => (ShowState::Finished, Action::Done(Err(e))),
        },
        ShowState::Reading { name } => match reply {
            Ok(o) => {
                let metadata = WipMetadata::from_commit_message(o.stdout.as_str());
                let c = checked(vec![arg("diff"), arg("FETCH_HEAD~1..FETCH_HEAD")]);
                assert(crate::git::call_args(c) =~= diff_query());
                (ShowState::Diffing { name, metadata }, Action::Git(c))
            },
            Err(e) => (ShowState::Finished, Action::Done(Err(e))),
        },
        ShowState::Diffing { name, metadata } => match reply {
            Ok(o) => (ShowState::Finished, Action::Done(Ok(ShowResult { name, metadata, diff: o.stdout }))),
            Err(e) => (ShowState::Finished, Action::Done(Err(e))),
        },
        ShowState::Finished => (ShowState::Finished, Action::Done(Err(arg("the command has already ended")))),
    }
}

} // verus!

//! `wip load`: apply a WIP entry to the working tree with a 3-way merge.

use vstd::prelude::*;
use crate::commands::drop::{delete_refspec, delete_refspec_of};
use crate::commands::{finished_message, step_view, Action, Reply, Step};
use crate::config::{user, user_call, user_next, user_query, UserNext, UserStage};
use crate::git::{arg, call_args, checked, git_stdout, reply_view, stdout_view, GitCall, GitOutput};
use crate::ref_name::{ref_path, wip_ref, Lookup};
use crate::text::{append_chars, chars_of, contains_chars, contains_text, string_from_chars};
use crate::commands::recent::{
    self, name_position, position_of, recent_idle, recent_next, recent_start, RecentAction,
    RecentState, RecentStateView, RecentStep,
};

verus! {

pub struct LoadResult {
    pub name: String,
    pub conflicts: bool,
    pub popped: bool,
    pub auto_stashed: bool,
}

pub struct LoadResultView {
    pub name: Seq<char>,
    pub conflicts: bool,
    pub popped: bool,
    pub auto_stashed: bool,
}

impl View for LoadResult {
    type V = LoadResultView;

    open spec fn view(&self) -> LoadResultView {
        LoadResultView {
            name: self.name@,
            conflicts: self.conflicts,
            popped: self.popped,
            auto_stashed: self.auto_stashed,
        }
    }
}

/// The call that a load waits for.
#[derive(Clone, Copy, PartialEq, Eq, Structural)]
pub enum LoadStage {
    User(UserStage),
    /// Looking up which entry a numeric name stands for.
    Recent,
    /// `git status --porcelain`
    Status,
    /// `git stash push --include-untracked -m "wip-push autostash"`
    Stashing,
    /// `git fetch <remote> <ref>`
    Fetching,
    /// `git cherry-pick --no-commit FETCH_HEAD ...` (allowed to fail)
    Picking,
    /// `git reset HEAD`
    Resetting,
    /// `git stash pop` (allowed to fail)
    Popping,
    /// `git push <remote> :<ref>`
    Dropping,
    Finished,
}

/// Where a load stands.
pub struct LoadState {
    pub stage: LoadStage,
    pub name: String,
    pub remote: String,
    pub pop: bool,
    pub theirs: bool,
    pub ours: bool,
    pub wip_ref: String,
    pub auto_stashed: bool,
    pub conflicts: bool,
    pub recent: RecentState,
}

pub struct LoadStateView {
    pub stage: LoadStage,
    pub name: Seq<char>,
    pub remote: Seq<char>,
    pub pop: bool,
    pub theirs: bool,
    pub ours: bool,
    pub wip_ref: Seq<char>,
    pub auto_stashed: bool,
    pub conflicts: bool,
    pub recent: RecentStateView,
}

impl View for LoadState {
    type V = LoadStateView;

    open spec fn view(&self) -> LoadStateView {
        LoadStateView {
            stage: self.stage,
            name: self.name@,
            remote: self.remote@,
            pop: self.pop,
            theirs: self.theirs,
            ours: self.ours,
            wip_ref: self.wip_ref@,
            auto_stashed: self.auto_stashed,
            conflicts: self.conflicts,
            recent: self.recent@,
        }
    }
}

pub open spec fn status_query() -> Seq<Seq<char>> {
    seq!["status"@, "--porcelain"@]
}

pub open spec fn stash_query() -> Seq<Seq<char>> {
    seq!["stash"@, "push"@, "--include-untracked"@, "-m"@, "wip-push autostash"@]
}

/// The cherry-pick that applies the fetched commit without committing,
/// preferring incoming (`theirs`) or local (`ours`) changes on conflict.
pub open spec fn pick_query(theirs: bool, ours: bool) -> Seq<Seq<char>> {
    let base = seq!["cherry-pick"@, "--no-commit"@, "FETCH_HEAD"@];
    if theirs {
        base + seq!["--strategy-option"@, "theirs"@]
    } else if ours {
        base + seq!["--strategy-option"@, "ours"@]
    } else {
        base
    }
}

/// Whether a cherry-pick reported conflicts.
pub open spec fn has_conflicts(stdout: Seq<char>, stderr: Seq<char>) -> bool {
    contains_text(stderr, "CONFLICT"@) || contains_text(stdout, "CONFLICT"@)
}

pub open spec fn load_result(s: LoadStateView, popped: bool) -> LoadResultView {
    LoadResultView { name: s.name, conflicts: s.conflicts, popped, auto_stashed: s.auto_stashed }
}

/// After the working tree was restored: with `pop` and a load without
/// conflicts the remote ref is deleted, otherwise it is kept and the command
/// ends.
pub open spec fn load_after_restore(s: LoadStateView) -> (LoadStateView, Step<LoadResultView>) {
    if s.pop && !s.conflicts {
        (LoadStateView { stage: LoadStage::Dropping, ..s }, Step::Git(seq!["push"@, s.remote, delete_refspec(s.wip_ref)], false))
    } else {
        (LoadStateView { stage: LoadStage::Finished, ..s }, Step::Done(Ok(load_result(s, false))))
    }
}

/// After the cherry-pick: auto-stashed changes are restored unless there
/// were conflicts.
pub open spec fn load_after_pick(s: LoadStateView) -> (LoadStateView, Step<LoadResultView>) {
    if s.auto_stashed && !s.conflicts {
        (LoadStateView { stage: LoadStage::Popping, ..s }, Step::Git(seq!["stash"@, "pop"@], true))
    } else {
        load_after_restore(s)
    }
}

/// How a load goes on with a lookup by position at `l` asking for `st`: when
/// it found the entry, that entry's name and ref are loaded.
pub open spec fn load_recent(s: LoadStateView, l: RecentStateView, st: RecentStep) -> (LoadStateView, Step<LoadResultView>) {
    match st {
        RecentStep::Git(args, f) => (LoadStateView { stage: LoadStage::Recent, recent: l, ..s }, Step::Git(args, f)),
        RecentStep::Failed(e) => (LoadStateView { stage: LoadStage::Finished, recent: l, ..s }, Step::Done(Err(e))),
        RecentStep::Found(n, w) => (
            LoadStateView { stage: LoadStage::Status, name: n, wip_ref: w, recent: l, ..s },
            Step::Git(status_query(), false),
        ),
    }
}

/// A load of `name` from `remote`: first the user's configuration is read.
pub open spec fn load_start(name: Seq<char>, pop: bool, theirs: bool, ours: bool, remote: Seq<char>) -> (LoadStateView, Step<LoadResultView>) {
    (
        LoadStateView {
            stage: LoadStage::User(UserStage::WipUser),
            name,
            remote,
            pop,
            theirs,
            ours,
            wip_ref: Seq::empty(),
            auto_stashed: false,
            conflicts: false,
            recent: recent_idle(),
        },
        Step::Git(user_query(UserStage::WipUser), false),
    )
}

pub open spec fn cherry_pick_failed(stderr: Seq<char>) -> Seq<char> {
    "cherry-pick failed: "@ + stderr
}

/// How a load goes on from `s` once git answered `r`: a numeric name stands
/// for the entry at that position from most to least recent; a dirty working tree is
/// stashed first; the ref is fetched and cherry-picked without commit; on a
/// clean pick the index is reset, on a failed pick (stderr holding `error`,
/// no `CONFLICT`) the command fails; the stash is restored when there were no
/// conflicts; with `pop` the remote ref is deleted last, only after a load
/// without conflicts.
pub open spec fn load_next(s: LoadStateView, r: Reply) -> (LoadStateView, Step<LoadResultView>) {
    match s.stage {
        LoadStage::User(stage) => match user_next(stage, stdout_view(r)) {
            UserNext::Ask(st) => (LoadStateView { stage: LoadStage::User(st), ..s }, Step::Git(user_query(st), false)),
            UserNext::Failed(e) => (LoadStateView { stage: LoadStage::Finished, ..s }, Step::Done(Err(e))),
            UserNext::Found(u) => match name_position(s.name) {
                Some(k) => {
                    let (l, st) = recent_start(k, s.remote, u);
                    load_recent(s, l, st)
                },
                None => {
                    let n = s.name;
                    (
                        LoadStateView { stage: LoadStage::Status, name: n, wip_ref: ref_path(n, u), ..s },
                        Step::Git(status_query(), false),
                    )
                },
            },
        },
        LoadStage::Recent => {
            let (l, st) = recent_next(s.recent, r);
            load_recent(s, l, st)
        },
        LoadStage::Status => match r {
            Ok((status, _)) => if status.len() > 0 {
                (LoadStateView { stage: LoadStage::Stashing, auto_stashed: true, ..s }, Step::Git(stash_query(), false))
            } else {
                (
                    LoadStateView { stage: LoadStage::Fetching, auto_stashed: false, ..s },
                    Step::Git(seq!["fetch"@, s.remote, s.wip_ref], false),
                )
            },
            Err(e) => (LoadStateView { stage: LoadStage::Finished, ..s }, Step::Done(Err(e))),
        },
        LoadStage::Stashing => match r {
            Ok(_) => (LoadStateView { stage: LoadStage::Fetching, ..s }, Step::Git(seq!["fetch"@, s.remote, s.wip_ref], false)),
            Err(e) => (LoadStateView { stage: LoadStage::Finished, ..s }, Step::Done(Err(e))),
        },
        LoadStage::Fetching => match r {
            Ok(_) => (LoadStateView { stage: LoadStage::Picking, ..s }, Step::Git(pick_query(s.theirs, s.ours), true)),
            Err(e) => (LoadStateView { stage: LoadStage::Finished, ..s }, Step::Done(Err(e))),
        },
        LoadStage::Picking => match r {
            Ok((out, err)) => if has_conflicts(out, err) {
                load_after_pick(LoadStateView { conflicts: true, ..s })
            } else if contains_text(err, "error"@) {
                (LoadStateView { stage: LoadStage::Finished, ..s }, Step::Done(Err(cherry_pick_failed(err))))
            } else {
                (LoadStateView { stage: LoadStage::Resetting, conflicts: false, ..s }, Step::Git(seq!["reset"@, "HEAD"@], false))
            },
            Err(e) => (LoadStateView { stage: LoadStage::Finished, ..s }, Step::Done(Err(e))),
        },
        LoadStage::Resetting => match r {
            Ok(_) => load_after_pick(s),
            Err(e) => (LoadStateView { stage: LoadStage::Finished, ..s }, Step::Done(Err(e))),
        },
        LoadStage::Popping => match r {
            Ok(_) => load_after_restore(s),
            Err(e) => (LoadStateView { stage: LoadStage::Finished, ..s }, Step::Done(Err(e))),
        },
        LoadStage::Dropping => match r {
            Ok(_) => (LoadStateView { stage: LoadStage::Finished, ..s }, Step::Done(Ok(load_result(s, true)))),
            Err(e) => (LoadStateView { stage: LoadStage::Finished, ..s }, Step::Done(Err(e))),
        },
        LoadStage::Finished => (s, Step::Done(Err(finished_message()))),
    }
}

/// Start loading the WIP entry `name` from `remote`.
pub fn run(name: String, pop: bool, theirs: bool, ours: bool, remote: String) -> (out: (LoadState, Action<LoadResult>))
    ensures
        (out.0@, step_view(out.1)) == load_start(name@, pop, theirs, ours, remote@),
{
    let s = LoadState {
        stage: LoadStage::User(UserStage::WipUser),
        name,
        remote,
        pop,
        theirs,
        ours,
        wip_ref: String::new(),
        auto_stashed: false,
        conflicts: false,
        recent: recent::idle(),
    };
    (s, Action::Git(user_call(UserStage::WipUser)))
}

fn end(mut s: LoadState, e: String) -> (out: (LoadState, Action<LoadResult>))
    ensures
        out.0@ == (LoadStateView { stage: LoadStage::Finished, ..s@ }),
        step_view(out.1) == Step::<LoadResultView>::Done(Err(e@)),
{
    s.stage = LoadStage::Finished;
    (s, Action::Done(Err(e)))
}

fn after_restore(mut s: LoadState) -> (out: (LoadState, Action<LoadResult>))
    ensures
        (out.0@, step_view(out.1)) == load_after_restore(s@),
{
    if s.pop && !s.conflicts {
        s.stage = LoadStage::Dropping;
        let c = checked(vec![arg("push"), s.remote.clone(), delete_refspec_of(&s.wip_ref)]);
        assert(call_args(c) =~= seq!["push"@, s.remote@, delete_refspec(s.wip_ref@)]);
        (s, Action::Git(c))
    } else {
        s.stage = LoadStage::Finished;
        let r = LoadResult { name: s.name.clone(), conflicts: s.conflicts, popped: false, auto_stashed: s.auto_stashed };
        (s, Action::Done(Ok(r)))
    }
}

fn after_pick(mut s: LoadState) -> (out: (LoadState, Action<LoadResult>))
    ensures
        (out.0@, step_view(out.1)) == load_after_pick(s@),
{
    if s.auto_stashed && !s.conflicts {
        s.stage = LoadStage::Popping;
        let c = GitCall { args: vec![arg("stash"), arg("pop")], allow_fail: true };
        assert(call_args(c) =~= seq!["stash"@, "pop"@]);
        (s, Action::Git(c))
    } else {
        after_restore(s)
    }
}

fn with_recent(mut s: LoadState, l: RecentState, a: RecentAction) -> (out: (LoadState, Action<LoadResult>))
    ensures
        (out.0@, step_view(out.1)) == load_recent(s@, l@, recent::recent_step_view(a)),
{
    s.recent = l;
    match a {
        RecentAction::Git(c) => {
            s.stage = LoadStage::Recent;
            (s, Action::Git(c))
        },
        RecentAction::Failed(e) => end(s, e),
        RecentAction::Found(n, w) => {
            s.name = n;
            s.wip_ref = w;
            s.stage = LoadStage::Status;
            let c = checked(vec![arg("status"), arg("--porcelain")]);
            assert(call_args(c) =~= status_query());
            (s, Action::Git(c))
        },
    }
}

fn fetch_call(s: &LoadState) -> (c: GitCall)
    ensures
        call_args(c) == seq!["fetch"@, s.remote@, s.wip_ref@],
        !c.allow_fail,
{
    let c = checked(vec![arg("fetch"), s.remote.clone(), s.wip_ref.clone()]);
    assert(call_args(c) =~= seq!["fetch"@, s.remote@, s.wip_ref@]);
    c
}

fn pick_call(theirs: bool, ours: bool) -> (c: GitCall)
    ensures
        call_args(c) == pick_query(theirs, ours),
        c.allow_fail,
{
    let mut args = vec![arg("cherry-pick"), arg("--no-commit"), arg("FETCH_HEAD")];
    if theirs {
        args.push(arg("--strategy-option"));
        args.push(arg("theirs"));
    } else if ours {
        args.push(arg("--strategy-option"));
        args.push(arg("ours"));
    }
    let c = GitCall { args, allow_fail: true };
    assert(call_args(c) =~= pick_query(theirs, ours));
    c
}

/// Go on with a load once git answered the last call.
pub fn resume(s: LoadState, reply: Result<GitOutput, String>) -> (out: (LoadState, Action<LoadResult>))
    ensures
        (out.0@, step_view(out.1)) == load_next(s@, reply_view(reply)),
{
    let mut s = s;
    match s.stage {
        LoadStage::User(stage) => match user(stage, git_stdout(reply)) {
            Lookup::Ask(c) => {
                s.stage = LoadStage::User(UserStage::UserName);
                (s, Action::Git(c))
            },
            Lookup::Ready(Err(e)) => end(s, e),
            Lookup::Ready(Ok(u)) => match position_of(s.name.as_str()) {
                Some(k) => {
                    let (l, a) = recent::start(k, &s.remote, &u);
                    with_recent(s, l, a)
                },
                None => {
                    let n = s.name.clone();
                    s.wip_ref = wip_ref(n.as_str(), u.as_str());
                    s.name = n;
                    s.stage = LoadStage::Status;
                    let c = checked(vec![arg("status"), arg("--porcelain")]);
                    assert(call_args(c) =~= status_query());
                    (s, Action::Git(c))
                },
            },
        },
        LoadStage::Recent => {
            let mut l = recent::idle();
            std::mem::swap(&mut l, &mut s.recent);
            let (l, a) = recent::resume(l, reply);
            with_recent(s, l, a)
        },
        LoadStage::Status => match reply {
            Ok(o) => {
                if o.stdout.as_str().is_empty() {
                    s.auto_stashed = false;
                    s.stage = LoadStage::Fetching;
                    let c = fetch_call(&s);
                    (s, Action::Git(c))
                } else {
                    s.auto_stashed = true;
                    s.stage = LoadStage::Stashing;
                    let c = checked(vec![arg("stash"), arg("push"), arg("--include-untracked"), arg("-m"), arg("wip-push autostash")]);
                    assert(call_args(c) =~= stash_query());
                    (s, Action::Git(c))
                }
            },
            Err(e) => end(s, e),
        },
        LoadStage::Stashing => match reply {
            Ok(_) => {
                s.stage = LoadStage::Fetching;
                let c = fetch_call(&s);
                (s, Action::Git(c))
            },
            Err(e) => end(s, e),
        },
        LoadStage::Fetching => match reply {
            Ok(_) => {
                s.stage = LoadStage::Picking;
                let c = pick_call(s.theirs, s.ours);
                (s, Action::Git(c))
            },
            Err(e) => end(s, e),
        },
        LoadStage::Picking => match reply {
            Ok(o) => {
                let out = chars_of(o.stdout.as_str());
                let err = chars_of(o.stderr.as_str());
                let conflict = chars_of("CONFLICT");
                let conflicts = contains_chars(&err, &conflict) || contains_chars(&out, &conflict);
                if conflicts {
                    s.conflicts = true;
                    after_pick(s)
                } else if contains_chars(&err, &chars_of("error")) {
                    let mut m = chars_of("cherry-pick failed: ");
                    append_chars(&mut m, &err);
                    end(s, string_from_chars(&m))
                } else {
                    s.conflicts = false;
                    s.stage = LoadStage::Resetting;
                    let c = checked(vec![arg("reset"), arg("HEAD")]);
                    assert(call_args(c) =~= seq!["reset"@, "HEAD"@]);
                    (s, Action::Git(c))
                }
            },
            Err(e) => end(s, e),
        },
        LoadStage::Resetting => match reply {
            Ok(_) => after_pick(s),
            Err(e) => end(s, e),
        },
        LoadStage::Popping => match reply {
            Ok(_) => after_restore(s),
            Err(e) => end(s, e),
        },
        LoadStage::Dropping => match reply {
            Ok(_) => {
                s.stage = LoadStage::Finished;
                let r = LoadResult { name: s.name.clone(), conflicts: s.conflicts, popped: true, auto_stashed: s.auto_stashed };
                (s, Action::Done(Ok(r)))
            },
            Err(e) => end(s, e),
        },
        LoadStage::Finished => (s, Action::Done(Err(arg("the command has already ended")))),
    }
}

/// Whether a step asks for a push (which deletes the remote ref).
pub open spec fn deletes_ref(st: Step<LoadResultView>) -> bool {
    st matches Step::Git(args, _) && args.len() > 0 && args[0] == "push"@
}

/// Law: without `pop` a load never deletes the remote ref, whatever git
/// answers, and `pop` stays unset.
pub proof fn lemma_keeps_ref_without_pop(s: LoadStateView, r: Reply)
    requires
        !s.pop,
    ensures
        !deletes_ref(load_next(s, r).1),
        !load_next(s, r).0.pop,
{
    reveal_strlit("push");
    reveal_strlit("config");
    reveal_strlit("status");
    reveal_strlit("stash");
    reveal_strlit("fetch");
    reveal_strlit("cherry-pick");
    reveal_strlit("reset");
    assert("push"@ != "config"@) by { assert("push"@.len() != "config"@.len()); }
    assert("push"@ != "status"@) by { assert("push"@.len() != "status"@.len()); }
    assert("push"@ != "stash"@) by { assert("push"@.len() != "stash"@.len()); }
    assert("push"@ != "fetch"@) by { assert("push"@.len() != "fetch"@.len()); }
    assert("push"@ != "cherry-pick"@) by { assert("push"@.len() != "cherry-pick"@.len()); }
    assert("push"@ != "reset"@) by { assert("push"@.len() != "reset"@.len()); }
    match s.stage {
        LoadStage::User(stage) => {
            if let UserNext::Found(u) = user_next(stage, stdout_view(r)) {
                if let Some(k) = name_position(s.name) {
                    recent::lemma_recent_only_reads(s.recent, r, k, s.remote, u);
                }
            }
        },
        LoadStage::Recent => {
            recent::lemma_recent_only_reads(s.recent, r, 0, s.remote, s.remote);
        },
        _ => {},
    }
}

/// Law: a cherry-pick with conflicts leaves the auto-stash and the remote ref
/// in place: the command ends at once, reporting the conflicts, with nothing
/// popped.
pub proof fn lemma_conflicts_keep_stash_and_ref(s: LoadStateView, out: Seq<char>, err: Seq<char>)
    requires
        s.stage == LoadStage::Picking,
        has_conflicts(out, err),
    ensures
        load_next(s, Ok((out, err))).0.conflicts,
        load_next(s, Ok((out, err))).0.stage == LoadStage::Finished,
        load_next(s, Ok((out, err))).1 == Step::<LoadResultView>::Done(Ok(LoadResultView {
            name: s.name,
            conflicts: true,
            popped: false,
            auto_stashed: s.auto_stashed,
        })),
{
}

/// What every state of a load keeps: the ref is only being deleted after a
/// load without conflicts that asked for `pop`.
pub open spec fn load_invariant(s: LoadStateView) -> bool {
    s.stage == LoadStage::Dropping ==> s.pop && !s.conflicts
}

/// A load starts in a state that keeps the invariant.
pub proof fn lemma_load_invariant_start(name: Seq<char>, pop: bool, theirs: bool, ours: bool, remote: Seq<char>)
    ensures
        load_invariant(load_start(name, pop, theirs, ours, remote).0),
{
}

/// Law: every step keeps the invariant, `pop` never changes, and a load's
/// result reports `popped` exactly when `pop` was asked for and the
/// cherry-pick had no conflicts: the ref is deleted only after a successful
/// load.
pub proof fn lemma_popped_iff_clean_pop(s: LoadStateView, r: Reply)
    requires
        load_invariant(s),
    ensures
        load_invariant(load_next(s, r).0),
        load_next(s, r).0.pop == s.pop,
        load_next(s, r).1 matches Step::Done(Ok(res)) ==> res.popped == (s.pop && !res.conflicts),
{
}

/// Law: the status check is the one step that sets `auto_stashed`, to whether
/// the working tree was dirty (the status output is not empty); every other
/// step keeps it, and a result reports it.
pub proof fn lemma_auto_stash_iff_dirty(s: LoadStateView, r: Reply)
    ensures
        s.stage == LoadStage::Status ==> (r matches Ok((status, _)) ==> load_next(s, r).0.auto_stashed == (status.len() > 0)),
        s.stage != LoadStage::Status ==> load_next(s, r).0.auto_stashed == s.auto_stashed,
        load_next(s, r).1 matches Step::Done(Ok(res)) ==> res.auto_stashed == load_next(s, r).0.auto_stashed,
{
}

/// Law: "CONFLICT" anywhere in either output of a cherry-pick marks a
/// conflict, whatever comes before or after it.
pub proof fn lemma_conflict_anywhere(a: Seq<char>, b: Seq<char>, other: Seq<char>)
    ensures
        has_conflicts(a + "CONFLICT"@ + b, other),
        has_conflicts(other, a + "CONFLICT"@ + b),
{
    let c = "CONFLICT"@;
    let t = a + c + b;
    assert(t.subrange(a.len() as int, (a.len() + c.len()) as int) =~= c);
}

/// Law: a load whose cherry-pick printed "CONFLICT" anywhere, on stdout or on
/// stderr (an `error:` line beside it included), ends successfully with the
/// conflicts reported: nothing popped, the auto-stash left as it was.
pub proof fn lemma_conflicting_pick_is_reported(s: LoadStateView, a: Seq<char>, b: Seq<char>, other: Seq<char>, on_stdout: bool)
    requires
        s.stage == LoadStage::Picking,
    ensures
        ({
            let out = if on_stdout { a + "CONFLICT"@ + b } else { other };
            let err = if on_stdout { other } else { a + "CONFLICT"@ + b };
            load_next(s, Ok((out, err))).1 == Step::<LoadResultView>::Done(Ok(LoadResultView {
                name: s.name,
                conflicts: true,
                popped: false,
                auto_stashed: s.auto_stashed,
            }))
        }),
{
    lemma_conflict_anywhere(a, b, other);
}

} // verus!

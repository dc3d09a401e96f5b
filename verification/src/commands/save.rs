//! `wip save`: commit the working state on a detached commit and push it to
//! a hidden ref.

use vstd::prelude::*;
use crate::commands::{finished_message, step_view, Action, Reply, Step};
use crate::commands::load::status_query;
use crate::config::{user, user_call, user_next, user_query, UserNext, UserStage};
use crate::git::{arg, call_args, checked, git_stdout, reply_view, stdout_view, GitOutput};
use crate::metadata::{commit_message, opt_view, MetadataView, WipMetadata};
use crate::ref_name::{auto_name, branch_call, branch_query, ref_path, resolve_name, slug, wip_ref, Lookup};
use crate::text::{
    append_chars, append_str, chars_of, decimal2, decimal2_chars, lines, lines_of, parse_unsigned,
    parse_unsigned_chars, starts_with_chars, string_from_chars, strip_prefix, strip_prefix_chars, words,
    words_of, views,
};

verus! {

// ---------------------------------------------------------------------------
// Numbered names
// ---------------------------------------------------------------------------

/// The part of a ref path before the number: `refs/wip/<user>/<base>-`.
pub open spec fn number_prefix(base: Seq<char>, user: Seq<char>) -> Seq<char> {
    ref_path(base, user) + seq!['-']
}

/// The number that a line of `git ls-remote` output gives a numbered name:
/// its second word with the prefix removed, read as a `u32`.
pub open spec fn line_number(line: Seq<char>, prefix: Seq<char>) -> Option<nat> {
    let ws = words(line);
    if ws.len() >= 2 {
        match strip_prefix(ws[1], prefix) {
            Some(sfx) => parse_unsigned(sfx, u32::MAX as nat),
            None => None,
        }
    } else {
        None
    }
}

/// The largest number among the lines, or 0.
pub open spec fn max_number(ls: Seq<Seq<char>>, prefix: Seq<char>) -> nat
    decreases ls.len(),
{
    if ls.len() == 0 {
        0
    } else {
        let m = max_number(ls.drop_last(), prefix);
        match line_number(ls.last(), prefix) {
            Some(k) => if k > m { k } else { m },
            None => m,
        }
    }
}

/// The largest number that a listing gives names of `base`.
pub open spec fn listed_max(base: Seq<char>, user: Seq<char>, listing: Seq<char>) -> nat {
    max_number(lines(listing), number_prefix(base, user))
}

/// `<base>-NN`, one past the largest number listed, at least two digits.
pub open spec fn incremented_name(base: Seq<char>, user: Seq<char>, listing: Seq<char>) -> Seq<char> {
    base + seq!['-'] + decimal2(listed_max(base, user, listing) + 1)
}

/// The next number fits in a `u32`.
pub open spec fn increment_fits(base: Seq<char>, user: Seq<char>, listing: Seq<char>) -> bool {
    listed_max(base, user, listing) < u32::MAX
}

proof fn lemma_max_number_bounds(ls: Seq<Seq<char>>, prefix: Seq<char>)
    ensures
        max_number(ls, prefix) <= u32::MAX,
        forall|i: int| 0 <= i < ls.len() ==> (line_number(#[trigger] ls[i], prefix) matches Some(k) ==> k <= max_number(ls, prefix)),
    decreases ls.len(),
{
    if ls.len() > 0 {
        lemma_max_number_bounds(ls.drop_last(), prefix);
        assert forall|i: int| 0 <= i < ls.len() implies (line_number(#[trigger] ls[i], prefix) matches Some(k) ==> k <= max_number(ls, prefix)) by {
            if i < ls.len() - 1 {
                assert(ls[i] == ls.drop_last()[i]);
            }
        }
    }
}

/// Law: the number that auto-increment picks is larger than every number
/// already listed for the base name, so the new name is not taken.
pub proof fn lemma_increment_is_fresh(base: Seq<char>, user: Seq<char>, listing: Seq<char>)
    ensures
        forall|i: int| 0 <= i < lines(listing).len() ==>
            (line_number(#[trigger] lines(listing)[i], number_prefix(base, user)) matches Some(k) ==> k < listed_max(base, user, listing) + 1),
{
    lemma_max_number_bounds(lines(listing), number_prefix(base, user));
}

/// Law: the name that auto-increment picks carries its number back: its ref,
/// without the numbering prefix, reads as one past the largest number listed.
/// So saving the same base again goes on from it (`-01`, `-02`, ...).
pub proof fn lemma_increment_reads_back(base: Seq<char>, user: Seq<char>, listing: Seq<char>)
    requires
        increment_fits(base, user, listing),
    ensures
        strip_prefix(ref_path(incremented_name(base, user, listing), user), number_prefix(base, user))
            == Some(decimal2(listed_max(base, user, listing) + 1)),
        parse_unsigned(decimal2(listed_max(base, user, listing) + 1), u32::MAX as nat)
            == Some((listed_max(base, user, listing) + 1) as nat),
{
    let n = listed_max(base, user, listing) + 1;
    let d = decimal2(n);
    let p = number_prefix(base, user);
    let r = ref_path(incremented_name(base, user, listing), user);
    assert(r =~= p + d);
    assert(r.take(p.len() as int) =~= p);
    assert(r.skip(p.len() as int) =~= d);
    crate::text::lemma_decimal2(n);
    assert(crate::text::is_ascii_digit(d[0]));
    assert(crate::text::unsigned_digits(d) == d);
}

fn line_number_of(line: &Vec<char>, prefix: &Vec<char>) -> (r: Option<u32>)
    ensures
        match r {
            Some(k) => line_number(line@, prefix@) == Some(k as nat),
            None => line_number(line@, prefix@) is None,
        },
{
    let ws = words_of(line);
    if ws.len() < 2 {
        return None;
    }
    assert(views(ws@)[1] == ws@[1]@);
    match strip_prefix_chars(&ws[1], prefix) {
        Some(sfx) => match parse_unsigned_chars(&sfx, u32::MAX as u64) {
            Some(k) => Some(k as u32),
            None => None,
        },
        None => None,
    }
}

/// The largest number that the listing gives names of `base` (exec form of
/// `listed_max`).
fn largest_number(base: &str, user: &str, listing: &str) -> (m: u32)
    ensures
        m as nat == listed_max(base@, user@, listing@),
{
    let mut prefix = chars_of(wip_ref(base, user).as_str());
    prefix.push('-');
    assert(prefix@ =~= number_prefix(base@, user@));
    let ls = lines_of(&chars_of(listing));
    let ghost vs = views(ls@);
    let mut max_n: u32 = 0;
    let mut i: usize = 0;
    while i < ls.len()
        invariant
            i <= ls@.len(),
            vs == views(ls@),
            vs == lines(listing@),
            prefix@ == number_prefix(base@, user@),
            max_n == max_number(vs.take(i as int), prefix@),
        decreases ls@.len() - i,
    {
        let ghost t = vs.take(i + 1);
        assert(t.drop_last() =~= vs.take(i as int));
        assert(t.last() == ls@[i as int]@);
        match line_number_of(&ls[i], &prefix) {
            Some(k) => {
                if k > max_n {
                    max_n = k;
                }
            },
            None => {},
        }
        i = i + 1;
    }
    assert(vs.take(ls@.len() as int) =~= vs);
    max_n
}

/// Find the next auto-increment suffix for a base name: the `-NN` numbers of
/// `refs/wip/<user>/<base>-*` in the `git ls-remote` listing are read, and
/// `<base>-{max+1:02}` is returned.
pub fn next_increment(base: &str, user: &str, listing: &str) -> (r: String)
    requires
        increment_fits(base@, user@, listing@),
    ensures
        r@ == incremented_name(base@, user@, listing@),
{
    let max_n = largest_number(base, user, listing);
    let mut v = chars_of(base);
    v.push('-');
    let num = decimal2_chars((max_n + 1) as u64);
    append_chars(&mut v, &num);
    assert(v@ =~= incremented_name(base@, user@, listing@));
    string_from_chars(&v)
}

// ---------------------------------------------------------------------------
// Counting what is saved
// ---------------------------------------------------------------------------

/// A `git status --porcelain` line of a newly added or untracked file.
pub open spec fn untracked_line(l: Seq<char>) -> bool {
    strip_prefix(l, "A "@) is Some || strip_prefix(l, "??"@) is Some
}

/// How many of the lines are `untracked_line`s.
pub open spec fn count_untracked(ls: Seq<Seq<char>>) -> nat
    decreases ls.len(),
{
    if ls.len() == 0 {
        0
    } else {
        count_untracked(ls.drop_last()) + if untracked_line(ls.last()) { 1nat } else { 0nat }
    }
}

proof fn lemma_count_untracked_le(ls: Seq<Seq<char>>)
    ensures
        count_untracked(ls) <= ls.len(),
    decreases ls.len(),
{
    if ls.len() > 0 {
        lemma_count_untracked_le(ls.drop_last());
    }
}

fn count_untracked_of(ls: &Vec<Vec<char>>) -> (n: usize)
    ensures
        n == count_untracked(views(ls@)),
{
    let ghost vs = views(ls@);
    let a = chars_of("A ");
    let q = chars_of("??");
    let mut n: usize = 0;
    let mut i: usize = 0;
    while i < ls.len()
        invariant
            i <= ls@.len(),
            vs == views(ls@),
            a@ == "A "@,
            q@ == "??"@,
            n == count_untracked(vs.take(i as int)),
        decreases ls@.len() - i,
    {
        let ghost t = vs.take(i + 1);
        assert(t.drop_last() =~= vs.take(i as int));
        assert(t.last() == ls@[i as int]@);
        proof {
            lemma_count_untracked_le(vs.take(i as int));
        }
        if starts_with_chars(&ls[i], &a) || starts_with_chars(&ls[i], &q) {
            n = n + 1;
        }
        i = i + 1;
    }
    assert(vs.take(ls@.len() as int) =~= vs);
    n
}

// ---------------------------------------------------------------------------
// The command
// ---------------------------------------------------------------------------

pub struct SaveResult {
    pub name: String,
    pub wip_ref: String,
    pub sha: String,
    pub files: usize,
    pub untracked: usize,
    pub task: Option<String>,
    pub clean: bool,
    pub stashed: bool,
}

pub struct SaveResultView {
    pub name: Seq<char>,
    pub wip_ref: Seq<char>,
    pub sha: Seq<char>,
    pub files: nat,
    pub untracked: nat,
    pub task: Option<Seq<char>>,
    pub clean: bool,
    pub stashed: bool,
}

impl View for SaveResult {
    type V = SaveResultView;

    open spec fn view(&self) -> SaveResultView {
        SaveResultView {
            name: self.name@,
            wip_ref: self.wip_ref@,
            sha: self.sha@,
            files: self.files as nat,
            untracked: self.untracked as nat,
            task: opt_view(self.task),
            clean: self.clean,
            stashed: self.stashed,
        }
    }
}

/// The call that a save waits for.
#[derive(Clone, Copy, PartialEq, Eq, Structural)]
pub enum SaveStage {
    User(UserStage),
    /// `git rev-parse --abbrev-ref HEAD`, for a name from the branch
    Naming,
    /// `git ls-remote <remote> refs/wip/<user>/<base>-*`
    Listing,
    /// `git rev-parse HEAD`, the commit to come back to
    Head,
    /// `git rev-parse --abbrev-ref HEAD`, the branch to record
    Branch,
    /// `git add -A`
    Adding,
    /// `git status --porcelain`
    Status,
    /// `git commit --allow-empty -m <message>`
    Committing,
    /// `git rev-parse HEAD`, the new commit
    Sha,
    /// `git push <remote> <sha>:<ref> --force`
    Pushing,
    /// `git reset <head> --hard`
    ResetHard,
    /// `git clean -fd`
    Cleaning,
    /// `git reset <head> --mixed`
    ResetMixed,
    Finished,
}

/// Where a save stands: its inputs and what it has learnt so far.
pub struct SaveState {
    pub stage: SaveStage,
    pub name: Option<String>,
    pub message: String,
    pub task: Option<String>,
    pub force: bool,
    pub include_ignored: bool,
    pub stash: bool,
    pub remote: String,
    pub user: String,
    pub base: String,
    pub wip_name: String,
    pub wip_ref: String,
    pub head: String,
    pub branch: String,
    pub files: usize,
    pub untracked: usize,
    pub sha: String,
    pub push_error: Option<String>,
}

pub struct SaveStateView {
    pub stage: SaveStage,
    pub name: Option<Seq<char>>,
    pub message: Seq<char>,
    pub task: Option<Seq<char>>,
    pub force: bool,
    pub include_ignored: bool,
    pub stash: bool,
    pub remote: Seq<char>,
    pub user: Seq<char>,
    pub base: Seq<char>,
    pub wip_name: Seq<char>,
    pub wip_ref: Seq<char>,
    pub head: Seq<char>,
    pub branch: Seq<char>,
    pub files: nat,
    pub untracked: nat,
    pub sha: Seq<char>,
    pub push_error: Option<Seq<char>>,
}

impl View for SaveState {
    type V = SaveStateView;

    open spec fn view(&self) -> SaveStateView {
        SaveStateView {
            stage: self.stage,
            name: opt_view(self.name),
            message: self.message@,
            task: opt_view(self.task),
            force: self.force,
            include_ignored: self.include_ignored,
            stash: self.stash,
            remote: self.remote@,
            user: self.user@,
            base: self.base@,
            wip_name: self.wip_name@,
            wip_ref: self.wip_ref@,
            head: self.head@,
            branch: self.branch@,
            files: self.files as nat,
            untracked: self.untracked as nat,
            sha: self.sha@,
            push_error: opt_view(self.push_error),
        }
    }
}

pub open spec fn head_query() -> Seq<Seq<char>> {
    seq!["rev-parse"@, "HEAD"@]
}

pub open spec fn add_query(include_ignored: bool) -> Seq<Seq<char>> {
    if include_ignored {
        seq!["add"@, "-A"@, "--force"@]
    } else {
        seq!["add"@, "-A"@]
    }
}

/// The message of a save whose remote could not be listed.
pub open spec fn unreachable_message(remote: Seq<char>, e: Seq<char>) -> Seq<char> {
    "could not reach remote '"@ + remote + "': "@ + e
}

/// The metadata that a save records in its commit.
pub open spec fn save_metadata(s: SaveStateView) -> MetadataView {
    MetadataView { message: s.message, branch: s.branch, task: s.task, files: s.files, untracked: s.untracked }
}

pub open spec fn save_result(s: SaveStateView, clean: bool) -> SaveResultView {
    SaveResultView {
        name: s.wip_name,
        wip_ref: s.wip_ref,
        sha: if clean { Seq::empty() } else { s.sha },
        files: if clean { 0 } else { s.files },
        untracked: if clean { 0 } else { s.untracked },
        task: s.task,
        clean,
        stashed: if clean { false } else { s.stash },
    }
}

pub open spec fn save_fail(s: SaveStateView, e: Seq<char>) -> (SaveStateView, Step<SaveResultView>) {
    (SaveStateView { stage: SaveStage::Finished, ..s }, Step::Done(Err(e)))
}

/// With the base name known: `--force` keeps it as it is, otherwise the
/// remote is listed for numbered names of it.
pub open spec fn save_named(s: SaveStateView, base: Seq<char>) -> (SaveStateView, Step<SaveResultView>) {
    if s.force {
        (
            SaveStateView { stage: SaveStage::Head, base, wip_name: base, wip_ref: ref_path(base, s.user), ..s },
            Step::Git(head_query(), false),
        )
    } else {
        (
            SaveStateView { stage: SaveStage::Listing, base, ..s },
            Step::Git(seq!["ls-remote"@, s.remote, ref_path(base + "-*"@, s.user)], false),
        )
    }
}

/// After the working tree was put back: the push's outcome decides.
pub open spec fn save_finish(s: SaveStateView) -> (SaveStateView, Step<SaveResultView>) {
    match s.push_error {
        Some(e) => save_fail(s, e),
        None => (SaveStateView { stage: SaveStage::Finished, ..s }, Step::Done(Ok(save_result(s, false)))),
    }
}

/// A save: first the user's configuration is read.
pub open spec fn save_start(
    name: Option<Seq<char>>,
    message: Seq<char>,
    task: Option<Seq<char>>,
    force: bool,
    include_ignored: bool,
    stash: bool,
    remote: Seq<char>,
) -> (SaveStateView, Step<SaveResultView>) {
    (
        SaveStateView {
            stage: SaveStage::User(UserStage::WipUser),
            name,
            message,
            task,
            force,
            include_ignored,
            stash,
            remote,
            user: Seq::empty(),
            base: Seq::empty(),
            wip_name: Seq::empty(),
            wip_ref: Seq::empty(),
            head: Seq::empty(),
            branch: Seq::empty(),
            files: 0,
            untracked: 0,
            sha: Seq::empty(),
            push_error: None,
        },
        Step::Git(user_query(UserStage::WipUser), false),
    )
}

/// How a save goes on from `s` once git answered `r`: the name is the given
/// name, or the slug of the branch, numbered unless `force`; HEAD and the
/// branch are recorded, everything is staged, and a clean tree ends the
/// command; otherwise a commit carrying the metadata is made and pushed, and
/// the working tree is put back on HEAD (hard and cleaned with `stash`, else
/// mixed) whatever the push gave, before the push's error, if any, is the
/// command's error.
pub open spec fn save_next(s: SaveStateView, r: Reply) -> (SaveStateView, Step<SaveResultView>) {
    match s.stage {
        SaveStage::User(stage) => match user_next(stage, stdout_view(r)) {
            UserNext::Ask(st) => (SaveStateView { stage: SaveStage::User(st), ..s }, Step::Git(user_query(st), false)),
            UserNext::Failed(e) => save_fail(s, e),
            UserNext::Found(u) => match s.name {
                Some(n) => save_named(SaveStateView { user: u, ..s }, n),
                None => (SaveStateView { stage: SaveStage::Naming, user: u, ..s }, Step::Git(branch_query(), false)),
            },
        },
        SaveStage::Naming => match stdout_view(r) {
            Ok(b) => save_named(s, slug(b)),
            Err(e) => save_fail(s, e),
        },
        SaveStage::Listing => match stdout_view(r) {
            Ok(listing) => {
                let n = incremented_name(s.base, s.user, listing);
                (
                    SaveStateView { stage: SaveStage::Head, wip_name: n, wip_ref: ref_path(n, s.user), ..s },
                    Step::Git(head_query(), false),
                )
            },
            Err(e) => save_fail(s, unreachable_message(s.remote, e)),
        },
        SaveStage::Head => match stdout_view(r) {
            Ok(h) => (SaveStateView { stage: SaveStage::Branch, head: h, ..s }, Step::Git(branch_query(), false)),
            Err(e) => save_fail(s, e),
        },
        SaveStage::Branch => match stdout_view(r) {
            Ok(b) => (SaveStateView { stage: SaveStage::Adding, branch: b, ..s }, Step::Git(add_query(s.include_ignored), false)),
            Err(e) => save_fail(s, e),
        },
        SaveStage::Adding => match r {
            Ok(_) => (SaveStateView { stage: SaveStage::Status, ..s }, Step::Git(status_query(), false)),
            Err(e) => save_fail(s, e),
        },
        SaveStage::Status => match stdout_view(r) {
            Ok(st) => if st.len() == 0 {
                (SaveStateView { stage: SaveStage::Finished, ..s }, Step::Done(Ok(save_result(s, true))))
            } else {
                let t = SaveStateView {
                    stage: SaveStage::Committing,
                    files: lines(st).len(),
                    untracked: count_untracked(lines(st)),
                    ..s
                };
                (t, Step::Git(seq!["commit"@, "--allow-empty"@, "-m"@, commit_message(save_metadata(t))], false))
            },
            Err(e) => save_fail(s, e),
        },
        SaveStage::Committing => match r {
            Ok(_) => (SaveStateView { stage: SaveStage::Sha, ..s }, Step::Git(head_query(), false)),
            Err(e) => save_fail(s, e),
        },
        SaveStage::Sha => match stdout_view(r) {
            Ok(sha) => (
                SaveStateView { stage: SaveStage::Pushing, sha, ..s },
                Step::Git(seq!["push"@, s.remote, sha + seq![':'] + s.wip_ref, "--force"@], false),
            ),
            Err(e) => save_fail(s, e),
        },
        SaveStage::Pushing => {
            let pe = match r {
                Ok(_) => None,
                Err(e) => Some(e),
            };
            if s.stash {
                (SaveStateView { stage: SaveStage::ResetHard, push_error: pe, ..s }, Step::Git(seq!["reset"@, s.head, "--hard"@], false))
            } else {
                (SaveStateView { stage: SaveStage::ResetMixed, push_error: pe, ..s }, Step::Git(seq!["reset"@, s.head, "--mixed"@], false))
            }
        },
        SaveStage::ResetHard => match r {
            Ok(_) => (SaveStateView { stage: SaveStage::Cleaning, ..s }, Step::Git(seq!["clean"@, "-fd"@], false)),
            Err(e) => save_fail(s, e),
        },
        SaveStage::Cleaning => match r {
            Ok(_) => save_finish(s),
            Err(e) => save_fail(s, e),
        },
        SaveStage::ResetMixed => match r {
            Ok(_) => save_finish(s),
            Err(e) => save_fail(s, e),
        },
        SaveStage::Finished => (s, Step::Done(Err(finished_message()))),
    }
}

/// What `resume` needs of a reply: a listing whose next number fits a `u32`.
pub open spec fn save_reply_fits(s: SaveStateView, r: Reply) -> bool {
    s.stage == SaveStage::Listing ==> match r {
        Ok((listing, _)) => increment_fits(s.base, s.user, listing),
        Err(_) => true,
    }
}

fn clone_opt(o: &Option<String>) -> (r: Option<String>)
    ensures
        opt_view(r) == opt_view(*o),
{
    match o {
        Some(s) => Some(s.clone()),
        None => None,
    }
}

/// Start saving the working state.
pub fn run(
    name: Option<String>,
    message: String,
    task: Option<String>,
    force: bool,
    include_ignored: bool,
    stash: bool,
    remote: String,
) -> (out: (SaveState, Action<SaveResult>))
    ensures
        (out.0@, step_view(out.1)) == save_start(opt_view(name), message@, opt_view(task), force, include_ignored, stash, remote@),
{
    let s = SaveState {
        stage: SaveStage::User(UserStage::WipUser),
        name,
        message,
        task,
        force,
        include_ignored,
        stash,
        remote,
        user: String::new(),
        base: String::new(),
        wip_name: String::new(),
        wip_ref: String::new(),
        head: String::new(),
        branch: String::new(),
        files: 0,
        untracked: 0,
        sha: String::new(),
        push_error: None,
    };
    (s, Action::Git(user_call(UserStage::WipUser)))
}

fn fail(mut s: SaveState, e: String) -> (out: (SaveState, Action<SaveResult>))
    ensures
        (out.0@, step_view(out.1)) == save_fail(s@, e@),
{
    s.stage = SaveStage::Finished;
    (s, Action::Done(Err(e)))
}

fn named(mut s: SaveState, base: String) -> (out: (SaveState, Action<SaveResult>))
    ensures
        (out.0@, step_view(out.1)) == save_named(s@, base@),
{
    if s.force {
        s.wip_ref = wip_ref(base.as_str(), s.user.as_str());
        s.wip_name = base.clone();
        s.base = base;
        s.stage = SaveStage::Head;
        let c = checked(vec![arg("rev-parse"), arg("HEAD")]);
        assert(call_args(c) =~= head_query());
        (s, Action::Git(c))
    } else {
        let mut pat = chars_of(base.as_str());
        append_str(&mut pat, "-*");
        let pattern = wip_ref(string_from_chars(&pat).as_str(), s.user.as_str());
        let c = checked(vec![arg("ls-remote"), s.remote.clone(), pattern]);
        assert(call_args(c) =~= seq!["ls-remote"@, s.remote@, ref_path(base@ + "-*"@, s.user@)]);
        s.base = base;
        s.stage = SaveStage::Listing;
        (s, Action::Git(c))
    }
}

fn finish(mut s: SaveState) -> (out: (SaveState, Action<SaveResult>))
    ensures
        (out.0@, step_view(out.1)) == save_finish(s@),
{
    match s.push_error {
        Some(ref e) => {
            let e = e.clone();
            fail(s, e)
        },
        None => {
            s.stage = SaveStage::Finished;
            let r = SaveResult {
                name: s.wip_name.clone(),
                wip_ref: s.wip_ref.clone(),
                sha: s.sha.clone(),
                files: s.files,
                untracked: s.untracked,
                task: clone_opt(&s.task),
                clean: false,
                stashed: s.stash,
            };
            (s, Action::Done(Ok(r)))
        },
    }
}

/// Exec form of `save_reply_fits`, for callers that must check it.
pub fn reply_fits(s: &SaveState, reply: &Result<GitOutput, String>) -> (b: bool)
    ensures
        b == save_reply_fits(s@, reply_view(*reply)),
{
    if s.stage != SaveStage::Listing {
        return true;
    }
    match reply {
        Ok(o) => listing_fits(s.base.as_str(), s.user.as_str(), o.stdout.as_str()),
        Err(_) => true,
    }
}

fn listing_fits(base: &str, user: &str, listing: &str) -> (b: bool)
    ensures
        b == increment_fits(base@, user@, listing@),
{
    largest_number(base, user, listing) < u32::MAX
}

/// Go on with a save once git answered the last call.
pub fn resume(s: SaveState, reply: Result<GitOutput, String>) -> (out: (SaveState, Action<SaveResult>))
    requires
        save_reply_fits(s@, reply_view(reply)),
    ensures
        (out.0@, step_view(out.1)) == save_next(s@, reply_view(reply)),
{
    let mut s = s;
    match s.stage {
        SaveStage::User(stage) => match user(stage, git_stdout(reply)) {
            Lookup::Ask(c) => {
                s.stage = SaveStage::User(UserStage::UserName);
                (s, Action::Git(c))
            },
            Lookup::Ready(Err(e)) => fail(s, e),
            Lookup::Ready(Ok(u)) => {
                s.user = u;
                match resolve_name(clone_opt(&s.name)) {
                    Lookup::Ready(Ok(base)) => named(s, base),
                    Lookup::Ready(Err(e)) => fail(s, e),
                    Lookup::Ask(c) => {
                        s.stage = SaveStage::Naming;
                        (s, Action::Git(c))
                    },
                }
            },
        },
        SaveStage::Naming => match auto_name(git_stdout(reply)) {
            Ok(base) => named(s, base),
            Err(e) => fail(s, e),
        },
        SaveStage::Listing => match git_stdout(reply) {
            Ok(listing) => {
                let n = next_increment(s.base.as_str(), s.user.as_str(), listing.as_str());
                s.wip_ref = wip_ref(n.as_str(), s.user.as_str());
                s.wip_name = n;
                s.stage = SaveStage::Head;
                let c = checked(vec![arg("rev-parse"), arg("HEAD")]);
                assert(call_args(c) =~= head_query());
                (s, Action::Git(c))
            },
            Err(e) => {
                let mut m = chars_of("could not reach remote '");
                append_str(&mut m, s.remote.as_str());
                append_str(&mut m, "': ");
                append_str(&mut m, e.as_str());
                assert(m@ =~= unreachable_message(s.remote@, e@));
                let m = string_from_chars(&m);
                fail(s, m)
            },
        },
        SaveStage::Head => match git_stdout(reply) {
            Ok(h) => {
                s.head = h;
                s.stage = SaveStage::Branch;
                (s, Action::Git(branch_call()))
            },
            Err(e) => fail(s, e),
        },
        SaveStage::Branch => match git_stdout(reply) {
            Ok(b) => {
                s.branch = b;
                s.stage = SaveStage::Adding;
                let c = if s.include_ignored {
                    checked(vec![arg("add"), arg("-A"), arg("--force")])
                } else {
                    checked(vec![arg("add"), arg("-A")])
                };
                assert(call_args(c) =~= add_query(s.include_ignored));
                (s, Action::Git(c))
            },
            Err(e) => fail(s, e),
        },
        SaveStage::Adding => match reply {
            Ok(_) => {
                s.stage = SaveStage::Status;
                let c = checked(vec![arg("status"), arg("--porcelain")]);
                assert(call_args(c) =~= status_query());
                (s, Action::Git(c))
            },
            Err(e) => fail(s, e),
        },
        SaveStage::Status => match git_stdout(reply) {
            Ok(st) => {
                if st.as_str().is_empty() {
                    s.stage = SaveStage::Finished;
                    let r = SaveResult {
                        name: s.wip_name.clone(),
                        wip_ref: s.wip_ref.clone(),
                        sha: String::new(),
                        files: 0,
                        untracked: 0,
                        task: clone_opt(&s.task),
                        clean: true,
                        stashed: false,
                    };
                    (s, Action::Done(Ok(r)))
                } else {
                    let ls = lines_of(&chars_of(st.as_str()));
                    s.files = ls.len();
                    s.untracked = count_untracked_of(&ls);
                    s.stage = SaveStage::Committing;
                    let meta = WipMetadata {
                        message: s.message.clone(),
                        branch: s.branch.clone(),
                        task: clone_opt(&s.task),
                        files: s.files,
                        untracked: s.untracked,
                    };
                    let msg = meta.to_commit_message();
                    let c = checked(vec![arg("commit"), arg("--allow-empty"), arg("-m"), msg]);
                    assert(call_args(c) =~= seq!["commit"@, "--allow-empty"@, "-m"@, commit_message(save_metadata(s@))]);
                    (s, Action::Git(c))
                }
            },
            Err(e) => fail(s, e),
        },
        SaveStage::Committing => match reply {
            Ok(_) => {
                s.stage = SaveStage::Sha;
                let c = checked(vec![arg("rev-parse"), arg("HEAD")]);
                assert(call_args(c) =~= head_query());
                (s, Action::Git(c))
            },
            Err(e) => fail(s, e),
        },
        SaveStage::Sha => match git_stdout(reply) {
            Ok(sha) => {
                let mut spec = chars_of(sha.as_str());
                spec.push(':');
                append_str(&mut spec, s.wip_ref.as_str());
                assert(spec@ =~= sha@ + seq![':'] + s.wip_ref@);
                let c = checked(vec![arg("push"), s.remote.clone(), string_from_chars(&spec), arg("--force")]);
                assert(call_args(c) =~= seq!["push"@, s.remote@, sha@ + seq![':'] + s.wip_ref@, "--force"@]);
                s.sha = sha;
                s.stage = SaveStage::Pushing;
                (s, Action::Git(c))
            },
            Err(e) => fail(s, e),
        },
        SaveStage::Pushing => {
            s.push_error = match reply {
                Ok(_) => None,
                Err(e) => Some(e),
            };
            if s.stash {
                s.stage = SaveStage::ResetHard;
                let c = checked(vec![arg("reset"), s.head.clone(), arg("--hard")]);
                assert(call_args(c) =~= seq!["reset"@, s.head@, "--hard"@]);
                (s, Action::Git(c))
            } else {
                s.stage = SaveStage::ResetMixed;
                let c = checked(vec![arg("reset"), s.head.clone(), arg("--mixed")]);
                assert(call_args(c) =~= seq!["reset"@, s.head@, "--mixed"@]);
                (s, Action::Git(c))
            }
        },
        SaveStage::ResetHard => match reply {
            Ok(_) => {
                s.stage = SaveStage::Cleaning;
                let c = checked(vec![arg("clean"), arg("-fd")]);
                assert(call_args(c) =~= seq!["clean"@, "-fd"@]);
                (s, Action::Git(c))
            },
            Err(e) => fail(s, e),
        },
        SaveStage::Cleaning => match reply {
            Ok(_) => finish(s),
            Err(e) => fail(s, e),
        },
        SaveStage::ResetMixed => match reply {
            Ok(_) => finish(s),
            Err(e) => fail(s, e),
        },
        SaveStage::Finished => (s, Action::Done(Err(arg("the command has already ended")))),
    }
}

/// Law: once the commit was pushed, the next call puts the working tree back
/// on the recorded HEAD (hard with `stash`, mixed otherwise) whatever the
/// push answered, and a failed push is kept for the end.
pub proof fn lemma_reset_after_push(s: SaveStateView, r: Reply)
    requires
        s.stage == SaveStage::Pushing,
    ensures
        save_next(s, r).1 == Step::<SaveResultView>::Git(
            seq!["reset"@, s.head, if s.stash { "--hard"@ } else { "--mixed"@ }],
            false,
        ),
        save_next(s, r).0.push_error == (match r {
            Ok(_) => None,
            Err(e) => Some(e),
        }),
{
}

/// Law: a failed push is the result of the save, after the working tree was
/// put back: from a reset (or clean) that succeeds, the command ends with the
/// push's error.
pub proof fn lemma_push_error_reported(s: SaveStateView, r: Reply)
    requires
        s.stage == SaveStage::ResetMixed || s.stage == SaveStage::Cleaning,
        s.push_error is Some,
        r is Ok,
    ensures
        save_next(s, r).1 == Step::<SaveResultView>::Done(Err(s.push_error.unwrap())),
{
}

/// Law: the commit id that a save reports is the commit it pushed. The
/// `rev-parse HEAD` after the commit gives the id that the push's refspec
/// sends to the entry's ref; from the push to the end that id and that ref
/// are kept, and a successful save of a dirty tree reports them.
pub proof fn lemma_reports_pushed_commit(s: SaveStateView, r: Reply)
    ensures
        s.stage == SaveStage::Sha ==> (stdout_view(r) matches Ok(c) ==> {
            &&& save_next(s, r).0.sha == c
            &&& save_next(s, r).0.wip_ref == s.wip_ref
            &&& save_next(s, r).0.stage == SaveStage::Pushing
            &&& save_next(s, r).1 matches Step::Git(args, _) && args.len() == 4 && args[0] == "push"@ && args[2]
                == c + seq![':'] + s.wip_ref
        }),
        (s.stage == SaveStage::Pushing || s.stage == SaveStage::ResetHard || s.stage == SaveStage::Cleaning
            || s.stage == SaveStage::ResetMixed) ==> save_next(s, r).0.sha == s.sha && save_next(s, r).0.wip_ref
            == s.wip_ref,
        save_next(s, r).1 matches Step::Done(Ok(res)) ==> (!res.clean ==> {
            &&& s.stage == SaveStage::Cleaning || s.stage == SaveStage::ResetMixed
            &&& res.sha == s.sha
            &&& res.wip_ref == s.wip_ref
        }),
{
}

} // verus!

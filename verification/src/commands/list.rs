//! `wip list`: the WIP entries on the remote, with their metadata.

use vstd::prelude::*;
use crate::clock::now_timestamp;
use crate::commands::{finished_message, step_view, Action, Reply, Step};
use crate::commands::show::message_query;
use crate::config::{user, user_call, user_next, user_query, UserNext, UserStage};
use crate::git::{arg, call_args, checked, git_stdout, reply_view, stdout_view, GitOutput};
use crate::metadata::{opt_view, parse_commit_message, MetadataView, WipMetadata};
use crate::ref_name::{list_pattern, pattern_path, Lookup};
use crate::text::{
    append_str, chars_eq, chars_of, decimal, decimal_chars, lines, lines_of,
    parse_i64, parse_i64_chars, split_once, split_once_chars, string_from_chars, strip_prefix,
    strip_prefix_chars, views, words, words_of,
};

verus! {

// ---------------------------------------------------------------------------
// Lines of `git ls-remote`
// ---------------------------------------------------------------------------

/// A line of `git ls-remote` output that names a ref: it has two words.
pub open spec fn entry_line(l: Seq<char>) -> bool {
    words(l).len() >= 2
}

/// The first line at or after `i` that names a ref.
pub open spec fn next_entry(ls: Seq<Seq<char>>, i: int) -> Option<int>
    decreases ls.len() - i,
{
    if i < 0 || i >= ls.len() {
        None
    } else if entry_line(ls[i]) {
        Some(i)
    } else {
        next_entry(ls, i + 1)
    }
}

pub(crate) proof fn lemma_next_entry(ls: Seq<Seq<char>>, i: int)
    ensures
        next_entry(ls, i) matches Some(j) ==> i <= j < ls.len() && entry_line(ls[j]),
    decreases ls.len() - i,
{
    if 0 <= i < ls.len() && !entry_line(ls[i]) {
        lemma_next_entry(ls, i + 1);
    }
}

/// No line of `ls` after line `i` names a ref.
pub open spec fn no_ref_after(ls: Seq<Seq<char>>, i: int) -> bool {
    forall|k: int| i < k < ls.len() ==> !entry_line(#[trigger] ls[k])
}

/// Line `j` is the first line of `ls` after line `i` that names a ref.
pub open spec fn first_ref_after(ls: Seq<Seq<char>>, i: int, j: int) -> bool {
    &&& i < j < ls.len()
    &&& entry_line(ls[j])
    &&& forall|k: int| i < k < j ==> !entry_line(#[trigger] ls[k])
}

/// What `next_entry` finds from line `i + 1` on: the first line after `i`
/// that names a ref, or, where it finds none, no such line exists.
pub proof fn lemma_next_entry_after(ls: Seq<Seq<char>>, i: int)
    requires
        -1 <= i,
    ensures
        next_entry(ls, i + 1) matches Some(j) ==> first_ref_after(ls, i, j),
        next_entry(ls, i + 1) is None ==> no_ref_after(ls, i),
    decreases ls.len() - i,
{
    if i + 1 < ls.len() && !entry_line(ls[i + 1]) {
        lemma_next_entry_after(ls, i + 1);
    }
}

/// Exec form of `next_entry`.
pub fn next_entry_of(ls: &Vec<Vec<char>>, i: usize) -> (r: Option<usize>)
    ensures
        match r {
            Some(j) => next_entry(views(ls@), i as int) == Some(j as int),
            None => next_entry(views(ls@), i as int) is None,
        },
{
    let ghost vs = views(ls@);
    let mut j = i;
    while j < ls.len()
        invariant
            i <= j,
            vs == views(ls@),
            next_entry(vs, i as int) == next_entry(vs, j as int),
        decreases ls@.len() - j,
    {
        let ws = words_of(&ls[j]);
        assert(vs[j as int] == ls@[j as int]@);
        if ws.len() >= 2 {
            return Some(j);
        }
        j = j + 1;
    }
    None
}

/// The user and name that a ref path `refs/wip/<user>/<name>` holds.
pub open spec fn ref_owner(refpath: Seq<char>) -> (Seq<char>, Seq<char>) {
    let suffix = match strip_prefix(refpath, "refs/wip/"@) {
        Some(x) => x,
        None => refpath,
    };
    match split_once(suffix, '/') {
        Some((u, n)) => (u, n),
        None => (suffix, Seq::empty()),
    }
}

fn ref_owner_of(refpath: &Vec<char>) -> (r: (Vec<char>, Vec<char>))
    ensures
        (r.0@, r.1@) == ref_owner(refpath@),
{
    let suffix = match strip_prefix_chars(refpath, &chars_of("refs/wip/")) {
        Some(x) => x,
        None => refpath.clone(),
    };
    match split_once_chars(&suffix, '/') {
        Some((u, n)) => (u, n),
        None => (suffix, Vec::new()),
    }
}

/// Law: the user and name read back from the ref that `wip_ref` builds are
/// the ones it was built from, when the user holds no `/`.
pub proof fn lemma_ref_owner_of_ref_path(name: Seq<char>, user: Seq<char>)
    requires
        !user.contains('/'),
    ensures
        ref_owner(crate::ref_name::ref_path(name, user)) == (user, name),
{
    reveal_strlit("refs/wip/");
    let p = "refs/wip/"@;
    let r = crate::ref_name::ref_path(name, user);
    let suffix = user + seq!['/'] + name;
    assert(r =~= p + suffix);
    assert(r.take(p.len() as int) =~= p);
    assert(r.skip(p.len() as int) =~= suffix);
    assert(strip_prefix(r, p) == Some(suffix));
    lemma_find_first(suffix, user.len() as int, 0);
    assert(suffix.take(user.len() as int) =~= user);
    assert(suffix.skip(user.len() as int + 1) =~= name);
}

proof fn lemma_find_first(s: Seq<char>, k: int, i: int)
    requires
        0 <= i <= k < s.len(),
        s[k] == '/',
        forall|j: int| 0 <= j < k ==> s[j] != '/',
    ensures
        crate::text::find_from(s, '/', i) == Some(k),
    decreases k - i,
{
    if i < k {
        lemma_find_first(s, k, i + 1);
    }
}

// ---------------------------------------------------------------------------
// Relative times
// ---------------------------------------------------------------------------

/// How `wip list` shows an age in seconds.
pub open spec fn age_text(age: int) -> Seq<char> {
    if age < 60 {
        "just now"@
    } else if age < 3600 {
        decimal((age / 60) as nat) + "m ago"@
    } else if age < 86400 {
        decimal((age / 3600) as nat) + "h ago"@
    } else if age < 86400 * 30 {
        decimal((age / 86400) as nat) + "d ago"@
    } else {
        decimal((age / 604800int) as nat) + "w ago"@
    }
}

/// The age of `timestamp` at time `now`, as text. The age is `now - timestamp`
/// in wrapping `i64` arithmetic.
pub fn relative_time_at(timestamp: i64, now: i64) -> (r: String)
    ensures
        r@ == age_text(now.wrapping_sub(timestamp) as int),
{
    let age = now.wrapping_sub(timestamp);
    let mut v: Vec<char>;
    if age < 60 {
        v = chars_of("just now");
    } else if age < 3600 {
        v = decimal_chars((age / 60) as u64);
        append_str(&mut v, "m ago");
    } else if age < 86400 {
        v = decimal_chars((age / 3600) as u64);
        append_str(&mut v, "h ago");
    } else if age < 86400 * 30 {
        v = decimal_chars((age / 86400) as u64);
        append_str(&mut v, "d ago");
    } else {
        v = decimal_chars((age / (86400 * 7)) as u64);
        append_str(&mut v, "w ago");
    }
    string_from_chars(&v)
}

/// The age of `timestamp` now, as text: `relative_time_at` with the clock's
/// current time, or `None` when the clock cannot be read (see
/// [`crate::clock::now_timestamp`]).
pub fn relative_time(timestamp: i64) -> (r: Option<String>)
    ensures
        r matches Some(t) ==> exists|now: i64| now >= 0 && #[trigger] age_text(now.wrapping_sub(timestamp) as int) == t@,
{
    match now_timestamp() {
        Some(now) => {
            let r = relative_time_at(timestamp, now);
            assert(age_text(now.wrapping_sub(timestamp) as int) == r@);
            Some(r)
        },
        None => None,
    }
}

// ---------------------------------------------------------------------------
// The command
// ---------------------------------------------------------------------------

pub struct WipEntry {
    pub name: String,
    pub user: String,
    pub sha: String,
    pub metadata: WipMetadata,
    pub timestamp: i64,
}

pub struct WipEntryView {
    pub name: Seq<char>,
    pub user: Seq<char>,
    pub sha: Seq<char>,
    pub metadata: MetadataView,
    pub timestamp: int,
}

impl View for WipEntry {
    type V = WipEntryView;

    open spec fn view(&self) -> WipEntryView {
        WipEntryView {
            name: self.name@,
            user: self.user@,
            sha: self.sha@,
            metadata: self.metadata@,
            timestamp: self.timestamp as int,
        }
    }
}

pub open spec fn entries_view(v: Seq<WipEntry>) -> Seq<WipEntryView> {
    v.map_values(|e: WipEntry| e@)
}

pub struct ListResult {
    pub entries: Vec<WipEntry>,
}

pub struct ListResultView {
    pub entries: Seq<WipEntryView>,
}

impl View for ListResult {
    type V = ListResultView;

    open spec fn view(&self) -> ListResultView {
        ListResultView { entries: entries_view(self.entries@) }
    }
}

/// The call that a listing waits for.
#[derive(Clone, Copy, PartialEq, Eq, Structural)]
pub enum ListStage {
    User(UserStage),
    /// `git ls-remote <remote> <pattern>*`
    Listing,
    /// `git fetch <remote> <ref>` for the current line
    Fetching,
    /// `git log -1 --format=%B FETCH_HEAD`
    Message,
    /// `git log -1 --format=%ct FETCH_HEAD`
    Time,
    Finished,
}

/// Where a listing stands: its inputs, the listed lines, the line at hand
/// and the entries found so far.
pub struct ListState {
    pub stage: ListStage,
    pub all: bool,
    pub task_filter: Option<String>,
    pub remote: String,
    pub lines: Vec<Vec<char>>,
    pub index: usize,
    pub sha: String,
    pub refpath: String,
    pub entry_user: String,
    pub entry_name: String,
    pub metadata: WipMetadata,
    pub entries: Vec<WipEntry>,
}

pub struct ListStateView {
    pub stage: ListStage,
    pub all: bool,
    pub task_filter: Option<Seq<char>>,
    pub remote: Seq<char>,
    pub lines: Seq<Seq<char>>,
    pub index: int,
    pub sha: Seq<char>,
    pub refpath: Seq<char>,
    pub entry_user: Seq<char>,
    pub entry_name: Seq<char>,
    pub metadata: MetadataView,
    pub entries: Seq<WipEntryView>,
}

impl View for ListState {
    type V = ListStateView;

    open spec fn view(&self) -> ListStateView {
        ListStateView {
            stage: self.stage,
            all: self.all,
            task_filter: opt_view(self.task_filter),
            remote: self.remote@,
            lines: views(self.lines@),
            index: self.index as int,
            sha: self.sha@,
            refpath: self.refpath@,
            entry_user: self.entry_user@,
            entry_name: self.entry_name@,
            metadata: self.metadata@,
            entries: entries_view(self.entries@),
        }
    }
}

pub open spec fn time_query() -> Seq<Seq<char>> {
    seq!["log"@, "-1"@, "--format=%ct"@, "FETCH_HEAD"@]
}

pub open spec fn bad_timestamp_message(refpath: Seq<char>) -> Seq<char> {
    "bad timestamp for "@ + refpath
}

pub open spec fn list_fail(s: ListStateView, e: Seq<char>) -> (ListStateView, Step<ListResultView>) {
    (ListStateView { stage: ListStage::Finished, ..s }, Step::Done(Err(e)))
}

/// Go to the next line at or after `i` that names a ref, and fetch that ref;
/// with none left, the entries found are the result.
pub open spec fn list_advance(s: ListStateView, i: int) -> (ListStateView, Step<ListResultView>) {
    match next_entry(s.lines, i) {
        None => (ListStateView { stage: ListStage::Finished, ..s }, Step::Done(Ok(ListResultView { entries: s.entries }))),
        Some(j) => {
            let ws = words(s.lines[j]);
            let (u, n) = ref_owner(ws[1]);
            (
                ListStateView { stage: ListStage::Fetching, index: j, sha: ws[0], refpath: ws[1], entry_user: u, entry_name: n, ..s },
                Step::Git(seq!["fetch"@, s.remote, ws[1]], false),
            )
        },
    }
}

/// A listing: first the user's configuration is read.
pub open spec fn list_start(all: bool, task_filter: Option<Seq<char>>, remote: Seq<char>) -> (ListStateView, Step<ListResultView>) {
    (
        ListStateView {
            stage: ListStage::User(UserStage::WipUser),
            all,
            task_filter,
            remote,
            lines: Seq::empty(),
            index: 0,
            sha: Seq::empty(),
            refpath: Seq::empty(),
            entry_user: Seq::empty(),
            entry_name: Seq::empty(),
            metadata: crate::metadata::empty_metadata(),
            entries: Seq::empty(),
        },
        Step::Git(user_query(UserStage::WipUser), false),
    )
}

/// How a listing goes on from `s` once git answered `r`: the refs under
/// `refs/wip/<user>/` (or `refs/wip/` with `all`) are listed; for each
/// listed ref in turn it is fetched, its metadata read, entries of another
/// task than the filter skipped, and its commit time read.
pub open spec fn list_next(s: ListStateView, r: Reply) -> (ListStateView, Step<ListResultView>) {
    match s.stage {
        ListStage::User(stage) => match user_next(stage, stdout_view(r)) {
            UserNext::Ask(st) => (ListStateView { stage: ListStage::User(st), ..s }, Step::Git(user_query(st), false)),
            UserNext::Failed(e) => list_fail(s, e),
            UserNext::Found(u) => {
                let pattern = if s.all { pattern_path(None) } else { pattern_path(Some(u)) };
                (ListStateView { stage: ListStage::Listing, ..s }, Step::Git(seq!["ls-remote"@, s.remote, pattern + seq!['*']], false))
            },
        },
        ListStage::Listing => match stdout_view(r) {
            Ok(out) => if out.len() == 0 {
                (ListStateView { stage: ListStage::Finished, ..s }, Step::Done(Ok(ListResultView { entries: Seq::empty() })))
            } else {
                list_advance(ListStateView { lines: lines(out), ..s }, 0)
            },
            Err(e) => list_fail(s, e),
        },
        ListStage::Fetching => match r {
            Ok(_) => (ListStateView { stage: ListStage::Message, ..s }, Step::Git(message_query(), false)),
            Err(e) => list_fail(s, e),
        },
        ListStage::Message => match stdout_view(r) {
            Ok(msg) => {
                let meta = parse_commit_message(msg);
                let t = ListStateView { metadata: meta, ..s };
                if s.task_filter is Some && meta.task != s.task_filter {
                    list_advance(t, s.index + 1)
                } else {
                    (ListStateView { stage: ListStage::Time, ..t }, Step::Git(time_query(), false))
                }
            },
            Err(e) => list_fail(s, e),
        },
        ListStage::Time => match stdout_view(r) {
            Ok(ts) => match parse_i64(ts) {
                Some(t) => {
                    let e = WipEntryView { name: s.entry_name, user: s.entry_user, sha: s.sha, metadata: s.metadata, timestamp: t };
                    list_advance(ListStateView { entries: s.entries.push(e), ..s }, s.index + 1)
                },
                None => list_fail(s, bad_timestamp_message(s.refpath)),
            },
            Err(e) => list_fail(s, e),
        },
        ListStage::Finished => (s, Step::Done(Err(finished_message()))),
    }
}

/// Start listing the WIP entries on `remote`: all users' with `all`, and only
/// those of the task `task_filter` when one is given.
pub fn run(all: bool, task_filter: Option<String>, remote: String) -> (out: (ListState, Action<ListResult>))
    ensures
        (out.0@, step_view(out.1)) == list_start(all, opt_view(task_filter), remote@),
{
    let s = ListState {
        stage: ListStage::User(UserStage::WipUser),
        all,
        task_filter,
        remote,
        lines: Vec::new(),
        index: 0,
        sha: String::new(),
        refpath: String::new(),
        entry_user: String::new(),
        entry_name: String::new(),
        metadata: WipMetadata::from_commit_message(""),
        entries: Vec::new(),
    };
    proof {
        reveal_strlit("");
        assert(crate::text::lines(""@) =~= Seq::<Seq<char>>::empty());
    }
    assert(s@.metadata == crate::metadata::empty_metadata());
    assert(s@.lines =~= Seq::<Seq<char>>::empty());
    assert(s@.entries =~= Seq::<WipEntryView>::empty());
    (s, Action::Git(user_call(UserStage::WipUser)))
}

fn clone_metadata(m: &WipMetadata) -> (r: WipMetadata)
    ensures
        r@ == m@,
{
    WipMetadata {
        message: m.message.clone(),
        branch: m.branch.clone(),
        task: match &m.task {
            Some(t) => Some(t.clone()),
            None => None,
        },
        files: m.files,
        untracked: m.untracked,
    }
}

fn clone_entries(v: &Vec<WipEntry>) -> (r: Vec<WipEntry>)
    ensures
        entries_view(r@) == entries_view(v@),
{
    let mut r: Vec<WipEntry> = Vec::new();
    let mut i: usize = 0;
    while i < v.len()
        invariant
            i <= v@.len(),
            entries_view(r@) == entries_view(v@.take(i as int)),
        decreases v@.len() - i,
    {
        let e = &v[i];
        let ne = WipEntry {
            name: e.name.clone(),
            user: e.user.clone(),
            sha: e.sha.clone(),
            metadata: clone_metadata(&e.metadata),
            timestamp: e.timestamp,
        };
        assert(ne@ == v@[i as int]@);
        let ghost old_r = r@;
        r.push(ne);
        proof {
            assert(v@.take(i + 1) =~= v@.take(i as int).push(v@[i as int]));
            assert(entries_view(r@) =~= entries_view(old_r).push(v@[i as int]@));
            assert(entries_view(v@.take(i + 1)) =~= entries_view(v@.take(i as int)).push(v@[i as int]@));
        }
        i = i + 1;
    }
    assert(v@.take(v@.len() as int) =~= v@);
    r
}

fn fail(mut s: ListState, e: String) -> (out: (ListState, Action<ListResult>))
    ensures
        (out.0@, step_view(out.1)) == list_fail(s@, e@),
{
    s.stage = ListStage::Finished;
    (s, Action::Done(Err(e)))
}

fn advance(mut s: ListState, i: usize) -> (out: (ListState, Action<ListResult>))
    ensures
        (out.0@, step_view(out.1)) == list_advance(s@, i as int),
{
    match next_entry_of(&s.lines, i) {
        None => {
            s.stage = ListStage::Finished;
            let r = ListResult { entries: clone_entries(&s.entries) };
            (s, Action::Done(Ok(r)))
        },
        Some(j) => {
            proof {
                lemma_next_entry(views(s.lines@), i as int);
            }
            let ws = words_of(&s.lines[j]);
            assert(views(s.lines@)[j as int] == s.lines@[j as int]@);
            assert(views(ws@)[0] == ws@[0]@);
            assert(views(ws@)[1] == ws@[1]@);
            let (u, n) = ref_owner_of(&ws[1]);
            let rp = string_from_chars(&ws[1]);
            let c = checked(vec![arg("fetch"), s.remote.clone(), rp.clone()]);
            assert(call_args(c) =~= seq!["fetch"@, s.remote@, ws@[1]@]);
            s.stage = ListStage::Fetching;
            s.index = j;
            s.sha = string_from_chars(&ws[0]);
            s.refpath = rp;
            s.entry_user = string_from_chars(&u);
            s.entry_name = string_from_chars(&n);
            (s, Action::Git(c))
        },
    }
}

fn advance_past(s: ListState) -> (out: (ListState, Action<ListResult>))
    ensures
        (out.0@, step_view(out.1)) == list_advance(s@, s@.index + 1),
{
    if s.index < s.lines.len() {
        let i = s.index + 1;
        advance(s, i)
    } else {
        let n = s.lines.len();
        advance(s, n)
    }
}

/// Go on with a listing once git answered the last call.
pub fn resume(s: ListState, reply: Result<GitOutput, String>) -> (out: (ListState, Action<ListResult>))
    ensures
        (out.0@, step_view(out.1)) == list_next(s@, reply_view(reply)),
{
    let mut s = s;
    match s.stage {
        ListStage::User(stage) => match user(stage, git_stdout(reply)) {
            Lookup::Ask(c) => {
                s.stage = ListStage::User(UserStage::UserName);
                (s, Action::Git(c))
            },
            Lookup::Ready(Err(e)) => fail(s, e),
            Lookup::Ready(Ok(u)) => {
                let pattern = if s.all { list_pattern(None) } else { list_pattern(Some(u.as_str())) };
                let mut p = chars_of(pattern.as_str());
                p.push('*');
                assert(p@ =~= pattern@ + seq!['*']);
                let c = checked(vec![arg("ls-remote"), s.remote.clone(), string_from_chars(&p)]);
                assert(call_args(c) =~= seq!["ls-remote"@, s.remote@, pattern@ + seq!['*']]);
                s.stage = ListStage::Listing;
                (s, Action::Git(c))
            },
        },
        ListStage::Listing => match git_stdout(reply) {
            Ok(out) => {
                if out.as_str().is_empty() {
                    s.stage = ListStage::Finished;
                    let r = ListResult { entries: Vec::new() };
                    assert(r@.entries =~= Seq::<WipEntryView>::empty());
                    (s, Action::Done(Ok(r)))
                } else {
                    s.lines = lines_of(&chars_of(out.as_str()));
                    advance(s, 0)
                }
            },
            Err(e) => fail(s, e),
        },
        ListStage::Fetching => match reply {
            Ok(_) => {
                s.stage = ListStage::Message;
                let c = checked(vec![arg("log"), arg("-1"), arg("--format=%B"), arg("FETCH_HEAD")]);
                assert(call_args(c) =~= message_query());
                (s, Action::Git(c))
            },
            Err(e) => fail(s, e),
        },
        ListStage::Message => match git_stdout(reply) {
            Ok(msg) => {
                s.metadata = WipMetadata::from_commit_message(msg.as_str());
                let skip = match &s.task_filter {
                    Some(t) => match &s.metadata.task {
                        Some(mt) => !chars_eq(&chars_of(mt.as_str()), &chars_of(t.as_str())),
                        None => true,
                    },
                    None => false,
                };
                if skip {
                    advance_past(s)
                } else {
                    s.stage = ListStage::Time;
                    let c = checked(vec![arg("log"), arg("-1"), arg("--format=%ct"), arg("FETCH_HEAD")]);
                    assert(call_args(c) =~= time_query());
                    (s, Action::Git(c))
                }
            },
            Err(e) => fail(s, e),
        },
        ListStage::Time => match git_stdout(reply) {
            Ok(ts) => match parse_i64_chars(&chars_of(ts.as_str())) {
                Some(t) => {
                    let e = WipEntry {
                        name: s.entry_name.clone(),
                        user: s.entry_user.clone(),
                        sha: s.sha.clone(),
                        metadata: clone_metadata(&s.metadata),
                        timestamp: t,
                    };
                    let ghost ev = e@;
                    let ghost old_entries = s.entries@;
                    s.entries.push(e);
                    assert(entries_view(s.entries@) =~= entries_view(old_entries).push(ev));
                    advance_past(s)
                },
                None => {
                    let mut m = chars_of("bad timestamp for ");
                    append_str(&mut m, s.refpath.as_str());
                    let m = string_from_chars(&m);
                    fail(s, m)
                },
            },
            Err(e) => fail(s, e),
        },
        ListStage::Finished => (s, Action::Done(Err(arg("the command has already ended")))),
    }
}

/// The invariant of a listing with a task filter: every entry found so far
/// carries that task, and so does the entry at hand once its time is asked for.
pub open spec fn list_entries_match(s: ListStateView) -> bool {
    s.task_filter matches Some(t) ==> {
        &&& forall|i: int| 0 <= i < s.entries.len() ==> #[trigger] s.entries[i].metadata.task == Some(t)
        &&& s.stage == ListStage::Time ==> s.metadata.task == Some(t)
    }
}

proof fn lemma_advance_keeps(s: ListStateView, i: int)
    ensures
        list_advance(s, i).0.entries == s.entries,
        list_advance(s, i).0.task_filter == s.task_filter,
        list_advance(s, i).1 matches Step::Done(Ok(res)) ==> res.entries == s.entries,
{
}

/// A listing starts with no entries, so the invariant holds from the start.
pub proof fn lemma_task_filter_start(all: bool, task_filter: Option<Seq<char>>, remote: Seq<char>)
    ensures
        list_entries_match(list_start(all, task_filter, remote).0),
{
}

/// Law: a listing with a task filter keeps, in every state it reaches, only
/// entries of that task, so its result holds only such entries.
pub proof fn lemma_task_filter(s: ListStateView, r: Reply)
    requires
        list_entries_match(s),
    ensures
        list_entries_match(list_next(s, r).0),
        list_next(s, r).0.task_filter == s.task_filter,
        list_next(s, r).1 matches Step::Done(Ok(res)) ==> (s.task_filter matches Some(t) ==>
            forall|i: int| 0 <= i < res.entries.len() ==> #[trigger] res.entries[i].metadata.task == Some(t)),
{
    match s.stage {
        ListStage::Listing => {
            if let Ok((out, _)) = r {
                if out.len() > 0 {
                    lemma_advance_keeps(ListStateView { lines: lines(out), ..s }, 0);
                }
            }
        },
        ListStage::Message => {
            if let Ok((msg, _)) = r {
                lemma_advance_keeps(ListStateView { metadata: parse_commit_message(msg), ..s }, s.index + 1);
            }
        },
        ListStage::Time => {
            if let Ok((ts, _)) = r {
                if let Some(t) = parse_i64(ts) {
                    let e = WipEntryView { name: s.entry_name, user: s.entry_user, sha: s.sha, metadata: s.metadata, timestamp: t };
                    let t2 = ListStateView { entries: s.entries.push(e), ..s };
                    lemma_advance_keeps(t2, s.index + 1);
                }
            }
        },
        _ => {},
    }
}

/// Whether `a` starts with `p`.
pub open spec fn is_prefix_of<T>(p: Seq<T>, a: Seq<T>) -> bool {
    p.len() <= a.len() && a.take(p.len() as int) == p
}

/// Law: a listing examines every listed ref in order. Once the ref at line
/// `s.index` has been dealt with (kept, or skipped for another task), the
/// listing either fetches the first later line that names a ref, keeping
/// the lines and the entries found so far, or ends successfully only when no
/// later line names a ref; the entries found so far are never dropped.
pub proof fn lemma_list_examines_every_ref(s: ListStateView, r: Reply)
    requires
        s.stage == ListStage::Message || s.stage == ListStage::Time,
        0 <= s.index,
    ensures
        list_next(s, r).1 matches Step::Done(Ok(res)) ==> no_ref_after(s.lines, s.index) && is_prefix_of(
            s.entries,
            res.entries,
        ),
        list_next(s, r).0.stage == ListStage::Fetching ==> {
            &&& first_ref_after(s.lines, s.index, list_next(s, r).0.index)
            &&& list_next(s, r).0.lines == s.lines
            &&& is_prefix_of(s.entries, list_next(s, r).0.entries)
            &&& list_next(s, r).1 == Step::<ListResultView>::Git(
                seq!["fetch"@, s.remote, words(s.lines[list_next(s, r).0.index])[1]],
                false,
            )
        },
{
    lemma_next_entry_after(s.lines, s.index);
    assert(s.entries.take(s.entries.len() as int) =~= s.entries);
    if let Ok((out, _)) = r {
        if s.stage == ListStage::Time {
            if let Some(t) = parse_i64(out) {
                let e = WipEntryView { name: s.entry_name, user: s.entry_user, sha: s.sha, metadata: s.metadata, timestamp: t };
                assert(s.entries.push(e).take(s.entries.len() as int) =~= s.entries);
            }
        }
    }
}

/// Law: the first ref that a listing fetches is the first listed line that
/// names a ref; a listing ends at once only when no listed line names one.
pub proof fn lemma_list_starts_at_first_ref(s: ListStateView, r: Reply)
    requires
        s.stage == ListStage::Listing,
    ensures
        list_next(s, r).1 matches Step::Done(Ok(_)) ==> (stdout_view(r) matches Ok(out)
            ==> no_ref_after(lines(out), -1)),
        list_next(s, r).0.stage == ListStage::Fetching ==> (stdout_view(r) matches Ok(out) && first_ref_after(
            lines(out),
            -1,
            list_next(s, r).0.index,
        )),
{
    if let Ok(out) = stdout_view(r) {
        lemma_next_entry_after(lines(out), -1);
    }
}

/// Law: a ref of the requested task (or any ref, without a filter) is not
/// skipped: once its message is read, its commit time is asked for next,
/// with the metadata read from that message; and once the time is read the
/// entry joins the result, after the entries found before it.
pub proof fn lemma_list_keeps_matching_ref(s: ListStateView, r: Reply)
    ensures
        s.stage == ListStage::Message ==> (r matches Ok((msg, _)) ==> (
            (s.task_filter is None || parse_commit_message(msg).task == s.task_filter) ==> {
                &&& list_next(s, r).0.stage == ListStage::Time
                &&& list_next(s, r).0.metadata == parse_commit_message(msg)
                &&& list_next(s, r).0.index == s.index
                &&& list_next(s, r).0.entries == s.entries
            })),
        s.stage == ListStage::Time ==> (r matches Ok((ts, _)) ==> (parse_i64(ts) matches Some(t) ==> (
            list_next(s, r).0.entries == s.entries.push(WipEntryView {
                name: s.entry_name,
                user: s.entry_user,
                sha: s.sha,
                metadata: s.metadata,
                timestamp: t,
            })))),
{
}

} // verus!

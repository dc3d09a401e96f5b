//! Numeric WIP names: `0` is the user's most recent entry, `1` the one
//! before it, and so on, by commit time.

use vstd::prelude::*;
use crate::commands::list::{bad_timestamp_message, lemma_next_entry, next_entry, next_entry_of, time_query};
use crate::git::{arg, call_args, checked, git_stdout, reply_view, stdout_view, GitCall, GitOutput};
use crate::ref_name::pattern_path;
use crate::text::{
    append_chars, append_str, chars_of, decimal, decimal_chars, lines,
    lines_of, parse_i64, parse_i64_chars, parse_unsigned, parse_unsigned_chars, string_from_chars,
    strip_prefix, strip_prefix_chars, views, words, words_of,
};

verus! {

/// The position that a WIP name stands for, when it is a number: one or more
/// ASCII digits worth no more than `usize::MAX`.
pub open spec fn name_position(name: Seq<char>) -> Option<nat> {
    if name.len() > 0 && name[0] != '+' {
        parse_unsigned(name, usize::MAX as nat)
    } else {
        None
    }
}

/// Exec form of `name_position`.
pub fn position_of(name: &str) -> (r: Option<usize>)
    ensures
        match r {
            Some(k) => name_position(name@) == Some(k as nat),
            None => name_position(name@) is None,
        },
{
    let cs = chars_of(name);
    if cs.len() == 0 || cs[0] == '+' {
        return None;
    }
    match parse_unsigned_chars(&cs, usize::MAX as u64) {
        Some(k) => Some(k as usize),
        None => None,
    }
}

/// A listed entry: its name, its ref and its commit time.
pub struct Candidate {
    pub name: String,
    pub wip_ref: String,
    pub timestamp: i64,
}

pub struct CandidateView {
    pub name: Seq<char>,
    pub wip_ref: Seq<char>,
    pub timestamp: int,
}

impl View for Candidate {
    type V = CandidateView;

    open spec fn view(&self) -> CandidateView {
        CandidateView { name: self.name@, wip_ref: self.wip_ref@, timestamp: self.timestamp as int }
    }
}

pub open spec fn candidates_view(v: Seq<Candidate>) -> Seq<CandidateView> {
    v.map_values(|c: Candidate| c@)
}

/// Whether candidate `j` comes before candidate `i` from most to least
/// recent: it is newer, or as new and listed earlier.
pub open spec fn newer(cs: Seq<CandidateView>, j: int, i: int) -> bool {
    cs[j].timestamp > cs[i].timestamp || (cs[j].timestamp == cs[i].timestamp && j < i)
}

/// How many of the first `n` candidates come before candidate `i`.
pub open spec fn rank_upto(cs: Seq<CandidateView>, i: int, n: int) -> nat
    decreases n,
{
    if n <= 0 {
        0
    } else {
        rank_upto(cs, i, n - 1) + if newer(cs, n - 1, i) { 1nat } else { 0nat }
    }
}

/// The position of candidate `i` from most to least recent.
pub open spec fn rank(cs: Seq<CandidateView>, i: int) -> nat {
    rank_upto(cs, i, cs.len() as int)
}

/// The first candidate at or after `from` whose position is `k`.
pub open spec fn at_position(cs: Seq<CandidateView>, k: nat, from: int) -> Option<int>
    decreases cs.len() - from,
{
    if from < 0 || from >= cs.len() {
        None
    } else if rank(cs, from) == k {
        Some(from)
    } else {
        at_position(cs, k, from + 1)
    }
}

proof fn lemma_rank_upto_le(cs: Seq<CandidateView>, i: int, n: int)
    ensures
        rank_upto(cs, i, n) <= if n < 0 { 0 } else { n },
    decreases n,
{
    if n > 0 {
        lemma_rank_upto_le(cs, i, n - 1);
    }
}

fn rank_of(cs: &Vec<Candidate>, i: usize) -> (r: usize)
    requires
        i < cs@.len(),
    ensures
        r == rank(candidates_view(cs@), i as int),
{
    let ghost v = candidates_view(cs@);
    let mut n: usize = 0;
    let mut r: usize = 0;
    while n < cs.len()
        invariant
            i < cs@.len(),
            n <= cs@.len(),
            v == candidates_view(cs@),
            r == rank_upto(v, i as int, n as int),
        decreases cs@.len() - n,
    {
        proof {
            lemma_rank_upto_le(v, i as int, n as int);
        }
        assert(v[n as int] == cs@[n as int]@);
        assert(v[i as int] == cs@[i as int]@);
        if cs[n].timestamp > cs[i].timestamp || (cs[n].timestamp == cs[i].timestamp && n < i) {
            r = r + 1;
        }
        n = n + 1;
    }
    r
}

fn position_in(cs: &Vec<Candidate>, k: usize) -> (r: Option<usize>)
    ensures
        match r {
            Some(i) => at_position(candidates_view(cs@), k as nat, 0) == Some(i as int),
            None => at_position(candidates_view(cs@), k as nat, 0) is None,
        },
{
    let ghost v = candidates_view(cs@);
    let mut i: usize = 0;
    while i < cs.len()
        invariant
            i <= cs@.len(),
            v == candidates_view(cs@),
            at_position(v, k as nat, 0) == at_position(v, k as nat, i as int),
        decreases cs@.len() - i,
    {
        if rank_of(cs, i) == k {
            return Some(i);
        }
        i = i + 1;
    }
    None
}

/// The call that a lookup by position waits for.
#[derive(Clone, Copy, PartialEq, Eq, Structural)]
pub enum RecentStage {
    /// `git ls-remote <remote> refs/wip/<user>/*`
    Listing,
    /// `git fetch <remote> <ref>` for the current line
    Fetching,
    /// `git log -1 --format=%ct FETCH_HEAD`
    Time,
}

/// Where a lookup by position stands.
pub struct RecentState {
    pub stage: RecentStage,
    pub position: usize,
    pub remote: String,
    pub prefix: String,
    pub lines: Vec<Vec<char>>,
    pub index: usize,
    pub refpath: String,
    pub candidates: Vec<Candidate>,
}

pub struct RecentStateView {
    pub stage: RecentStage,
    pub position: nat,
    pub remote: Seq<char>,
    pub prefix: Seq<char>,
    pub lines: Seq<Seq<char>>,
    pub index: int,
    pub refpath: Seq<char>,
    pub candidates: Seq<CandidateView>,
}

impl View for RecentState {
    type V = RecentStateView;

    open spec fn view(&self) -> RecentStateView {
        RecentStateView {
            stage: self.stage,
            position: self.position as nat,
            remote: self.remote@,
            prefix: self.prefix@,
            lines: views(self.lines@),
            index: self.index as int,
            refpath: self.refpath@,
            candidates: candidates_view(self.candidates@),
        }
    }
}

/// What a lookup by position asks for next: a git call, or the entry it
/// found (name and ref), or why there is none.
pub enum RecentAction {
    Git(GitCall),
    Found(String, String),
    Failed(String),
}

pub enum RecentStep {
    Git(Seq<Seq<char>>, bool),
    Found(Seq<char>, Seq<char>),
    Failed(Seq<char>),
}

pub open spec fn recent_step_view(a: RecentAction) -> RecentStep {
    match a {
        RecentAction::Git(c) => RecentStep::Git(call_args(c), c.allow_fail),
        RecentAction::Found(n, w) => RecentStep::Found(n@, w@),
        RecentAction::Failed(e) => RecentStep::Failed(e@),
    }
}

/// The name of an entry whose ref is `refpath`: the ref without the user's prefix.
pub open spec fn entry_name(prefix: Seq<char>, refpath: Seq<char>) -> Seq<char> {
    match strip_prefix(refpath, prefix) {
        Some(n) => n,
        None => refpath,
    }
}

pub open spec fn no_entry_message(k: nat) -> Seq<char> {
    "no WIP entry at index "@ + decimal(k)
}

/// With every listed entry's time known: the entry at the position.
pub open spec fn recent_pick(s: RecentStateView) -> RecentStep {
    match at_position(s.candidates, s.position, 0) {
        Some(i) => RecentStep::Found(s.candidates[i].name, s.candidates[i].wip_ref),
        None => RecentStep::Failed(no_entry_message(s.position)),
    }
}

/// Go to the next listed ref at or after line `i` and fetch it.
pub open spec fn recent_advance(s: RecentStateView, i: int) -> (RecentStateView, RecentStep) {
    match next_entry(s.lines, i) {
        None => (s, recent_pick(s)),
        Some(j) => {
            let rp = words(s.lines[j])[1];
            (RecentStateView { stage: RecentStage::Fetching, index: j, refpath: rp, ..s }, RecentStep::Git(seq!["fetch"@, s.remote, rp], false))
        },
    }
}

/// A lookup of position `k` among `user`'s entries on `remote`: their refs
/// are listed first.
pub open spec fn recent_start(k: nat, remote: Seq<char>, user: Seq<char>) -> (RecentStateView, RecentStep) {
    let prefix = pattern_path(Some(user));
    (
        RecentStateView {
            stage: RecentStage::Listing,
            position: k,
            remote,
            prefix,
            lines: Seq::empty(),
            index: 0,
            refpath: Seq::empty(),
            candidates: Seq::empty(),
        },
        RecentStep::Git(seq!["ls-remote"@, remote, prefix + seq!['*']], false),
    )
}

/// How a lookup by position goes on once git answered `r`: each listed ref
/// is fetched and its commit time read; then the entry at the position, from
/// most to least recent, is the answer.
pub open spec fn recent_next(s: RecentStateView, r: Result<(Seq<char>, Seq<char>), Seq<char>>) -> (RecentStateView, RecentStep) {
    match s.stage {
        RecentStage::Listing => match stdout_view(r) {
            Ok(out) => recent_advance(RecentStateView { lines: lines(out), ..s }, 0),
            Err(e) => (s, RecentStep::Failed(e)),
        },
        RecentStage::Fetching => match r {
            Ok(_) => (RecentStateView { stage: RecentStage::Time, ..s }, RecentStep::Git(time_query(), false)),
            Err(e) => (s, RecentStep::Failed(e)),
        },
        RecentStage::Time => match stdout_view(r) {
            Ok(ts) => match parse_i64(ts) {
                Some(t) => {
                    let c = CandidateView { name: entry_name(s.prefix, s.refpath), wip_ref: s.refpath, timestamp: t };
                    recent_advance(RecentStateView { candidates: s.candidates.push(c), ..s }, s.index + 1)
                },
                None => (s, RecentStep::Failed(bad_timestamp_message(s.refpath))),
            },
            Err(e) => (s, RecentStep::Failed(e)),
        },
    }
}

/// A lookup that has not started.
pub open spec fn recent_idle() -> RecentStateView {
    RecentStateView {
        stage: RecentStage::Listing,
        position: 0,
        remote: Seq::empty(),
        prefix: Seq::empty(),
        lines: Seq::empty(),
        index: 0,
        refpath: Seq::empty(),
        candidates: Seq::empty(),
    }
}

/// Exec form of `recent_idle`.
pub fn idle() -> (s: RecentState)
    ensures
        s@ == recent_idle(),
{
    let s = RecentState {
        stage: RecentStage::Listing,
        position: 0,
        remote: String::new(),
        prefix: String::new(),
        lines: Vec::new(),
        index: 0,
        refpath: String::new(),
        candidates: Vec::new(),
    };
    assert(s@.lines =~= Seq::<Seq<char>>::empty());
    assert(s@.candidates =~= Seq::<CandidateView>::empty());
    s
}

/// Start looking up position `k` among `user`'s entries on `remote`.
pub fn start(k: usize, remote: &String, user: &String) -> (out: (RecentState, RecentAction))
    ensures
        (out.0@, recent_step_view(out.1)) == recent_start(k as nat, remote@, user@),
{
    let prefix = crate::ref_name::list_pattern(Some(user.as_str()));
    let mut p = chars_of(prefix.as_str());
    p.push('*');
    assert(p@ =~= prefix@ + seq!['*']);
    let c = checked(vec![arg("ls-remote"), remote.clone(), string_from_chars(&p)]);
    assert(call_args(c) =~= seq!["ls-remote"@, remote@, prefix@ + seq!['*']]);
    let s = RecentState {
        stage: RecentStage::Listing,
        position: k,
        remote: remote.clone(),
        prefix,
        lines: Vec::new(),
        index: 0,
        refpath: String::new(),
        candidates: Vec::new(),
    };
    assert(s@.lines =~= Seq::<Seq<char>>::empty());
    assert(s@.candidates =~= Seq::<CandidateView>::empty());
    (s, RecentAction::Git(c))
}

fn pick(s: &RecentState) -> (a: RecentAction)
    ensures
        recent_step_view(a) == recent_pick(s@),
{
    match position_in(&s.candidates, s.position) {
        Some(i) => {
            proof {
                lemma_at_position_bounds(candidates_view(s.candidates@), s.position as nat, 0);
            }
            assert(candidates_view(s.candidates@)[i as int] == s.candidates@[i as int]@);
            RecentAction::Found(s.candidates[i].name.clone(), s.candidates[i].wip_ref.clone())
        },
        None => {
            let mut m = chars_of("no WIP entry at index ");
            let d = decimal_chars(s.position as u64);
            append_chars(&mut m, &d);
            RecentAction::Failed(string_from_chars(&m))
        },
    }
}

proof fn lemma_at_position_bounds(cs: Seq<CandidateView>, k: nat, from: int)
    ensures
        at_position(cs, k, from) matches Some(i) ==> from <= i < cs.len(),
    decreases cs.len() - from,
{
    if 0 <= from < cs.len() && rank(cs, from) != k {
        lemma_at_position_bounds(cs, k, from + 1);
    }
}

fn advance(mut s: RecentState, i: usize) -> (out: (RecentState, RecentAction))
    ensures
        (out.0@, recent_step_view(out.1)) == recent_advance(s@, i as int),
{
    match next_entry_of(&s.lines, i) {
        None => {
            let a = pick(&s);
            (s, a)
        },
        Some(j) => {
            proof {
                lemma_next_entry(views(s.lines@), i as int);
            }
            let ws = words_of(&s.lines[j]);
            assert(views(s.lines@)[j as int] == s.lines@[j as int]@);
            assert(views(ws@)[1] == ws@[1]@);
            let rp = string_from_chars(&ws[1]);
            let c = checked(vec![arg("fetch"), s.remote.clone(), rp.clone()]);
            assert(call_args(c) =~= seq!["fetch"@, s.remote@, ws@[1]@]);
            s.stage = RecentStage::Fetching;
            s.index = j;
            s.refpath = rp;
            (s, RecentAction::Git(c))
        },
    }
}

fn advance_past(s: RecentState) -> (out: (RecentState, RecentAction))
    ensures
        (out.0@, recent_step_view(out.1)) == recent_advance(s@, s@.index + 1),
{
    if s.index < s.lines.len() {
        let i = s.index + 1;
        advance(s, i)
    } else {
        let n = s.lines.len();
        advance(s, n)
    }
}

/// Go on with a lookup by position once git answered the last call.
pub fn resume(s: RecentState, reply: Result<GitOutput, String>) -> (out: (RecentState, RecentAction))
    ensures
        (out.0@, recent_step_view(out.1)) == recent_next(s@, reply_view(reply)),
{
    let mut s = s;
    match s.stage {
        RecentStage::Listing => match git_stdout(reply) {
            Ok(out) => {
                s.lines = lines_of(&chars_of(out.as_str()));
                advance(s, 0)
            },
            Err(e) => (s, RecentAction::Failed(e)),
        },
        RecentStage::Fetching => match reply {
            Ok(_) => {
                s.stage = RecentStage::Time;
                let c = checked(vec![arg("log"), arg("-1"), arg("--format=%ct"), arg("FETCH_HEAD")]);
                assert(call_args(c) =~= time_query());
                (s, RecentAction::Git(c))
            },
            Err(e) => (s, RecentAction::Failed(e)),
        },
        RecentStage::Time => match git_stdout(reply) {
            Ok(ts) => match parse_i64_chars(&chars_of(ts.as_str())) {
                Some(t) => {
                    let name = match strip_prefix_chars(&chars_of(s.refpath.as_str()), &chars_of(s.prefix.as_str())) {
                        Some(n) => string_from_chars(&n),
                        None => s.refpath.clone(),
                    };
                    let c = Candidate { name, wip_ref: s.refpath.clone(), timestamp: t };
                    let ghost cv = c@;
                    let ghost old = s.candidates@;
                    s.candidates.push(c);
                    assert(candidates_view(s.candidates@) =~= candidates_view(old).push(cv));
                    advance_past(s)
                },
                None => {
                    let mut m = chars_of("bad timestamp for ");
                    append_str(&mut m, s.refpath.as_str());
                    (s, RecentAction::Failed(string_from_chars(&m)))
                },
            },
            Err(e) => (s, RecentAction::Failed(e)),
        },
    }
}

proof fn lemma_rank_zero(cs: Seq<CandidateView>, i: int, n: int)
    requires
        rank_upto(cs, i, n) == 0,
        n <= cs.len(),
    ensures
        forall|j: int| 0 <= j < n ==> !newer(cs, j, i),
    decreases n,
{
    if n > 0 {
        lemma_rank_zero(cs, i, n - 1);
    }
}

proof fn lemma_at_position_rank(cs: Seq<CandidateView>, k: nat, from: int)
    ensures
        at_position(cs, k, from) matches Some(i) ==> rank(cs, i) == k,
    decreases cs.len() - from,
{
    if 0 <= from < cs.len() && rank(cs, from) != k {
        lemma_at_position_rank(cs, k, from + 1);
    }
}

/// Law: the entry at position 0 is the most recent: no listed entry has a
/// later commit time.
pub proof fn lemma_position_zero_is_most_recent(cs: Seq<CandidateView>)
    ensures
        at_position(cs, 0, 0) matches Some(i) ==>
            forall|j: int| 0 <= j < cs.len() ==> cs[j].timestamp <= cs[i].timestamp,
{
    lemma_at_position_rank(cs, 0, 0);
    lemma_at_position_bounds(cs, 0, 0);
    if let Some(i) = at_position(cs, 0, 0) {
        lemma_rank_zero(cs, i, cs.len() as int);
        assert forall|j: int| 0 <= j < cs.len() implies cs[j].timestamp <= cs[i].timestamp by {
            assert(!newer(cs, j, i));
        }
    }
}

/// Whether a step of a lookup asks for a push.
pub open spec fn recent_pushes(st: RecentStep) -> bool {
    st matches RecentStep::Git(args, _) && args.len() > 0 && args[0] == "push"@
}

/// A lookup by position only reads: none of its steps asks for a push.
pub proof fn lemma_recent_only_reads(s: RecentStateView, r: Result<(Seq<char>, Seq<char>), Seq<char>>, k: nat, remote: Seq<char>, user: Seq<char>)
    ensures
        !recent_pushes(recent_next(s, r).1),
        !recent_pushes(recent_start(k, remote, user).1),
{
    reveal_strlit("push");
    reveal_strlit("ls-remote");
    reveal_strlit("fetch");
    reveal_strlit("log");
    assert("push"@ != "ls-remote"@) by { assert("push"@.len() != "ls-remote"@.len()); }
    assert("push"@ != "fetch"@) by { assert("push"@.len() != "fetch"@.len()); }
    assert("push"@ != "log"@) by { assert("push"@.len() != "log"@.len()); }
}

} // verus!

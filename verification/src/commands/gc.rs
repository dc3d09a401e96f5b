//! `wip gc`: drop the user's WIP entries older than a threshold.

use vstd::prelude::*;
use crate::clock::now_timestamp;
use crate::commands::drop::{delete_refspec, delete_refspec_of};
use crate::commands::list::{
    bad_timestamp_message, next_entry, next_entry_of, time_query, no_ref_after, first_ref_after,
    lemma_next_entry_after, is_prefix_of,
};
use crate::commands::{finished_message, step_view, Action, Reply, Step};
use crate::config::{user, user_call, user_next, user_query, UserNext, UserStage};
use crate::git::{arg, call_args, checked, git_stdout, reply_view, stdout_view, GitOutput};
use crate::ref_name::{list_pattern, pattern_path, Lookup};
use crate::text::{
    decimal, drop_leading, drop_trailing, is_ascii_digit, is_white_space, lemma_decimal,
    lemma_parse_decimal, append_str, chars_of, lines, lines_of, parse_i64, parse_i64_chars, string_from_chars,
    strip_prefix, strip_prefix_chars, trim, trim_ws, views, words, words_of,
};

verus! {

// ---------------------------------------------------------------------------
// Durations
// ---------------------------------------------------------------------------

/// The number of seconds that a duration such as `7d` or `24h` stands for,
/// before it is checked to fit in an `i64`, or the error for a malformed one.
/// Surrounding white space is ignored; the number is read as an `i64`.
pub open spec fn duration_value(s: Seq<char>) -> Result<int, Seq<char>> {
    let t = trim(s);
    if t.len() > 0 && t.last() == 'd' {
        match parse_i64(t.drop_last()) {
            Some(n) => Ok(n * 86400),
            None => Err("invalid duration: "@ + t),
        }
    } else if t.len() > 0 && t.last() == 'h' {
        match parse_i64(t.drop_last()) {
            Some(n) => Ok(n * 3600),
            None => Err("invalid duration: "@ + t),
        }
    } else {
        Err("invalid duration: "@ + t + " (use e.g. 7d, 24h)"@)
    }
}

/// The seconds of a well-formed duration fit in an `i64`.
pub open spec fn duration_fits(s: Seq<char>) -> bool {
    duration_value(s) matches Ok(v) ==> i64::MIN <= v <= i64::MAX
}

fn parse_number_before(t: &Vec<char>) -> (r: Option<i64>)
    requires
        t@.len() > 0,
    ensures
        match r {
            Some(n) => parse_i64(t@.drop_last()) == Some(n as int),
            None => parse_i64(t@.drop_last()) is None,
        },
{
    let mut body: Vec<char> = Vec::new();
    let mut i: usize = 0;
    let n = t.len() - 1;
    while i < n
        invariant
            t@.len() > 0,
            n == t@.len() - 1,
            i <= n,
            body@ == t@.take(i as int),
        decreases t@.len() - i,
    {
        body.push(t[i]);
        i = i + 1;
        assert(body@ =~= t@.take(i as int));
    }
    assert(body@ =~= t@.drop_last());
    parse_i64_chars(&body)
}

/// Exec form of `duration_fits`, for callers that must check it.
pub fn duration_in_range(s: &str) -> (b: bool)
    ensures
        b == duration_fits(s@),
{
    let t = trim_ws(&chars_of(s));
    if t.len() > 0 && (t[t.len() - 1] == 'd' || t[t.len() - 1] == 'h') {
        let unit: i128 = if t[t.len() - 1] == 'd' { 86400 } else { 3600 };
        match parse_number_before(&t) {
            Some(n) => {
                let v = n as i128 * unit;
                i64::MIN as i128 <= v && v <= i64::MAX as i128
            },
            None => true,
        }
    } else {
        true
    }
}

/// Parse a duration such as `7d` or `24h` into seconds.
pub fn parse_duration(s: &str) -> (r: Result<i64, String>)
    requires
        duration_fits(s@),
    ensures
        match r {
            Ok(v) => duration_value(s@) == Ok::<int, Seq<char>>(v as int),
            Err(e) => duration_value(s@) == Err::<int, Seq<char>>(e@),
        },
{
    let t = trim_ws(&chars_of(s));
    if t.len() > 0 && (t[t.len() - 1] == 'd' || t[t.len() - 1] == 'h') {
        let days = t[t.len() - 1] == 'd';
        match parse_number_before(&t) {
            Some(n) => {
                if days {
                    assert(i64::MIN <= n * 86400 <= i64::MAX);
                    Ok(n * 86400)
                } else {
                    assert(i64::MIN <= n * 3600 <= i64::MAX);
                    Ok(n * 3600)
                }
            },
            None => {
                let mut m = chars_of("invalid duration: ");
                crate::text::append_chars(&mut m, &t);
                Err(string_from_chars(&m))
            },
        }
    } else {
        let mut m = chars_of("invalid duration: ");
        crate::text::append_chars(&mut m, &t);
        append_str(&mut m, " (use e.g. 7d, 24h)");
        Err(string_from_chars(&m))
    }
}

/// The decimal notation of an integer, with a leading `-` when negative.
pub open spec fn signed_decimal(n: int) -> Seq<char> {
    if n < 0 {
        seq!['-'] + decimal((-n) as nat)
    } else {
        decimal(n as nat)
    }
}

proof fn lemma_parse_signed_decimal(n: int)
    requires
        i64::MIN <= n <= i64::MAX,
    ensures
        parse_i64(signed_decimal(n)) == Some(n),
        signed_decimal(n).len() > 0,
        !is_white_space(signed_decimal(n)[0]),
{
    if n < 0 {
        let k = (-n) as nat;
        lemma_decimal(k);
        let s = signed_decimal(n);
        assert(s.drop_first() =~= decimal(k));
    } else {
        lemma_decimal(n as nat);
        lemma_parse_decimal(n as nat, 0x7fff_ffff_ffff_ffff);
        assert(is_ascii_digit(decimal(n as nat)[0]));
    }
}

proof fn lemma_duration_text(n: int, unit: char)
    requires
        i64::MIN <= n <= i64::MAX,
        unit == 'd' || unit == 'h',
    ensures
        trim(signed_decimal(n).push(unit)) == signed_decimal(n).push(unit),
        parse_i64(signed_decimal(n).push(unit).drop_last()) == Some(n),
{
    lemma_parse_signed_decimal(n);
    let t = signed_decimal(n).push(unit);
    assert(t[0] == signed_decimal(n)[0]);
    assert(drop_leading(t, false) == t);
    assert(drop_trailing(t, false) == t);
    assert(t.drop_last() =~= signed_decimal(n));
}

/// Law: a day is 24 hours: `<n>d` and `<24n>h` are the same duration, that
/// many seconds.
pub proof fn lemma_day_is_24_hours(n: int)
    requires
        i64::MIN <= n * 86400 <= i64::MAX,
    ensures
        duration_value(signed_decimal(n).push('d')) == Ok::<int, Seq<char>>(n * 86400),
        duration_value(signed_decimal(24 * n).push('h')) == Ok::<int, Seq<char>>(n * 86400),
{
    lemma_duration_text(n, 'd');
    lemma_duration_text(24 * n, 'h');
    assert(24 * n * 3600 == n * 86400);
}

// ---------------------------------------------------------------------------
// The command
// ---------------------------------------------------------------------------

pub struct ExpiredEntry {
    pub name: String,
    pub wip_ref: String,
    pub age_days: i64,
}

pub struct ExpiredEntryView {
    pub name: Seq<char>,
    pub wip_ref: Seq<char>,
    pub age_days: int,
}

impl View for ExpiredEntry {
    type V = ExpiredEntryView;

    open spec fn view(&self) -> ExpiredEntryView {
        ExpiredEntryView { name: self.name@, wip_ref: self.wip_ref@, age_days: self.age_days as int }
    }
}

pub open spec fn expired_view(v: Seq<ExpiredEntry>) -> Seq<ExpiredEntryView> {
    v.map_values(|e: ExpiredEntry| e@)
}

pub struct GcResult {
    pub entries: Vec<ExpiredEntry>,
    pub dry_run: bool,
}

pub struct GcResultView {
    pub entries: Seq<ExpiredEntryView>,
    pub dry_run: bool,
}

impl View for GcResult {
    type V = GcResultView;

    open spec fn view(&self) -> GcResultView {
        GcResultView { entries: expired_view(self.entries@), dry_run: self.dry_run }
    }
}

/// The call that a collection waits for.
#[derive(Clone, Copy, PartialEq, Eq, Structural)]
pub enum GcStage {
    User(UserStage),
    /// `git ls-remote <remote> refs/wip/<user>/*`
    Listing,
    /// `git fetch <remote> <ref>` for the current line
    Fetching,
    /// `git log -1 --format=%ct FETCH_HEAD`
    Time,
    /// `git push <remote> :<ref>` for an expired entry
    Deleting,
    Finished,
}

/// Where a collection stands.
pub struct GcState {
    pub stage: GcStage,
    pub expire: String,
    pub dry_run: bool,
    pub remote: String,
    pub max_age: i64,
    pub now: i64,
    pub lines: Vec<Vec<char>>,
    pub index: usize,
    pub refpath: String,
    pub pending: ExpiredEntry,
    pub entries: Vec<ExpiredEntry>,
}

pub struct GcStateView {
    pub stage: GcStage,
    pub expire: Seq<char>,
    pub dry_run: bool,
    pub remote: Seq<char>,
    pub max_age: int,
    pub now: int,
    pub lines: Seq<Seq<char>>,
    pub index: int,
    pub refpath: Seq<char>,
    pub pending: ExpiredEntryView,
    pub entries: Seq<ExpiredEntryView>,
}

impl View for GcState {
    type V = GcStateView;

    open spec fn view(&self) -> GcStateView {
        GcStateView {
            stage: self.stage,
            expire: self.expire@,
            dry_run: self.dry_run,
            remote: self.remote@,
            max_age: self.max_age as int,
            now: self.now as int,
            lines: views(self.lines@),
            index: self.index as int,
            refpath: self.refpath@,
            pending: self.pending@,
            entries: expired_view(self.entries@),
        }
    }
}

/// `a / b` rounded toward zero, as Rust divides `i64`s.
pub open spec fn div_toward_zero(a: int, b: int) -> int {
    if a >= 0 {
        a / b
    } else {
        -((-a) / b)
    }
}

/// How an expired ref is named in the report: without `refs/wip/`.
pub open spec fn display_name(refpath: Seq<char>) -> Seq<char> {
    match strip_prefix(refpath, "refs/wip/"@) {
        Some(x) => x,
        None => refpath,
    }
}

/// The age of a commit made at `t`, at time `now`: `now - t` in wrapping
/// `i64` arithmetic.
pub open spec fn age_at(now: int, t: int) -> int {
    (now as i64).wrapping_sub(t as i64) as int
}

/// The error of a collection whose clock cannot be read.
pub open spec fn clock_message() -> Seq<char> {
    "system time before Unix epoch"@
}

pub open spec fn gc_fail(s: GcStateView, e: Seq<char>) -> (GcStateView, Step<GcResultView>) {
    (GcStateView { stage: GcStage::Finished, ..s }, Step::Done(Err(e)))
}

/// Go to the next listed ref at or after line `i` and fetch it; with none
/// left, the expired entries are the result.
pub open spec fn gc_advance(s: GcStateView, i: int) -> (GcStateView, Step<GcResultView>) {
    match next_entry(s.lines, i) {
        None => (GcStateView { stage: GcStage::Finished, ..s }, Step::Done(Ok(GcResultView { entries: s.entries, dry_run: s.dry_run }))),
        Some(j) => {
            let rp = words(s.lines[j])[1];
            (GcStateView { stage: GcStage::Fetching, index: j, refpath: rp, ..s }, Step::Git(seq!["fetch"@, s.remote, rp], false))
        },
    }
}

/// A collection of entries older than `expire` on `remote`; `dry_run` only
/// reports them. First the user's configuration is read.
pub open spec fn gc_start(expire: Seq<char>, dry_run: bool, remote: Seq<char>) -> (GcStateView, Step<GcResultView>) {
    (
        GcStateView {
            stage: GcStage::User(UserStage::WipUser),
            expire,
            dry_run,
            remote,
            max_age: 0,
            now: 0,
            lines: Seq::empty(),
            index: 0,
            refpath: Seq::empty(),
            pending: ExpiredEntryView { name: Seq::empty(), wip_ref: Seq::empty(), age_days: 0 },
            entries: Seq::empty(),
        },
        Step::Git(user_query(UserStage::WipUser), false),
    )
}

/// How a collection goes on from `s` once git answered `r`, `now` being the
/// clock's time when the listing arrives (`None` when the clock cannot be
/// read, which ends the command): the user's refs are listed; each in turn is
/// fetched and its commit time read; one older than the threshold is
/// reported, and deleted from the remote unless `dry_run`.
pub open spec fn gc_next(s: GcStateView, r: Reply, now: Option<int>) -> (GcStateView, Step<GcResultView>) {
    match s.stage {
        GcStage::User(stage) => match user_next(stage, stdout_view(r)) {
            UserNext::Ask(st) => (GcStateView { stage: GcStage::User(st), ..s }, Step::Git(user_query(st), false)),
            UserNext::Failed(e) => gc_fail(s, e),
            UserNext::Found(u) => match duration_value(s.expire) {
                Ok(max) => (
                    GcStateView { stage: GcStage::Listing, max_age: max, ..s },
                    Step::Git(seq!["ls-remote"@, s.remote, pattern_path(Some(u)) + seq!['*']], false),
                ),
                Err(e) => gc_fail(s, e),
            },
        },
        GcStage::Listing => match stdout_view(r) {
            Ok(out) => if out.len() == 0 {
                (GcStateView { stage: GcStage::Finished, ..s }, Step::Done(Ok(GcResultView { entries: Seq::empty(), dry_run: s.dry_run })))
            } else {
                match now {
                    Some(t) => gc_advance(GcStateView { now: t, lines: lines(out), ..s }, 0),
                    None => gc_fail(s, clock_message()),
                }
            },
            Err(e) => gc_fail(s, e),
        },
        GcStage::Fetching => match r {
            Ok(_) => (GcStateView { stage: GcStage::Time, ..s }, Step::Git(time_query(), false)),
            Err(e) => gc_fail(s, e),
        },
        GcStage::Time => match stdout_view(r) {
            Ok(ts) => match parse_i64(ts) {
                Some(t) => {
                    let age = age_at(s.now, t);
                    if age > s.max_age {
                        let e = ExpiredEntryView {
                            name: display_name(s.refpath),
                            wip_ref: s.refpath,
                            age_days: div_toward_zero(age, 86400),
                        };
                        if s.dry_run {
                            gc_advance(GcStateView { entries: s.entries.push(e), ..s }, s.index + 1)
                        } else {
                            (
                                GcStateView { stage: GcStage::Deleting, pending: e, ..s },
                                Step::Git(seq!["push"@, s.remote, delete_refspec(s.refpath)], false),
                            )
                        }
                    } else {
                        gc_advance(s, s.index + 1)
                    }
                },
                None => gc_fail(s, bad_timestamp_message(s.refpath)),
            },
            Err(e) => gc_fail(s, e),
        },
        GcStage::Deleting => match r {
            Ok(_) => gc_advance(GcStateView { entries: s.entries.push(s.pending), ..s }, s.index + 1),
            Err(e) => gc_fail(s, e),
        },
        GcStage::Finished => (s, Step::Done(Err(finished_message()))),
    }
}

fn empty_entry() -> (e: ExpiredEntry)
    ensures
        e@ == (ExpiredEntryView { name: Seq::empty(), wip_ref: Seq::empty(), age_days: 0 }),
{
    ExpiredEntry { name: String::new(), wip_ref: String::new(), age_days: 0 }
}

fn clone_expired(e: &ExpiredEntry) -> (r: ExpiredEntry)
    ensures
        r@ == e@,
{
    ExpiredEntry { name: e.name.clone(), wip_ref: e.wip_ref.clone(), age_days: e.age_days }
}

fn clone_expired_all(v: &Vec<ExpiredEntry>) -> (r: Vec<ExpiredEntry>)
    ensures
        expired_view(r@) == expired_view(v@),
{
    let mut r: Vec<ExpiredEntry> = Vec::new();
    let mut i: usize = 0;
    while i < v.len()
        invariant
            i <= v@.len(),
            expired_view(r@) == expired_view(v@.take(i as int)),
        decreases v@.len() - i,
    {
        let ne = clone_expired(&v[i]);
        let ghost old_r = r@;
        r.push(ne);
        proof {
            assert(v@.take(i + 1) =~= v@.take(i as int).push(v@[i as int]));
            assert(expired_view(r@) =~= expired_view(old_r).push(v@[i as int]@));
            assert(expired_view(v@.take(i + 1)) =~= expired_view(v@.take(i as int)).push(v@[i as int]@));
        }
        i = i + 1;
    }
    assert(v@.take(v@.len() as int) =~= v@);
    r
}

/// Start collecting the entries older than `expire` on `remote`.
pub fn run(expire: String, dry_run: bool, remote: String) -> (out: (GcState, Action<GcResult>))
    ensures
        (out.0@, step_view(out.1)) == gc_start(expire@, dry_run, remote@),
{
    let s = GcState {
        stage: GcStage::User(UserStage::WipUser),
        expire,
        dry_run,
        remote,
        max_age: 0,
        now: 0,
        lines: Vec::new(),
        index: 0,
        refpath: String::new(),
        pending: empty_entry(),
        entries: Vec::new(),
    };
    assert(s@.lines =~= Seq::<Seq<char>>::empty());
    assert(s@.entries =~= Seq::<ExpiredEntryView>::empty());
    (s, Action::Git(user_call(UserStage::WipUser)))
}

fn fail(mut s: GcState, e: String) -> (out: (GcState, Action<GcResult>))
    ensures
        (out.0@, step_view(out.1)) == gc_fail(s@, e@),
{
    s.stage = GcStage::Finished;
    (s, Action::Done(Err(e)))
}

fn advance(mut s: GcState, i: usize) -> (out: (GcState, Action<GcResult>))
    ensures
        (out.0@, step_view(out.1)) == gc_advance(s@, i as int),
{
    match next_entry_of(&s.lines, i) {
        None => {
            s.stage = GcStage::Finished;
            let r = GcResult { entries: clone_expired_all(&s.entries), dry_run: s.dry_run };
            (s, Action::Done(Ok(r)))
        },
        Some(j) => {
            proof {
                crate::commands::list::lemma_next_entry(views(s.lines@), i as int);
            }
            let ws = words_of(&s.lines[j]);
            assert(views(s.lines@)[j as int] == s.lines@[j as int]@);
            assert(views(ws@)[1] == ws@[1]@);
            let rp = string_from_chars(&ws[1]);
            let c = checked(vec![arg("fetch"), s.remote.clone(), rp.clone()]);
            assert(call_args(c) =~= seq!["fetch"@, s.remote@, ws@[1]@]);
            s.stage = GcStage::Fetching;
            s.index = j;
            s.refpath = rp;
            (s, Action::Git(c))
        },
    }
}

fn advance_past(s: GcState) -> (out: (GcState, Action<GcResult>))
    ensures
        (out.0@, step_view(out.1)) == gc_advance(s@, s@.index + 1),
{
    if s.index < s.lines.len() {
        let i = s.index + 1;
        advance(s, i)
    } else {
        let n = s.lines.len();
        advance(s, n)
    }
}

/// Go on with a collection once git answered the last call, `now` being the
/// time to measure ages against when the listing arrives.
pub fn resume_at(s: GcState, reply: Result<GitOutput, String>, now: Option<i64>) -> (out: (GcState, Action<GcResult>))
    requires
        duration_fits(s@.expire),
    ensures
        (out.0@, step_view(out.1)) == gc_next(s@, reply_view(reply), clock_view(now)),
{
    let mut s = s;
    match s.stage {
        GcStage::User(stage) => match user(stage, git_stdout(reply)) {
            Lookup::Ask(c) => {
                s.stage = GcStage::User(UserStage::UserName);
                (s, Action::Git(c))
            },
            Lookup::Ready(Err(e)) => fail(s, e),
            Lookup::Ready(Ok(u)) => {
                let pattern = list_pattern(Some(u.as_str()));
                match parse_duration(s.expire.as_str()) {
                    Ok(max) => {
                        let mut p = chars_of(pattern.as_str());
                        p.push('*');
                        assert(p@ =~= pattern@ + seq!['*']);
                        let c = checked(vec![arg("ls-remote"), s.remote.clone(), string_from_chars(&p)]);
                        assert(call_args(c) =~= seq!["ls-remote"@, s.remote@, pattern@ + seq!['*']]);
                        s.max_age = max;
                        s.stage = GcStage::Listing;
                        (s, Action::Git(c))
                    },
                    Err(e) => fail(s, e),
                }
            },
        },
        GcStage::Listing => match git_stdout(reply) {
            Ok(out) => {
                if out.as_str().is_empty() {
                    s.stage = GcStage::Finished;
                    let r = GcResult { entries: Vec::new(), dry_run: s.dry_run };
                    assert(r@.entries =~= Seq::<ExpiredEntryView>::empty());
                    (s, Action::Done(Ok(r)))
                } else {
                    match now {
                        Some(t) => {
                            s.now = t;
                            s.lines = lines_of(&chars_of(out.as_str()));
                            advance(s, 0)
                        },
                        None => fail(s, arg("system time before Unix epoch")),
                    }
                }
            },
            Err(e) => fail(s, e),
        },
        GcStage::Fetching => match reply {
            Ok(_) => {
                s.stage = GcStage::Time;
                let c = checked(vec![arg("log"), arg("-1"), arg("--format=%ct"), arg("FETCH_HEAD")]);
                assert(call_args(c) =~= time_query());
                (s, Action::Git(c))
            },
            Err(e) => fail(s, e),
        },
        GcStage::Time => match git_stdout(reply) {
            Ok(ts) => match parse_i64_chars(&chars_of(ts.as_str())) {
                Some(t) => {
                    let age = s.now.wrapping_sub(t);
                    if age > s.max_age {
                        let days = if age >= 0 { age / 86400 } else { -((-age) / 86400) };
                        let name = match strip_prefix_chars(&chars_of(s.refpath.as_str()), &chars_of("refs/wip/")) {
                            Some(x) => string_from_chars(&x),
                            None => s.refpath.clone(),
                        };
                        let e = ExpiredEntry { name, wip_ref: s.refpath.clone(), age_days: days };
                        if s.dry_run {
                            let ghost ev = e@;
                            let ghost old_entries = s.entries@;
                            s.entries.push(e);
                            assert(expired_view(s.entries@) =~= expired_view(old_entries).push(ev));
                            advance_past(s)
                        } else {
                            let c = checked(vec![arg("push"), s.remote.clone(), delete_refspec_of(&s.refpath)]);
                            assert(call_args(c) =~= seq!["push"@, s.remote@, delete_refspec(s.refpath@)]);
                            s.pending = e;
                            s.stage = GcStage::Deleting;
                            (s, Action::Git(c))
                        }
                    } else {
                        advance_past(s)
                    }
                },
                None => {
                    let mut m = chars_of("bad timestamp for ");
                    append_str(&mut m, s.refpath.as_str());
                    let m = string_from_chars(&m);
                    fail(s, m)
                },
            },
            Err(e) => fail(s, e),
        },
        GcStage::Deleting => match reply {
            Ok(_) => {
                let e = clone_expired(&s.pending);
                let ghost ev = e@;
                let ghost old_entries = s.entries@;
                s.entries.push(e);
                assert(expired_view(s.entries@) =~= expired_view(old_entries).push(ev));
                advance_past(s)
            },
            Err(e) => fail(s, e),
        },
        GcStage::Finished => (s, Action::Done(Err(arg("the command has already ended")))),
    }
}

/// A clock reading as a plain value.
pub open spec fn clock_view(c: Option<i64>) -> Option<int> {
    match c {
        Some(t) => Some(t as int),
        None => None,
    }
}

/// Go on with a collection once git answered the last call; when the listing
/// arrives, the ages are measured against the clock's current time (which
/// the new state records as `now`), and a clock that cannot be read ends the
/// command with an error. What the clock reads is not stated: the step is
/// `gc_next` at some reading.
pub fn resume(s: GcState, reply: Result<GitOutput, String>) -> (out: (GcState, Action<GcResult>))
    requires
        duration_fits(s@.expire),
    ensures
        exists|c: Option<i64>| #[trigger] gc_next(s@, reply_view(reply), clock_view(c)) == (out.0@, step_view(out.1)),
{
    let listing_arrived = match &reply {
        Ok(o) => s.stage == GcStage::Listing && !o.stdout.as_str().is_empty(),
        Err(_) => false,
    };
    let ghost old_s = s@;
    let ghost r = reply_view(reply);
    let now = if listing_arrived { now_timestamp() } else { Some(s.now) };
    let out = resume_at(s, reply, now);
    assert(gc_next(old_s, r, clock_view(now)) == (out.0@, step_view(out.1)));
    out
}

/// Whether a step asks for a push (which deletes a ref).
pub open spec fn deletes(st: Step<GcResultView>) -> bool {
    st matches Step::Git(args, _) && args.len() > 0 && args[0] == "push"@
}

proof fn lemma_advance_fetches(s: GcStateView, i: int)
    ensures
        !deletes(gc_advance(s, i).1),
        gc_advance(s, i).0.dry_run == s.dry_run,
{
    reveal_strlit("push");
    reveal_strlit("fetch");
    assert("push"@.len() == 4 && "fetch"@.len() == 5);
    assert("push"@ != "fetch"@);
}

/// Law: a dry run never deletes: whatever git answers, no step of a
/// collection with `dry_run` asks for a push, and the flag stays set.
pub proof fn lemma_dry_run_never_deletes(s: GcStateView, r: Reply, now: Option<int>)
    requires
        s.dry_run,
    ensures
        !deletes(gc_next(s, r, now).1),
        gc_next(s, r, now).0.dry_run,
{
    reveal_strlit("push");
    reveal_strlit("config");
    reveal_strlit("ls-remote");
    reveal_strlit("log");
    assert("push"@ != "config"@) by { assert("push"@.len() != "config"@.len()); }
    assert("push"@ != "ls-remote"@) by { assert("push"@.len() != "ls-remote"@.len()); }
    assert("push"@ != "log"@) by { assert("push"@.len() != "log"@.len()); }
    match s.stage {
        GcStage::Listing => {
            if let Ok((out, _)) = r {
                if out.len() > 0 {
                    if let Some(t) = now {
                        lemma_advance_fetches(GcStateView { now: t, lines: lines(out), ..s }, 0);
                    }
                }
            }
        },
        GcStage::Time => {
            if let Ok((ts, _)) = r {
                if let Some(t) = parse_i64(ts) {
                    let age = age_at(s.now, t);
                    let e = ExpiredEntryView {
                        name: display_name(s.refpath),
                        wip_ref: s.refpath,
                        age_days: div_toward_zero(age, 86400),
                    };
                    lemma_advance_fetches(GcStateView { entries: s.entries.push(e), ..s }, s.index + 1);
                    lemma_advance_fetches(s, s.index + 1);
                }
            }
        },
        GcStage::Deleting => {
            lemma_advance_fetches(GcStateView { entries: s.entries.push(s.pending), ..s }, s.index + 1);
        },
        _ => {},
    }
}

/// Law: a collection examines every listed ref in order. Once the ref at
/// line `s.index` has been dealt with (found young enough, reported, or
/// deleted), the collection either fetches the first later line that names a
/// ref, keeping the lines and the entries collected so far, or ends
/// successfully only when no later line names a ref; the entries collected
/// so far are never dropped.
pub proof fn lemma_gc_examines_every_ref(s: GcStateView, r: Reply, now: Option<int>)
    requires
        s.stage == GcStage::Time || s.stage == GcStage::Deleting,
        0 <= s.index,
    ensures
        gc_next(s, r, now).1 matches Step::Done(Ok(res)) ==> no_ref_after(s.lines, s.index) && is_prefix_of(
            s.entries,
            res.entries,
        ),
        gc_next(s, r, now).0.stage == GcStage::Fetching ==> {
            &&& first_ref_after(s.lines, s.index, gc_next(s, r, now).0.index)
            &&& gc_next(s, r, now).0.lines == s.lines
            &&& is_prefix_of(s.entries, gc_next(s, r, now).0.entries)
            &&& gc_next(s, r, now).1 == Step::<GcResultView>::Git(
                seq!["fetch"@, s.remote, words(s.lines[gc_next(s, r, now).0.index])[1]],
                false,
            )
        },
{
    lemma_next_entry_after(s.lines, s.index);
    assert(s.entries.take(s.entries.len() as int) =~= s.entries);
    assert(s.entries.push(s.pending).take(s.entries.len() as int) =~= s.entries);
    if let Ok(ts) = stdout_view(r) {
        if let Some(t) = parse_i64(ts) {
            let e = ExpiredEntryView {
                name: display_name(s.refpath),
                wip_ref: s.refpath,
                age_days: div_toward_zero(age_at(s.now, t), 86400),
            };
            assert(s.entries.push(e).take(s.entries.len() as int) =~= s.entries);
        }
    }
}

/// Law: the first ref that a collection fetches is the first listed line
/// that names a ref; a collection ends at once successfully only when no
/// listed line names one.
pub proof fn lemma_gc_starts_at_first_ref(s: GcStateView, r: Reply, now: Option<int>)
    requires
        s.stage == GcStage::Listing,
    ensures
        gc_next(s, r, now).1 matches Step::Done(Ok(_)) ==> (stdout_view(r) matches Ok(out)
            ==> no_ref_after(lines(out), -1)),
        gc_next(s, r, now).0.stage == GcStage::Fetching ==> (stdout_view(r) matches Ok(out) && first_ref_after(
            lines(out),
            -1,
            gc_next(s, r, now).0.index,
        )),
{
    if let Ok(out) = stdout_view(r) {
        lemma_next_entry_after(lines(out), -1);
    }
}

/// Law: a ref older than the threshold is collected. Once its commit time
/// reads as older than `max_age`, a dry run adds it (by its ref) to the
/// entries after those collected before, and ends with it in the result if
/// it was the last; otherwise it is deleted from the remote, and once the
/// deletion succeeded it joins the entries the same way.
pub proof fn lemma_gc_collects_old_ref(s: GcStateView, r: Reply, now: Option<int>)
    ensures
        s.stage == GcStage::Time ==> (stdout_view(r) matches Ok(ts) ==> (parse_i64(ts) matches Some(t) ==> (
            age_at(s.now, t) > s.max_age ==> {
                &&& s.dry_run ==> gc_next(s, r, now).0.entries.len() == s.entries.len() + 1
                &&& s.dry_run ==> gc_next(s, r, now).0.entries.last().wip_ref == s.refpath
                &&& s.dry_run ==> gc_next(s, r, now).0.entries.last().age_days == div_toward_zero(age_at(s.now, t), 86400)
                &&& s.dry_run ==> (gc_next(s, r, now).1 matches Step::Done(Ok(res)) ==> res.entries.last().wip_ref == s.refpath)
                &&& !s.dry_run ==> gc_next(s, r, now).1 == Step::<GcResultView>::Git(
                    seq!["push"@, s.remote, delete_refspec(s.refpath)],
                    false,
                )
                &&& !s.dry_run ==> gc_next(s, r, now).0.pending.wip_ref == s.refpath
            }))),
        s.stage == GcStage::Deleting ==> (r is Ok ==> {
            &&& gc_next(s, r, now).0.entries == s.entries.push(s.pending)
            &&& gc_next(s, r, now).1 matches Step::Done(Ok(res)) ==> res.entries == s.entries.push(s.pending)
        }),
{
}

} // verus!

//! The `[wip-push]` trailer block that a WIP commit message carries.

use vstd::prelude::*;
use crate::text::{
    append_chars, chars_eq, chars_of, decimal, decimal_chars, join_lines, lines, lines_of,
    parse_unsigned, parse_unsigned_chars, string_from_chars, strip_prefix, strip_prefix_chars,
    trim, trim_ws, views, plain_line, lemma_lines_of_join, lemma_decimal, lemma_parse_decimal,
    is_ascii_digit, drop_leading, drop_trailing, is_white_space, lemma_drop_trailing_prefix,
    split_newlines, lemma_split_newlines, lemma_join_concat, lemma_join_first, starts_with_chars,
};

verus! {

/// Metadata stored in the `[wip-push]` trailer block of the commit message.
#[derive(Clone)]
pub struct WipMetadata {
    pub message: String,
    pub branch: String,
    pub task: Option<String>,
    pub files: usize,
    pub untracked: usize,
}

/// The metadata as plain values.
pub struct MetadataView {
    pub message: Seq<char>,
    pub branch: Seq<char>,
    pub task: Option<Seq<char>>,
    pub files: nat,
    pub untracked: nat,
}

pub open spec fn opt_view(o: Option<String>) -> Option<Seq<char>> {
    match o {
        Some(s) => Some(s@),
        None => None,
    }
}

impl View for WipMetadata {
    type V = MetadataView;

    open spec fn view(&self) -> MetadataView {
        MetadataView {
            message: self.message@,
            branch: self.branch@,
            task: opt_view(self.task),
            files: self.files as nat,
            untracked: self.untracked as nat,
        }
    }
}

/// The lines of the commit message that records `m`.
pub open spec fn commit_lines(m: MetadataView) -> Seq<Seq<char>> {
    seq!["wip: "@ + m.message, Seq::empty(), "[wip-push]"@, "branch="@ + m.branch]
        + match m.task {
            Some(t) => seq!["task="@ + t],
            None => Seq::empty(),
        }
        + seq!["files="@ + decimal(m.files), "untracked="@ + decimal(m.untracked)]
}

/// The commit message that records `m`: its lines joined by `\n`.
pub open spec fn commit_message(m: MetadataView) -> Seq<char> {
    join_lines(commit_lines(m))
}

pub open spec fn empty_metadata() -> MetadataView {
    MetadataView {
        message: Seq::empty(),
        branch: Seq::empty(),
        task: None,
        files: 0,
        untracked: 0,
    }
}

/// A count field: its decimal value, or 0 where it does not read as a `usize`.
pub open spec fn count_value(v: Seq<char>) -> nat {
    match parse_unsigned(v, usize::MAX as nat) {
        Some(n) => n,
        None => 0,
    }
}

/// The line that opens the trailer block, once trimmed.
pub open spec fn is_marker(l: Seq<char>) -> bool {
    trim(l) == "[wip-push]"@
}

/// The index of the first marker line at or after `i`, or the number of lines.
pub open spec fn marker_from(ls: Seq<Seq<char>>, i: int) -> int
    decreases ls.len() - i,
{
    if i < 0 || i >= ls.len() {
        ls.len() as int
    } else if is_marker(ls[i]) {
        i
    } else {
        marker_from(ls, i + 1)
    }
}

/// The index of the first marker line, or the number of lines.
pub open spec fn marker_index(ls: Seq<Seq<char>>) -> int {
    marker_from(ls, 0)
}

/// The index of the first line at or after `i` that starts with `wip: `, or
/// the number of lines.
pub open spec fn wip_line_from(ls: Seq<Seq<char>>, i: int) -> int
    decreases ls.len() - i,
{
    if i < 0 || i >= ls.len() {
        ls.len() as int
    } else if strip_prefix(ls[i], "wip: "@) is Some {
        i
    } else {
        wip_line_from(ls, i + 1)
    }
}

/// The lines of the human description, taken from the lines before the
/// marker: from the first `wip: ` line, without that prefix, up to the end,
/// less the blank line that separates it from the marker.  None where no line
/// starts with `wip: `.
pub open spec fn description_lines(head: Seq<Seq<char>>) -> Seq<Seq<char>> {
    let j = wip_line_from(head, 0);
    if j >= head.len() {
        Seq::empty()
    } else {
        let body = seq![head[j].skip("wip: "@.len() as int)] + head.skip(j + 1);
        if body.len() > 1 && body.last().len() == 0 {
            body.drop_last()
        } else {
            body
        }
    }
}

/// The effect of one trailer line on the fields read so far.
pub open spec fn trailer_step(m: MetadataView, line: Seq<char>) -> MetadataView {
    if let Some(v) = strip_prefix(line, "branch="@) {
        MetadataView { branch: v, ..m }
    } else if let Some(v) = strip_prefix(line, "task="@) {
        MetadataView { task: Some(v), ..m }
    } else if let Some(v) = strip_prefix(line, "files="@) {
        MetadataView { files: count_value(v), ..m }
    } else if let Some(v) = strip_prefix(line, "untracked="@) {
        MetadataView { untracked: count_value(v), ..m }
    } else {
        m
    }
}

/// The fields that the given trailer lines set, read in order.
pub open spec fn read_trailer(ls: Seq<Seq<char>>) -> MetadataView
    decreases ls.len(),
{
    if ls.len() == 0 {
        empty_metadata()
    } else {
        trailer_step(read_trailer(ls.drop_last()), ls.last())
    }
}

/// The lines after the first marker line; none where there is no marker.
pub open spec fn trailer_lines(ls: Seq<Seq<char>>) -> Seq<Seq<char>> {
    let k = marker_index(ls);
    if k < ls.len() {
        ls.skip(k + 1)
    } else {
        Seq::empty()
    }
}

/// The metadata that a commit message records: the description from the
/// lines before the marker, the fields from the lines after it.
pub open spec fn parse_commit_message(msg: Seq<char>) -> MetadataView {
    let ls = lines(msg);
    MetadataView {
        message: join_lines(description_lines(ls.take(marker_index(ls)))),
        ..read_trailer(trailer_lines(ls))
    }
}

/// Lines joined by `\n` (exec form of `join_lines`).
pub fn join_lines_chars(ls: &Vec<Vec<char>>) -> (v: Vec<char>)
    ensures
        v@ == join_lines(views(ls@)),
{
    let ghost vs = views(ls@);
    if ls.len() == 0 {
        return Vec::new();
    }
    let mut out: Vec<char> = Vec::new();
    append_chars(&mut out, &ls[0]);
    assert(vs.take(1).len() == 1);
    assert(vs.take(1)[0] == ls@[0]@);
    let mut i: usize = 1;
    while i < ls.len()
        invariant
            1 <= i <= ls@.len(),
            vs == views(ls@),
            out@ == join_lines(vs.take(i as int)),
        decreases ls@.len() - i,
    {
        out.push('\n');
        append_chars(&mut out, &ls[i]);
        let ghost t = vs.take(i + 1);
        assert(t.drop_last() =~= vs.take(i as int));
        assert(t.last() == ls@[i as int]@);
        assert(out@ =~= join_lines(t.drop_last()) + seq!['\n'] + t.last());
        i = i + 1;
    }
    assert(vs.take(ls@.len() as int) =~= vs);
    out
}

fn prefixed(p: &str, v: &Vec<char>) -> (r: Vec<char>)
    ensures
        r@ == p@ + v@,
{
    let mut r = chars_of(p);
    append_chars(&mut r, v);
    r
}

impl WipMetadata {
    /// Build the full commit message with trailer.
    pub fn to_commit_message(&self) -> (s: String)
        ensures
            s@ == commit_message(self@),
    {
        let mut ls: Vec<Vec<char>> = Vec::new();
        ls.push(prefixed("wip: ", &chars_of(self.message.as_str())));
        ls.push(Vec::new());
        ls.push(chars_of("[wip-push]"));
        ls.push(prefixed("branch=", &chars_of(self.branch.as_str())));
        match &self.task {
            Some(t) => {
                ls.push(prefixed("task=", &chars_of(t.as_str())));
            },
            None => {},
        }
        ls.push(prefixed("files=", &decimal_chars(self.files as u64)));
        ls.push(prefixed("untracked=", &decimal_chars(self.untracked as u64)));
        assert(views(ls@) =~= commit_lines(self@));
        let v = join_lines_chars(&ls);
        string_from_chars(&v)
    }

    /// Parse metadata from a commit message: everything before the
    /// `[wip-push]` trailer, from the `wip: ` line on, is the description.
    pub fn from_commit_message(msg: &str) -> (m: WipMetadata)
        ensures
            m@ == parse_commit_message(msg@),
    {
        let ls = lines_of(&chars_of(msg));
        let ghost vs = views(ls@);
        let k = find_marker(&ls);
        let message = description_of(&ls, k);
        let p_branch = chars_of("branch=");
        let p_task = chars_of("task=");
        let p_files = chars_of("files=");
        let p_untracked = chars_of("untracked=");
        let mut branch: Vec<char> = Vec::new();
        let mut task: Option<Vec<char>> = None;
        let mut files: usize = 0;
        let mut untracked: usize = 0;
        let mut i: usize = if k < ls.len() { k + 1 } else { ls.len() };
        let ghost start = i as int;
        assert(vs.subrange(start, start) =~= Seq::<Seq<char>>::empty());
        while i < ls.len()
            invariant
                0 <= start <= i <= ls@.len(),
                k == marker_index(vs),
                start == (if k < ls@.len() { k + 1 } else { ls@.len() as int }),
                vs == views(ls@),
                p_branch@ == "branch="@,
                p_task@ == "task="@,
                p_files@ == "files="@,
                p_untracked@ == "untracked="@,
                read_trailer(vs.subrange(start, i as int)) == (MetadataView {
                    message: Seq::empty(),
                    branch: branch@,
                    task: match task { Some(t) => Some(t@), None => None },
                    files: files as nat,
                    untracked: untracked as nat,
                }),
            decreases ls@.len() - i,
        {
            let line = &ls[i];
            let ghost t = vs.subrange(start, i + 1);
            assert(t.drop_last() =~= vs.subrange(start, i as int));
            assert(t.last() == line@);
            if let Some(v) = strip_prefix_chars(line, &p_branch) {
                branch = v;
            } else if let Some(v) = strip_prefix_chars(line, &p_task) {
                task = Some(v);
            } else if let Some(v) = strip_prefix_chars(line, &p_files) {
                files = match parse_unsigned_chars(&v, usize::MAX as u64) {
                    Some(n) => n as usize,
                    None => 0,
                };
            } else if let Some(v) = strip_prefix_chars(line, &p_untracked) {
                untracked = match parse_unsigned_chars(&v, usize::MAX as u64) {
                    Some(n) => n as usize,
                    None => 0,
                };
            }
            i = i + 1;
        }
        assert(vs.subrange(start, vs.len() as int) =~= trailer_lines(vs));
        WipMetadata {
            message: string_from_chars(&message),
            branch: string_from_chars(&branch),
            task: match task {
                Some(t) => Some(string_from_chars(&t)),
                None => None,
            },
            files,
            untracked,
        }
    }
}

/// The index of the first marker line (exec form of `marker_index`).
fn find_marker(ls: &Vec<Vec<char>>) -> (k: usize)
    ensures
        k == marker_index(views(ls@)),
        k <= ls@.len(),
{
    let ghost vs = views(ls@);
    let marker = chars_of("[wip-push]");
    let mut i: usize = 0;
    while i < ls.len()
        invariant
            i <= ls@.len(),
            vs == views(ls@),
            marker@ == "[wip-push]"@,
            marker_from(vs, 0) == marker_from(vs, i as int),
        decreases ls@.len() - i,
    {
        if chars_eq(&trim_ws(&ls[i]), &marker) {
            return i;
        }
        i = i + 1;
    }
    i
}

/// The description that the lines before index `k` hold (exec form of
/// `description_lines`, joined).
fn description_of(ls: &Vec<Vec<char>>, k: usize) -> (message: Vec<char>)
    requires
        k <= ls@.len(),
    ensures
        message@ == join_lines(description_lines(views(ls@).take(k as int))),
{
    let ghost vs = views(ls@);
    let ghost head = vs.take(k as int);
    let p_wip = chars_of("wip: ");
    let mut j: usize = 0;
    while j < k
        invariant
            j <= k <= ls@.len(),
            vs == views(ls@),
            head == vs.take(k as int),
            p_wip@ == "wip: "@,
            wip_line_from(head, 0) == wip_line_from(head, j as int),
        ensures
            j <= k,
            wip_line_from(head, 0) == wip_line_from(head, j as int),
            j < k ==> strip_prefix(head[j as int], "wip: "@) is Some,
        decreases k - j,
    {
        assert(head[j as int] == ls@[j as int]@);
        if starts_with_chars(&ls[j], &p_wip) {
            break;
        }
        j = j + 1;
    }
    if j >= k {
        return Vec::new();
    }
    assert(head[j as int] == ls@[j as int]@);
    let first = match strip_prefix_chars(&ls[j], &p_wip) {
        Some(v) => v,
        None => Vec::new(),
    };
    let mut end: usize = k;
    if end > j + 1 && ls[end - 1].len() == 0 {
        end = end - 1;
    }
    let ghost body = seq![first@] + head.skip(j + 1);
    assert(wip_line_from(head, j as int) == j);
    assert(first@ == head[j as int].skip("wip: "@.len() as int));
    assert(head.skip(j + 1) =~= vs.subrange(j + 1, k as int));
    assert(body.len() > 1 ==> body.last() == ls@[k - 1]@);
    assert(description_lines(head) =~= seq![first@] + vs.subrange(j + 1, end as int));
    let mut message = first;
    let mut i: usize = j + 1;
    assert(seq![message@] + vs.subrange(j + 1, i as int) =~= seq![message@]);
    let ghost f = message@;
    while i < end
        invariant
            j + 1 <= i <= end <= k <= ls@.len(),
            vs == views(ls@),
            message@ == join_lines(seq![f] + vs.subrange(j + 1, i as int)),
        decreases end - i,
    {
        let ghost before = seq![f] + vs.subrange(j + 1, i as int);
        let ghost after = seq![f] + vs.subrange(j + 1, i + 1);
        assert(after.drop_last() =~= before);
        assert(after.last() == ls@[i as int]@);
        message.push('\n');
        append_chars(&mut message, &ls[i]);
        assert(message@ =~= join_lines(before) + seq!['\n'] + ls@[i as int]@);
        i = i + 1;
    }
    message
}

// ---------------------------------------------------------------------------
// The round trip between `to_commit_message` and `from_commit_message`
// ---------------------------------------------------------------------------

/// A field that the commit message carries back unchanged: it holds no `\n`
/// and does not end with `\r`.
pub open spec fn plain_field(s: Seq<char>) -> bool {
    plain_line(s)
}

/// A description that the commit message carries back unchanged: none of
/// its lines ends with `\r`, and none after the first reads as the marker.
pub open spec fn plain_description(s: Seq<char>) -> bool {
    forall|i: int|
        0 <= i < split_newlines(s).len() ==> {
            &&& plain_line(#[trigger] split_newlines(s)[i])
            &&& (i > 0 ==> !is_marker(split_newlines(s)[i]))
        }
}

/// Metadata that the commit message carries back unchanged.
pub open spec fn plain_metadata(m: MetadataView) -> bool {
    &&& plain_description(m.message)
    &&& plain_field(m.branch)
    &&& (m.task matches Some(t) ==> plain_field(t))
    &&& m.files <= usize::MAX
    &&& m.untracked <= usize::MAX
}

proof fn lemma_plain_concat(p: Seq<char>, v: Seq<char>)
    requires
        !p.contains('\n'),
        p.len() > 0,
        p.last() != '\r',
        plain_line(v),
    ensures
        plain_line(p + v),
        (p + v).len() > 0,
{
    let s = p + v;
    if s.contains('\n') {
        let k = choose|k: int| 0 <= k < s.len() && s[k] == '\n';
        if k < p.len() {
            assert(p[k] == '\n');
        } else {
            assert(v[k - p.len()] == '\n');
        }
    }
    if v.len() > 0 {
        assert(s.last() == v.last());
    } else {
        assert(s.last() == p.last());
    }
}

proof fn lemma_decimal_plain(n: nat)
    ensures
        plain_line(decimal(n)),
        decimal(n).len() > 0,
{
    lemma_decimal(n);
    let d = decimal(n);
    if d.contains('\n') {
        let k = choose|k: int| 0 <= k < d.len() && d[k] == '\n';
        assert(is_ascii_digit(d[k]));
    }
    assert(is_ascii_digit(d[d.len() - 1]));
}


/// A line that starts with a character other than white space keeps that
/// character first once trimmed.
proof fn lemma_trim_first(l: Seq<char>)
    requires
        l.len() > 0,
        !is_white_space(l[0]),
    ensures
        trim(l).len() > 0,
        trim(l)[0] == l[0],
{
    assert(drop_leading(l, false) == l);
    lemma_drop_trailing_prefix(l, false);
}

proof fn lemma_strip_own_prefix(p: Seq<char>, v: Seq<char>)
    ensures
        strip_prefix(p + v, p) == Some(v),
{
    assert((p + v).take(p.len() as int) =~= p);
    assert((p + v).skip(p.len() as int) =~= v);
}

proof fn lemma_strip_other_prefix(l: Seq<char>, q: Seq<char>)
    requires
        l.len() > 0,
        q.len() > 0,
        l[0] != q[0],
    ensures
        strip_prefix(l, q) is None,
{
    if q.len() <= l.len() {
        assert(l.take(q.len() as int)[0] == l[0]);
    }
}

proof fn lemma_read_push(ls: Seq<Seq<char>>, l: Seq<char>)
    ensures
        read_trailer(ls.push(l)) == trailer_step(read_trailer(ls), l),
{
    assert(ls.push(l).drop_last() =~= ls);
}

/// Lines in `[a, b)` that are not markers leave the search for the first
/// marker where it was.
proof fn lemma_marker_skip(ls: Seq<Seq<char>>, a: int, b: int)
    requires
        0 <= a <= b <= ls.len(),
        forall|i: int| a <= i < b ==> !is_marker(#[trigger] ls[i]),
    ensures
        marker_from(ls, a) == marker_from(ls, b),
    decreases b - a,
{
    if a < b {
        lemma_marker_skip(ls, a + 1, b);
    }
}

/// Law: reading back the commit message written for some metadata gives that
/// metadata, a description of several lines included, whenever the
/// description keeps its lines (none ends with `\r`, none after the first
/// reads as the marker) and the branch and task are single plain lines.
pub proof fn lemma_commit_message_roundtrip(m: MetadataView)
    requires
        plain_metadata(m),
    ensures
        parse_commit_message(commit_message(m)) == m,
{
    reveal_strlit("wip: ");
    reveal_strlit("[wip-push]");
    reveal_strlit("branch=");
    reveal_strlit("task=");
    reveal_strlit("files=");
    reveal_strlit("untracked=");
    let w = "wip: "@;
    let mk = "[wip-push]"@;
    let pb = "branch="@;
    let pt = "task="@;
    let pf = "files="@;
    let pu = "untracked="@;
    assert(!w.contains('\n')) by { if w.contains('\n') { let k = choose|k: int| 0 <= k < w.len() && w[k] == '\n'; } }
    assert(!pb.contains('\n')) by { if pb.contains('\n') { let k = choose|k: int| 0 <= k < pb.len() && pb[k] == '\n'; } }
    assert(!pt.contains('\n')) by { if pt.contains('\n') { let k = choose|k: int| 0 <= k < pt.len() && pt[k] == '\n'; } }
    assert(!pf.contains('\n')) by { if pf.contains('\n') { let k = choose|k: int| 0 <= k < pf.len() && pf[k] == '\n'; } }
    assert(!pu.contains('\n')) by { if pu.contains('\n') { let k = choose|k: int| 0 <= k < pu.len() && pu[k] == '\n'; } }
    assert(!mk.contains('\n')) by { if mk.contains('\n') { let k = choose|k: int| 0 <= k < mk.len() && mk[k] == '\n'; } }
    lemma_decimal_plain(m.files);
    lemma_decimal_plain(m.untracked);
    lemma_decimal(m.files);
    lemma_decimal(m.untracked);
    lemma_parse_decimal(m.files, usize::MAX as nat);
    lemma_parse_decimal(m.untracked, usize::MAX as nat);

    // The description's lines, with `wip: ` in front of the first.
    let p = split_newlines(m.message);
    lemma_split_newlines(m.message);
    let n = p.len() as int;
    let q = p.update(0, w + p[0]);
    lemma_join_first(w, p);
    assert(plain_line(p[0]));
    lemma_plain_concat(w, p[0]);

    // The trailer's lines.
    let l1 = Seq::<char>::empty();
    let l3 = pb + m.branch;
    let lf = pf + decimal(m.files);
    let lu = pu + decimal(m.untracked);
    let tt = seq![l1, mk, l3] + match m.task {
        Some(t) => seq![pt + t],
        None => Seq::empty(),
    } + seq![lf, lu];
    assert(commit_lines(m) =~= seq![w + m.message] + tt);
    lemma_join_concat(seq![w + m.message], tt);
    lemma_join_concat(q, tt);
    let ls = q + tt;
    assert(join_lines(ls) == commit_message(m));

    lemma_plain_concat(pb, m.branch);
    lemma_plain_concat(pf, decimal(m.files));
    lemma_plain_concat(pu, decimal(m.untracked));
    assert(plain_line(l1));
    assert(plain_line(mk));
    assert forall|i: int| 0 <= i < ls.len() - 1 implies plain_line(#[trigger] ls[i]) by {
        if i < n {
            if i > 0 {
                assert(ls[i] == p[i]);
            }
        } else {
            assert(ls[i] == tt[i - n]);
            if let Some(t) = m.task {
                lemma_plain_concat(pt, t);
            }
        }
    }
    assert(ls.last() == lu);
    lemma_lines_of_join(ls);
    assert(lines(commit_message(m)) == ls);

    // The first marker line is the one after the blank line.
    assert(drop_leading(mk, false) == mk);
    assert(drop_trailing(mk, false) == mk);
    assert(trim(mk) == mk);
    assert(drop_leading(l1, false) == l1);
    assert(trim(l1) == l1);
    lemma_trim_first(w + p[0]);
    assert forall|i: int| 0 <= i < n + 1 implies !is_marker(#[trigger] ls[i]) by {
        if i == 0 {
            assert(ls[0] == w + p[0]);
            assert((w + p[0])[0] == 'w');
        } else if i < n {
            assert(ls[i] == p[i]);
        } else {
            assert(ls[i] == l1);
        }
    }
    lemma_marker_skip(ls, 0, n + 1);
    assert(ls[n + 1] == mk);
    assert(marker_index(ls) == n + 1);

    // The description comes back whole.
    let head = ls.take(n + 1);
    lemma_strip_own_prefix(w, p[0]);
    assert(head[0] == w + p[0]);
    assert(wip_line_from(head, 0) == 0);
    assert((w + p[0]).skip(w.len() as int) =~= p[0]);
    let body = seq![head[0].skip(w.len() as int)] + head.skip(1);
    assert(body.last() == l1);
    assert(body.drop_last() =~= p);
    assert(description_lines(head) == p);

    // The fields come back from the trailer.
    assert(trailer_lines(ls) =~= ls.skip(n + 2));
    lemma_trim_first(l3);
    lemma_strip_own_prefix(pb, m.branch);
    lemma_strip_own_prefix(pf, decimal(m.files));
    lemma_strip_own_prefix(pu, decimal(m.untracked));
    lemma_trim_first(lf);
    lemma_trim_first(lu);
    lemma_strip_other_prefix(lf, pb);
    lemma_strip_other_prefix(lf, pt);
    lemma_strip_other_prefix(lu, pb);
    lemma_strip_other_prefix(lu, pt);
    lemma_strip_other_prefix(lu, pf);
    let s0 = Seq::<Seq<char>>::empty();
    lemma_read_push(s0, l3);
    let s1 = s0.push(l3);
    let r1 = read_trailer(s1);
    assert(r1.branch == m.branch && r1.task is None && r1.files == 0 && r1.untracked == 0);
    let s2 = match m.task {
        Some(t) => s1.push(pt + t),
        None => s1,
    };
    if let Some(t) = m.task {
        lemma_strip_own_prefix(pt, t);
        lemma_plain_concat(pt, t);
        lemma_trim_first(pt + t);
        lemma_strip_other_prefix(pt + t, pb);
        lemma_read_push(s1, pt + t);
    }
    let r2 = read_trailer(s2);
    assert(r2.branch == m.branch && r2.task == m.task && r2.files == 0 && r2.untracked == 0);
    lemma_read_push(s2, lf);
    let s3 = s2.push(lf);
    assert(count_value(decimal(m.files)) == m.files);
    lemma_read_push(s3, lu);
    let s4 = s3.push(lu);
    assert(count_value(decimal(m.untracked)) == m.untracked);
    let r4 = read_trailer(s4);
    assert(r4.branch == m.branch && r4.task == m.task);
    assert(r4.files == m.files && r4.untracked == m.untracked);
    assert(s4 =~= ls.skip(n + 2));
}

} // verus!

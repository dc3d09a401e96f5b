//! The texts with which the MCP tools answer: one per command, built from
//! the command's result.

use vstd::prelude::*;
use crate::commands::drop::{DropResult, DropResultView};
use crate::commands::gc::{expired_view, ExpiredEntryView, GcResult, GcResultView, signed_decimal};
use crate::commands::list::{entries_view, ListResult, ListResultView, WipEntryView};
use crate::commands::load::{LoadResult, LoadResultView};
use crate::commands::save::{SaveResult, SaveResultView};
use crate::commands::show::{ShowResult, ShowResultView};
use crate::metadata::join_lines_chars;
use crate::text::{
    append_chars, append_str, chars_eq, chars_of, decimal, decimal_chars, join_lines, string_from_chars, views,
};

verus! {

/// The number of bytes that `c` takes in UTF-8 (std's `char::len_utf8`).
pub open spec fn utf8_len(c: char) -> nat {
    if (c as u32) < 0x80 {
        1
    } else if (c as u32) < 0x800 {
        2
    } else if (c as u32) < 0x10000 {
        3
    } else {
        4
    }
}

/// Exec form of `utf8_len`.
fn utf8_len_of(c: char) -> (l: usize)
    ensures
        l == utf8_len(c),
{
    let v = c as u32;
    if v < 0x80 {
        1
    } else if v < 0x800 {
        2
    } else if v < 0x10000 {
        3
    } else {
        4
    }
}

/// The number of bytes that `s` takes in UTF-8.
pub open spec fn utf8_size(s: Seq<char>) -> nat
    decreases s.len(),
{
    if s.len() == 0 {
        0
    } else {
        utf8_len(s[0]) + utf8_size(s.drop_first())
    }
}

/// The longest start of `s` that takes at most `n` bytes in UTF-8: what the
/// string slice `&s[..n]` holds where `n` falls between two characters, or
/// all of `s` where it takes fewer bytes.
pub open spec fn byte_prefix(s: Seq<char>, n: int) -> Seq<char>
    decreases s.len(),
{
    if s.len() == 0 || utf8_len(s[0]) > n {
        Seq::empty()
    } else {
        seq![s[0]] + byte_prefix(s.drop_first(), n - utf8_len(s[0]))
    }
}

/// Whether byte offset `n` of `s` in UTF-8 falls between two characters or
/// at the end (std's `str::is_char_boundary`, for offsets within the text).
pub open spec fn char_boundary(s: Seq<char>, n: int) -> bool
    decreases s.len(),
{
    if n == 0 {
        true
    } else if s.len() == 0 || utf8_len(s[0]) > n {
        false
    } else {
        char_boundary(s.drop_first(), n - utf8_len(s[0]))
    }
}

/// Exec form of `byte_prefix`.
fn byte_prefix_chars(s: &Vec<char>, n: usize) -> (r: Vec<char>)
    ensures
        r@ == byte_prefix(s@, n as int),
{
    let mut r: Vec<char> = Vec::new();
    let mut left: usize = n;
    let mut i: usize = 0;
    assert(s@.skip(0) =~= s@);
    assert(r@ + s@ =~= s@);
    while i < s.len()
        invariant
            i <= s@.len(),
            byte_prefix(s@, n as int) == r@ + byte_prefix(s@.skip(i as int), left as int),
        ensures
            byte_prefix(s@, n as int) == r@,
        decreases s@.len() - i,
    {
        let c = s[i];
        let l = utf8_len_of(c);
        let ghost rest = s@.skip(i as int);
        assert(rest[0] == c);
        if l > left {
            assert(byte_prefix(rest, left as int) == Seq::<char>::empty());
            assert(r@ + Seq::<char>::empty() =~= r@);
            break;
        }
        assert(rest.drop_first() =~= s@.skip(i + 1));
        let ghost before = r@;
        r.push(c);
        left = left - l;
        i = i + 1;
        assert(before + (seq![c] + byte_prefix(s@.skip(i as int), left as int)) =~= r@ + byte_prefix(
            s@.skip(i as int),
            left as int,
        ));
    }
    if i >= s.len() {
        assert(s@.skip(i as int) =~= Seq::<char>::empty());
        assert(r@ + Seq::<char>::empty() =~= r@);
    }
    r
}

/// The abbreviated commit id: its first seven bytes, or all of it where it
/// is shorter.
pub open spec fn short_sha(sha: Seq<char>) -> Seq<char> {
    byte_prefix(sha, 7)
}

// ---------------------------------------------------------------------------
// save
// ---------------------------------------------------------------------------

/// The answer to a save.
pub open spec fn save_text(r: SaveResultView) -> Seq<char> {
    if r.clean {
        "Nothing to save — working tree clean."@
    } else {
        (if r.stashed { "Stashed"@ } else { "Saved"@ }) + " \""@ + r.name + "\" → "@ + r.wip_ref + " ("@
            + short_sha(r.sha) + ")\n"@ + decimal(r.files) + " files, "@ + decimal(r.untracked)
            + " untracked"@ + match r.task {
            Some(t) => "\nTask: "@ + t,
            None => Seq::empty(),
        }
    }
}

/// The answer to a save; the commit id of a saved entry is cut after its
/// seventh byte, which must fall between two characters.
pub fn save_reply(r: &SaveResult) -> (t: String)
    requires
        r.clean || char_boundary(r.sha@, 7),
    ensures
        t@ == save_text(r@),
{
    let mut v: Vec<char> = Vec::new();
    if r.clean {
        append_str(&mut v, "Nothing to save — working tree clean.");
        return string_from_chars(&v);
    }
    if r.stashed {
        append_str(&mut v, "Stashed");
    } else {
        append_str(&mut v, "Saved");
    }
    append_str(&mut v, " \"");
    append_chars(&mut v, &chars_of(r.name.as_str()));
    append_str(&mut v, "\" → ");
    append_chars(&mut v, &chars_of(r.wip_ref.as_str()));
    append_str(&mut v, " (");
    append_chars(&mut v, &byte_prefix_chars(&chars_of(r.sha.as_str()), 7));
    append_str(&mut v, ")\n");
    append_chars(&mut v, &decimal_chars(r.files as u64));
    append_str(&mut v, " files, ");
    append_chars(&mut v, &decimal_chars(r.untracked as u64));
    append_str(&mut v, " untracked");
    let ghost before = v@;
    match &r.task {
        Some(t) => {
            append_str(&mut v, "\nTask: ");
            append_chars(&mut v, &chars_of(t.as_str()));
            assert(v@ =~= before + ("\nTask: "@ + t@));
        },
        None => {
            assert(v@ =~= before + Seq::<char>::empty());
        },
    }
    string_from_chars(&v)
}

// ---------------------------------------------------------------------------
// load
// ---------------------------------------------------------------------------

/// The answer to a load.
pub open spec fn load_text(r: LoadResultView) -> Seq<char> {
    let head = if r.conflicts {
        "Loaded \""@ + r.name + "\" with CONFLICTS — resolve them manually."@ + (if r.auto_stashed {
            "\nLocal changes stashed — run 'git stash pop' after resolving."@
        } else {
            Seq::empty()
        })
    } else {
        "Loaded \""@ + r.name + "\" successfully."@ + (if r.auto_stashed {
            "\nAuto-stashed local changes restored."@
        } else {
            Seq::empty()
        })
    };
    head + (if r.popped { "\nRemote ref dropped."@ } else { Seq::empty() })
}

/// The answer to a load.
pub fn load_reply(r: &LoadResult) -> (t: String)
    ensures
        t@ == load_text(r@),
{
    let mut v: Vec<char> = Vec::new();
    append_str(&mut v, "Loaded \"");
    append_chars(&mut v, &chars_of(r.name.as_str()));
    let ghost start = v@;
    if r.conflicts {
        append_str(&mut v, "\" with CONFLICTS — resolve them manually.");
        let ghost mid = v@;
        if r.auto_stashed {
            append_str(&mut v, "\nLocal changes stashed — run 'git stash pop' after resolving.");
        } else {
            assert(v@ =~= mid + Seq::<char>::empty());
        }
    } else {
        append_str(&mut v, "\" successfully.");
        let ghost mid = v@;
        if r.auto_stashed {
            append_str(&mut v, "\nAuto-stashed local changes restored.");
        } else {
            assert(v@ =~= mid + Seq::<char>::empty());
        }
    }
    let ghost head = v@;
    if r.popped {
        append_str(&mut v, "\nRemote ref dropped.");
    } else {
        assert(v@ =~= head + Seq::<char>::empty());
    }
    assert(v@ =~= load_text(r@));
    string_from_chars(&v)
}

// ---------------------------------------------------------------------------
// show and drop
// ---------------------------------------------------------------------------

/// The answer to a show: the metadata, then the diff after a blank line.
pub open spec fn show_text(r: ShowResultView) -> Seq<char> {
    let m = r.metadata;
    "WIP: "@ + r.name + "\n  message: "@ + m.message + "\n  branch: "@ + m.branch + "\n  files: "@
        + decimal(m.files) + ", untracked: "@ + decimal(m.untracked) + match m.task {
        Some(t) => "\n  task: "@ + t,
        None => Seq::empty(),
    } + "\n\n"@ + r.diff
}

/// The answer to a show.
pub fn show_reply(r: &ShowResult) -> (t: String)
    ensures
        t@ == show_text(r@),
{
    let m = &r.metadata;
    let mut v: Vec<char> = Vec::new();
    append_str(&mut v, "WIP: ");
    append_chars(&mut v, &chars_of(r.name.as_str()));
    append_str(&mut v, "\n  message: ");
    append_chars(&mut v, &chars_of(m.message.as_str()));
    append_str(&mut v, "\n  branch: ");
    append_chars(&mut v, &chars_of(m.branch.as_str()));
    append_str(&mut v, "\n  files: ");
    append_chars(&mut v, &decimal_chars(m.files as u64));
    append_str(&mut v, ", untracked: ");
    append_chars(&mut v, &decimal_chars(m.untracked as u64));
    let ghost before = v@;
    match &m.task {
        Some(t) => {
            append_str(&mut v, "\n  task: ");
            append_chars(&mut v, &chars_of(t.as_str()));
            assert(v@ =~= before + ("\n  task: "@ + t@));
        },
        None => {
            assert(v@ =~= before + Seq::<char>::empty());
        },
    }
    append_str(&mut v, "\n\n");
    append_chars(&mut v, &chars_of(r.diff.as_str()));
    string_from_chars(&v)
}

/// The answer to a drop.
pub open spec fn drop_text(r: DropResultView) -> Seq<char> {
    "Dropped \""@ + r.name + "\" ("@ + r.wip_ref + ")"@
}

/// The answer to a drop.
pub fn drop_reply(r: &DropResult) -> (t: String)
    ensures
        t@ == drop_text(r@),
{
    let mut v: Vec<char> = Vec::new();
    append_str(&mut v, "Dropped \"");
    append_chars(&mut v, &chars_of(r.name.as_str()));
    append_str(&mut v, "\" (");
    append_chars(&mut v, &chars_of(r.wip_ref.as_str()));
    append_str(&mut v, ")");
    string_from_chars(&v)
}

// ---------------------------------------------------------------------------
// list
// ---------------------------------------------------------------------------

/// One line of a listing: owner and name, short commit id, the description
/// in quotes unless it is empty or the default `wip`, the branch, the age,
/// and the task in brackets.
pub open spec fn entry_text(e: WipEntryView, age: Seq<char>) -> Seq<char> {
    let m = e.metadata;
    e.user + "/"@ + e.name + " "@ + short_sha(e.sha) + (if m.message.len() > 0 && m.message != "wip"@ {
        " \""@ + m.message + "\""@
    } else {
        Seq::empty()
    }) + " "@ + m.branch + " "@ + age + match m.task {
        Some(t) => " ["@ + t + "]"@,
        None => Seq::empty(),
    }
}

/// The answer to a listing, given each entry's age as text.
pub open spec fn list_text(r: ListResultView, ages: Seq<Seq<char>>) -> Seq<char> {
    if r.entries.len() == 0 {
        "No WIP entries found."@
    } else {
        join_lines(Seq::new(r.entries.len(), |i: int| entry_text(r.entries[i], ages[i])))
    }
}

fn entry_reply(e: &crate::commands::list::WipEntry, age: &String) -> (t: Vec<char>)
    ensures
        t@ == entry_text(e@, age@),
{
    let m = &e.metadata;
    let mut v: Vec<char> = Vec::new();
    append_chars(&mut v, &chars_of(e.user.as_str()));
    append_str(&mut v, "/");
    append_chars(&mut v, &chars_of(e.name.as_str()));
    append_str(&mut v, " ");
    append_chars(&mut v, &byte_prefix_chars(&chars_of(e.sha.as_str()), 7));
    let msg = chars_of(m.message.as_str());
    let ghost before = v@;
    if msg.len() > 0 && !chars_eq(&msg, &chars_of("wip")) {
        append_str(&mut v, " \"");
        append_chars(&mut v, &msg);
        append_str(&mut v, "\"");
        assert(v@ =~= before + (" \""@ + m.message@ + "\""@));
    } else {
        assert(v@ =~= before + Seq::<char>::empty());
    }
    append_str(&mut v, " ");
    append_chars(&mut v, &chars_of(m.branch.as_str()));
    append_str(&mut v, " ");
    append_chars(&mut v, &chars_of(age.as_str()));
    let ghost before2 = v@;
    match &m.task {
        Some(t) => {
            append_str(&mut v, " [");
            append_chars(&mut v, &chars_of(t.as_str()));
            append_str(&mut v, "]");
            assert(v@ =~= before2 + (" ["@ + t@ + "]"@));
        },
        None => {
            assert(v@ =~= before2 + Seq::<char>::empty());
        },
    }
    v
}

/// The answer to a listing; `ages` holds each entry's age as text, in the
/// order of the entries. Each commit id is cut after its seventh byte, which
/// must fall between two characters where the id is longer.
pub fn list_reply(r: &ListResult, ages: &Vec<String>) -> (t: String)
    requires
        ages@.len() == r.entries@.len(),
        forall|i: int|
            0 <= i < r.entries@.len() ==> utf8_size(#[trigger] r.entries@[i].sha@) <= 7 || char_boundary(
                r.entries@[i].sha@,
                7,
            ),
    ensures
        t@ == list_text(r@, ages@.map_values(|a: String| a@)),
{
    let ghost es = r@.entries;
    let ghost ag = ages@.map_values(|a: String| a@);
    if r.entries.len() == 0 {
        let mut v: Vec<char> = Vec::new();
        append_str(&mut v, "No WIP entries found.");
        return string_from_chars(&v);
    }
    let mut ls: Vec<Vec<char>> = Vec::new();
    let mut i: usize = 0;
    while i < r.entries.len()
        invariant
            i <= r.entries@.len(),
            ages@.len() == r.entries@.len(),
            es == entries_view(r.entries@),
            ag == ages@.map_values(|a: String| a@),
            ls@.len() == i,
            forall|j: int| 0 <= j < i ==> (#[trigger] ls@[j])@ == entry_text(es[j], ag[j]),
        decreases r.entries@.len() - i,
    {
        let line = entry_reply(&r.entries[i], &ages[i]);
        ls.push(line);
        i = i + 1;
    }
    let v = join_lines_chars(&ls);
    assert(views(ls@) =~= Seq::new(es.len(), |j: int| entry_text(es[j], ag[j])));
    string_from_chars(&v)
}

// ---------------------------------------------------------------------------
// gc
// ---------------------------------------------------------------------------

/// One line of a collection: what was (or would be) dropped, and its age.
pub open spec fn expired_text(e: ExpiredEntryView, dry_run: bool) -> Seq<char> {
    (if dry_run { "would drop"@ } else { "dropped"@ }) + " "@ + e.name + " ("@ + signed_decimal(e.age_days)
        + "d old)"@
}

/// The answer to a collection: a line per entry, and on a dry run a closing
/// count after a blank line.
pub open spec fn gc_text(r: GcResultView) -> Seq<char> {
    if r.entries.len() == 0 {
        "Nothing to clean."@
    } else {
        let ls = Seq::new(r.entries.len(), |i: int| expired_text(r.entries[i], r.dry_run));
        join_lines(
            if r.dry_run {
                ls.push(
                    "\n"@ + decimal(r.entries.len()) + " entries would be dropped. Run without dry_run to delete."@,
                )
            } else {
                ls
            },
        )
    }
}

/// Exec form of `signed_decimal` for an `i64`.
fn signed_decimal_chars(n: i64) -> (v: Vec<char>)
    ensures
        v@ == signed_decimal(n as int),
{
    if n < 0 {
        let k: u64 = (0i128 - n as i128) as u64;
        let mut v: Vec<char> = Vec::new();
        v.push('-');
        append_chars(&mut v, &decimal_chars(k));
        assert(v@ =~= seq!['-'] + decimal((-n) as nat));
        v
    } else {
        decimal_chars(n as u64)
    }
}

/// The answer to a collection.
pub fn gc_reply(r: &GcResult) -> (t: String)
    ensures
        t@ == gc_text(r@),
{
    let ghost es = r@.entries;
    if r.entries.len() == 0 {
        let mut v: Vec<char> = Vec::new();
        append_str(&mut v, "Nothing to clean.");
        return string_from_chars(&v);
    }
    let mut ls: Vec<Vec<char>> = Vec::new();
    let mut i: usize = 0;
    while i < r.entries.len()
        invariant
            i <= r.entries@.len(),
            es == expired_view(r.entries@),
            ls@.len() == i,
            forall|j: int| 0 <= j < i ==> (#[trigger] ls@[j])@ == expired_text(es[j], r.dry_run),
        decreases r.entries@.len() - i,
    {
        let e = &r.entries[i];
        let mut v: Vec<char> = Vec::new();
        if r.dry_run {
            append_str(&mut v, "would drop");
        } else {
            append_str(&mut v, "dropped");
        }
        append_str(&mut v, " ");
        append_chars(&mut v, &chars_of(e.name.as_str()));
        append_str(&mut v, " (");
        append_chars(&mut v, &signed_decimal_chars(e.age_days));
        append_str(&mut v, "d old)");
        ls.push(v);
        i = i + 1;
    }
    let ghost base = Seq::new(es.len(), |j: int| expired_text(es[j], r.dry_run));
    assert(views(ls@) =~= base);
    if r.dry_run {
        let mut v: Vec<char> = Vec::new();
        append_str(&mut v, "\n");
        append_chars(&mut v, &decimal_chars(r.entries.len() as u64));
        append_str(&mut v, " entries would be dropped. Run without dry_run to delete.");
        ls.push(v);
        assert(views(ls@) =~= base.push(
            "\n"@ + decimal(es.len()) + " entries would be dropped. Run without dry_run to delete."@,
        ));
    }
    let out = join_lines_chars(&ls);
    string_from_chars(&out)
}

} // verus!

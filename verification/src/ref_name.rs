//! Ref naming: the hidden `refs/wip/<user>/<name>` namespace and the slugs
//! that names and users are turned into.

use vstd::prelude::*;
use crate::config;
use crate::git::{arg, checked, GitCall};
use crate::text::{
    append_str, chars_of, drop_leading, drop_trailing, lemma_drop_leading_first, lemma_drop_leading_suffix,
    lemma_drop_trailing_last, lemma_drop_trailing_prefix, string_from_chars, trim_chars, trim_dashes,
    lemma_trim_dashes_keeps,
};

verus! {

// ---------------------------------------------------------------------------
// Character classes from std
// ---------------------------------------------------------------------------

/// Name for what std's `char::is_alphanumeric` answers for a character
/// (the Unicode `Alphabetic` or `Numeric` property).
pub uninterp spec fn alphanumeric(c: char) -> bool;

/// Name for what std's `str::to_lowercase` returns for a text (the Unicode
/// lowercase mapping, which may change a text's length).
pub uninterp spec fn lowercase(s: Seq<char>) -> Seq<char>;

pub open spec fn is_ascii_char(c: char) -> bool {
    c <= '\u{7f}'
}

pub open spec fn is_ascii_text(s: Seq<char>) -> bool {
    forall|i: int| 0 <= i < s.len() ==> is_ascii_char(#[trigger] s[i])
}

pub open spec fn is_ascii_alphanumeric(c: char) -> bool {
    ||| ('a' <= c && c <= 'z')
    ||| ('A' <= c && c <= 'Z')
    ||| ('0' <= c && c <= '9')
}

pub open spec fn ascii_lower(c: char) -> char {
    if 'A' <= c && c <= 'Z' {
        (c as int + 32) as char
    } else {
        c
    }
}

/// std's `char::is_alphanumeric`. Stated: the answer is the named property,
/// and on ASCII it holds exactly of letters and digits.
#[verifier::external_body]
fn char_is_alphanumeric(c: char) -> (r: bool)
    ensures
        r == alphanumeric(c),
        is_ascii_char(c) ==> r == is_ascii_alphanumeric(c),
{
    c.is_alphanumeric()
}

/// std's `str::to_lowercase`. Stated: the result is the named mapping of the
/// text, and an ASCII text has each `A`-`Z` replaced by its lowercase letter.
#[verifier::external_body]
fn str_to_lowercase(s: &str) -> (r: String)
    ensures
        r@ == lowercase(s@),
        is_ascii_text(s@) ==> r@ == s@.map_values(|c: char| ascii_lower(c)),
{
    s.to_lowercase()
}

// ---------------------------------------------------------------------------
// Slugs
// ---------------------------------------------------------------------------

/// A character of a slug: kept when alphanumeric or `-`, else replaced by `-`.
pub open spec fn slug_char(c: char) -> char {
    if alphanumeric(c) || c == '-' {
        c
    } else {
        '-'
    }
}

/// The slug of a text: lowercased, every character that is neither
/// alphanumeric nor `-` turned into `-`, and leading and trailing `-` removed.
pub open spec fn slug(s: Seq<char>) -> Seq<char> {
    trim_dashes(lowercase(s).map_values(|c: char| slug_char(c)))
}

/// A character of the slug of an ASCII text: lowercased, kept when a letter,
/// a digit or `-`, else replaced by `-`.
pub open spec fn ascii_slug_char(c: char) -> char {
    let l = ascii_lower(c);
    if is_ascii_alphanumeric(l) || l == '-' {
        l
    } else {
        '-'
    }
}

/// The slug of an ASCII text, spelled out character by character.
pub open spec fn ascii_slug(s: Seq<char>) -> Seq<char> {
    trim_dashes(s.map_values(|c: char| ascii_slug_char(c)))
}

/// Lowercase, replace non-alphanumerics with `-`, trim `-` from both ends.
/// On an ASCII text the result is spelled out: letters lowercased, digits and
/// `-` kept, every other character turned into `-`, then `-` trimmed.
pub fn slugify(s: &str) -> (r: String)
    ensures
        r@ == slug(s@),
        is_ascii_text(s@) ==> r@ == ascii_slug(s@),
{
    let lower = str_to_lowercase(s);
    let cs = chars_of(lower.as_str());
    let mut mapped: Vec<char> = Vec::new();
    let mut i: usize = 0;
    while i < cs.len()
        invariant
            i <= cs@.len(),
            cs@ == lowercase(s@),
            is_ascii_text(s@) ==> cs@ == s@.map_values(|c: char| ascii_lower(c)),
            mapped@ == cs@.take(i as int).map_values(|c: char| slug_char(c)),
            is_ascii_text(s@) ==> mapped@ == s@.take(i as int).map_values(|c: char| ascii_slug_char(c)),
        decreases cs@.len() - i,
    {
        let c = cs[i];
        let a = char_is_alphanumeric(c);
        let k = if a || c == '-' { c } else { '-' };
        proof {
            if is_ascii_text(s@) {
                assert(is_ascii_char(s@[i as int]));
                assert(c == ascii_lower(s@[i as int]));
                assert(is_ascii_char(c));
                assert(k == ascii_slug_char(s@[i as int]));
            }
        }
        mapped.push(k);
        i = i + 1;
        assert(mapped@ =~= cs@.take(i as int).map_values(|c: char| slug_char(c)));
        assert(is_ascii_text(s@) ==> mapped@ =~= s@.take(i as int).map_values(|c: char| ascii_slug_char(c)));
    }
    assert(cs@.take(cs@.len() as int) =~= cs@);
    assert(is_ascii_text(s@) ==> s@.take(s@.len() as int) =~= s@);
    let t = trim_chars(&mapped, true);
    string_from_chars(&t)
}

/// Law: a slug holds only alphanumeric characters and `-`, and neither
/// starts nor ends with `-`.
pub proof fn lemma_slug_shape(s: Seq<char>)
    ensures
        forall|i: int| 0 <= i < slug(s).len() ==> (alphanumeric(#[trigger] slug(s)[i]) || slug(s)[i] == '-'),
        slug(s).len() > 0 ==> slug(s)[0] != '-' && slug(s).last() != '-',
{
    let m = lowercase(s).map_values(|c: char| slug_char(c));
    let a = drop_leading(m, true);
    lemma_drop_leading_suffix(m, true);
    lemma_drop_trailing_prefix(a, true);
    lemma_drop_leading_first(m, true);
    lemma_drop_trailing_last(a, true);
    let r = drop_trailing(a, true);
    assert(r == slug(s));
    let off = m.len() - a.len();
    assert forall|i: int| 0 <= i < r.len() implies (alphanumeric(#[trigger] r[i]) || r[i] == '-') by {
        assert(r[i] == a[i]);
        assert(a[i] == m[off + i]);
    }
    if r.len() > 0 {
        lemma_drop_trailing_prefix(a, true);
        assert(r[0] == a[0]);
    }
}

/// Law: on an ASCII text a slug is its own slug: it is ASCII again, and
/// slugifying it gives it back unchanged.
pub proof fn lemma_ascii_slug_idempotent(s: Seq<char>)
    requires
        is_ascii_text(s),
    ensures
        is_ascii_text(ascii_slug(s)),
        ascii_slug(ascii_slug(s)) == ascii_slug(s),
{
    let m = s.map_values(|c: char| ascii_slug_char(c));
    let a = drop_leading(m, true);
    lemma_drop_leading_suffix(m, true);
    lemma_drop_trailing_prefix(a, true);
    lemma_drop_leading_first(m, true);
    lemma_drop_trailing_last(a, true);
    let r = drop_trailing(a, true);
    assert(r == ascii_slug(s));
    let off = m.len() - a.len();
    assert forall|i: int| 0 <= i < r.len() implies is_ascii_char(#[trigger] r[i]) && ascii_slug_char(r[i]) == r[i] by {
        assert(r[i] == a[i]);
        assert(a[i] == m[off + i]);
        assert(is_ascii_char(s[off + i]));
    }
    let f = r.map_values(|c: char| ascii_slug_char(c));
    assert(f =~= r);
    if r.len() > 0 {
        assert(r[0] == a[0]);
        assert(drop_leading(r, true) == r);
        assert(drop_trailing(r, true) == r);
    } else {
        assert(drop_leading(r, true) == r);
        assert(drop_trailing(r, true) == r);
    }
}

/// Law: what each ASCII character becomes in a slug: a lowercase letter or a
/// digit stays as it is, an uppercase letter becomes its lowercase letter,
/// and every other character becomes `-`.
pub proof fn lemma_ascii_slug_char_classes(c: char)
    ensures
        ('a' <= c <= 'z') ==> ascii_slug_char(c) == c,
        ('0' <= c <= '9') ==> ascii_slug_char(c) == c,
        ('A' <= c <= 'Z') ==> ascii_slug_char(c) == ((c as u32 + 32) as char),
        !('a' <= c <= 'z') && !('0' <= c <= '9') && !('A' <= c <= 'Z') ==> ascii_slug_char(c) == '-',
{
}

/// Every letter and digit of the ASCII text `s` sits, lowercased, in its slug
/// at its own position less `k`.
pub open spec fn ascii_slug_keeps_at(s: Seq<char>, k: int) -> bool {
    forall|i: int|
        0 <= i < s.len() && is_ascii_alphanumeric(#[trigger] s[i]) ==> 0 <= i - k < ascii_slug(s).len()
            && ascii_slug(s)[i - k] == ascii_lower(s[i])
}

/// Every alphanumeric character (other than `-`) of the lowercased text sits
/// in the slug of `s` at its own position less `k`.
pub open spec fn slug_keeps_at(s: Seq<char>, k: int) -> bool {
    forall|i: int|
        0 <= i < lowercase(s).len() && alphanumeric(#[trigger] lowercase(s)[i]) && lowercase(s)[i] != '-' ==> 0 <= i - k < slug(s).len()
            && slug(s)[i - k] == lowercase(s)[i]
}

/// Law: a slug of an ASCII text keeps every letter and digit of the text,
/// lowercased and in place: all of them sit in the slug at their own
/// position less one fixed offset (the dashes trimmed from the front).
pub proof fn lemma_ascii_slug_keeps_letters_and_digits(s: Seq<char>)
    requires
        is_ascii_text(s),
    ensures
        exists|k: int| #[trigger] ascii_slug_keeps_at(s, k),
{
    let m = s.map_values(|c: char| ascii_slug_char(c));
    let k = lemma_trim_dashes_keeps(m);
    assert forall|i: int|
        0 <= i < s.len() && is_ascii_alphanumeric(#[trigger] s[i]) implies 0 <= i - k < ascii_slug(s).len()
            && ascii_slug(s)[i - k] == ascii_lower(s[i]) by {
        assert(m[i] == ascii_slug_char(s[i]));
        assert(m[i] == ascii_lower(s[i]));
        assert(m[i] != '-');
    }
    assert(ascii_slug_keeps_at(s, k));
}

/// Law: a slug keeps every alphanumeric character of the lowercased text, in
/// place: all of them sit in the slug at their own position less one fixed
/// offset (the dashes trimmed from the front).
pub proof fn lemma_slug_keeps_alphanumerics(s: Seq<char>)
    ensures
        exists|k: int| #[trigger] slug_keeps_at(s, k),
{
    let l = lowercase(s);
    let m = l.map_values(|c: char| slug_char(c));
    let k = lemma_trim_dashes_keeps(m);
    assert forall|i: int|
        0 <= i < l.len() && alphanumeric(#[trigger] l[i]) && l[i] != '-' implies 0 <= i - k < slug(s).len() && slug(s)[i - k]
            == l[i] by {
        assert(m[i] == slug_char(l[i]));
        assert(m[i] != '-');
    }
    assert(slug_keeps_at(s, k));
}

// ---------------------------------------------------------------------------
// Ref paths
// ---------------------------------------------------------------------------

/// `refs/wip/<user>/<name>`.
pub open spec fn ref_path(name: Seq<char>, user: Seq<char>) -> Seq<char> {
    "refs/wip/"@ + user + seq!['/'] + name
}

/// Build the full ref path: refs/wip/<user>/<name>
pub fn wip_ref(name: &str, user: &str) -> (r: String)
    ensures
        r@ == ref_path(name@, user@),
{
    let mut v = chars_of("refs/wip/");
    append_str(&mut v, user);
    v.push('/');
    append_str(&mut v, name);
    string_from_chars(&v)
}

/// The ref prefix that `list_pattern` gives for an optional user.
pub open spec fn pattern_path(user: Option<Seq<char>>) -> Seq<char> {
    match user {
        Some(u) => "refs/wip/"@ + u + seq!['/'],
        None => "refs/wip/"@,
    }
}

/// Ref pattern for listing: refs/wip/<user>/ or refs/wip/
pub fn list_pattern(user: Option<&str>) -> (r: String)
    ensures
        r@ == pattern_path(match user { Some(u) => Some(u@), None => None }),
{
    let mut v = chars_of("refs/wip/");
    match user {
        Some(u) => {
            append_str(&mut v, u);
            v.push('/');
        },
        None => {},
    }
    string_from_chars(&v)
}

/// Law: every ref that `wip_ref` builds for a user lies under the pattern that
/// `list_pattern` gives for that user, and under the pattern for all users.
pub proof fn lemma_ref_under_pattern(name: Seq<char>, user: Seq<char>)
    ensures
        pattern_path(Some(user)).is_prefix_of(ref_path(name, user)),
        pattern_path(None).is_prefix_of(ref_path(name, user)),
{
    let r = ref_path(name, user);
    let p = pattern_path(Some(user));
    assert(r =~= p + name);
    assert(r.subrange(0, p.len() as int) =~= p);
    assert(r.subrange(0, "refs/wip/"@.len() as int) =~= "refs/wip/"@);
}

/// A value known now, or a `git` call whose answer decides it.
pub enum Lookup<T> {
    Ready(T),
    Ask(GitCall),
}

/// The call that asks for the current branch: `git rev-parse --abbrev-ref HEAD`.
pub open spec fn branch_query() -> Seq<Seq<char>> {
    seq!["rev-parse"@, "--abbrev-ref"@, "HEAD"@]
}

pub fn branch_call() -> (c: GitCall)
    ensures
        crate::git::call_args(c) == branch_query(),
        !c.allow_fail,
{
    let c = checked(vec![arg("rev-parse"), arg("--abbrev-ref"), arg("HEAD")]);
    assert(crate::git::call_args(c) =~= branch_query());
    c
}

/// Resolve a WIP name: a given name is used as it is; without one the name
/// comes from the current branch (see [`auto_name`]), which `git` is asked for.
pub fn resolve_name(name: Option<String>) -> (r: Lookup<Result<String, String>>)
    ensures
        match name {
            Some(n) => r matches Lookup::Ready(Ok(s)) && s@ == n@,
            None => r matches Lookup::Ask(c) && crate::git::call_args(c) == branch_query() && !c.allow_fail,
        },
{
    match name {
        Some(n) => Lookup::Ready(Ok(n)),
        None => Lookup::Ask(branch_call()),
    }
}

/// Auto-generate base name from current branch: the slug of the branch that
/// git answered, or git's error.
pub fn auto_name(branch: Result<String, String>) -> (r: Result<String, String>)
    ensures
        match branch {
            Ok(b) => r matches Ok(s) && s@ == slug(b@),
            Err(e) => r matches Err(f) && f@ == e@,
        },
{
    match branch {
        Ok(b) => Ok(slugify(b.as_str())),
        Err(e) => Err(e),
    }
}

/// Get the user slug for ref namespace: the same decision as [`config::user`].
pub fn user(stage: config::UserStage, reply: Result<String, String>) -> (r: Lookup<Result<String, String>>)
    ensures
        config::user_lookup_is(r, config::user_next(stage, config::text_result(reply))),
{
    config::user(stage, reply)
}

} // verus!

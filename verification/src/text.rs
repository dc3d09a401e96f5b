//! Character-level text operations shared by the parsers and formatters of
//! the library, each stated over `Seq<char>`.

use vstd::prelude::*;

verus! {

// ---------------------------------------------------------------------------
// Conversions between `str`/`String` and character vectors
// ---------------------------------------------------------------------------

/// The characters of a string slice, in order.
pub fn chars_of(s: &str) -> (v: Vec<char>)
    ensures
        v@ == s@,
{
    let mut v: Vec<char> = Vec::new();
    for c in it: s.chars()
        invariant
            v@ == it.seq().take(it.index() as int),
            it.seq() == s@,
    {
        v.push(c);
    }
    v
}

/// std's `String::push`: the character is appended.
#[verifier::external_body]
fn push_char(s: &mut String, c: char)
    ensures
        final(s)@ == old(s)@.push(c),
{
    s.push(c)
}

/// A `String` holding exactly the given characters, in order.
pub fn string_from_chars(v: &Vec<char>) -> (s: String)
    ensures
        s@ == v@,
{
    let mut s = String::new();
    let mut i: usize = 0;
    while i < v.len()
        invariant
            i <= v@.len(),
            s@ == v@.take(i as int),
        decreases v@.len() - i,
    {
        push_char(&mut s, v[i]);
        i = i + 1;
        assert(s@ =~= v@.take(i as int));
    }
    assert(v@.take(v@.len() as int) =~= v@);
    s
}

/// The views of a sequence of character vectors.
pub open spec fn views(v: Seq<Vec<char>>) -> Seq<Seq<char>> {
    v.map_values(|l: Vec<char>| l@)
}

/// Appends all of `b` to `a`.
pub fn append_chars(a: &mut Vec<char>, b: &Vec<char>)
    ensures
        final(a)@ == old(a)@ + b@,
{
    let mut i: usize = 0;
    while i < b.len()
        invariant
            i <= b@.len(),
            a@ == old(a)@ + b@.take(i as int),
        decreases b@.len() - i,
    {
        a.push(b[i]);
        i = i + 1;
        assert(b@.take(i as int) == b@.take(i - 1).push(b@[i - 1]));
    }
    assert(b@.take(b@.len() as int) == b@);
}

/// Appends the characters of `s` to `a`.
pub fn append_str(a: &mut Vec<char>, s: &str)
    ensures
        final(a)@ == old(a)@ + s@,
{
    let b = chars_of(s);
    append_chars(a, &b);
}

/// Whether two character vectors hold the same text.
pub fn chars_eq(a: &Vec<char>, b: &Vec<char>) -> (r: bool)
    ensures
        r == (a@ == b@),
{
    if a.len() != b.len() {
        return false;
    }
    let mut i: usize = 0;
    while i < a.len()
        invariant
            i <= a@.len(),
            a@.len() == b@.len(),
            forall|j: int| 0 <= j < i ==> a@[j] == b@[j],
        decreases a@.len() - i,
    {
        if a[i] != b[i] {
            return false;
        }
        i = i + 1;
    }
    assert(a@ =~= b@);
    true
}

// ---------------------------------------------------------------------------
// Decimal digits
// ---------------------------------------------------------------------------

pub open spec fn is_ascii_digit(c: char) -> bool {
    '0' <= c && c <= '9'
}

pub open spec fn all_digits(s: Seq<char>) -> bool {
    forall|i: int| 0 <= i < s.len() ==> is_ascii_digit(#[trigger] s[i])
}

/// The value of one decimal digit character.
pub open spec fn digit_value(c: char) -> nat {
    (c as int - '0' as int) as nat
}

/// The decimal digit character for `d < 10`.
pub open spec fn digit_char(d: nat) -> char {
    (d + '0' as int) as char
}

/// The value of a string of decimal digits, most significant first.
pub open spec fn digits_value(s: Seq<char>) -> nat
    decreases s.len(),
{
    if s.len() == 0 {
        0
    } else {
        digits_value(s.drop_last()) * 10 + digit_value(s.last())
    }
}

/// The shortest decimal notation of `n` (what `{}` formats for an unsigned integer).
pub open spec fn decimal(n: nat) -> Seq<char>
    decreases n,
{
    if n < 10 {
        seq![digit_char(n)]
    } else {
        decimal(n / 10).push(digit_char(n % 10))
    }
}

/// Decimal notation of `n` padded with zeros to at least two digits (`{:02}`).
pub open spec fn decimal2(n: nat) -> Seq<char> {
    if n < 10 {
        seq!['0', digit_char(n)]
    } else {
        decimal(n)
    }
}

/// The digits that std's unsigned `FromStr` reads: one optional leading `+` is skipped.
pub open spec fn unsigned_digits(s: Seq<char>) -> Seq<char> {
    if s.len() > 0 && s[0] == '+' {
        s.drop_first()
    } else {
        s
    }
}

/// std's `FromStr` for an unsigned integer type whose largest value is `max`:
/// an optional `+`, then at least one ASCII digit and nothing else, and a
/// value no larger than `max`.
pub open spec fn parse_unsigned(s: Seq<char>, max: nat) -> Option<nat> {
    let d = unsigned_digits(s);
    if d.len() > 0 && all_digits(d) && digits_value(d) <= max {
        Some(digits_value(d))
    } else {
        None
    }
}

/// std's `FromStr` for `i64`: an optional sign, then at least one ASCII digit
/// and nothing else, and a value within the range of `i64`.
pub open spec fn parse_i64(s: Seq<char>) -> Option<int> {
    if s.len() > 0 && s[0] == '-' {
        let d = s.drop_first();
        if d.len() > 0 && all_digits(d) && digits_value(d) <= 0x8000_0000_0000_0000 {
            Some(-(digits_value(d) as int))
        } else {
            None
        }
    } else {
        match parse_unsigned(s, 0x7fff_ffff_ffff_ffff) {
            Some(v) => Some(v as int),
            None => None,
        }
    }
}

proof fn lemma_digit_char(d: nat)
    requires
        d < 10,
    ensures
        is_ascii_digit(digit_char(d)),
        digit_value(digit_char(d)) == d,
{
}

/// The decimal notation of `n` is a non-empty string of digits worth `n`.
pub proof fn lemma_decimal(n: nat)
    ensures
        decimal(n).len() > 0,
        all_digits(decimal(n)),
        digits_value(decimal(n)) == n,
    decreases n,
{
    if n < 10 {
        lemma_digit_char(n);
        assert(decimal(n).drop_last() =~= Seq::<char>::empty());
        assert(digits_value(Seq::<char>::empty()) == 0);
        assert(digits_value(decimal(n)) == digits_value(decimal(n).drop_last()) * 10 + digit_value(decimal(n).last()));
    } else {
        lemma_decimal(n / 10);
        lemma_digit_char(n % 10);
        let s = decimal(n);
        assert(s.drop_last() =~= decimal(n / 10));
        assert(all_digits(s)) by {
            assert forall|i: int| 0 <= i < s.len() implies is_ascii_digit(#[trigger] s[i]) by {
                if i < s.len() - 1 {
                    assert(s[i] == decimal(n / 10)[i]);
                }
            }
        }
        assert((n / 10) * 10 + n % 10 == n);
        assert(digits_value(s) == digits_value(s.drop_last()) * 10 + digit_value(s.last()));
    }
}

/// The zero-padded notation of `n` is also a string of digits worth `n`.
pub proof fn lemma_decimal2(n: nat)
    ensures
        decimal2(n).len() > 0,
        all_digits(decimal2(n)),
        digits_value(decimal2(n)) == n,
{
    lemma_decimal(n);
    if n < 10 {
        lemma_digit_char(n);
        let s = decimal2(n);
        assert(s.drop_last() =~= seq!['0']);
        assert(seq!['0'].drop_last() =~= Seq::<char>::empty());
        assert(digits_value(Seq::<char>::empty()) == 0);
        assert(digits_value(seq!['0']) == 0);
        assert(digits_value(s) == digits_value(s.drop_last()) * 10 + digit_value(s.last()));
        assert(all_digits(s)) by {
            assert forall|i: int| 0 <= i < s.len() implies is_ascii_digit(#[trigger] s[i]) by {}
        }
    }
}

/// Reading back the decimal notation of a value gives the value.
pub proof fn lemma_parse_decimal(n: nat, max: nat)
    requires
        n <= max,
    ensures
        parse_unsigned(decimal(n), max) == Some(n),
{
    lemma_decimal(n);
    let s = decimal(n);
    assert(s[0] != '+');
    assert(unsigned_digits(s) == s);
}

proof fn lemma_digits_value_prefix(s: Seq<char>, i: int)
    requires
        0 <= i <= s.len(),
        all_digits(s),
    ensures
        digits_value(s.take(i)) <= digits_value(s),
    decreases s.len() - i,
{
    if i < s.len() {
        lemma_digits_value_prefix(s, i + 1);
        assert(s.take(i + 1).drop_last() =~= s.take(i));
    } else {
        assert(s.take(i) =~= s);
    }
}

/// Exec form of `decimal`.
pub fn decimal_chars(n: u64) -> (v: Vec<char>)
    ensures
        v@ == decimal(n as nat),
    decreases n,
{
    let d = (n % 10) as u32;
    let c = char_of_digit(d);
    if n < 10 {
        let mut v: Vec<char> = Vec::new();
        v.push(c);
        assert(v@ =~= seq![c]);
        v
    } else {
        let mut v = decimal_chars(n / 10);
        v.push(c);
        v
    }
}

fn char_of_digit(d: u32) -> (c: char)
    requires
        d < 10,
    ensures
        c == digit_char(d as nat),
{
    if d == 0 { '0' }
    else if d == 1 { '1' }
    else if d == 2 { '2' }
    else if d == 3 { '3' }
    else if d == 4 { '4' }
    else if d == 5 { '5' }
    else if d == 6 { '6' }
    else if d == 7 { '7' }
    else if d == 8 { '8' }
    else { '9' }
}

/// Exec form of `decimal2`.
pub fn decimal2_chars(n: u64) -> (v: Vec<char>)
    ensures
        v@ == decimal2(n as nat),
{
    if n < 10 {
        let mut v: Vec<char> = Vec::new();
        v.push('0');
        v.push(char_of_digit(n as u32));
        assert(v@ =~= seq!['0', digit_char(n as nat)]);
        v
    } else {
        decimal_chars(n)
    }
}

/// Reads the digits `s[start..]` as a decimal value no larger than `max`.
fn parse_digits(s: &Vec<char>, start: usize, max: u64) -> (r: Option<u64>)
    requires
        start <= s@.len(),
    ensures
        ({
            let d = s@.skip(start as int);
            match r {
                Some(v) => d.len() > 0 && all_digits(d) && digits_value(d) <= max && v == digits_value(d),
                None => !(d.len() > 0 && all_digits(d) && digits_value(d) <= max),
            }
        }),
{
    let ghost d = s@.skip(start as int);
    if start == s.len() {
        return None;
    }
    let mut acc: u128 = 0;
    let mut i: usize = start;
    while i < s.len()
        invariant
            start <= i <= s@.len(),
            d == s@.skip(start as int),
            all_digits(d.take(i - start)),
            acc == digits_value(d.take(i - start)),
            acc <= max,
        decreases s@.len() - i,
    {
        let c = s[i];
        assert(c == d[i - start]);
        if !('0' <= c && c <= '9') {
            return None;
        }
        let dv = (c as u32 - '0' as u32) as u128;
        let ghost t = d.take(i - start + 1);
        assert(t.drop_last() =~= d.take(i - start));
        assert(t.last() == c);
        acc = acc * 10 + dv;
        assert(all_digits(t)) by {
            assert forall|j: int| 0 <= j < t.len() implies is_ascii_digit(#[trigger] t[j]) by {
                if j < t.len() - 1 {
                    assert(t[j] == d.take(i - start)[j]);
                }
            }
        }
        if acc > max as u128 {
            proof {
                if all_digits(d) {
                    lemma_digits_value_prefix(d, i - start + 1);
                }
            }
            return None;
        }
        i = i + 1;
    }
    assert(d.take(d.len() as int) =~= d);
    Some(acc as u64)
}

/// Exec form of `parse_unsigned`, for a bound that fits in `u64`.
pub fn parse_unsigned_chars(s: &Vec<char>, max: u64) -> (r: Option<u64>)
    ensures
        match r {
            Some(v) => parse_unsigned(s@, max as nat) == Some(v as nat),
            None => parse_unsigned(s@, max as nat) is None,
        },
{
    if s.len() > 0 && s[0] == '+' {
        assert(s@.skip(1) =~= s@.drop_first());
        parse_digits(s, 1, max)
    } else {
        assert(s@.skip(0) =~= s@);
        parse_digits(s, 0, max)
    }
}

/// Exec form of `parse_i64`.
pub fn parse_i64_chars(s: &Vec<char>) -> (r: Option<i64>)
    ensures
        match r {
            Some(v) => parse_i64(s@) == Some(v as int),
            None => parse_i64(s@) is None,
        },
{
    if s.len() > 0 && s[0] == '-' {
        assert(s@.skip(1) =~= s@.drop_first());
        match parse_digits(s, 1, 0x8000_0000_0000_0000) {
            Some(v) => {
                if v == 0x8000_0000_0000_0000 {
                    Some(i64::MIN)
                } else {
                    Some(-(v as i64))
                }
            },
            None => None,
        }
    } else {
        match parse_unsigned_chars(s, 0x7fff_ffff_ffff_ffff) {
            Some(v) => Some(v as i64),
            None => None,
        }
    }
}

// ---------------------------------------------------------------------------
// Whitespace and trimming
// ---------------------------------------------------------------------------

/// The Unicode `White_Space` property, which std's `char::is_whitespace` tests.
pub open spec fn is_white_space(c: char) -> bool {
    ||| ('\u{9}' <= c && c <= '\u{d}')
    ||| c == ' '
    ||| c == '\u{85}'
    ||| c == '\u{a0}'
    ||| c == '\u{1680}'
    ||| ('\u{2000}' <= c && c <= '\u{200a}')
    ||| c == '\u{2028}'
    ||| c == '\u{2029}'
    ||| c == '\u{202f}'
    ||| c == '\u{205f}'
    ||| c == '\u{3000}'
}

/// Exec form of `is_white_space`.
pub fn white_space(c: char) -> (r: bool)
    ensures
        r == is_white_space(c),
{
    ('\u{9}' <= c && c <= '\u{d}') || c == ' ' || c == '\u{85}' || c == '\u{a0}'
        || c == '\u{1680}' || ('\u{2000}' <= c && c <= '\u{200a}') || c == '\u{2028}'
        || c == '\u{2029}' || c == '\u{202f}' || c == '\u{205f}' || c == '\u{3000}'
}

/// The characters that a trim removes: white space, or `-` when `dashes` holds.
pub open spec fn trimmed_char(c: char, dashes: bool) -> bool {
    if dashes {
        c == '-'
    } else {
        is_white_space(c)
    }
}

/// `s` without its leading characters that `trimmed_char` accepts.
pub open spec fn drop_leading(s: Seq<char>, dashes: bool) -> Seq<char>
    decreases s.len(),
{
    if s.len() > 0 && trimmed_char(s[0], dashes) {
        drop_leading(s.drop_first(), dashes)
    } else {
        s
    }
}

/// `s` without its trailing characters that `trimmed_char` accepts.
pub open spec fn drop_trailing(s: Seq<char>, dashes: bool) -> Seq<char>
    decreases s.len(),
{
    if s.len() > 0 && trimmed_char(s.last(), dashes) {
        drop_trailing(s.drop_last(), dashes)
    } else {
        s
    }
}

/// std's `str::trim`: leading and trailing white space removed.
pub open spec fn trim(s: Seq<char>) -> Seq<char> {
    drop_trailing(drop_leading(s, false), false)
}

/// std's `str::trim_matches('-')`: leading and trailing dashes removed.
pub open spec fn trim_dashes(s: Seq<char>) -> Seq<char> {
    drop_trailing(drop_leading(s, true), true)
}

fn is_trimmed(c: char, dashes: bool) -> (r: bool)
    ensures
        r == trimmed_char(c, dashes),
{
    if dashes {
        c == '-'
    } else {
        white_space(c)
    }
}

/// Removes the leading and trailing characters that `trimmed_char` accepts.
pub fn trim_chars(s: &Vec<char>, dashes: bool) -> (v: Vec<char>)
    ensures
        v@ == drop_trailing(drop_leading(s@, dashes), dashes),
{
    let mut a: usize = 0;
    assert(s@.skip(0) =~= s@);
    while a < s.len() && is_trimmed(s[a], dashes)
        invariant
            a <= s@.len(),
            drop_leading(s@, dashes) == drop_leading(s@.skip(a as int), dashes),
        decreases s@.len() - a,
    {
        assert(s@.skip(a as int).drop_first() =~= s@.skip(a + 1));
        a = a + 1;
    }
    let ghost t = s@.skip(a as int);
    assert(drop_leading(t, dashes) == t);
    let mut b: usize = s.len();
    while b > a && is_trimmed(s[b - 1], dashes)
        invariant
            a <= b <= s@.len(),
            t == s@.skip(a as int),
            drop_trailing(t, dashes) == drop_trailing(s@.subrange(a as int, b as int), dashes),
        decreases b,
    {
        assert(s@.subrange(a as int, b as int).drop_last() =~= s@.subrange(a as int, b - 1));
        b = b - 1;
    }
    assert(drop_trailing(s@.subrange(a as int, b as int), dashes) == s@.subrange(a as int, b as int));
    assert(s@.subrange(a as int, s@.len() as int) =~= t);
    let mut v: Vec<char> = Vec::new();
    let mut i: usize = a;
    while i < b
        invariant
            a <= i <= b <= s@.len(),
            v@ == s@.subrange(a as int, i as int),
        decreases b - i,
    {
        v.push(s[i]);
        i = i + 1;
        assert(v@ =~= s@.subrange(a as int, i as int));
    }
    v
}

/// Exec form of `trim`.
pub fn trim_ws(s: &Vec<char>) -> (v: Vec<char>)
    ensures
        v@ == trim(s@),
{
    trim_chars(s, false)
}

/// What trimming the end keeps: a prefix, not empty when the first character stays.
pub proof fn lemma_drop_trailing_prefix(s: Seq<char>, dashes: bool)
    ensures
        drop_trailing(s, dashes).len() <= s.len(),
        drop_trailing(s, dashes) == s.take(drop_trailing(s, dashes).len() as int),
        (s.len() > 0 && !trimmed_char(s[0], dashes)) ==> drop_trailing(s, dashes).len() > 0,
    decreases s.len(),
{
    if s.len() > 0 && trimmed_char(s.last(), dashes) {
        lemma_drop_trailing_prefix(s.drop_last(), dashes);
        let r = drop_trailing(s.drop_last(), dashes);
        assert(s.drop_last().take(r.len() as int) =~= s.take(r.len() as int));
        if s.len() > 0 && !trimmed_char(s[0], dashes) {
            assert(s.len() > 1);
            assert(s.drop_last()[0] == s[0]);
        }
    } else {
        assert(s.take(s.len() as int) =~= s);
    }
}

/// What trimming the start keeps: a suffix.
pub proof fn lemma_drop_leading_suffix(s: Seq<char>, dashes: bool)
    ensures
        drop_leading(s, dashes).len() <= s.len(),
        drop_leading(s, dashes) == s.skip(s.len() - drop_leading(s, dashes).len()),
    decreases s.len(),
{
    if s.len() > 0 && trimmed_char(s[0], dashes) {
        lemma_drop_leading_suffix(s.drop_first(), dashes);
        let r = drop_leading(s.drop_first(), dashes);
        assert(s.drop_first().skip(s.len() - 1 - r.len()) =~= s.skip(s.len() - r.len()));
    } else {
        assert(s.skip(0) =~= s);
    }
}

/// Trimming the start removes only characters that it trims.
pub proof fn lemma_drop_leading_only_trimmed(s: Seq<char>, dashes: bool)
    ensures
        drop_leading(s, dashes).len() <= s.len(),
        forall|j: int| 0 <= j < s.len() - drop_leading(s, dashes).len() ==> trimmed_char(#[trigger] s[j], dashes),
    decreases s.len(),
{
    if s.len() > 0 && trimmed_char(s[0], dashes) {
        lemma_drop_leading_only_trimmed(s.drop_first(), dashes);
        assert forall|j: int| 0 <= j < s.len() - drop_leading(s, dashes).len() implies trimmed_char(#[trigger] s[j], dashes) by {
            if j > 0 {
                assert(s[j] == s.drop_first()[j - 1]);
            }
        }
    }
}

/// Trimming the end removes only characters that it trims.
pub proof fn lemma_drop_trailing_only_trimmed(s: Seq<char>, dashes: bool)
    ensures
        drop_trailing(s, dashes).len() <= s.len(),
        forall|j: int| drop_trailing(s, dashes).len() <= j < s.len() ==> trimmed_char(#[trigger] s[j], dashes),
    decreases s.len(),
{
    if s.len() > 0 && trimmed_char(s.last(), dashes) {
        lemma_drop_trailing_only_trimmed(s.drop_last(), dashes);
        assert forall|j: int| drop_trailing(s, dashes).len() <= j < s.len() implies trimmed_char(#[trigger] s[j], dashes) by {
            if j < s.len() - 1 {
                assert(s[j] == s.drop_last()[j]);
            }
        }
    }
}

/// Trimming dashes keeps every other character, in place: each character of
/// `m` that is not `-` is in `trim_dashes(m)`, `k` places earlier.
pub proof fn lemma_trim_dashes_keeps(m: Seq<char>) -> (k: int)
    ensures
        0 <= k <= m.len(),
        forall|i: int| 0 <= i < m.len() && m[i] != '-' ==> 0 <= i - k < trim_dashes(m).len() && trim_dashes(m)[i - k] == #[trigger] m[i],
{
    let a = drop_leading(m, true);
    lemma_drop_leading_only_trimmed(m, true);
    lemma_drop_leading_suffix(m, true);
    lemma_drop_trailing_only_trimmed(a, true);
    lemma_drop_trailing_prefix(a, true);
    let r = drop_trailing(a, true);
    let k = m.len() - a.len();
    assert forall|i: int| 0 <= i < m.len() && m[i] != '-' implies 0 <= i - k < r.len() && r[i - k] == #[trigger] m[i] by {
        assert(!trimmed_char(m[i], true));
        assert(i >= k);
        assert(a[i - k] == m[i]);
        assert(!trimmed_char(a[i - k], true));
        assert(i - k < r.len());
        assert(r[i - k] == a[i - k]);
    }
    k
}

/// The first character left after trimming the start is not trimmed.
pub proof fn lemma_drop_leading_first(s: Seq<char>, dashes: bool)
    ensures
        drop_leading(s, dashes).len() > 0 ==> !trimmed_char(drop_leading(s, dashes)[0], dashes),
    decreases s.len(),
{
    if s.len() > 0 && trimmed_char(s[0], dashes) {
        lemma_drop_leading_first(s.drop_first(), dashes);
    }
}

/// The last character left after trimming the end is not trimmed.
pub proof fn lemma_drop_trailing_last(s: Seq<char>, dashes: bool)
    ensures
        drop_trailing(s, dashes).len() > 0 ==> !trimmed_char(drop_trailing(s, dashes).last(), dashes),
    decreases s.len(),
{
    if s.len() > 0 && trimmed_char(s.last(), dashes) {
        lemma_drop_trailing_last(s.drop_last(), dashes);
    }
}

// ---------------------------------------------------------------------------
// Prefixes, searching and splitting
// ---------------------------------------------------------------------------

/// std's `str::strip_prefix`.
pub open spec fn strip_prefix(s: Seq<char>, p: Seq<char>) -> Option<Seq<char>> {
    if p.len() <= s.len() && s.take(p.len() as int) == p {
        Some(s.skip(p.len() as int))
    } else {
        None
    }
}

/// Exec form of `strip_prefix`.
pub fn strip_prefix_chars(s: &Vec<char>, p: &Vec<char>) -> (r: Option<Vec<char>>)
    ensures
        match r {
            Some(v) => strip_prefix(s@, p@) == Some(v@),
            None => strip_prefix(s@, p@) is None,
        },
{
    if p.len() > s.len() {
        return None;
    }
    let mut i: usize = 0;
    while i < p.len()
        invariant
            p@.len() <= s@.len(),
            i <= p@.len(),
            forall|j: int| 0 <= j < i ==> s@[j] == p@[j],
        decreases p@.len() - i,
    {
        if s[i] != p[i] {
            assert(s@.take(p@.len() as int)[i as int] != p@[i as int]);
            return None;
        }
        i = i + 1;
    }
    assert(s@.take(p@.len() as int) =~= p@);
    let mut v: Vec<char> = Vec::new();
    let mut k: usize = p.len();
    while k < s.len()
        invariant
            p@.len() <= k <= s@.len(),
            v@ == s@.subrange(p@.len() as int, k as int),
        decreases s@.len() - k,
    {
        v.push(s[k]);
        k = k + 1;
        assert(v@ =~= s@.subrange(p@.len() as int, k as int));
    }
    assert(v@ =~= s@.skip(p@.len() as int));
    Some(v)
}

/// std's `str::starts_with`.
pub fn starts_with_chars(s: &Vec<char>, p: &Vec<char>) -> (r: bool)
    ensures
        r == (strip_prefix(s@, p@) is Some),
{
    match strip_prefix_chars(s, p) {
        Some(_) => true,
        None => false,
    }
}

/// Whether `p` occurs in `s` (std's `str::contains` with a string pattern).
pub open spec fn contains_text(s: Seq<char>, p: Seq<char>) -> bool {
    exists|i: int| 0 <= i && i + p.len() <= s.len() && #[trigger] s.subrange(i, i + p.len()) == p
}

/// Exec form of `contains_text`.
pub fn contains_chars(s: &Vec<char>, p: &Vec<char>) -> (r: bool)
    ensures
        r == contains_text(s@, p@),
{
    if p.len() > s.len() {
        return false;
    }
    let last = s.len() - p.len();
    let mut i: usize = 0;
    loop
        invariant_except_break
            last == s@.len() - p@.len(),
            p@.len() <= s@.len(),
            i <= last,
            forall|k: int| 0 <= k < i ==> #[trigger] s@.subrange(k, k + p@.len()) != p@,
        ensures
            forall|k: int| 0 <= k <= last ==> #[trigger] s@.subrange(k, k + p@.len()) != p@,
        decreases last - i,
    {
        let mut j: usize = 0;
        let mut same = true;
        while j < p.len()
            invariant
                i <= last,
                last == s@.len() - p@.len(),
                p@.len() <= s@.len(),
                j <= p@.len(),
                same ==> forall|m: int| 0 <= m < j ==> s@[i + m] == p@[m],
                !same ==> s@.subrange(i as int, i + p@.len()) != p@,
            decreases p@.len() - j,
        {
            let n = s.len();
            assert(i + j < n);
            let k: usize = i + j;
            if s[k] != p[j] {
                assert(s@.subrange(i as int, i + p@.len())[j as int] != p@[j as int]);
                same = false;
            }
            j = j + 1;
        }
        if same {
            assert(s@.subrange(i as int, i + p@.len()) =~= p@);
            return true;
        }
        if i == last {
            break;
        }
        i = i + 1;
    }
    assert forall|k: int| 0 <= k && k + p@.len() <= s@.len() implies #[trigger] s@.subrange(k, k + p@.len()) != p@ by {
        assert(k <= last);
    }
    false
}

/// The first index at or after `i` where `s` holds `c`.
pub open spec fn find_from(s: Seq<char>, c: char, i: int) -> Option<int>
    decreases s.len() - i,
{
    if i < 0 || i >= s.len() {
        None
    } else if s[i] == c {
        Some(i)
    } else {
        find_from(s, c, i + 1)
    }
}

/// std's `str::split_once` with a character pattern.
pub open spec fn split_once(s: Seq<char>, c: char) -> Option<(Seq<char>, Seq<char>)> {
    match find_from(s, c, 0) {
        Some(i) => Some((s.take(i), s.skip(i + 1))),
        None => None,
    }
}


/// Exec form of `split_once`.
pub fn split_once_chars(s: &Vec<char>, c: char) -> (r: Option<(Vec<char>, Vec<char>)>)
    ensures
        match r {
            Some((a, b)) => split_once(s@, c) == Some((a@, b@)),
            None => split_once(s@, c) is None,
        },
{
    let mut i: usize = 0;
    while i < s.len() && s[i] != c
        invariant
            i <= s@.len(),
            find_from(s@, c, 0) == find_from(s@, c, i as int),
        decreases s@.len() - i,
    {
        i = i + 1;
    }
    if i == s.len() {
        return None;
    }
    let mut a: Vec<char> = Vec::new();
    let mut k: usize = 0;
    while k < i
        invariant
            i < s@.len(),
            k <= i,
            a@ == s@.take(k as int),
        decreases i - k,
    {
        a.push(s[k]);
        k = k + 1;
        assert(a@ =~= s@.take(k as int));
    }
    let mut b: Vec<char> = Vec::new();
    let mut m: usize = i + 1;
    while m < s.len()
        invariant
            i < m <= s@.len(),
            b@ == s@.subrange(i + 1, m as int),
        decreases s@.len() - m,
    {
        b.push(s[m]);
        m = m + 1;
        assert(b@ =~= s@.subrange(i + 1, m as int));
    }
    assert(b@ =~= s@.skip(i + 1));
    Some((a, b))
}

// ---------------------------------------------------------------------------
// Lines and words
// ---------------------------------------------------------------------------

/// A line without the `\r` of a `\r\n` ending.
pub open spec fn strip_cr(l: Seq<char>) -> Seq<char> {
    if l.len() > 0 && l.last() == '\r' {
        l.drop_last()
    } else {
        l
    }
}

/// Scans `s` left to right: the lines ended so far, and the open line.
pub open spec fn line_scan(s: Seq<char>) -> (Seq<Seq<char>>, Seq<char>)
    decreases s.len(),
{
    if s.len() == 0 {
        (Seq::empty(), Seq::empty())
    } else {
        let (done, cur) = line_scan(s.drop_last());
        if s.last() == '\n' {
            (done.push(strip_cr(cur)), Seq::empty())
        } else {
            (done, cur.push(s.last()))
        }
    }
}

/// std's `str::lines`: split at `\n` or `\r\n`; a final line ending adds no empty line.
pub open spec fn lines(s: Seq<char>) -> Seq<Seq<char>> {
    let (done, cur) = line_scan(s);
    if cur.len() > 0 {
        done.push(cur)
    } else {
        done
    }
}

/// Exec form of `lines`.
pub fn lines_of(s: &Vec<char>) -> (v: Vec<Vec<char>>)
    ensures
        views(v@) == lines(s@),
{
    let mut done: Vec<Vec<char>> = Vec::new();
    let mut cur: Vec<char> = Vec::new();
    let mut i: usize = 0;
    while i < s.len()
        invariant
            i <= s@.len(),
            (views(done@), cur@) == line_scan(s@.take(i as int)),
        decreases s@.len() - i,
    {
        let c = s[i];
        assert(s@.take(i + 1).drop_last() =~= s@.take(i as int));
        if c == '\n' {
            let mut line = cur;
            if line.len() > 0 && line[line.len() - 1] == '\r' {
                line.pop();
            }
            assert(line@ == strip_cr(line_scan(s@.take(i as int)).1));
            done.push(line);
            cur = Vec::new();
            assert(views(done@) =~= line_scan(s@.take(i as int)).0.push(line@));
        } else {
            cur.push(c);
        }
        i = i + 1;
    }
    assert(s@.take(s@.len() as int) =~= s@);
    if cur.len() > 0 {
        done.push(cur);
        assert(views(done@) =~= line_scan(s@).0.push(line_scan(s@).1));
    }
    done
}

/// Scans `s` left to right: the words ended so far, and the open word.
pub open spec fn word_scan(s: Seq<char>) -> (Seq<Seq<char>>, Seq<char>)
    decreases s.len(),
{
    if s.len() == 0 {
        (Seq::empty(), Seq::empty())
    } else {
        let (done, cur) = word_scan(s.drop_last());
        if is_white_space(s.last()) {
            if cur.len() > 0 {
                (done.push(cur), Seq::empty())
            } else {
                (done, Seq::empty())
            }
        } else {
            (done, cur.push(s.last()))
        }
    }
}

/// std's `str::split_whitespace`: the non-empty runs of non-white-space characters.
pub open spec fn words(s: Seq<char>) -> Seq<Seq<char>> {
    let (done, cur) = word_scan(s);
    if cur.len() > 0 {
        done.push(cur)
    } else {
        done
    }
}

/// Exec form of `words`.
pub fn words_of(s: &Vec<char>) -> (v: Vec<Vec<char>>)
    ensures
        views(v@) == words(s@),
{
    let mut done: Vec<Vec<char>> = Vec::new();
    let mut cur: Vec<char> = Vec::new();
    let mut i: usize = 0;
    while i < s.len()
        invariant
            i <= s@.len(),
            (views(done@), cur@) == word_scan(s@.take(i as int)),
        decreases s@.len() - i,
    {
        let c = s[i];
        assert(s@.take(i + 1).drop_last() =~= s@.take(i as int));
        if white_space(c) {
            if cur.len() > 0 {
                let ghost w = cur@;
                done.push(cur);
                assert(views(done@) =~= word_scan(s@.take(i as int)).0.push(w));
            }
            cur = Vec::new();
        } else {
            cur.push(c);
        }
        i = i + 1;
    }
    assert(s@.take(s@.len() as int) =~= s@);
    if cur.len() > 0 {
        done.push(cur);
        assert(views(done@) =~= word_scan(s@).0.push(word_scan(s@).1));
    }
    done
}

/// Lines joined with `\n` between them.
pub open spec fn join_lines(ls: Seq<Seq<char>>) -> Seq<char>
    decreases ls.len(),
{
    if ls.len() == 0 {
        Seq::empty()
    } else if ls.len() == 1 {
        ls[0]
    } else {
        join_lines(ls.drop_last()) + seq!['\n'] + ls.last()
    }
}

/// The pieces of `s` between its `\n` characters (std's `str::split('\n')`):
/// one more piece than `s` has `\n`s, each without a `\n`.
pub open spec fn split_newlines(s: Seq<char>) -> Seq<Seq<char>>
    decreases s.len(),
{
    if s.len() == 0 {
        seq![Seq::empty()]
    } else {
        let p = split_newlines(s.drop_last());
        if s.last() == '\n' {
            p.push(Seq::empty())
        } else {
            p.update(p.len() - 1, p.last().push(s.last()))
        }
    }
}

/// Joining the pieces of `s` with `\n` gives `s` back; no piece holds a `\n`.
pub proof fn lemma_split_newlines(s: Seq<char>)
    ensures
        split_newlines(s).len() >= 1,
        join_lines(split_newlines(s)) == s,
        forall|i: int| 0 <= i < split_newlines(s).len() ==> !(#[trigger] split_newlines(s)[i]).contains('\n'),
    decreases s.len(),
{
    if s.len() == 0 {
        assert(!Seq::<char>::empty().contains('\n'));
    } else {
        let t = s.drop_last();
        lemma_split_newlines(t);
        let p = split_newlines(t);
        let c = s.last();
        assert(t.push(c) =~= s);
        if c == '\n' {
            let q = p.push(Seq::empty());
            assert(q.drop_last() =~= p);
            assert(join_lines(q) == join_lines(p) + seq!['\n'] + Seq::<char>::empty());
            assert(join_lines(q) =~= s);
            assert forall|i: int| 0 <= i < q.len() implies !(#[trigger] q[i]).contains('\n') by {
                if i < p.len() {
                    assert(q[i] == p[i]);
                } else {
                    assert(!Seq::<char>::empty().contains('\n'));
                }
            }
        } else {
            let n = p.len();
            let l = p.last().push(c);
            let q = p.update(n - 1, l);
            if n == 1 {
                assert(join_lines(q) == l);
                assert(join_lines(p) == p[0]);
                assert(l =~= s);
            } else {
                assert(q.drop_last() =~= p.drop_last());
                assert(join_lines(q) == join_lines(p.drop_last()) + seq!['\n'] + l);
                assert(join_lines(p) == join_lines(p.drop_last()) + seq!['\n'] + p.last());
                assert(join_lines(q) =~= join_lines(p).push(c));
            }
            assert forall|i: int| 0 <= i < q.len() implies !(#[trigger] q[i]).contains('\n') by {
                if i < n - 1 {
                    assert(q[i] == p[i]);
                } else {
                    assert(!p[n - 1].contains('\n'));
                    if l.contains('\n') {
                        let k = choose|k: int| 0 <= k < l.len() && l[k] == '\n';
                        if k < p[n - 1].len() {
                            assert(p[n - 1][k] == '\n');
                        }
                    }
                }
            }
        }
    }
}

/// `join_lines` of two non-empty runs of lines: the two texts with a `\n` between.
pub proof fn lemma_join_concat(a: Seq<Seq<char>>, b: Seq<Seq<char>>)
    requires
        a.len() > 0,
        b.len() > 0,
    ensures
        join_lines(a + b) == join_lines(a) + seq!['\n'] + join_lines(b),
    decreases b.len(),
{
    if b.len() == 1 {
        assert((a + b).drop_last() =~= a);
        assert((a + b).last() == b[0]);
    } else {
        lemma_join_concat(a, b.drop_last());
        assert((a + b).drop_last() =~= a + b.drop_last());
        assert((a + b).last() == b.last());
        assert(join_lines(a + b) =~= join_lines(a) + seq!['\n'] + join_lines(b));
    }
}

/// Putting `w` in front of the first line puts it in front of the joined text.
pub proof fn lemma_join_first(w: Seq<char>, ls: Seq<Seq<char>>)
    requires
        ls.len() > 0,
    ensures
        join_lines(ls.update(0, w + ls[0])) == w + join_lines(ls),
    decreases ls.len(),
{
    let q = ls.update(0, w + ls[0]);
    if ls.len() == 1 {
    } else {
        lemma_join_first(w, ls.drop_last());
        assert(q.drop_last() =~= ls.drop_last().update(0, w + ls[0]));
        assert(q.last() == ls.last());
        assert(join_lines(q) =~= w + join_lines(ls));
    }
}

/// A line that `join_lines` keeps intact when it is not the last one.
pub open spec fn plain_line(l: Seq<char>) -> bool {
    &&& !l.contains('\n')
    &&& !(l.len() > 0 && l.last() == '\r')
}

proof fn lemma_scan_append_plain(s: Seq<char>, t: Seq<char>)
    requires
        !t.contains('\n'),
    ensures
        line_scan(s + t) == (line_scan(s).0, line_scan(s).1 + t),
    decreases t.len(),
{
    if t.len() == 0 {
        assert(s + t =~= s);
        assert(line_scan(s).1 + t =~= line_scan(s).1);
    } else {
        let u = t.drop_last();
        assert(!u.contains('\n')) by {
            if u.contains('\n') {
                let k = choose|k: int| 0 <= k < u.len() && u[k] == '\n';
                assert(t[k] == '\n');
            }
        }
        lemma_scan_append_plain(s, u);
        assert((s + t).drop_last() =~= s + u);
        assert((s + t).last() == t.last());
        assert(t.last() != '\n') by {
            assert(t[t.len() - 1] == t.last());
        }
        assert((line_scan(s).1 + u).push(t.last()) =~= line_scan(s).1 + t);
    }
}

/// Splitting lines joined by `\n` gives the lines back, when none holds a
/// `\n`, none but the last ends with `\r`, and the last is not empty.
pub proof fn lemma_lines_of_join(ls: Seq<Seq<char>>)
    requires
        ls.len() > 0,
        forall|i: int| 0 <= i < ls.len() - 1 ==> plain_line(#[trigger] ls[i]),
        !ls.last().contains('\n'),
        ls.last().len() > 0,
    ensures
        lines(join_lines(ls)) == ls,
{
    lemma_scan_join(ls);
    assert(ls.drop_last().push(ls.last()) =~= ls);
}

proof fn lemma_scan_join(ls: Seq<Seq<char>>)
    requires
        ls.len() > 0,
        forall|i: int| 0 <= i < ls.len() - 1 ==> plain_line(#[trigger] ls[i]),
        !ls.last().contains('\n'),
    ensures
        line_scan(join_lines(ls)) == (ls.drop_last(), ls.last()),
    decreases ls.len(),
{
    if ls.len() == 1 {
        lemma_scan_append_plain(Seq::empty(), ls[0]);
        assert(Seq::<char>::empty() + ls[0] =~= ls[0]);
        assert(line_scan(Seq::<char>::empty()) == (Seq::<Seq<char>>::empty(), Seq::<char>::empty()));
        assert(Seq::<char>::empty() + ls[0] =~= ls[0]);
        assert(ls.drop_last() =~= Seq::<Seq<char>>::empty());
    } else {
        let front = ls.drop_last();
        assert(front.last() == ls[ls.len() - 2]);
        assert(plain_line(ls[ls.len() - 2]));
        assert forall|i: int| 0 <= i < front.len() - 1 implies plain_line(#[trigger] front[i]) by {
            assert(front[i] == ls[i]);
        }
        lemma_scan_join(front);
        let j = join_lines(front);
        let jn = j + seq!['\n'];
        assert(jn.drop_last() =~= j);
        assert(line_scan(jn) == (front.drop_last().push(strip_cr(front.last())), Seq::<char>::empty()));
        assert(strip_cr(front.last()) == front.last());
        assert(front.drop_last().push(front.last()) =~= front);
        lemma_scan_append_plain(jn, ls.last());
        assert(join_lines(ls) == jn + ls.last());
        assert(Seq::<char>::empty() + ls.last() =~= ls.last());
    }
}

} // verus!

//! What a run of `git` hands back, and the calls that the commands ask for.
//!
//! Running the process is the caller's part: a command of this library names
//! the `git` invocation it needs as a [`GitCall`], and is handed back what the
//! run produced, shaped by [`git`] or [`git_allow_fail`].

use vstd::prelude::*;
use crate::text::{append_chars, chars_of, string_from_chars, trim, trim_ws};

verus! {

/// Captured stdout/stderr from a git subprocess invocation.
pub struct GitOutput {
    pub stdout: String,
    pub stderr: String,
}

/// A `git` invocation: its arguments, and whether a non-zero exit status is
/// an answer (`allow_fail`) rather than a failure.
pub struct GitCall {
    pub args: Vec<String>,
    pub allow_fail: bool,
}

/// The views of a sequence of strings.
pub open spec fn strings_view(v: Seq<String>) -> Seq<Seq<char>> {
    v.map_values(|s: String| s@)
}

/// The arguments of a call, as text.
pub open spec fn call_args(c: GitCall) -> Seq<Seq<char>> {
    strings_view(c.args@)
}

/// What a run of git answered: stdout and stderr, or the error text.
pub open spec fn reply_view(r: Result<GitOutput, String>) -> Result<(Seq<char>, Seq<char>), Seq<char>> {
    match r {
        Ok(o) => Ok((o.stdout@, o.stderr@)),
        Err(e) => Err(e@),
    }
}

/// Name for what std's `String::from_utf8_lossy` makes of some bytes.
pub uninterp spec fn utf8_lossy(b: Seq<u8>) -> Seq<char>;

pub open spec fn ascii_bytes(b: Seq<u8>) -> bool {
    forall|i: int| 0 <= i < b.len() ==> #[trigger] b[i] < 128
}

/// std's `String::from_utf8_lossy`: valid UTF-8 is decoded, each invalid
/// sequence becomes U+FFFD. Stated here: the result is the named function of
/// the bytes, and ASCII bytes decode to the characters with the same codes.
#[verifier::external_body]
fn from_utf8_lossy(b: &[u8]) -> (s: String)
    ensures
        s@ == utf8_lossy(b@),
        ascii_bytes(b@) ==> s@ == b@.map_values(|x: u8| x as char),
{
    String::from_utf8_lossy(b).to_string()
}

/// Arguments joined by single spaces.
pub open spec fn join_args(args: Seq<Seq<char>>) -> Seq<char>
    decreases args.len(),
{
    if args.len() == 0 {
        Seq::empty()
    } else if args.len() == 1 {
        args[0]
    } else {
        join_args(args.drop_last()) + seq![' '] + args.last()
    }
}

/// The error text of a git run that exited with a failure status.
pub open spec fn failure_message(args: Seq<Seq<char>>, stderr: Seq<char>) -> Seq<char> {
    "git "@ + join_args(args) + " failed: "@ + stderr
}

fn join_args_chars(args: &Vec<String>) -> (v: Vec<char>)
    ensures
        v@ == join_args(strings_view(args@)),
{
    let ghost vs = strings_view(args@);
    let mut out: Vec<char> = Vec::new();
    if args.len() == 0 {
        return out;
    }
    out = chars_of(args[0].as_str());
    assert(vs.take(1).len() == 1);
    let mut i: usize = 1;
    while i < args.len()
        invariant
            1 <= i <= args@.len(),
            vs == strings_view(args@),
            out@ == join_args(vs.take(i as int)),
        decreases args@.len() - i,
    {
        out.push(' ');
        let a = chars_of(args[i].as_str());
        append_chars(&mut out, &a);
        let ghost t = vs.take(i + 1);
        assert(t.drop_last() =~= vs.take(i as int));
        assert(out@ =~= join_args(t.drop_last()) + seq![' '] + t.last());
        i = i + 1;
    }
    assert(vs.take(args@.len() as int) =~= vs);
    out
}

/// The result of running `git` with `args`, from its exit status and raw
/// output: stdout and stderr decoded and trimmed, and on a failure status
/// the error `git <args> failed: <stderr>`.
pub fn git(args: &Vec<String>, success: bool, stdout: &[u8], stderr: &[u8]) -> (r: Result<GitOutput, String>)
    ensures
        success ==> reply_view(r) == Ok::<(Seq<char>, Seq<char>), Seq<char>>((trim(utf8_lossy(stdout@)), trim(utf8_lossy(stderr@)))),
        !success ==> reply_view(r) == Err::<(Seq<char>, Seq<char>), Seq<char>>(
            failure_message(strings_view(args@), trim(utf8_lossy(stderr@))),
        ),
{
    let out = git_allow_fail(stdout, stderr);
    if success {
        Ok(out)
    } else {
        let mut m = chars_of("git ");
        let joined = join_args_chars(args);
        append_chars(&mut m, &joined);
        let tail = chars_of(" failed: ");
        append_chars(&mut m, &tail);
        let e = chars_of(out.stderr.as_str());
        append_chars(&mut m, &e);
        Err(string_from_chars(&m))
    }
}

/// The result of a git run whose exit status does not matter: stdout and
/// stderr decoded and trimmed.
pub fn git_allow_fail(stdout: &[u8], stderr: &[u8]) -> (o: GitOutput)
    ensures
        o.stdout@ == trim(utf8_lossy(stdout@)),
        o.stderr@ == trim(utf8_lossy(stderr@)),
{
    let so = from_utf8_lossy(stdout);
    let se = from_utf8_lossy(stderr);
    let so = string_from_chars(&trim_ws(&chars_of(so.as_str())));
    let se = string_from_chars(&trim_ws(&chars_of(se.as_str())));
    GitOutput { stdout: so, stderr: se }
}

/// The stdout of a successful git run, or its error.
pub open spec fn stdout_view(r: Result<(Seq<char>, Seq<char>), Seq<char>>) -> Result<Seq<char>, Seq<char>> {
    match r {
        Ok((o, _)) => Ok(o),
        Err(e) => Err(e),
    }
}

/// Run git command, return stdout trimmed: the stdout of a successful run, or its error.
pub fn git_stdout(reply: Result<GitOutput, String>) -> (r: Result<String, String>)
    ensures
        match r {
            Ok(s) => stdout_view(reply_view(reply)) == Ok::<Seq<char>, Seq<char>>(s@),
            Err(e) => stdout_view(reply_view(reply)) == Err::<Seq<char>, Seq<char>>(e@),
        },
{
    match reply {
        Ok(o) => Ok(o.stdout),
        Err(e) => Err(e),
    }
}

/// A string argument.
pub fn arg(s: &str) -> (a: String)
    ensures
        a@ == s@,
{
    string_from_chars(&chars_of(s))
}

/// A call whose failure status is an error.
pub fn checked(args: Vec<String>) -> (c: GitCall)
    ensures
        c.args == args,
        !c.allow_fail,
{
    GitCall { args, allow_fail: false }
}

} // verus!

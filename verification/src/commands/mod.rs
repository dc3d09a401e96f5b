//! The commands of `wip`, each a state machine over the `git` runs it needs.
//!
//! A command starts with its `run` function, which gives its first state and
//! first [`Action`]. While the action is [`Action::Git`], the caller runs that
//! call and hands what came back to the command's `resume` function, with the
//! state; the command ends with [`Action::Done`].

pub mod drop;
pub mod show;
pub mod load;
pub mod save;
pub mod list;
pub mod gc;
pub mod recent;

use vstd::prelude::*;
use crate::git::{call_args, GitCall};

verus! {

/// What a command asks for next: a `git` run, or its end with a result.
pub enum Action<T> {
    Git(GitCall),
    Done(Result<T, String>),
}

/// An action as plain values: a call's arguments and whether it may fail,
/// or the command's result.
pub enum Step<R> {
    Git(Seq<Seq<char>>, bool),
    Done(Result<R, Seq<char>>),
}

/// What a git run answered: stdout and stderr, or the error text.
pub type Reply = Result<(Seq<char>, Seq<char>), Seq<char>>;

pub open spec fn step_view<T: View>(a: Action<T>) -> Step<T::V> {
    match a {
        Action::Git(c) => Step::Git(call_args(c), c.allow_fail),
        Action::Done(Ok(v)) => Step::Done(Ok(v@)),
        Action::Done(Err(e)) => Step::Done(Err(e@)),
    }
}

/// The answer of a command that has already ended.
pub open spec fn finished_message() -> Seq<char> {
    "the command has already ended"@
}

} // verus!

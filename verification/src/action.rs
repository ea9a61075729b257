//! What an operation asks to be done, and what it is told in return.
//!
//! An operation on branches alternates decisions with work that only the outside can do: running
//! git, reading and writing files. It names each piece of work as an [`Action`] and goes on with
//! the [`Reply`] to it. A reply that does not answer the action in kind counts as a failure of
//! the action.

use crate::error::{BranchError, BranchErrorView};
use crate::registry::{BranchRegistry, RegistryView};
use std::path::PathBuf;
use vstd::prelude::*;

verus! {

/// Work to be done for an operation
#[derive(Debug)]
pub enum Action {
    /// Run a command in a directory
    Run { command: String, dir: PathBuf },
    /// Find out whether a path exists
    Exists { path: PathBuf },
    /// Read a file as text
    Read { path: PathBuf },
    /// Write text to a file
    Write { path: PathBuf, text: String },
    /// Remove a file
    Remove { path: PathBuf },
    /// Create a directory and those above it
    CreateDirs { path: PathBuf },
    /// Remove a directory and what it holds
    RemoveDir { path: PathBuf },
    /// Read a registry out of its text
    Parse { text: String },
    /// Write a registry, as text, to a file
    Store { path: PathBuf, registry: BranchRegistry },
}

/// What an action holds.
pub enum ActionView {
    Run { command: Seq<char>, dir: PathBuf },
    Exists { path: PathBuf },
    Read { path: PathBuf },
    Write { path: PathBuf, text: Seq<char> },
    Remove { path: PathBuf },
    CreateDirs { path: PathBuf },
    RemoveDir { path: PathBuf },
    Parse { text: Seq<char> },
    Store { path: PathBuf, registry: RegistryView },
}

impl View for Action {
    type V = ActionView;

    open spec fn view(&self) -> ActionView {
        match *self {
            Action::Run { command, dir } => ActionView::Run { command: command@, dir },
            Action::Exists { path } => ActionView::Exists { path },
            Action::Read { path } => ActionView::Read { path },
            Action::Write { path, text } => ActionView::Write { path, text: text@ },
            Action::Remove { path } => ActionView::Remove { path },
            Action::CreateDirs { path } => ActionView::CreateDirs { path },
            Action::RemoveDir { path } => ActionView::RemoveDir { path },
            Action::Parse { text } => ActionView::Parse { text: text@ },
            Action::Store { path, registry } => ActionView::Store { path, registry: registry@ },
        }
    }
}

impl ActionView {
    /// The action leaves everything as it is, but for what a git command does.
    pub open spec fn writes_nothing(self) -> bool {
        self is Run || self is Exists || self is Read || self is Parse
    }

    /// The reply answers the action in kind: it does not tell of a failure.
    pub open spec fn is_answered_by(self, reply: ReplyView) -> bool {
        match self {
            ActionView::Run { .. } => reply is Output,
            ActionView::Exists { .. } => reply is Exists,
            ActionView::Read { .. } => reply is Text,
            ActionView::Parse { .. } => reply is Parsed,
            _ => reply is Done,
        }
    }
}

/// What a command left behind
#[derive(Debug)]
pub struct CommandOutput {
    /// What it wrote to its standard output
    pub stdout: String,
    /// What it wrote to its standard error
    pub stderr: String,
    /// The code with which it exited, if it did
    pub exit_code: Option<i32>,
}

/// What the output of a command holds.
pub struct OutputView {
    pub stdout: Seq<char>,
    pub stderr: Seq<char>,
    pub exit_code: Option<i32>,
}

impl View for CommandOutput {
    type V = OutputView;

    open spec fn view(&self) -> OutputView {
        OutputView { stdout: self.stdout@, stderr: self.stderr@, exit_code: self.exit_code }
    }
}

impl OutputView {
    /// The command exited with the code of success.
    pub open spec fn succeeded(self) -> bool {
        self.exit_code == Some(0i32)
    }
}

impl CommandOutput {
    /// Whether the command exited with the code of success
    pub fn succeeded(&self) -> (res: bool)
        ensures
            res == self@.succeeded(),
    {
        match self.exit_code {
            Some(code) => code == 0,
            None => false,
        }
    }
}

/// The answer to an action
#[derive(Debug)]
pub enum Reply {
    /// The command ran
    Output(CommandOutput),
    /// Whether the path exists
    Exists(bool),
    /// What the file holds
    Text(String),
    /// What the registry's text says
    Parsed(BranchRegistry),
    /// The rest: it is done
    Done,
    /// The action failed
    Failed,
}

/// What a reply holds.
pub enum ReplyView {
    Output(OutputView),
    Exists(bool),
    Text(Seq<char>),
    Parsed(RegistryView),
    Done,
    Failed,
}

impl View for Reply {
    type V = ReplyView;

    open spec fn view(&self) -> ReplyView {
        match *self {
            Reply::Output(output) => ReplyView::Output(output@),
            Reply::Exists(found) => ReplyView::Exists(found),
            Reply::Text(text) => ReplyView::Text(text@),
            Reply::Parsed(registry) => ReplyView::Parsed(registry@),
            Reply::Done => ReplyView::Done,
            Reply::Failed => ReplyView::Failed,
        }
    }
}

impl ReplyView {
    /// A command ran and exited with the code of success.
    pub open spec fn succeeded(self) -> bool {
        self matches ReplyView::Output(output) && output.succeeded()
    }

    /// A command ran, but did not exit with the code of success; it wrote `stderr` to its
    /// standard error.
    pub open spec fn complained(self, stderr: Seq<char>) -> bool {
        self matches ReplyView::Output(output) && !output.succeeded() && output.stderr == stderr
    }
}

impl Reply {
    /// Whether the reply says that a path exists
    pub fn is_found(&self) -> (res: bool)
        ensures
            res == (self@ == ReplyView::Exists(true)),
    {
        match self {
            Reply::Exists(found) => *found,
            _ => false,
        }
    }

    /// Whether the reply says that the work is done
    pub fn is_done(&self) -> (res: bool)
        ensures
            res == (self@ == ReplyView::Done),
    {
        match self {
            Reply::Done => true,
            _ => false,
        }
    }
}

/// How far an operation has come
#[derive(Debug)]
pub enum Progress<S, T> {
    /// The operation has an action to be done
    Ask(S),
    /// The operation ended with a result
    Done(T),
    /// The operation ended with an error
    Failed(BranchError),
}

/// What the progress of an operation holds.
pub enum ProgressView<S, T> {
    Ask(S),
    Done(T),
    Failed(BranchErrorView),
}

impl<S: View, T: DeepView> View for Progress<S, T> {
    type V = ProgressView<S::V, T::V>;

    open spec fn view(&self) -> ProgressView<S::V, T::V> {
        match self {
            Progress::Ask(state) => ProgressView::Ask(state@),
            Progress::Done(result) => ProgressView::Done(result.deep_view()),
            Progress::Failed(error) => ProgressView::Failed(error@),
        }
    }
}

} // verus!

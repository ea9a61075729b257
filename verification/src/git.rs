//! The git commands that the operations run, and what is read out of their output.

use crate::action::{Action, ActionView, Reply, ReplyView};
use crate::error::{BranchError, BranchErrorView, Context, Refusal, RefusalView};
use crate::path;
use crate::text;
use std::path::PathBuf;
use vstd::prelude::*;

verus! {

/// A git command, by what it is for
pub enum GitView {
    /// Print the root of the repository
    ShowRoot,
    /// Find out whether there is a branch of that name
    Verify { name: Seq<char> },
    /// Create a branch and check it out
    CheckoutNew { name: Seq<char> },
    /// Check a branch out
    Checkout { name: Seq<char> },
    /// Print the name of the branch that is checked out
    ShowCurrent,
    /// Print what has changed in the working tree
    Status,
    /// Merge a branch into the base branch, which is checked out
    Merge { name: Seq<char>, base: Seq<char> },
    /// Give an unfinished merge up
    AbortMerge,
    /// Print the hash of the commit that is checked out
    ShowHead,
    /// Delete a branch
    Delete { name: Seq<char> },
}

impl GitView {
    /// The text of the command.
    pub open spec fn command(self) -> Seq<char> {
        match self {
            GitView::ShowRoot => "git rev-parse --show-toplevel"@,
            GitView::Verify { name } => "git rev-parse --verify refs/heads/"@ + name,
            GitView::CheckoutNew { name } => "git checkout -b "@ + name,
            GitView::Checkout { name } => "git checkout "@ + name,
            GitView::ShowCurrent => "git branch --show-current"@,
            GitView::Status => "git status --porcelain"@,
            GitView::Merge { name, base } => "git merge "@ + name
                + " --no-ff -m \"Merge branch '"@ + name + "' into "@ + base + "\""@,
            GitView::AbortMerge => "git merge --abort"@,
            GitView::ShowHead => "git rev-parse HEAD"@,
            GitView::Delete { name } => "git branch -D "@ + name,
        }
    }

    /// The action that runs the command in `dir`.
    pub open spec fn at(self, dir: PathBuf) -> ActionView {
        ActionView::Run { command: self.command(), dir }
    }
}

/// A git command, by what it is for
#[derive(Debug, Clone, Copy)]
pub enum Git<'a> {
    /// Print the root of the repository
    ShowRoot,
    /// Find out whether there is a branch of that name
    Verify { name: &'a str },
    /// Create a branch and check it out
    CheckoutNew { name: &'a str },
    /// Check a branch out
    Checkout { name: &'a str },
    /// Print the name of the branch that is checked out
    ShowCurrent,
    /// Print what has changed in the working tree
    Status,
    /// Merge a branch into the base branch, which is checked out
    Merge { name: &'a str, base: &'a str },
    /// Give an unfinished merge up
    AbortMerge,
    /// Print the hash of the commit that is checked out
    ShowHead,
    /// Delete a branch
    Delete { name: &'a str },
}

impl<'a> View for Git<'a> {
    type V = GitView;

    open spec fn view(&self) -> GitView {
        match *self {
            Git::ShowRoot => GitView::ShowRoot,
            Git::Verify { name } => GitView::Verify { name: name@ },
            Git::CheckoutNew { name } => GitView::CheckoutNew { name: name@ },
            Git::Checkout { name } => GitView::Checkout { name: name@ },
            Git::ShowCurrent => GitView::ShowCurrent,
            Git::Status => GitView::Status,
            Git::Merge { name, base } => GitView::Merge { name: name@, base: base@ },
            Git::AbortMerge => GitView::AbortMerge,
            Git::ShowHead => GitView::ShowHead,
            Git::Delete { name } => GitView::Delete { name: name@ },
        }
    }
}

impl<'a> Git<'a> {
    /// The command as text
    pub fn command(self) -> (res: String)
        ensures
            res@ == self@.command(),
    {
        match self {
            Git::ShowRoot => "git rev-parse --show-toplevel".to_owned(),
            Git::Verify { name } => text::join2("git rev-parse --verify refs/heads/", name),
            Git::CheckoutNew { name } => text::join2("git checkout -b ", name),
            Git::Checkout { name } => text::join2("git checkout ", name),
            Git::ShowCurrent => "git branch --show-current".to_owned(),
            Git::Status => "git status --porcelain".to_owned(),
            Git::Merge { name, base } => {
                let mut command: String = text::join3(
                    "git merge ",
                    name,
                    " --no-ff -m \"Merge branch '",
                );
                command.append(name);
                command.append("' into ");
                command.append(base);
                command.append("\"");
                command
            },
            Git::AbortMerge => "git merge --abort".to_owned(),
            Git::ShowHead => "git rev-parse HEAD".to_owned(),
            Git::Delete { name } => text::join2("git branch -D ", name),
        }
    }

    /// The action that runs the command in a directory
    pub fn at(self, dir: &PathBuf) -> (res: Action)
        ensures
            res@ == self@.at(*dir),
    {
        Action::Run { command: self.command(), dir: dir.clone() }
    }
}

/// The action is to delete a git branch.
pub open spec fn is_deletion(action: ActionView) -> bool {
    exists|name: Seq<char>, dir: PathBuf| action == #[trigger] (GitView::Delete { name }).at(dir)
}

/// No other git command deletes a branch.
pub proof fn lemma_only_delete_deletes(git: GitView, dir: PathBuf)
    requires
        !(git is Delete),
    ensures
        !is_deletion(git.at(dir)),
{
    reveal_strlit("git rev-parse --show-toplevel");
    reveal_strlit("git rev-parse --verify refs/heads/");
    reveal_strlit("git checkout -b ");
    reveal_strlit("git checkout ");
    reveal_strlit("git branch --show-current");
    reveal_strlit("git status --porcelain");
    reveal_strlit("git merge ");
    reveal_strlit("git merge --abort");
    reveal_strlit("git rev-parse HEAD");
    reveal_strlit("git branch -D ");
    let command = git.command();
    assert(command[4] == 'b' ==> command[12] == '-');
    assert forall|name: Seq<char>, other: PathBuf| git.at(dir) != #[trigger] (GitView::Delete {
        name,
    }).at(other) by {
        let delete = (GitView::Delete { name }).command();
        assert(delete[4] == 'b' && delete[12] == 'D');
    }
}

/// The root of the repository, read out of the reply to [`Git::ShowRoot`].
pub open spec fn root_in(reply: ReplyView) -> Result<PathBuf, BranchErrorView> {
    match reply {
        ReplyView::Output(output) => {
            let root = text::trimmed(output.stdout);
            if root.len() > 0 {
                Ok(path::from_text(root))
            } else {
                Err(BranchErrorView::Refused(RefusalView::NotInRepository))
            }
        },
        _ => Err(BranchErrorView::Action(Some(Context::GitRoot))),
    }
}

/// Get the git repository root out of the reply to [`Git::ShowRoot`]
pub fn get_git_root(reply: &Reply) -> (res: Result<PathBuf, BranchError>)
    ensures
        match (res, root_in(reply@)) {
            (Ok(root), Ok(expected)) => root == expected,
            (Err(error), Err(expected)) => error@ == expected,
            _ => false,
        },
{
    match reply {
        Reply::Output(output) => {
            let root = output.stdout.trim();
            if root.is_empty() {
                Err(BranchError::Refused(Refusal::NotInRepository))
            } else {
                Ok(path::parse(root))
            }
        },
        _ => Err(BranchError::Action(Some(Context::GitRoot))),
    }
}

} // verus!

//! The words of commands and messages, and the places of files.

use crate::action::{ActionView, OutputView, ReplyView};
use crate::active;
use crate::branch::MergeResultView;
use crate::delete;
use crate::error::{BranchErrorView, Context, RefusalView};
use crate::git::{self, GitView};
use crate::layout::Layout;
use crate::merge;
use crate::path;
use crate::storage;
use crate::text;
use std::path::PathBuf;
use vstd::prelude::*;

verus! {

/// The words of each git command, which is run in the directory that it is told.
pub proof fn law_git_commands(name: Seq<char>, base: Seq<char>, dir: PathBuf, git: GitView)
    ensures
        GitView::ShowRoot.command() == "git rev-parse --show-toplevel"@,
        (GitView::Verify { name }).command() == "git rev-parse --verify refs/heads/"@ + name,
        (GitView::CheckoutNew { name }).command() == "git checkout -b "@ + name,
        (GitView::Checkout { name }).command() == "git checkout "@ + name,
        GitView::ShowCurrent.command() == "git branch --show-current"@,
        GitView::Status.command() == "git status --porcelain"@,
        (GitView::Merge { name, base }).command() == "git merge "@ + name
            + " --no-ff -m \"Merge branch '"@ + name + "' into "@ + base + "\""@,
        GitView::AbortMerge.command() == "git merge --abort"@,
        GitView::ShowHead.command() == "git rev-parse HEAD"@,
        (GitView::Delete { name }).command() == "git branch -D "@ + name,
        git.at(dir) == (ActionView::Run { command: git.command(), dir }),
{
}

/// The words of each refusal.
pub proof fn law_refusals(name: Seq<char>, stderr: Seq<char>)
    ensures
        RefusalView::NotInRepository.message() == "Not in a git repository"@,
        (RefusalView::AlreadyExists { name }).message() == "Branch '"@ + name + "' already exists"@,
        (RefusalView::NotCreated { stderr }).message() == "Failed to create git branch: "@ + stderr,
        (RefusalView::DoesNotExist { name }).message() == "Branch '"@ + name + "' does not exist"@,
        (RefusalView::NotCheckedOut { stderr }).message() == "Failed to checkout branch: "@
            + stderr,
        RefusalView::NoBaseBranch.message()
            == "No base branch found (neither 'main' nor 'master' exists)"@,
        (RefusalView::BaseNotCheckedOut { stderr }).message() == "Failed to checkout base branch: "@
            + stderr,
        RefusalView::IsBaseBranch.message() == "Cannot delete the base branch"@,
        (RefusalView::NotDeleted { stderr }).message() == "Failed to delete git branch: "@ + stderr,
        (RefusalView::NotRegistered { name }).message() == "Branch '"@ + name
            + "' not found in registry"@,
{
}

/// The words of each context.
pub proof fn law_contexts()
    ensures
        Context::GitRoot.text_view() == "Failed to get git repository root"@,
        Context::CreateBranch.text_view() == "Failed to create git branch"@,
        Context::Checkout.text_view() == "Failed to checkout branch"@,
        Context::CheckoutBase.text_view() == "Failed to checkout base branch"@,
        Context::ParseRegistry.text_view() == "Failed to parse branches.json"@,
{
}

/// The registry, the marker and the work directories stand under the directory of the service.
pub proof fn law_files(forge_dir: PathBuf, layout: Layout, name: Seq<char>)
    ensures
        Layout::under(forge_dir).forge_dir == forge_dir,
        Layout::under(forge_dir).registry_path == path::joined(forge_dir, "branches.json"@),
        layout.work_dir(name) == path::joined(path::joined(layout.forge_dir, "work"@), name),
        layout.marker() == path::joined(layout.forge_dir, "current_branch"@),
        storage::mark(layout, name) == (ActionView::Write {
            path: path::joined(layout.forge_dir, "current_branch"@),
            text: name,
        }),
{
}

/// The root of the repository is just what git printed, without white space around it, where that
/// is not blank, whatever git exited with. Nothing else that is printed is refused.
pub proof fn law_root(output: OutputView, reply: ReplyView)
    ensures
        text::trimmed(output.stdout).len() > 0 ==> git::root_in(ReplyView::Output(output)) == Ok::<
            PathBuf,
            BranchErrorView,
        >(path::from_text(text::trimmed(output.stdout))),
        text::trimmed(output.stdout).len() == 0 ==> git::root_in(ReplyView::Output(output))
            == Err::<PathBuf, BranchErrorView>(
            BranchErrorView::Refused(RefusalView::NotInRepository),
        ),
        !(reply is Output) ==> git::root_in(reply) == Err::<PathBuf, BranchErrorView>(
            BranchErrorView::Action(Some(Context::GitRoot)),
        ),
{
}

/// A base branch is one named main or master, as a whole.
pub proof fn law_base_branches(name: Seq<char>)
    ensures
        delete::is_base(name) <==> name == "main"@ || name == "master"@,
{
}

/// The current branch is what the marker holds, without white space around it.
pub proof fn law_current_branch(held: Seq<char>, reply: ReplyView)
    ensures
        active::current_in(ReplyView::Text(held)) == Some(text::trimmed(held)),
        !(reply is Text) ==> active::current_in(reply) is None,
{
}

/// A command has succeeded where it exited with the code zero, and only there; otherwise it has
/// complained of what it wrote to its standard error.
pub proof fn law_success(output: OutputView, stderr: Seq<char>, reply: ReplyView)
    ensures
        output.succeeded() <==> output.exit_code == Some(0i32),
        ReplyView::Output(output).succeeded() <==> output.exit_code == Some(0i32),
        !(reply is Output) ==> !reply.succeeded() && !reply.complained(stderr),
        ReplyView::Output(output).complained(stderr) <==> output.exit_code != Some(0i32)
            && output.stderr == stderr,
{
}

/// A merge has failed where git did not exit with the code zero, and where git did, but wrote of a
/// conflict to its standard error. It has met conflicts in the latter case, and in the former where
/// git wrote a line that begins with the word in capitals.
pub proof fn law_failed_merges(output: OutputView)
    ensures
        output.exit_code != Some(0i32) ==> merge::tells_of_failure(output),
        output.exit_code == Some(0i32) ==> (merge::tells_of_failure(output) <==> text::occurs_in(
            output.stderr,
            "conflict"@,
        )),
        output.exit_code == Some(0i32) ==> (merge::tells_of_conflict(output) <==> text::occurs_in(
            output.stderr,
            "conflict"@,
        )),
        output.exit_code != Some(0i32) ==> (merge::tells_of_conflict(output) <==> {
            ||| text::begins_a_line(output.stdout, "CONFLICT"@)
            ||| text::begins_a_line(output.stderr, "CONFLICT"@)
        }),
{
}

/// The results of merges, field by field.
pub proof fn law_merge_results(
    name: Seq<char>,
    base: Seq<char>,
    hash: Option<Seq<char>>,
    output: OutputView,
    reply: ReplyView,
)
    ensures
        merge::success_result(name, base, hash) == (MergeResultView {
            branch: name,
            success: true,
            has_conflicts: false,
            commit_hash: hash,
            message: "Successfully merged '"@ + name + "' into "@ + base,
        }),
        merge::conflict_result(name) == (MergeResultView {
            branch: name,
            success: false,
            has_conflicts: true,
            commit_hash: None,
            message: "Merge conflict detected. Please resolve conflicts in branch '"@ + name
                + "' and try again."@,
        }),
        merge::tells_of_conflict(output) ==> merge::failure_result(name, base, output)
            == merge::conflict_result(name),
        !merge::tells_of_conflict(output) ==> merge::failure_result(name, base, output) == (
        MergeResultView {
            branch: name,
            success: false,
            has_conflicts: false,
            commit_hash: None,
            message: "Failed to merge '"@ + name + "' into "@ + base + ": "@ + output.stderr,
        }),
        merge::hash_in(ReplyView::Output(output)) == Some(text::trimmed(output.stdout)),
        !(reply is Output) ==> merge::hash_in(reply) is None,
{
}

/// What answers each action.
pub proof fn law_answers(action: ActionView, reply: ReplyView)
    ensures
        action is Run ==> (action.is_answered_by(reply) <==> reply is Output),
        action is Exists ==> (action.is_answered_by(reply) <==> reply is Exists),
        action is Read ==> (action.is_answered_by(reply) <==> reply is Text),
        action is Parse ==> (action.is_answered_by(reply) <==> reply is Parsed),
        action is Write || action is Remove || action is CreateDirs || action is RemoveDir
            || action is Store ==> (action.is_answered_by(reply) <==> reply is Done),
        action.writes_nothing() <==> action is Run || action is Exists || action is Read
            || action is Parse,
{
}

} // verus!

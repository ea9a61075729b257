//! Merging a branch back into the base branch.

use crate::action::{
    Action, ActionView, CommandOutput, OutputView, Progress, ProgressView, Reply, ReplyView,
};
use crate::branch::{BranchId, BranchStatus, MergeResult, MergeResultView};
use crate::delete::{DeleteBranch, DeleteStageView, DeleteView};
use crate::error::{BranchError, BranchErrorView, Context, Refusal, RefusalView};
use crate::git::{self, Git, GitView};
use crate::layout::Layout;
use crate::registry::RegistryView;
use crate::run::{self, Machine, Run};
use crate::storage::{self, LoadRegistry, LoadView, SaveRegistry, SaveView};
use crate::text;
use std::path::PathBuf;
use vstd::prelude::*;

verus! {

/// Merging a branch, step by step
#[derive(Debug)]
pub struct MergeBranch {
    /// Where the service keeps its files
    pub layout: Layout,
    /// The current directory
    pub cwd: PathBuf,
    /// The name of the branch
    pub name: String,
    /// Whether to delete the branch after a successful merge
    pub delete_after: bool,
    /// How far the merge has come
    pub stage: MergeStage,
}

/// How far a merge has come
#[derive(Debug)]
pub enum MergeStage {
    /// Git is asked for the root of the repository
    Root,
    /// Git is asked which branch is checked out
    Current { root: PathBuf },
    /// Git is asked whether there is a main branch
    FindMain { root: PathBuf, current: String },
    /// Git is asked whether there is a master branch
    FindMaster { root: PathBuf, current: String },
    /// Git is told to check the base branch out
    CheckoutBase { root: PathBuf, current: String, base: String },
    /// Git is told to check the former branch out again, not having checked the base branch out
    ReturnRefused { root: PathBuf, current: String, stderr: String },
    /// Git is told to merge
    Merge { root: PathBuf, current: String, base: String },
    /// Git is told to give the merge up
    Abort { root: PathBuf, current: String, result: MergeResult },
    /// Git is told to check the former branch out again, the merge being given up
    ReturnAborted { root: PathBuf, current: String, result: MergeResult },
    /// Git is asked for the hash of the merge
    Hash { root: PathBuf, current: String, base: String },
    /// Git is told to check the former branch out again
    Return { root: PathBuf, current: String, base: String, hash: Option<String> },
    /// The merged branch is being deleted
    Delete { delete: DeleteBranch, base: String, hash: Option<String> },
    /// The registry is being loaded
    Load { load: LoadRegistry, base: String, hash: Option<String> },
    /// The registry is being saved
    Save { save: SaveRegistry, base: String, hash: Option<String> },
}

/// What a step of merging holds.
pub struct MergeView {
    pub layout: Layout,
    pub cwd: PathBuf,
    pub name: Seq<char>,
    pub delete_after: bool,
    pub stage: MergeStageView,
}

/// What a stage of merging holds.
pub enum MergeStageView {
    Root,
    Current { root: PathBuf },
    FindMain { root: PathBuf, current: Seq<char> },
    FindMaster { root: PathBuf, current: Seq<char> },
    CheckoutBase { root: PathBuf, current: Seq<char>, base: Seq<char> },
    ReturnRefused { root: PathBuf, current: Seq<char>, stderr: Seq<char> },
    Merge { root: PathBuf, current: Seq<char>, base: Seq<char> },
    Abort { root: PathBuf, current: Seq<char>, result: MergeResultView },
    ReturnAborted { root: PathBuf, current: Seq<char>, result: MergeResultView },
    Hash { root: PathBuf, current: Seq<char>, base: Seq<char> },
    Return { root: PathBuf, current: Seq<char>, base: Seq<char>, hash: Option<Seq<char>> },
    Delete { delete: DeleteView, base: Seq<char>, hash: Option<Seq<char>> },
    Load { load: LoadView, base: Seq<char>, hash: Option<Seq<char>> },
    Save { save: SaveView, base: Seq<char>, hash: Option<Seq<char>> },
}

impl View for MergeStage {
    type V = MergeStageView;

    open spec fn view(&self) -> MergeStageView {
        match *self {
            MergeStage::Root => MergeStageView::Root,
            MergeStage::Current { root } => MergeStageView::Current { root },
            MergeStage::FindMain { root, current } => MergeStageView::FindMain {
                root,
                current: current@,
            },
            MergeStage::FindMaster { root, current } => MergeStageView::FindMaster {
                root,
                current: current@,
            },
            MergeStage::CheckoutBase { root, current, base } => MergeStageView::CheckoutBase {
                root,
                current: current@,
                base: base@,
            },
            MergeStage::ReturnRefused { root, current, stderr } => MergeStageView::ReturnRefused {
                root,
                current: current@,
                stderr: stderr@,
            },
            MergeStage::Merge { root, current, base } => MergeStageView::Merge {
                root,
                current: current@,
                base: base@,
            },
            MergeStage::Abort { root, current, result } => MergeStageView::Abort {
                root,
                current: current@,
                result: result@,
            },
            MergeStage::ReturnAborted { root, current, result } => MergeStageView::ReturnAborted {
                root,
                current: current@,
                result: result@,
            },
            MergeStage::Hash { root, current, base } => MergeStageView::Hash {
                root,
                current: current@,
                base: base@,
            },
            MergeStage::Return { root, current, base, hash } => MergeStageView::Return {
                root,
                current: current@,
                base: base@,
                hash: hash.deep_view(),
            },
            MergeStage::Delete { delete, base, hash } => MergeStageView::Delete {
                delete: delete@,
                base: base@,
                hash: hash.deep_view(),
            },
            MergeStage::Load { load, base, hash } => MergeStageView::Load {
                load: load@,
                base: base@,
                hash: hash.deep_view(),
            },
            MergeStage::Save { save, base, hash } => MergeStageView::Save {
                save: save@,
                base: base@,
                hash: hash.deep_view(),
            },
        }
    }
}

impl View for MergeBranch {
    type V = MergeView;

    open spec fn view(&self) -> MergeView {
        MergeView {
            layout: self.layout,
            cwd: self.cwd,
            name: self.name@,
            delete_after: self.delete_after,
            stage: self.stage@,
        }
    }
}

/// The hash of a commit, read out of the reply to [`Git::ShowHead`].
pub open spec fn hash_in(reply: ReplyView) -> Option<Seq<char>> {
    match reply {
        ReplyView::Output(output) => Some(text::trimmed(output.stdout)),
        _ => None,
    }
}

/// The result of a merge that met conflicts.
pub open spec fn conflict_result(name: Seq<char>) -> MergeResultView {
    MergeResultView {
        branch: name,
        success: false,
        has_conflicts: true,
        commit_hash: None,
        message: "Merge conflict detected. Please resolve conflicts in branch '"@ + name
            + "' and try again."@,
    }
}

/// The result of a merge that succeeded.
pub open spec fn success_result(
    name: Seq<char>,
    base: Seq<char>,
    hash: Option<Seq<char>>,
) -> MergeResultView {
    MergeResultView {
        branch: name,
        success: true,
        has_conflicts: false,
        commit_hash: hash,
        message: "Successfully merged '"@ + name + "' into "@ + base,
    }
}

/// The output of a merge tells of conflicts. Where git exits with the code of success, it does so
/// by writing of one to its standard error. Where it does not, it does so by the lines that git
/// writes on each conflict: they begin with the word in capitals. The words are those of git's own
/// messages, in English; a git that translates its messages is not understood.
pub open spec fn tells_of_conflict(output: OutputView) -> bool {
    if output.succeeded() {
        text::occurs_in(output.stderr, "conflict"@)
    } else {
        text::begins_a_line(output.stdout, "CONFLICT"@) || text::begins_a_line(
            output.stderr,
            "CONFLICT"@,
        )
    }
}

/// The output of a merge tells that it is to be given up: git did not exit with the code of
/// success, or there were conflicts.
pub open spec fn tells_of_failure(output: OutputView) -> bool {
    !output.succeeded() || tells_of_conflict(output)
}

/// The result of a merge into `base` that is given up: where it met no conflicts, it tells what git
/// wrote to its standard error.
pub open spec fn failure_result(
    name: Seq<char>,
    base: Seq<char>,
    output: OutputView,
) -> MergeResultView {
    if tells_of_conflict(output) {
        conflict_result(name)
    } else {
        MergeResultView {
            branch: name,
            success: false,
            has_conflicts: false,
            commit_hash: None,
            message: "Failed to merge '"@ + name + "' into "@ + base + ": "@ + output.stderr,
        }
    }
}

/// The result of a merge that met conflicts
pub fn merge_conflict(name: &str) -> (res: MergeResult)
    ensures
        res@ == conflict_result(name@),
{
    MergeResult {
        branch: BranchId::new(name),
        success: false,
        has_conflicts: true,
        commit_hash: None,
        message: text::join3(
            "Merge conflict detected. Please resolve conflicts in branch '",
            name,
            "' and try again.",
        ),
    }
}

/// The result of a merge that succeeded
pub fn merge_success(name: &str, base: &str, hash: Option<String>) -> (res: MergeResult)
    ensures
        res@ == success_result(name@, base@, hash.deep_view()),
{
    let mut message: String = text::join3("Successfully merged '", name, "' into ");
    message.append(base);
    MergeResult {
        branch: BranchId::new(name),
        success: true,
        has_conflicts: false,
        commit_hash: hash,
        message,
    }
}

/// Whether the output of a merge tells of conflicts
pub fn has_conflicts(output: &CommandOutput) -> (res: bool)
    ensures
        res == tells_of_conflict(output@),
{
    if output.succeeded() {
        text::contains(output.stderr.as_str(), "conflict")
    } else {
        text::has_line_with(output.stdout.as_str(), "CONFLICT") || text::has_line_with(
            output.stderr.as_str(),
            "CONFLICT",
        )
    }
}

/// The result of a merge that is given up, of which git left `output` behind
pub fn merge_failure(name: &str, base: &str, output: &CommandOutput) -> (res: MergeResult)
    ensures
        res@ == failure_result(name@, base@, output@),
{
    if has_conflicts(output) {
        merge_conflict(name)
    } else {
        let mut message: String = text::join3("Failed to merge '", name, "' into ");
        message.append(base);
        message.append(": ");
        message.append(output.stderr.as_str());
        MergeResult {
            branch: BranchId::new(name),
            success: false,
            has_conflicts: false,
            commit_hash: None,
            message,
        }
    }
}

impl MergeView {
    /// A merge, before anything is done.
    pub open spec fn begun(
        layout: Layout,
        cwd: PathBuf,
        name: Seq<char>,
        delete_after: bool,
    ) -> MergeView {
        MergeView { layout, cwd, name, delete_after, stage: MergeStageView::Root }
    }

    /// The same merge at another stage.
    pub open spec fn at(self, stage: MergeStageView) -> MergeView {
        MergeView { stage, ..self }
    }

    /// What is to be done.
    pub open spec fn action(self) -> ActionView {
        match self.stage {
            MergeStageView::Root => GitView::ShowRoot.at(self.cwd),
            MergeStageView::Current { root } => GitView::ShowCurrent.at(root),
            MergeStageView::FindMain { root, .. } => GitView::Verify { name: "main"@ }.at(root),
            MergeStageView::FindMaster { root, .. } => GitView::Verify { name: "master"@ }.at(root),
            MergeStageView::CheckoutBase { root, base, .. } => GitView::Checkout { name: base }.at(
                root,
            ),
            MergeStageView::ReturnRefused { root, current, .. } => GitView::Checkout {
                name: current,
            }.at(root),
            MergeStageView::Merge { root, base, .. } => GitView::Merge { name: self.name, base }.at(
                root,
            ),
            MergeStageView::Abort { root, .. } => GitView::AbortMerge.at(root),
            MergeStageView::ReturnAborted { root, current, .. } => GitView::Checkout {
                name: current,
            }.at(root),
            MergeStageView::Hash { root, .. } => GitView::ShowHead.at(root),
            MergeStageView::Return { root, current, .. } => GitView::Checkout { name: current }.at(
                root,
            ),
            MergeStageView::Delete { delete, .. } => delete.action(),
            MergeStageView::Load { load, .. } => load.action(self.layout),
            MergeStageView::Save { save, .. } => save.action(self.layout),
        }
    }

    /// What follows the reply. The merge stands, whatever the deletion of the branch ends with.
    pub open spec fn next(self, reply: ReplyView) -> ProgressView<MergeView, MergeResultView> {
        match (self.stage, reply) {
            (MergeStageView::Root, _) => match git::root_in(reply) {
                Ok(root) => ProgressView::Ask(self.at(MergeStageView::Current { root })),
                Err(error) => ProgressView::Failed(error),
            },
            (MergeStageView::Current { root }, ReplyView::Output(output)) => ProgressView::Ask(
                self.at(
                    MergeStageView::FindMain { root, current: text::trimmed(output.stdout) },
                ),
            ),
            (MergeStageView::FindMain { root, current }, ReplyView::Output(output)) => {
                if output.succeeded() {
                    let base = "main"@;
                    ProgressView::Ask(self.at(MergeStageView::CheckoutBase { root, current, base }))
                } else {
                    ProgressView::Ask(self.at(MergeStageView::FindMaster { root, current }))
                }
            },
            (MergeStageView::FindMaster { root, current }, ReplyView::Output(output)) => {
                if output.succeeded() {
                    let base = "master"@;
                    ProgressView::Ask(self.at(MergeStageView::CheckoutBase { root, current, base }))
                } else {
                    ProgressView::Failed(BranchErrorView::Refused(RefusalView::NoBaseBranch))
                }
            },
            (MergeStageView::CheckoutBase { root, current, base }, ReplyView::Output(output)) => {
                if output.succeeded() {
                    ProgressView::Ask(self.at(MergeStageView::Merge { root, current, base }))
                } else {
                    let stderr = output.stderr;
                    ProgressView::Ask(
                        self.at(MergeStageView::ReturnRefused { root, current, stderr }),
                    )
                }
            },
            (MergeStageView::ReturnRefused { stderr, .. }, ReplyView::Output(_)) => {
                ProgressView::Failed(
                    BranchErrorView::Refused(RefusalView::BaseNotCheckedOut { stderr }),
                )
            },
            (MergeStageView::CheckoutBase { .. }, _) => ProgressView::Failed(
                BranchErrorView::Action(Some(Context::CheckoutBase)),
            ),
            (MergeStageView::Merge { root, current, base }, ReplyView::Output(output)) => {
                if tells_of_failure(output) {
                    let result = failure_result(self.name, base, output);
                    ProgressView::Ask(self.at(MergeStageView::Abort { root, current, result }))
                } else {
                    ProgressView::Ask(self.at(MergeStageView::Hash { root, current, base }))
                }
            },
            (MergeStageView::Abort { root, current, result }, ReplyView::Output(_)) => {
                ProgressView::Ask(self.at(MergeStageView::ReturnAborted { root, current, result }))
            },
            (MergeStageView::ReturnAborted { result, .. }, ReplyView::Output(_)) => {
                ProgressView::Done(result)
            },
            (MergeStageView::Hash { root, current, base }, _) => {
                let hash = hash_in(reply);
                ProgressView::Ask(self.at(MergeStageView::Return { root, current, base, hash }))
            },
            (MergeStageView::Return { base, hash, .. }, ReplyView::Output(_)) => {
                if self.delete_after {
                    let delete = DeleteView::begun(self.layout, self.cwd, self.name, false);
                    ProgressView::Ask(self.at(MergeStageView::Delete { delete, base, hash }))
                } else {
                    let load = LoadView::Find;
                    ProgressView::Ask(self.at(MergeStageView::Load { load, base, hash }))
                }
            },
            (MergeStageView::Delete { delete, base, hash }, _) => match delete.next(reply) {
                ProgressView::Ask(delete) => ProgressView::Ask(
                    self.at(MergeStageView::Delete { delete, base, hash }),
                ),
                _ => ProgressView::Done(success_result(self.name, base, hash)),
            },
            (MergeStageView::Load { load, base, hash }, _) => match load.next(reply) {
                ProgressView::Ask(load) => ProgressView::Ask(
                    self.at(MergeStageView::Load { load, base, hash }),
                ),
                ProgressView::Done(registry) => {
                    let save = SaveView::of(registry.with_status(self.name, BranchStatus::Merged));
                    ProgressView::Ask(self.at(MergeStageView::Save { save, base, hash }))
                },
                ProgressView::Failed(error) => ProgressView::Failed(error),
            },
            (MergeStageView::Save { save, base, hash }, _) => match save.next(reply) {
                ProgressView::Ask(save) => ProgressView::Ask(
                    self.at(MergeStageView::Save { save, base, hash }),
                ),
                ProgressView::Done(_) => ProgressView::Done(success_result(self.name, base, hash)),
                ProgressView::Failed(error) => ProgressView::Failed(error),
            },
            _ => ProgressView::Failed(BranchErrorView::Action(None)),
        }
    }

    /// How many replies are to come at most.
    pub open spec fn rank(self) -> nat {
        match self.stage {
            MergeStageView::Root => 21,
            MergeStageView::Current { .. } => 20,
            MergeStageView::FindMain { .. } => 19,
            MergeStageView::FindMaster { .. } => 18,
            MergeStageView::CheckoutBase { .. } => 17,
            MergeStageView::ReturnRefused { .. } => 1,
            MergeStageView::Merge { .. } => 16,
            MergeStageView::Abort { .. } => 2,
            MergeStageView::ReturnAborted { .. } => 1,
            MergeStageView::Hash { .. } => 15,
            MergeStageView::Return { .. } => 14,
            MergeStageView::Delete { delete, .. } => delete.rank(),
            MergeStageView::Load { load, .. } => 3 + load.rank(),
            MergeStageView::Save { save, .. } => save.rank(),
        }
    }
}

impl MergeBranch {
    /// What is to be done
    pub fn action(&self) -> (res: Action)
        ensures
            res@ == self@.action(),
    {
        match &self.stage {
            MergeStage::Root => Git::ShowRoot.at(&self.cwd),
            MergeStage::Current { root } => Git::ShowCurrent.at(root),
            MergeStage::FindMain { root, .. } => Git::Verify { name: "main" }.at(root),
            MergeStage::FindMaster { root, .. } => Git::Verify { name: "master" }.at(root),
            MergeStage::CheckoutBase { root, base, .. } => Git::Checkout {
                name: base.as_str(),
            }.at(root),
            MergeStage::ReturnRefused { root, current, .. } => Git::Checkout {
                name: current.as_str(),
            }.at(root),
            MergeStage::Merge { root, base, .. } => Git::Merge {
                name: self.name.as_str(),
                base: base.as_str(),
            }.at(root),
            MergeStage::Abort { root, .. } => Git::AbortMerge.at(root),
            MergeStage::ReturnAborted { root, current, .. } => Git::Checkout {
                name: current.as_str(),
            }.at(root),
            MergeStage::Hash { root, .. } => Git::ShowHead.at(root),
            MergeStage::Return { root, current, .. } => Git::Checkout {
                name: current.as_str(),
            }.at(root),
            MergeStage::Delete { delete, .. } => delete.action(),
            MergeStage::Load { load, .. } => load.action(&self.layout),
            MergeStage::Save { save, .. } => save.action(&self.layout),
        }
    }

    /// Go on with the reply
    pub fn next(self, reply: Reply) -> (res: Progress<MergeBranch, MergeResult>)
        ensures
            res@ == self@.next(reply@),
    {
        match self.stage {
            MergeStage::Root => match git::get_git_root(&reply) {
                Ok(root) => Progress::Ask(
                    MergeBranch { stage: MergeStage::Current { root }, ..self },
                ),
                Err(error) => Progress::Failed(error),
            },
            MergeStage::Current { root } => match reply {
                Reply::Output(output) => {
                    let current = text::trim_owned(output.stdout.as_str());
                    Progress::Ask(
                        MergeBranch { stage: MergeStage::FindMain { root, current }, ..self },
                    )
                },
                _ => Progress::Failed(BranchError::Action(None)),
            },
            MergeStage::FindMain { root, current } => match reply {
                Reply::Output(output) => if output.succeeded() {
                    let base = "main".to_owned();
                    let stage = MergeStage::CheckoutBase { root, current, base };
                    Progress::Ask(MergeBranch { stage, ..self })
                } else {
                    let stage = MergeStage::FindMaster { root, current };
                    Progress::Ask(MergeBranch { stage, ..self })
                },
                _ => Progress::Failed(BranchError::Action(None)),
            },
            MergeStage::FindMaster { root, current } => match reply {
                Reply::Output(output) => if output.succeeded() {
                    let base = "master".to_owned();
                    let stage = MergeStage::CheckoutBase { root, current, base };
                    Progress::Ask(MergeBranch { stage, ..self })
                } else {
                    Progress::Failed(BranchError::Refused(Refusal::NoBaseBranch))
                },
                _ => Progress::Failed(BranchError::Action(None)),
            },
            MergeStage::CheckoutBase { root, current, base } => match reply {
                Reply::Output(output) => if output.succeeded() {
                    let stage = MergeStage::Merge { root, current, base };
                    Progress::Ask(MergeBranch { stage, ..self })
                } else {
                    let stderr = output.stderr;
                    let stage = MergeStage::ReturnRefused { root, current, stderr };
                    Progress::Ask(MergeBranch { stage, ..self })
                },
                _ => Progress::Failed(BranchError::Action(Some(Context::CheckoutBase))),
            },
            MergeStage::ReturnRefused { stderr, .. } => match reply {
                Reply::Output(_) => Progress::Failed(
                    BranchError::Refused(Refusal::BaseNotCheckedOut { stderr }),
                ),
                _ => Progress::Failed(BranchError::Action(None)),
            },
            MergeStage::Merge { root, current, base } => match reply {
                Reply::Output(output) => if !output.succeeded() || has_conflicts(&output) {
                    let result = merge_failure(self.name.as_str(), base.as_str(), &output);
                    let stage = MergeStage::Abort { root, current, result };
                    Progress::Ask(MergeBranch { stage, ..self })
                } else {
                    let stage = MergeStage::Hash { root, current, base };
                    Progress::Ask(MergeBranch { stage, ..self })
                },
                _ => Progress::Failed(BranchError::Action(None)),
            },
            MergeStage::Abort { root, current, result } => match reply {
                Reply::Output(_) => {
                    let stage = MergeStage::ReturnAborted { root, current, result };
                    Progress::Ask(MergeBranch { stage, ..self })
                },
                _ => Progress::Failed(BranchError::Action(None)),
            },
            MergeStage::ReturnAborted { result, .. } => match reply {
                Reply::Output(_) => Progress::Done(result),
                _ => Progress::Failed(BranchError::Action(None)),
            },
            MergeStage::Hash { root, current, base } => {
                let hash = match reply {
                    Reply::Output(output) => Some(text::trim_owned(output.stdout.as_str())),
                    _ => None,
                };
                let stage = MergeStage::Return { root, current, base, hash };
                Progress::Ask(MergeBranch { stage, ..self })
            },
            MergeStage::Return { base, hash, .. } => match reply {
                Reply::Output(_) => if self.delete_after {
                    let delete = DeleteBranch::begin(
                        self.layout.clone(),
                        self.cwd.clone(),
                        self.name.clone(),
                        false,
                    );
                    let stage = MergeStage::Delete { delete, base, hash };
                    Progress::Ask(MergeBranch { stage, ..self })
                } else {
                    let load = LoadRegistry::Find;
                    let stage = MergeStage::Load { load, base, hash };
                    Progress::Ask(MergeBranch { stage, ..self })
                },
                _ => Progress::Failed(BranchError::Action(None)),
            },
            MergeStage::Delete { delete, base, hash } => match delete.next(reply) {
                Progress::Ask(delete) => {
                    let stage = MergeStage::Delete { delete, base, hash };
                    Progress::Ask(MergeBranch { stage, ..self })
                },
                _ => Progress::Done(merge_success(self.name.as_str(), base.as_str(), hash)),
            },
            MergeStage::Load { load, base, hash } => match load.next(reply) {
                Progress::Ask(load) => {
                    let stage = MergeStage::Load { load, base, hash };
                    Progress::Ask(MergeBranch { stage, ..self })
                },
                Progress::Done(registry) => {
                    let mut registry = registry;
                    registry.set_status(&BranchId::new(self.name.as_str()), BranchStatus::Merged);
                    let save = SaveRegistry::begin(registry);
                    let stage = MergeStage::Save { save, base, hash };
                    Progress::Ask(MergeBranch { stage, ..self })
                },
                Progress::Failed(error) => Progress::Failed(error),
            },
            MergeStage::Save { save, base, hash } => match save.next(&reply) {
                Progress::Ask(save) => {
                    let stage = MergeStage::Save { save, base, hash };
                    Progress::Ask(MergeBranch { stage, ..self })
                },
                Progress::Done(_) => Progress::Done(
                    merge_success(self.name.as_str(), base.as_str(), hash),
                ),
                Progress::Failed(error) => Progress::Failed(error),
            },
        }
    }
}

impl Machine for MergeView {
    type Result = MergeResultView;

    open spec fn act(self) -> ActionView {
        self.action()
    }

    open spec fn step(self, reply: ReplyView) -> ProgressView<MergeView, MergeResultView> {
        self.next(reply)
    }
}

/// Git was asked for the root of the repository and for the branch that is checked out, and the
/// replies gave both.
pub open spec fn started_on(
    asked: Seq<ActionView>,
    replies: Seq<ReplyView>,
    cwd: PathBuf,
    root: PathBuf,
    current: Seq<char>,
) -> bool {
    &&& asked.len() >= 2
    &&& replies.len() >= 2
    &&& asked[0] == GitView::ShowRoot.at(cwd)
    &&& git::root_in(replies[0]) == Ok::<PathBuf, BranchErrorView>(root)
    &&& asked[1] == GitView::ShowCurrent.at(root)
    &&& replies[1] matches ReplyView::Output(output)
    &&& current == text::trimmed(output.stdout)
}

/// Git was asked for main, and knew of it as the base branch, or knew of none and was asked for
/// master, and knew of that; checking the base branch out is the `k`-th thing that was asked for.
pub open spec fn found_base(
    asked: Seq<ActionView>,
    replies: Seq<ReplyView>,
    root: PathBuf,
    base: Seq<char>,
    k: int,
) -> bool {
    &&& 3 <= k < asked.len()
    &&& k <= replies.len()
    &&& asked[2] == GitView::Verify { name: "main"@ }.at(root)
    &&& asked[k] == GitView::Checkout { name: base }.at(root)
    &&& {
        ||| k == 3 && base == "main"@ && replies[2].succeeded()
        ||| {
            &&& k == 4
            &&& base == "master"@
            &&& replies[2] is Output && !replies[2].succeeded()
            &&& asked[3] == GitView::Verify { name: "master"@ }.at(root)
            &&& replies[3].succeeded()
        }
    }
}

/// The base branch was found; git was told to check it out, as the `k`-th thing, and did; then it
/// was told to merge, and left `output` behind.
pub open spec fn merge_tried(
    asked: Seq<ActionView>,
    replies: Seq<ReplyView>,
    name: Seq<char>,
    base: Seq<char>,
    root: PathBuf,
    output: OutputView,
    k: int,
) -> bool {
    &&& found_base(asked, replies, root, base, k)
    &&& k + 1 < asked.len()
    &&& k + 1 < replies.len()
    &&& replies[k].succeeded()
    &&& asked[k + 1] == GitView::Merge { name, base }.at(root)
    &&& replies[k + 1] == ReplyView::Output(output)
}

/// With the base branch checked out as the `k`-th thing, the merge did not fail; then git was asked
/// for the hash of the merge, which the reply gave, and told to check out again what was checked
/// out before.
pub open spec fn merges_at(
    asked: Seq<ActionView>,
    replies: Seq<ReplyView>,
    cwd: PathBuf,
    name: Seq<char>,
    base: Seq<char>,
    root: PathBuf,
    current: Seq<char>,
    hash: Option<Seq<char>>,
    output: OutputView,
    k: int,
) -> bool {
    &&& started_on(asked, replies, cwd, root, current)
    &&& merge_tried(asked, replies, name, base, root, output, k)
    &&& !tells_of_failure(output)
    &&& k + 3 < asked.len()
    &&& k + 2 < replies.len()
    &&& asked[k + 2] == GitView::ShowHead.at(root)
    &&& hash == hash_in(replies[k + 2])
    &&& asked[k + 3] == GitView::Checkout { name: current }.at(root)
}

/// The branch was merged into `base`, with the hash `hash`, and what was checked out before was
/// checked out again, right before the `m`-th thing that was asked for.
pub open spec fn came_back(
    asked: Seq<ActionView>,
    replies: Seq<ReplyView>,
    cwd: PathBuf,
    name: Seq<char>,
    base: Seq<char>,
    hash: Option<Seq<char>>,
    m: int,
) -> bool {
    exists|root: PathBuf, current: Seq<char>, output: OutputView, k: int|
        m == k + 4 && #[trigger] merges_at(
            asked,
            replies,
            cwd,
            name,
            base,
            root,
            current,
            hash,
            output,
            k,
        )
}

/// The base branch was found, and git did not check it out, of which it wrote `stderr`; then git
/// was told, last, to check out again what was checked out before.
pub open spec fn base_was_refused(
    asked: Seq<ActionView>,
    replies: Seq<ReplyView>,
    cwd: PathBuf,
    stderr: Seq<char>,
) -> bool {
    exists|root: PathBuf, current: Seq<char>, base: Seq<char>, k: int|
        {
            &&& #[trigger] started_on(asked, replies, cwd, root, current)
            &&& #[trigger] found_base(asked, replies, root, base, k)
            &&& k < replies.len()
            &&& replies[k].complained(stderr)
            &&& asked.len() == k + 2
            &&& asked[k + 1] == GitView::Checkout { name: current }.at(root)
        }
}

/// With the base branch checked out as the `k`-th thing, the merge failed, of which `result` tells;
/// then git was told to give the merge up, and last to check out again what was checked out before.
pub open spec fn gives_up_at(
    asked: Seq<ActionView>,
    replies: Seq<ReplyView>,
    cwd: PathBuf,
    name: Seq<char>,
    result: MergeResultView,
    base: Seq<char>,
    root: PathBuf,
    current: Seq<char>,
    output: OutputView,
    k: int,
) -> bool {
    &&& started_on(asked, replies, cwd, root, current)
    &&& merge_tried(asked, replies, name, base, root, output, k)
    &&& tells_of_failure(output)
    &&& result == failure_result(name, base, output)
    &&& k + 4 == asked.len()
    &&& asked[k + 2] == GitView::AbortMerge.at(root)
    &&& asked[k + 3] == GitView::Checkout { name: current }.at(root)
}

/// The merge failed, of which `result` tells, and was given up, and what was checked out before was
/// checked out again.
pub open spec fn gave_up(
    asked: Seq<ActionView>,
    replies: Seq<ReplyView>,
    cwd: PathBuf,
    name: Seq<char>,
    result: MergeResultView,
) -> bool {
    exists|base: Seq<char>, root: PathBuf, current: Seq<char>, output: OutputView, k: int|
        gives_up_at(asked, replies, cwd, name, result, base, root, current, output, k)
}

/// `after` is a registry that was loaded, with the `from`-th thing that was asked for or later, in
/// which the branch `name` is merged where it is known.
pub open spec fn merged_in(
    asked: Seq<ActionView>,
    replies: Seq<ReplyView>,
    layout: Layout,
    name: Seq<char>,
    after: RegistryView,
    from: int,
) -> bool {
    exists|before: RegistryView, i: int|
        {
            &&& from <= i
            &&& #[trigger] storage::loaded_at(asked, replies, layout, before, i)
            &&& after == before.with_status(name, BranchStatus::Merged)
        }
}

/// `result` tells of a merge that was done as `asked` says, before the `m`-th thing.
pub open spec fn tells_of_success(
    result: MergeResultView,
    asked: Seq<ActionView>,
    replies: Seq<ReplyView>,
    cwd: PathBuf,
    name: Seq<char>,
    m: int,
) -> bool {
    exists|base: Seq<char>| #[trigger]
        came_back(asked, replies, cwd, name, base, result.commit_hash, m) && result
            == success_result(name, base, result.commit_hash)
}

/// The last thing that was asked for is to store a registry that was loaded, with the `from`-th
/// thing or later, with the branch merged.
pub open spec fn marked_as_merged(
    asked: Seq<ActionView>,
    replies: Seq<ReplyView>,
    layout: Layout,
    name: Seq<char>,
    from: int,
) -> bool {
    &&& asked.len() > 0
    &&& asked.last() matches ActionView::Store { path, registry }
    &&& path == layout.registry_path
    &&& merged_in(asked, replies, layout, name, registry, from)
}

/// What was asked for from the `m`-th thing on is just what a deletion asks for, with the replies
/// to it, and the deletion has ended, with success or not.
pub open spec fn ends_with_deletion(
    asked: Seq<ActionView>,
    replies: Seq<ReplyView>,
    delete: DeleteView,
    m: int,
) -> bool {
    let r = run::run(delete, replies.skip(m));
    &&& 0 <= m < asked.len()
    &&& m <= replies.len()
    &&& asked.skip(m) == r.asked
    &&& !(r.progress is Ask)
}

/// No git branch was to be deleted, no file or directory to be removed, and no marker to be
/// written.
pub open spec fn removes_nothing(asked: Seq<ActionView>) -> bool {
    forall|i: int|
        #![trigger asked[i]]
        0 <= i < asked.len() ==> !git::is_deletion(asked[i]) && !(asked[i] is Write) && !(
        asked[i] is Remove) && !(asked[i] is RemoveDir)
}

/// The deletion of the branch that is merged.
spec fn deletion(merge: MergeView) -> DeleteView {
    DeleteView::begun(merge.layout, merge.cwd, merge.name, false)
}

/// The deletion is under way since the `m`-th thing that was asked for, and stands at `delete`.
spec fn deleting(
    begun: MergeView,
    asked: Seq<ActionView>,
    replies: Seq<ReplyView>,
    delete: DeleteView,
    m: int,
) -> bool {
    let r = run::run(deletion(begun), replies.skip(m));
    &&& 0 <= m <= asked.len()
    &&& m <= replies.len()
    &&& asked.skip(m) == r.asked
    &&& r.progress == ProgressView::<DeleteView, ()>::Ask(delete)
}

/// The merge failed as the `k + 1`-th thing, of which `result` tells.
spec fn failed_at(
    begun: MergeView,
    asked: Seq<ActionView>,
    replies: Seq<ReplyView>,
    root: PathBuf,
    current: Seq<char>,
    result: MergeResultView,
    k: int,
) -> bool {
    &&& started_on(asked, replies, begun.cwd, root, current)
    &&& exists|base: Seq<char>, output: OutputView|
        {
            &&& #[trigger] merge_tried(asked, replies, begun.name, base, root, output, k)
            &&& tells_of_failure(output)
            &&& result == failure_result(begun.name, base, output)
        }
}

/// The merge succeeded, and what was checked out before was checked out again.
spec fn is_back(
    begun: MergeView,
    asked: Seq<ActionView>,
    replies: Seq<ReplyView>,
    base: Seq<char>,
    hash: Option<Seq<char>>,
) -> bool {
    exists|m: int|
        m <= replies.len() && #[trigger] came_back(
            asked,
            replies,
            begun.cwd,
            begun.name,
            base,
            hash,
            m,
        )
}

/// The merge succeeded, and after it a registry was loaded, of which `registry` is what is to be
/// stored.
spec fn is_marking(
    begun: MergeView,
    asked: Seq<ActionView>,
    replies: Seq<ReplyView>,
    base: Seq<char>,
    hash: Option<Seq<char>>,
    registry: RegistryView,
) -> bool {
    exists|m: int|
        {
            &&& #[trigger] came_back(asked, replies, begun.cwd, begun.name, base, hash, m)
            &&& merged_in(asked, replies, begun.layout, begun.name, registry, m)
        }
}

/// The merge succeeded before the `m`-th thing that was asked for, and then the branch was deleted
/// or marked as merged.
pub open spec fn succeeded_at(
    begun: MergeView,
    result: MergeResultView,
    asked: Seq<ActionView>,
    replies: Seq<ReplyView>,
    m: int,
) -> bool {
    &&& tells_of_success(result, asked, replies, begun.cwd, begun.name, m)
    &&& if begun.delete_after {
        ends_with_deletion(
            asked,
            replies,
            DeleteView::begun(begun.layout, begun.cwd, begun.name, false),
            m,
        )
    } else {
        marked_as_merged(asked, replies, begun.layout, begun.name, m)
    }
}

spec fn merge_inv(begun: MergeView, r: Run<MergeView>, past: Seq<ReplyView>) -> bool {
    let n = r.asked.len() as int;
    &&& !begun.delete_after ==> removes_nothing(r.asked)
    &&& match r.progress {
        ProgressView::Ask(op) => {
            &&& op == begun.at(op.stage)
            &&& op.stage is Delete || op.stage is Load || op.stage is Save || run::wrote_nothing(
                r.asked,
            )
            &&& match op.stage {
                MergeStageView::Root => n == 1,
                MergeStageView::Current { root } => {
                    &&& n == 2
                    &&& r.asked[0] == GitView::ShowRoot.at(begun.cwd)
                    &&& git::root_in(past[0]) == Ok::<PathBuf, BranchErrorView>(root)
                },
                MergeStageView::FindMain { root, current } => n == 3 && started_on(
                    r.asked,
                    past,
                    begun.cwd,
                    root,
                    current,
                ),
                MergeStageView::FindMaster { root, current } => {
                    &&& n == 4
                    &&& started_on(r.asked, past, begun.cwd, root, current)
                    &&& r.asked[2] == GitView::Verify { name: "main"@ }.at(root)
                    &&& past[2] is Output && !past[2].succeeded()
                },
                MergeStageView::CheckoutBase { root, current, base } => {
                    &&& started_on(r.asked, past, begun.cwd, root, current)
                    &&& found_base(r.asked, past, root, base, n - 1)
                },
                MergeStageView::ReturnRefused { root, current, stderr } => {
                    &&& started_on(r.asked, past, begun.cwd, root, current)
                    &&& past[n - 2].complained(stderr)
                    &&& exists|base: Seq<char>, k: int|
                        k == n - 2 && #[trigger] found_base(r.asked, past, root, base, k)
                },
                MergeStageView::Merge { root, current, base } => {
                    &&& started_on(r.asked, past, begun.cwd, root, current)
                    &&& found_base(r.asked, past, root, base, n - 2)
                    &&& past[n - 2].succeeded()
                },
                MergeStageView::Abort { root, current, result } => failed_at(
                    begun,
                    r.asked,
                    past,
                    root,
                    current,
                    result,
                    n - 3,
                ),
                MergeStageView::ReturnAborted { root, current, result } => {
                    &&& r.asked[n - 2] == GitView::AbortMerge.at(root)
                    &&& failed_at(begun, r.asked, past, root, current, result, n - 4)
                },
                MergeStageView::Hash { root, current, base } => {
                    &&& started_on(r.asked, past, begun.cwd, root, current)
                    &&& past[n - 2] matches ReplyView::Output(output)
                    &&& merge_tried(r.asked, past, begun.name, base, root, output, n - 3)
                    &&& !tells_of_failure(output)
                },
                MergeStageView::Return { root, current, base, hash } => {
                    &&& past[n - 3] matches ReplyView::Output(output)
                    &&& merges_at(
                        r.asked,
                        past,
                        begun.cwd,
                        begun.name,
                        base,
                        root,
                        current,
                        hash,
                        output,
                        n - 4,
                    )
                },
                MergeStageView::Delete { delete, base, hash } => {
                    &&& begun.delete_after
                    &&& exists|m: int|
                        {
                            &&& #[trigger] deleting(begun, r.asked, past, delete, m)
                            &&& came_back(r.asked, past, begun.cwd, begun.name, base, hash, m)
                        }
                },
                MergeStageView::Load { load, base, hash } => {
                    &&& !begun.delete_after
                    &&& storage::loading(r.asked, past, begun.layout, load)
                    &&& is_back(begun, r.asked, past, base, hash)
                },
                MergeStageView::Save { base, save, hash } => {
                    &&& !begun.delete_after
                    &&& is_marking(begun, r.asked, past, base, hash, save.registry)
                },
            }
        },
        ProgressView::Done(result) => {
            ||| {
                &&& !result.success
                &&& run::wrote_nothing(r.asked)
                &&& gave_up(r.asked, past, begun.cwd, begun.name, result)
            }
            ||| {
                &&& result.success
                &&& exists|m: int| succeeded_at(begun, result, r.asked, past, m)
            }
        },
        ProgressView::Failed(BranchErrorView::Refused(refusal)) => {
            &&& run::wrote_nothing(r.asked)
            &&& refusal is NotInRepository || refusal is NoBaseBranch || (
            refusal matches RefusalView::BaseNotCheckedOut { stderr } && base_was_refused(
                r.asked,
                past,
                begun.cwd,
                stderr,
            ))
        },
        ProgressView::Failed(_) => true,
    }
}

/// A merge that does not delete its branch asks for nothing that deletes or removes.
proof fn lemma_merge_removes_nothing(op: MergeView)
    requires
        !(op.stage is Delete),
    ensures
        removes_nothing(seq![op.action()]),
{
    let main = GitView::Verify { name: "main"@ };
    let master = GitView::Verify { name: "master"@ };
    match op.stage {
        MergeStageView::Root => git::lemma_only_delete_deletes(GitView::ShowRoot, op.cwd),
        MergeStageView::Current { root } => git::lemma_only_delete_deletes(
            GitView::ShowCurrent,
            root,
        ),
        MergeStageView::FindMain { root, .. } => git::lemma_only_delete_deletes(main, root),
        MergeStageView::FindMaster { root, .. } => git::lemma_only_delete_deletes(master, root),
        MergeStageView::CheckoutBase { root, base, .. } => git::lemma_only_delete_deletes(
            GitView::Checkout { name: base },
            root,
        ),
        MergeStageView::ReturnRefused { root, current, .. } => git::lemma_only_delete_deletes(
            GitView::Checkout { name: current },
            root,
        ),
        MergeStageView::Merge { root, base, .. } => git::lemma_only_delete_deletes(
            GitView::Merge { name: op.name, base },
            root,
        ),
        MergeStageView::Abort { root, .. } => git::lemma_only_delete_deletes(
            GitView::AbortMerge,
            root,
        ),
        MergeStageView::ReturnAborted { root, current, .. } => git::lemma_only_delete_deletes(
            GitView::Checkout { name: current },
            root,
        ),
        MergeStageView::Hash { root, .. } => git::lemma_only_delete_deletes(
            GitView::ShowHead,
            root,
        ),
        MergeStageView::Return { root, current, .. } => git::lemma_only_delete_deletes(
            GitView::Checkout { name: current },
            root,
        ),
        _ => {},
    }
}

/// A deletion within a merge goes on with the reply as it does by itself.
proof fn lemma_deletion_goes_on(
    begun: MergeView,
    r: Run<MergeView>,
    past: Seq<ReplyView>,
    delete: DeleteView,
    m: int,
    reply: ReplyView,
)
    requires
        run::keeps_pace(r, past),
        r.progress is Ask,
        r.progress->Ask_0.stage is Delete,
        r.progress->Ask_0.stage->Delete_delete == delete,
        deleting(begun, r.asked, past, delete, m),
    ensures
        ({
            let after = r.replied(reply);
            let now = past.push(reply);
            match delete.next(reply) {
                ProgressView::Ask(next) => deleting(begun, after.asked, now, next, m),
                _ => ends_with_deletion(after.asked, now, deletion(begun), m),
            }
        }),
{
    let after = r.replied(reply);
    let now = past.push(reply);
    let seen = past.skip(m);
    assert(now.skip(m) =~= seen.push(reply));
    assert(seen.push(reply).drop_last() =~= seen);
    match delete.next(reply) {
        ProgressView::Ask(next) => {
            assert(after.asked.skip(m) =~= r.asked.skip(m).push(next.action()));
        },
        _ => {
            assert(after.asked == r.asked);
        },
    }
}

/// A deletion that is over stays so.
proof fn lemma_deletion_stays(
    asked: Seq<ActionView>,
    past: Seq<ReplyView>,
    delete: DeleteView,
    m: int,
    reply: ReplyView,
)
    requires
        ends_with_deletion(asked, past, delete, m),
    ensures
        ends_with_deletion(asked, past.push(reply), delete, m),
{
    let seen = past.skip(m);
    assert(past.push(reply).skip(m) =~= seen.push(reply));
    assert(seen.push(reply).drop_last() =~= seen);
}

/// What was merged in a registry stays so.
proof fn lemma_merged_in_stays(
    begun: MergeView,
    r: Run<MergeView>,
    past: Seq<ReplyView>,
    registry: RegistryView,
    from: int,
    reply: ReplyView,
)
    requires
        merged_in(r.asked, past, begun.layout, begun.name, registry, from),
    ensures
        merged_in(
            r.replied(reply).asked,
            past.push(reply),
            begun.layout,
            begun.name,
            registry,
            from,
        ),
{
    let (before, i) = choose|before: RegistryView, i: int|
        {
            &&& from <= i
            &&& #[trigger] storage::loaded_at(r.asked, past, begun.layout, before, i)
            &&& registry == before.with_status(begun.name, BranchStatus::Merged)
        };
    storage::lemma_loaded_at_stays(r, past, begun.layout, before, i, reply);
}

/// What was tried, and what came of it, stays so.
proof fn lemma_past_stays(
    begun: MergeView,
    r: Run<MergeView>,
    past: Seq<ReplyView>,
    reply: ReplyView,
)
    requires
        run::keeps_pace(r, past),
    ensures
        ({
            let asked = r.replied(reply).asked;
            let now = past.push(reply);
            &&& forall|root: PathBuf, current: Seq<char>| #[trigger]
                started_on(r.asked, past, begun.cwd, root, current) ==> started_on(
                    asked,
                    now,
                    begun.cwd,
                    root,
                    current,
                )
            &&& forall|root: PathBuf, base: Seq<char>, k: int| #[trigger]
                found_base(r.asked, past, root, base, k) ==> found_base(asked, now, root, base, k)
            &&& forall|base: Seq<char>, root: PathBuf, output: OutputView, k: int| #[trigger]
                merge_tried(r.asked, past, begun.name, base, root, output, k) ==> merge_tried(
                    asked,
                    now,
                    begun.name,
                    base,
                    root,
                    output,
                    k,
                )
            &&& forall|base: Seq<char>, hash: Option<Seq<char>>, m: int| #[trigger]
                came_back(r.asked, past, begun.cwd, begun.name, base, hash, m) ==> came_back(
                    asked,
                    now,
                    begun.cwd,
                    begun.name,
                    base,
                    hash,
                    m,
                )
        }),
{
    let asked = r.replied(reply).asked;
    let now = past.push(reply);
    assert(forall|i: int| 0 <= i < past.len() ==> now[i] == #[trigger] past[i]);
    assert(forall|i: int| 0 <= i < r.asked.len() ==> asked[i] == #[trigger] r.asked[i]);
    assert forall|base: Seq<char>, root: PathBuf, output: OutputView, k: int| #[trigger]
        merge_tried(r.asked, past, begun.name, base, root, output, k) implies merge_tried(
        asked,
        now,
        begun.name,
        base,
        root,
        output,
        k,
    ) by {
        assert(now[k] == past[k] && now[k + 1] == past[k + 1]);
    }
    assert forall|base: Seq<char>, hash: Option<Seq<char>>, m: int| #[trigger]
        came_back(r.asked, past, begun.cwd, begun.name, base, hash, m) implies came_back(
        asked,
        now,
        begun.cwd,
        begun.name,
        base,
        hash,
        m,
    ) by {
        let (root, current, output, k) = choose|
            root: PathBuf,
            current: Seq<char>,
            output: OutputView,
            k: int,
        |
            m == k + 4 && #[trigger] merges_at(
                r.asked,
                past,
                begun.cwd,
                begun.name,
                base,
                root,
                current,
                hash,
                output,
                k,
            );
        assert(now[k + 2] == past[k + 2]);
        assert(merge_tried(asked, now, begun.name, base, root, output, k));
        assert(merges_at(
            asked,
            now,
            begun.cwd,
            begun.name,
            base,
            root,
            current,
            hash,
            output,
            k,
        ));
    }
}

/// The invariant is kept while the merge itself is under way.
proof fn lemma_merging_step(
    begun: MergeView,
    r: Run<MergeView>,
    past: Seq<ReplyView>,
    reply: ReplyView,
)
    requires
        run::keeps_pace(r, past),
        merge_inv(begun, r, past),
        r.progress is Ask,
        !(r.progress->Ask_0.stage is Delete),
        !(r.progress->Ask_0.stage is Load),
        !(r.progress->Ask_0.stage is Save),
        !begun.delete_after ==> removes_nothing(r.replied(reply).asked),
    ensures
        merge_inv(begun, r.replied(reply), past.push(reply)),
{
    let now = past.push(reply);
    let after = r.replied(reply);
    let n = r.asked.len() as int;
    lemma_past_stays(begun, r, past, reply);
    assert(forall|i: int| 0 <= i < past.len() ==> now[i] == #[trigger] past[i]);
    assert(now[n - 1] == reply);
    let op = r.progress->Ask_0;
    match op.stage {
        MergeStageView::CheckoutBase { root, current, base } => {
            let k = n - 1;
            assert(found_base(r.asked, past, root, base, k));
            assert(found_base(after.asked, now, root, base, k));
            if after.progress is Ask {
                assert(after.asked.len() == n + 1);
                assert(now[k] == reply);
            }
        },
        MergeStageView::ReturnRefused { root, current, stderr } => {
            let (base, k) = choose|base: Seq<char>, k: int|
                k == n - 2 && #[trigger] found_base(r.asked, past, root, base, k);
            assert(now[k] == past[k]);
            assert(started_on(after.asked, now, begun.cwd, root, current));
            assert(found_base(after.asked, now, root, base, k));
        },
        MergeStageView::Merge { root, current, base } => {
            assert(now[n - 2] == past[n - 2]);
            if reply is Output {
                let output = reply->Output_0;
                assert(merge_tried(after.asked, now, begun.name, base, root, output, n - 2));
            }
        },
        MergeStageView::ReturnAborted { root, current, result } => {
            let k = n - 4;
            let (base, output) = choose|base: Seq<char>, output: OutputView|
                {
                    &&& #[trigger] merge_tried(r.asked, past, begun.name, base, root, output, k)
                    &&& tells_of_failure(output)
                    &&& result == failure_result(begun.name, base, output)
                };
            assert(merge_tried(after.asked, now, begun.name, base, root, output, k));
            if after.progress is Done {
                assert(gives_up_at(
                    after.asked,
                    now,
                    begun.cwd,
                    begun.name,
                    result,
                    base,
                    root,
                    current,
                    output,
                    k,
                ));
            }
        },
        MergeStageView::Hash { root, current, base } => {
            assert(now[n - 2] == past[n - 2]);
            let output = past[n - 2]->Output_0;
            assert(merges_at(
                after.asked,
                now,
                begun.cwd,
                begun.name,
                base,
                root,
                current,
                hash_in(reply),
                output,
                n - 3,
            ));
        },
        MergeStageView::Return { root, current, base, hash } => {
            let output = past[n - 3]->Output_0;
            assert(merges_at(
                r.asked,
                past,
                begun.cwd,
                begun.name,
                base,
                root,
                current,
                hash,
                output,
                n - 4,
            ));
            assert(came_back(r.asked, past, begun.cwd, begun.name, base, hash, n));
            assert(came_back(after.asked, now, begun.cwd, begun.name, base, hash, n));
            assert(is_back(begun, after.asked, now, base, hash));
            if after.progress is Ask && begun.delete_after {
                assert(now.skip(n) =~= Seq::empty());
                assert(after.asked.skip(n) =~= seq![deletion(begun).action()]);
                assert(deleting(begun, after.asked, now, deletion(begun), n));
            }
        },
        _ => {},
    }
}

/// The invariant is kept while the merged branch is being deleted or marked.
proof fn lemma_merged_step(
    begun: MergeView,
    r: Run<MergeView>,
    past: Seq<ReplyView>,
    reply: ReplyView,
)
    requires
        run::keeps_pace(r, past),
        merge_inv(begun, r, past),
        r.progress is Ask,
        r.progress->Ask_0.stage is Delete || r.progress->Ask_0.stage is Load
            || r.progress->Ask_0.stage is Save,
        !begun.delete_after ==> removes_nothing(r.replied(reply).asked),
    ensures
        merge_inv(begun, r.replied(reply), past.push(reply)),
{
    let now = past.push(reply);
    let after = r.replied(reply);
    let n = r.asked.len() as int;
    lemma_past_stays(begun, r, past, reply);
    assert(now[n - 1] == reply);
    let op = r.progress->Ask_0;
    match op.stage {
        MergeStageView::Delete { delete, base, hash } => {
            let m = choose|m: int|
                {
                    &&& #[trigger] deleting(begun, r.asked, past, delete, m)
                    &&& came_back(r.asked, past, begun.cwd, begun.name, base, hash, m)
                };
            lemma_deletion_goes_on(begun, r, past, delete, m, reply);
            assert(came_back(after.asked, now, begun.cwd, begun.name, base, hash, m));
            if !(delete.next(reply) is Ask) {
                let result = success_result(begun.name, base, hash);
                assert(tells_of_success(result, after.asked, now, begun.cwd, begun.name, m));
                assert(succeeded_at(begun, result, after.asked, now, m));
            }
        },
        MergeStageView::Load { load, base, hash } => {
            let m = choose|m: int|
                m <= past.len() && #[trigger] came_back(
                    r.asked,
                    past,
                    begun.cwd,
                    begun.name,
                    base,
                    hash,
                    m,
                );
            assert(came_back(after.asked, now, begun.cwd, begun.name, base, hash, m));
            assert(is_back(begun, after.asked, now, base, hash));
            storage::lemma_load_step(r, past, begun.layout, load, reply);
            if load.next(reply) is Done {
                let before = load.next(reply)->Done_0;
                let registry = before.with_status(begun.name, BranchStatus::Merged);
                assert(storage::loaded_at(
                    after.asked,
                    now,
                    begun.layout,
                    before,
                    past.len() as int,
                ));
                assert(merged_in(after.asked, now, begun.layout, begun.name, registry, m));
                assert(is_marking(begun, after.asked, now, base, hash, registry));
            }
        },
        MergeStageView::Save { save, base, hash } => {
            let registry = save.registry;
            let m = choose|m: int|
                {
                    &&& #[trigger] came_back(
                        r.asked,
                        past,
                        begun.cwd,
                        begun.name,
                        base,
                        hash,
                        m,
                    )
                    &&& merged_in(r.asked, past, begun.layout, begun.name, registry, m)
                };
            assert(came_back(after.asked, now, begun.cwd, begun.name, base, hash, m));
            lemma_merged_in_stays(begun, r, past, registry, m, reply);
            assert(is_marking(begun, after.asked, now, base, hash, registry));
            if after.progress is Done {
                let result = success_result(begun.name, base, hash);
                assert(tells_of_success(result, after.asked, now, begun.cwd, begun.name, m));
                assert(succeeded_at(begun, result, after.asked, now, m));
            }
        },
        _ => {},
    }
}

/// The invariant is kept after the end.
proof fn lemma_merge_over(
    begun: MergeView,
    r: Run<MergeView>,
    past: Seq<ReplyView>,
    reply: ReplyView,
)
    requires
        run::keeps_pace(r, past),
        merge_inv(begun, r, past),
        !(r.progress is Ask),
    ensures
        merge_inv(begun, r.replied(reply), past.push(reply)),
{
    let now = past.push(reply);
    lemma_past_stays(begun, r, past, reply);
    if r.progress is Done {
        let result = r.progress->Done_0;
        if !result.success {
            let (base, root, current, output, k) = choose|
                base: Seq<char>,
                root: PathBuf,
                current: Seq<char>,
                output: OutputView,
                k: int,
            |
                gives_up_at(
                    r.asked,
                    past,
                    begun.cwd,
                    begun.name,
                    result,
                    base,
                    root,
                    current,
                    output,
                    k,
                );
            assert(merge_tried(r.asked, now, begun.name, base, root, output, k));
            assert(gives_up_at(
                r.asked,
                now,
                begun.cwd,
                begun.name,
                result,
                base,
                root,
                current,
                output,
                k,
            ));
        } else {
            let m = choose|m: int| succeeded_at(begun, result, r.asked, past, m);
            let base = choose|base: Seq<char>| #[trigger]
                came_back(
                    r.asked,
                    past,
                    begun.cwd,
                    begun.name,
                    base,
                    result.commit_hash,
                    m,
                ) && result == success_result(begun.name, base, result.commit_hash);
            assert(came_back(
                r.asked,
                now,
                begun.cwd,
                begun.name,
                base,
                result.commit_hash,
                m,
            ));
            assert(tells_of_success(result, r.asked, now, begun.cwd, begun.name, m));
            if begun.delete_after {
                lemma_deletion_stays(r.asked, past, deletion(begun), m, reply);
            } else {
                lemma_merged_in_stays(begun, r, past, r.asked.last()->Store_registry, m, reply);
            }
            assert(succeeded_at(begun, result, r.asked, now, m));
        }
    } else if let ProgressView::Failed(
        BranchErrorView::Refused(RefusalView::BaseNotCheckedOut { stderr }),
    ) = r.progress {
        let (root, current, base, k) = choose|
            root: PathBuf,
            current: Seq<char>,
            base: Seq<char>,
            k: int,
        |
            {
                &&& #[trigger] started_on(r.asked, past, begun.cwd, root, current)
                &&& #[trigger] found_base(r.asked, past, root, base, k)
                &&& k < past.len()
                &&& past[k].complained(stderr)
                &&& r.asked.len() == k + 2
                &&& r.asked[k + 1] == GitView::Checkout { name: current }.at(root)
            };
        assert(now[k] == past[k]);
        assert(started_on(r.asked, now, begun.cwd, root, current));
        assert(found_base(r.asked, now, root, base, k));
    }
}

proof fn lemma_merge_step(
    begun: MergeView,
    r: Run<MergeView>,
    past: Seq<ReplyView>,
    reply: ReplyView,
)
    requires
        run::keeps_pace(r, past),
        merge_inv(begun, r, past),
    ensures
        merge_inv(begun, r.replied(reply), past.push(reply)),
{
    if r.progress is Ask {
        let op = r.progress->Ask_0;
        if !begun.delete_after && op.next(reply) is Ask {
            let next = op.next(reply)->Ask_0;
            lemma_merge_removes_nothing(next);
            assert(seq![next.action()][0] == next.action());
        }
        if op.stage is Delete || op.stage is Load || op.stage is Save {
            lemma_merged_step(begun, r, past, reply);
        } else {
            lemma_merging_step(begun, r, past, reply);
        }
    } else {
        lemma_merge_over(begun, r, past, reply);
    }
}

/// A merge ends with a result only after git was asked for the root of the repository and for the
/// branch that is checked out, the base branch, main or where there is no main, master, was found
/// and checked out, and git was told to merge. No merge both succeeds and has conflicts.
///
/// Where the merge failed, the result tells whether there were conflicts, nothing was written, and
/// the last things that were asked for are to give the merge up and to check out again what was
/// checked out before. Where it did not, the result tells of a merge into the base branch, and what
/// was checked out before was checked out again.
///
/// After the checkout of what was checked out before, a merge that succeeded and does not delete
/// its branch goes on to load the registry and ends with storing it, with the branch merged; it
/// never deletes a branch nor touches the marker. One that is to delete its branch asks from there
/// on for just what a deletion asks for, and is a success whether that comes about or not.
///
/// A merge that is refused has written nothing; where git did not check the base branch out, git
/// was told last to check out again what was checked out before.
pub proof fn law_merge(
    layout: Layout,
    cwd: PathBuf,
    name: Seq<char>,
    delete_after: bool,
    replies: Seq<ReplyView>,
)
    ensures
        ({
            let r = run::run(MergeView::begun(layout, cwd, name, delete_after), replies);
            &&& !delete_after ==> removes_nothing(r.asked)
            &&& r.progress matches ProgressView::Done(result) ==> {
                &&& result.branch == name
                &&& !(result.success && result.has_conflicts)
                &&& !result.success ==> {
                    &&& result.commit_hash is None
                    &&& run::wrote_nothing(r.asked)
                    &&& gave_up(r.asked, replies, cwd, name, result)
                }
                &&& result.success ==> exists|m: int|
                    succeeded_at(
                        MergeView::begun(layout, cwd, name, delete_after),
                        result,
                        r.asked,
                        replies,
                        m,
                    )
            }
            &&& r.progress matches ProgressView::Failed(BranchErrorView::Refused(refusal)) ==> {
                &&& run::wrote_nothing(r.asked)
                &&& refusal is NotInRepository || refusal is NoBaseBranch || (
                refusal matches RefusalView::BaseNotCheckedOut { stderr } && base_was_refused(
                    r.asked,
                    replies,
                    cwd,
                    stderr,
                ))
            }
        }),
{
    let begun = MergeView::begun(layout, cwd, name, delete_after);
    let inv = |r: Run<MergeView>, past: Seq<ReplyView>| merge_inv(begun, r, past);
    lemma_merge_removes_nothing(begun);
    assert forall|r: Run<MergeView>, past: Seq<ReplyView>, reply: ReplyView|
        run::keeps_pace(r, past) && inv(r, past) implies #[trigger] inv(
        r.replied(reply),
        past.push(reply),
    ) by {
        lemma_merge_step(begun, r, past, reply);
    }
    run::lemma_run_invariant(begun, replies, inv);
}

/// A merge is refused where git knows neither main nor master, whatever else is replied, and where
/// git does not check the base branch out, with what git wrote of it, once it has been told to
/// check out again what was checked out before; outside of a repository, there is none.
pub proof fn law_merge_is_refused(
    layout: Layout,
    cwd: PathBuf,
    name: Seq<char>,
    delete_after: bool,
    stderr: Seq<char>,
    replies: Seq<ReplyView>,
)
    requires
        replies.len() >= 6,
    ensures
        ({
            let begun = MergeView::begun(layout, cwd, name, delete_after);
            let progress = run::run(begun, replies).progress;
            let no_main = replies[2] is Output && !replies[2].succeeded();
            let no_master = replies[3] is Output && !replies[3].succeeded();
            match git::root_in(replies[0]) {
                Err(error) => progress == ProgressView::<MergeView, MergeResultView>::Failed(error),
                Ok(_) => replies[1] is Output ==> {
                    &&& no_main && no_master ==> progress == ProgressView::<
                        MergeView,
                        MergeResultView,
                    >::Failed(BranchErrorView::Refused(RefusalView::NoBaseBranch))
                    &&& (replies[2].succeeded() && replies[3].complained(stderr)
                        && replies[4] is Output) || (no_main && replies[3].succeeded()
                        && replies[4].complained(stderr) && replies[5] is Output) ==> progress
                        == ProgressView::<MergeView, MergeResultView>::Failed(
                        BranchErrorView::Refused(RefusalView::BaseNotCheckedOut { stderr }),
                    )
                },
            }
        }),
{
    let m = MergeView::begun(layout, cwd, name, delete_after);
    run::lemma_run_steps(m, replies, 0);
    run::lemma_run_steps(m, replies, 1);
    run::lemma_run_steps(m, replies, 2);
    run::lemma_run_steps(m, replies, 3);
    run::lemma_run_steps(m, replies, 4);
    run::lemma_run_steps(m, replies, 5);
    if !(run::run(m, replies.take(6)).progress is Ask) {
        run::lemma_run_stays(m, replies, 6);
    }
}

/// Merging a branch takes at most twenty-one replies, and where each of them answers in kind, it
/// ends with a result or is refused.
pub proof fn law_merge_ends(op: MergeView, replies: Seq<ReplyView>)
    requires
        replies.len() >= op.rank(),
    ensures
        !(run::run(op, replies).progress is Ask),
        run::fails_with_its_action(run::run(op, replies), replies),
        op.rank() <= 21,
{
    run::lemma_run_fails_with_its_action(op, replies);
    run::lemma_run_ends(op, replies, |op: MergeView| op.rank());
}

/// What operations keep of registries, a merge keeps.
proof fn lemma_merge_keeps(
    m: MergeView,
    replies: Seq<ReplyView>,
    p: spec_fn(RegistryView) -> bool,
)
    requires
        run::is_kept(p),
        m.stage is Root,
    ensures
        run::stays(run::run(m, replies).asked, replies, p),
{
    let holds = |m: MergeView|
        match m.stage {
            MergeStageView::Save { save, .. } => p(save.registry),
            MergeStageView::Delete { delete, .. } => delete.stage matches DeleteStageView::Save {
                save,
            } ==> p(save.registry),
            _ => true,
        };
    run::lemma_run_keeps(m, replies, p, holds);
}

/// The registry stays sound under a merge: where no two branches of the registries that are loaded
/// have the same identifier, no two of those that are stored have, and the active branch stays a
/// known one.
pub proof fn law_merge_keeps_registry_sound(
    layout: Layout,
    cwd: PathBuf,
    name: Seq<char>,
    delete_after: bool,
    replies: Seq<ReplyView>,
)
    ensures
        run::registry_stays_sound(
            run::run(MergeView::begun(layout, cwd, name, delete_after), replies).asked,
            replies,
        ),
{
    let m = MergeView::begun(layout, cwd, name, delete_after);
    run::lemma_soundness_is_kept();
    lemma_merge_keeps(m, replies, run::unique_ids());
    lemma_merge_keeps(m, replies, run::known_active());
}

} // verus!

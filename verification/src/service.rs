//! The branch management service.

use crate::abandon::{AbandonBranch, AbandonStage, AbandonView};
use crate::active::{ActiveView, GetActiveBranch};
use crate::branch::{self, AgentId};
use crate::create::{CreateBranch, CreateStage, CreateView};
use crate::delete::{DeleteBranch, DeleteView};
use crate::layout::Layout;
use crate::list::{ListBranches, ListStage, ListView};
use crate::merge::{MergeBranch, MergeStage, MergeView};
use crate::storage::LoadRegistry;
use crate::switch::{SwitchBranch, SwitchStage, SwitchView};
use std::path::PathBuf;
use std::sync::Arc;
use vstd::prelude::*;

verus! {

/// Branch management service for creating and managing feature branches.
///
/// This service handles:
/// - Creating git branches with associated work directories
/// - Switching between branches
/// - Merging branches back to main
/// - Tracking branch metadata in `.forge/branches.json`
///
/// Each of its operations is begun here and then goes on by itself: it names an action, and is
/// handed the reply, until it ends with a result or an error.
pub struct BranchService<F> {
    infra: Arc<F>,
    layout: Layout,
}

impl<F> Clone for BranchService<F> {
    fn clone(&self) -> (res: Self)
        ensures
            res == *self,
    {
        BranchService { infra: Arc::clone(&self.infra), layout: self.layout.clone() }
    }
}

impl<F> BranchService<F> {
    /// Where the service keeps its files.
    pub closed spec fn files(self) -> Layout {
        self.layout
    }

    /// What the service does its input and output with.
    pub closed spec fn infrastructure(self) -> Arc<F> {
        self.infra
    }

    /// Create a new branch service with the given infrastructure.
    ///
    /// # Arguments
    /// * `infra` - Infrastructure providing file I/O and command execution
    /// * `forge_dir` - Path to the `.forge` directory
    pub fn new(infra: Arc<F>, forge_dir: PathBuf) -> (res: Self)
        ensures
            res.infrastructure() == infra,
            res.files() == Layout::under(forge_dir),
    {
        BranchService { infra, layout: Layout::new(forge_dir) }
    }

    /// The infrastructure of the service
    pub fn infra(&self) -> (res: &Arc<F>)
        ensures
            *res == self.infrastructure(),
    {
        &self.infra
    }

    /// Get the path to the work directory for a branch
    pub fn work_dir_for_branch(&self, branch_name: &str) -> (res: PathBuf)
        ensures
            res == self.files().work_dir(branch_name@),
    {
        self.layout.work_dir_for_branch(branch_name)
    }

    /// Get the path to the current branch marker file
    pub fn current_branch_path(&self) -> (res: PathBuf)
        ensures
            res == self.files().marker(),
    {
        self.layout.current_branch_path()
    }

    /// Begin to create a new feature branch with an associated work directory.
    ///
    /// This creates:
    /// 1. A new git branch
    /// 2. A work directory under `.forge/work/<branch_name>/`
    /// 3. Updates the branch registry
    ///
    /// Where git knows of no such branch but the registry still does, the new branch takes the
    /// place of the old record.
    ///
    /// # Arguments
    /// * `cwd` - The current directory
    /// * `name` - Branch name (e.g., "feat/user-auth")
    /// * `task` - Human-readable task description
    /// * `agent_id` - Optional agent ID to assign to this branch
    ///
    /// # Errors
    /// The operation ends with an error if the branch already exists, git operations fail, or
    /// file operations fail.
    pub fn create_branch(&self, cwd: PathBuf, name: &str, task: &str, agent_id: Option<AgentId>)
        -> (res: CreateBranch)
        ensures
            res@ == CreateView::begun(
                self.files(),
                cwd,
                name@,
                task@,
                branch::agent_view(agent_id),
            ),
    {
        CreateBranch {
            layout: self.layout.clone(),
            cwd,
            name: name.to_owned(),
            task: task.to_owned(),
            agent_id,
            stage: CreateStage::Root,
        }
    }

    /// Begin to switch to a branch by updating the current working directory.
    ///
    /// The operation ends with what the current directory is to be: the work directory of the
    /// branch, where the registry knows it, and otherwise the same as before.
    ///
    /// # Arguments
    /// * `cwd` - The current directory
    /// * `name` - Branch name to switch to
    ///
    /// # Errors
    /// The operation ends with an error if the branch doesn't exist or git checkout fails.
    pub fn switch_branch(&self, cwd: PathBuf, name: &str) -> (res: SwitchBranch)
        ensures
            res@ == SwitchView::begun(self.files(), cwd, name@),
    {
        SwitchBranch {
            layout: self.layout.clone(),
            cwd,
            name: name.to_owned(),
            stage: SwitchStage::Root,
        }
    }

    /// Begin to list all managed branches.
    ///
    /// The operation ends with branch information for all registered branches.
    pub fn list_branches(&self, cwd: PathBuf) -> (res: ListBranches)
        ensures
            res@ == ListView::begun(self.files(), cwd),
    {
        let load = LoadRegistry::Find;
        ListBranches { layout: self.layout.clone(), cwd, stage: ListStage::Load { load } }
    }

    /// Begin to get the currently active branch name.
    pub fn get_active_branch(&self) -> (res: GetActiveBranch)
        ensures
            res@ == (ActiveView { layout: self.files() }),
    {
        GetActiveBranch { layout: self.layout.clone() }
    }

    /// Begin to merge a branch back to the main branch.
    ///
    /// # Arguments
    /// * `cwd` - The current directory
    /// * `name` - Branch name to merge
    /// * `delete_after` - Whether to delete the branch after successful merge
    ///
    /// The operation ends with a `MergeResult` describing the outcome of the merge. A branch that
    /// was merged and is not to be deleted is marked as merged.
    ///
    /// # Errors
    /// The operation ends with an error if there is no base branch, or git does not check it out.
    pub fn merge_branch(&self, cwd: PathBuf, name: &str, delete_after: bool) -> (res: MergeBranch)
        ensures
            res@ == MergeView::begun(self.files(), cwd, name@, delete_after),
    {
        MergeBranch {
            layout: self.layout.clone(),
            cwd,
            name: name.to_owned(),
            delete_after,
            stage: MergeStage::Root,
        }
    }

    /// Begin to delete a branch and optionally its work directory.
    ///
    /// # Arguments
    /// * `cwd` - The current directory
    /// * `name` - Branch name to delete
    /// * `delete_workdir` - Whether to also delete the work directory
    ///
    /// # Errors
    /// The operation ends with an error if the branch doesn't exist or git operations fail.
    pub fn delete_branch(&self, cwd: PathBuf, name: &str, delete_workdir: bool) -> (res:
        DeleteBranch)
        ensures
            res@ == DeleteView::begun(self.files(), cwd, name@, delete_workdir),
    {
        DeleteBranch::begin(self.layout.clone(), cwd, name.to_owned(), delete_workdir)
    }

    /// Begin to abandon a branch (mark as abandoned without deleting).
    ///
    /// # Arguments
    /// * `name` - Branch name to abandon
    ///
    /// # Errors
    /// The operation ends with an error if the branch doesn't exist.
    pub fn abandon_branch(&self, name: &str) -> (res: AbandonBranch)
        ensures
            res@ == AbandonView::begun(self.files(), name@),
    {
        let load = LoadRegistry::Find;
        AbandonBranch {
            layout: self.layout.clone(),
            name: name.to_owned(),
            stage: AbandonStage::Load { load },
        }
    }
}

} // verus!

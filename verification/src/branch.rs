//! Branches and what is told about them.

use crate::clock;
use chrono::NaiveDateTime;
use std::path::PathBuf;
use vstd::prelude::*;

verus! {

/// Unique identifier for a managed branch
#[derive(Debug, Hash)]
pub struct BranchId(String);

impl View for BranchId {
    type V = Seq<char>;

    closed spec fn view(&self) -> Seq<char> {
        self.0@
    }
}

impl BranchId {
    /// Create a new branch ID from a string
    pub fn new(id: &str) -> (res: Self)
        ensures
            res@ == id@,
    {
        BranchId(id.to_owned())
    }

    /// Get the branch ID as a string
    pub fn as_str(&self) -> (res: &str)
        ensures
            res@ == self@,
    {
        self.0.as_str()
    }

    /// The text by which the branch ID is shown
    pub fn to_string(&self) -> (res: String)
        ensures
            res@ == self@,
    {
        self.0.clone()
    }
}

impl Clone for BranchId {
    fn clone(&self) -> (res: Self)
        ensures
            res == *self,
    {
        BranchId(self.0.clone())
    }
}

impl PartialEq for BranchId {
    fn eq(&self, other: &Self) -> (res: bool) {
        self.0 == other.0
    }
}

impl vstd::std_specs::cmp::PartialEqSpecImpl for BranchId {
    open spec fn obeys_eq_spec() -> bool {
        true
    }

    open spec fn eq_spec(&self, other: &Self) -> bool {
        self@ == other@
    }
}

impl Eq for BranchId {

}

/// Identifier of an agent that can work on a branch
#[derive(Debug, Hash)]
pub struct AgentId(String);

impl View for AgentId {
    type V = Seq<char>;

    closed spec fn view(&self) -> Seq<char> {
        self.0@
    }
}

impl AgentId {
    /// Create a new agent ID from a string
    pub fn new(id: &str) -> (res: Self)
        ensures
            res@ == id@,
    {
        AgentId(id.to_owned())
    }

    /// The agent that implements changes
    pub fn forge() -> (res: Self)
        ensures
            res@ == "forge"@,
    {
        AgentId::new("forge")
    }

    /// Get the agent ID as a string
    pub fn as_str(&self) -> (res: &str)
        ensures
            res@ == self@,
    {
        self.0.as_str()
    }
}

impl Clone for AgentId {
    fn clone(&self) -> (res: Self)
        ensures
            res == *self,
    {
        AgentId(self.0.clone())
    }
}

impl PartialEq for AgentId {
    fn eq(&self, other: &Self) -> (res: bool) {
        self.0 == other.0
    }
}

impl vstd::std_specs::cmp::PartialEqSpecImpl for AgentId {
    open spec fn obeys_eq_spec() -> bool {
        true
    }

    open spec fn eq_spec(&self, other: &Self) -> bool {
        self@ == other@
    }
}

impl Eq for AgentId {

}

/// Represents the status of a managed branch
#[derive(Debug, Clone, Copy, PartialEq, Eq, Structural)]
pub enum BranchStatus {
    /// Branch is active and being worked on
    Active,
    /// Branch has been merged into main
    Merged,
    /// Branch was abandoned without merging
    Abandoned,
}

impl Default for BranchStatus {
    fn default() -> (res: Self)
        ensures
            res == BranchStatus::Active,
    {
        BranchStatus::Active
    }
}

/// The characters of an optional agent ID.
pub open spec fn agent_view(agent_id: Option<AgentId>) -> Option<Seq<char>> {
    match agent_id {
        Some(agent) => Some(agent@),
        None => None,
    }
}

/// Represents a managed branch with its work directory and metadata
#[derive(Debug)]
pub struct Branch {
    /// Unique identifier for this branch
    pub id: BranchId,
    /// Git branch name
    pub name: String,
    /// Human-readable task description
    pub task: String,
    /// Path to the branch's work directory
    pub work_dir: PathBuf,
    /// Agent assigned to this branch (if any)
    pub agent_id: Option<AgentId>,
    /// When the branch was created, in UTC
    pub created_at: NaiveDateTime,
    /// Current status of the branch
    pub status: BranchStatus,
}

/// What a branch holds.
pub struct BranchView {
    pub id: Seq<char>,
    pub name: Seq<char>,
    pub task: Seq<char>,
    pub work_dir: PathBuf,
    pub agent_id: Option<Seq<char>>,
    pub created_at: NaiveDateTime,
    pub status: BranchStatus,
}

impl BranchView {
    /// A branch on which no work has been done: its name is its identifier, it is active, and
    /// no agent is assigned to it.
    pub open spec fn created(
        name: Seq<char>,
        task: Seq<char>,
        work_dir: PathBuf,
        created_at: NaiveDateTime,
    ) -> BranchView {
        BranchView {
            id: name,
            name,
            task,
            work_dir,
            agent_id: None,
            created_at,
            status: BranchStatus::Active,
        }
    }

    /// The branch with an agent assigned, where one is given.
    pub open spec fn assigned(self, agent_id: Option<Seq<char>>) -> BranchView {
        match agent_id {
            Some(_) => BranchView { agent_id, ..self },
            None => self,
        }
    }

    /// What a listing tells about the branch.
    pub open spec fn info(self, has_changes: bool) -> BranchInfoView {
        BranchInfoView {
            id: self.id,
            name: self.name,
            task: self.task,
            work_dir: self.work_dir,
            agent_id: self.agent_id,
            status: self.status,
            has_changes,
            created_at: self.created_at,
        }
    }
}

impl View for Branch {
    type V = BranchView;

    open spec fn view(&self) -> BranchView {
        BranchView {
            id: self.id@,
            name: self.name@,
            task: self.task@,
            work_dir: self.work_dir,
            agent_id: agent_view(self.agent_id),
            created_at: self.created_at,
            status: self.status,
        }
    }
}

impl DeepView for Branch {
    type V = BranchView;

    open spec fn deep_view(&self) -> BranchView {
        self@
    }
}

impl Clone for Branch {
    fn clone(&self) -> (res: Self)
        ensures
            res == *self,
    {
        Branch {
            id: self.id.clone(),
            name: self.name.clone(),
            task: self.task.clone(),
            work_dir: self.work_dir.clone(),
            agent_id: self.agent_id.clone(),
            created_at: self.created_at,
            status: self.status,
        }
    }
}

impl Branch {
    /// Create a new branch with the given name and task
    ///
    /// The branch is dated by the clock; everything else follows from the arguments.
    pub fn new(name: &str, task: &str, work_dir: PathBuf) -> (res: Self)
        ensures
            res@ == BranchView::created(name@, task@, work_dir, res.created_at),
    {
        Branch::created(name, task, work_dir, clock::now())
    }

    /// Create a new branch with the given name and task, dated by the caller
    pub fn created(name: &str, task: &str, work_dir: PathBuf, created_at: NaiveDateTime) -> (res:
        Self)
        ensures
            res@ == BranchView::created(name@, task@, work_dir, created_at),
    {
        Branch {
            id: BranchId::new(name),
            name: name.to_owned(),
            task: task.to_owned(),
            work_dir,
            agent_id: None,
            created_at,
            status: BranchStatus::Active,
        }
    }

    /// Set the agent assigned to this branch
    pub fn agent(self, agent_id: AgentId) -> (res: Self)
        ensures
            res == (Branch { agent_id: Some(agent_id), ..self }),
    {
        Branch { agent_id: Some(agent_id), ..self }
    }

    /// Set the agent assigned to this branch, where one is given
    pub fn agent_opt(self, agent_id: Option<AgentId>) -> (res: Self)
        ensures
            res == (match agent_id {
                Some(_) => Branch { agent_id, ..self },
                None => self,
            }),
            res@ == self@.assigned(agent_view(agent_id)),
    {
        match agent_id {
            Some(id) => Branch { agent_id: Some(id), ..self },
            None => self,
        }
    }

    /// Check if this branch has uncommitted changes
    ///
    /// A branch on its own knows of none: whether there are any is found out by running git.
    pub fn is_dirty(&self) -> (res: bool)
        ensures
            res == false,
    {
        false
    }

    /// The branch with another identifier
    pub fn id(self, id: BranchId) -> (res: Self)
        ensures
            res == (Branch { id, ..self }),
    {
        Branch { id, ..self }
    }

    /// The branch with another git branch name
    pub fn name(self, name: String) -> (res: Self)
        ensures
            res == (Branch { name, ..self }),
    {
        Branch { name, ..self }
    }

    /// The branch with another task description
    pub fn task(self, task: String) -> (res: Self)
        ensures
            res == (Branch { task, ..self }),
    {
        Branch { task, ..self }
    }

    /// The branch with another work directory
    pub fn work_dir(self, work_dir: PathBuf) -> (res: Self)
        ensures
            res == (Branch { work_dir, ..self }),
    {
        Branch { work_dir, ..self }
    }

    /// The branch with an agent assigned
    pub fn agent_id(self, agent_id: AgentId) -> (res: Self)
        ensures
            res == (Branch { agent_id: Some(agent_id), ..self }),
    {
        Branch { agent_id: Some(agent_id), ..self }
    }

    /// The branch with another time of creation
    pub fn created_at(self, created_at: NaiveDateTime) -> (res: Self)
        ensures
            res == (Branch { created_at, ..self }),
    {
        Branch { created_at, ..self }
    }

    /// The branch with another status
    pub fn status(self, status: BranchStatus) -> (res: Self)
        ensures
            res == (Branch { status, ..self }),
    {
        Branch { status, ..self }
    }
}

/// Lightweight information about a branch for listing
#[derive(Debug)]
pub struct BranchInfo {
    /// Unique identifier for this branch
    pub id: BranchId,
    /// Git branch name
    pub name: String,
    /// Human-readable task description
    pub task: String,
    /// Path to the branch's work directory
    pub work_dir: PathBuf,
    /// Agent assigned to this branch (if any)
    pub agent_id: Option<AgentId>,
    /// Current status of the branch
    pub status: BranchStatus,
    /// Whether the branch has uncommitted changes
    pub has_changes: bool,
    /// When the branch was created, in UTC
    pub created_at: NaiveDateTime,
}

/// What the information about a branch holds.
pub struct BranchInfoView {
    pub id: Seq<char>,
    pub name: Seq<char>,
    pub task: Seq<char>,
    pub work_dir: PathBuf,
    pub agent_id: Option<Seq<char>>,
    pub status: BranchStatus,
    pub has_changes: bool,
    pub created_at: NaiveDateTime,
}

impl View for BranchInfo {
    type V = BranchInfoView;

    open spec fn view(&self) -> BranchInfoView {
        BranchInfoView {
            id: self.id@,
            name: self.name@,
            task: self.task@,
            work_dir: self.work_dir,
            agent_id: agent_view(self.agent_id),
            status: self.status,
            has_changes: self.has_changes,
            created_at: self.created_at,
        }
    }
}

impl DeepView for BranchInfo {
    type V = BranchInfoView;

    open spec fn deep_view(&self) -> BranchInfoView {
        self@
    }
}

impl Clone for BranchInfo {
    fn clone(&self) -> (res: Self)
        ensures
            res == *self,
    {
        BranchInfo {
            id: self.id.clone(),
            name: self.name.clone(),
            task: self.task.clone(),
            work_dir: self.work_dir.clone(),
            agent_id: self.agent_id.clone(),
            status: self.status,
            has_changes: self.has_changes,
            created_at: self.created_at,
        }
    }
}

impl From<&Branch> for BranchInfo {
    fn from(branch: &Branch) -> (res: Self) {
        BranchInfo {
            id: branch.id.clone(),
            name: branch.name.clone(),
            task: branch.task.clone(),
            work_dir: branch.work_dir.clone(),
            agent_id: branch.agent_id.clone(),
            status: branch.status,
            has_changes: branch.is_dirty(),
            created_at: branch.created_at,
        }
    }
}

impl vstd::std_specs::convert::FromSpecImpl<&Branch> for BranchInfo {
    open spec fn obeys_from_spec() -> bool {
        true
    }

    open spec fn from_spec(branch: &Branch) -> Self {
        BranchInfo {
            id: branch.id,
            name: branch.name,
            task: branch.task,
            work_dir: branch.work_dir,
            agent_id: branch.agent_id,
            status: branch.status,
            has_changes: false,
            created_at: branch.created_at,
        }
    }
}

/// Result of a branch merge operation
#[derive(Debug)]
pub struct MergeResult {
    /// The branch that was merged
    pub branch: BranchId,
    /// Whether the merge was successful
    pub success: bool,
    /// Whether there were conflicts
    pub has_conflicts: bool,
    /// Commit hash of the merge (if successful)
    pub commit_hash: Option<String>,
    /// Human-readable message describing the result
    pub message: String,
}

/// What a merge result holds.
pub struct MergeResultView {
    pub branch: Seq<char>,
    pub success: bool,
    pub has_conflicts: bool,
    pub commit_hash: Option<Seq<char>>,
    pub message: Seq<char>,
}

impl View for MergeResult {
    type V = MergeResultView;

    open spec fn view(&self) -> MergeResultView {
        MergeResultView {
            branch: self.branch@,
            success: self.success,
            has_conflicts: self.has_conflicts,
            commit_hash: self.commit_hash.deep_view(),
            message: self.message@,
        }
    }
}

impl DeepView for MergeResult {
    type V = MergeResultView;

    open spec fn deep_view(&self) -> MergeResultView {
        self@
    }
}

impl Clone for MergeResult {
    fn clone(&self) -> (res: Self)
        ensures
            res == *self,
    {
        MergeResult {
            branch: self.branch.clone(),
            success: self.success,
            has_conflicts: self.has_conflicts,
            commit_hash: self.commit_hash.clone(),
            message: self.message.clone(),
        }
    }
}

} // verus!

//! Managed git branches: feature branches with work directories of their own, tracked in a
//! registry.
//!
//! The [`BranchService`] begins the operations: creating, switching, listing, merging, deleting
//! and abandoning branches. An operation never touches git or the disk itself. It names what is
//! to be done as an [`Action`], goes on with the [`Reply`], and so on until it ends with a result
//! or a [`BranchError`]. What each step decides is proved, and so is what holds of whole runs of
//! an operation, for every way in which its actions may be replied to (see [`run`]).
#![allow(unused_imports)]

pub mod abandon;
pub mod action;
pub mod active;
pub mod branch;
pub mod changes;
pub mod clock;
pub mod create;
pub mod delete;
pub mod error;
pub mod git;
pub mod laws;
pub mod layout;
pub mod list;
pub mod listing;
pub mod merge;
pub mod path;
pub mod registry;
pub mod run;
pub mod service;
pub mod storage;
pub mod switch;
pub mod text;

pub use abandon::AbandonBranch;
pub use action::{Action, CommandOutput, Progress, Reply};
pub use active::GetActiveBranch;
pub use branch::{AgentId, Branch, BranchId, BranchInfo, BranchStatus, MergeResult};
pub use create::CreateBranch;
pub use delete::DeleteBranch;
pub use error::{BranchError, Context, Refusal};
pub use layout::Layout;
pub use list::ListBranches;
pub use merge::MergeBranch;
pub use registry::BranchRegistry;
pub use service::BranchService;
pub use switch::{SwitchBranch, Switched};

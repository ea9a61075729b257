//! Where the service keeps its files.

use crate::path;
use std::path::PathBuf;
use vstd::prelude::*;

verus! {

/// The directory of the service and the files in it
#[derive(Debug)]
pub struct Layout {
    /// Path to the `.forge` directory
    pub forge_dir: PathBuf,
    /// Path to the file that holds the registry
    pub registry_path: PathBuf,
}

impl Layout {
    /// The layout of the service's files under `forge_dir`.
    pub open spec fn under(forge_dir: PathBuf) -> Layout {
        Layout { forge_dir, registry_path: path::joined(forge_dir, "branches.json"@) }
    }

    /// The work directory of the branch `name`.
    pub open spec fn work_dir(self, name: Seq<char>) -> PathBuf {
        path::joined(path::joined(self.forge_dir, "work"@), name)
    }

    /// The file that names the current branch.
    pub open spec fn marker(self) -> PathBuf {
        path::joined(self.forge_dir, "current_branch"@)
    }

    /// The layout of the service's files under a directory
    pub fn new(forge_dir: PathBuf) -> (res: Self)
        ensures
            res == Layout::under(forge_dir),
    {
        let registry_path = path::join(&forge_dir, "branches.json");
        Layout { forge_dir, registry_path }
    }

    /// Get the path to the work directory for a branch
    pub fn work_dir_for_branch(&self, branch_name: &str) -> (res: PathBuf)
        ensures
            res == self.work_dir(branch_name@),
    {
        let work = path::join(&self.forge_dir, "work");
        path::join(&work, branch_name)
    }

    /// Get the path to the current branch marker file
    pub fn current_branch_path(&self) -> (res: PathBuf)
        ensures
            res == self.marker(),
    {
        path::join(&self.forge_dir, "current_branch")
    }
}

impl Clone for Layout {
    fn clone(&self) -> (res: Self)
        ensures
            res == *self,
    {
        Layout { forge_dir: self.forge_dir.clone(), registry_path: self.registry_path.clone() }
    }
}

} // verus!

//! What an operation on branches can fail with.

use crate::text;
use vstd::prelude::*;

verus! {

/// What an operation was about to do when an action failed
#[derive(Debug, Clone, Copy, PartialEq, Eq, Structural)]
pub enum Context {
    /// Asking git for the root of the repository
    GitRoot,
    /// Creating a git branch
    CreateBranch,
    /// Checking a branch out
    Checkout,
    /// Checking the base branch out
    CheckoutBase,
    /// Reading the registry out of its text
    ParseRegistry,
}

impl Context {
    /// The text of the context.
    pub open spec fn text_view(self) -> Seq<char> {
        match self {
            Context::GitRoot => "Failed to get git repository root"@,
            Context::CreateBranch => "Failed to create git branch"@,
            Context::Checkout => "Failed to checkout branch"@,
            Context::CheckoutBase => "Failed to checkout base branch"@,
            Context::ParseRegistry => "Failed to parse branches.json"@,
        }
    }

    /// The context as text
    pub fn text(self) -> (res: &'static str)
        ensures
            res@ == self.text_view(),
    {
        match self {
            Context::GitRoot => "Failed to get git repository root",
            Context::CreateBranch => "Failed to create git branch",
            Context::Checkout => "Failed to checkout branch",
            Context::CheckoutBase => "Failed to checkout base branch",
            Context::ParseRegistry => "Failed to parse branches.json",
        }
    }
}

/// Why an operation was refused
#[derive(Debug)]
pub enum Refusal {
    /// The current directory does not belong to a git repository
    NotInRepository,
    /// There is a git branch of that name already
    AlreadyExists { name: String },
    /// Git did not create the branch
    NotCreated { stderr: String },
    /// There is no git branch of that name
    DoesNotExist { name: String },
    /// Git did not check the branch out
    NotCheckedOut { stderr: String },
    /// There is neither a main nor a master branch
    NoBaseBranch,
    /// Git did not check the base branch out
    BaseNotCheckedOut { stderr: String },
    /// The base branch is not to be deleted
    IsBaseBranch,
    /// Git did not delete the branch
    NotDeleted { stderr: String },
    /// The registry has no branch of that name
    NotRegistered { name: String },
}

/// What a refusal holds.
pub enum RefusalView {
    NotInRepository,
    AlreadyExists { name: Seq<char> },
    NotCreated { stderr: Seq<char> },
    DoesNotExist { name: Seq<char> },
    NotCheckedOut { stderr: Seq<char> },
    NoBaseBranch,
    BaseNotCheckedOut { stderr: Seq<char> },
    IsBaseBranch,
    NotDeleted { stderr: Seq<char> },
    NotRegistered { name: Seq<char> },
}

impl View for Refusal {
    type V = RefusalView;

    open spec fn view(&self) -> RefusalView {
        match *self {
            Refusal::NotInRepository => RefusalView::NotInRepository,
            Refusal::AlreadyExists { name } => RefusalView::AlreadyExists { name: name@ },
            Refusal::NotCreated { stderr } => RefusalView::NotCreated { stderr: stderr@ },
            Refusal::DoesNotExist { name } => RefusalView::DoesNotExist { name: name@ },
            Refusal::NotCheckedOut { stderr } => RefusalView::NotCheckedOut { stderr: stderr@ },
            Refusal::NoBaseBranch => RefusalView::NoBaseBranch,
            Refusal::BaseNotCheckedOut { stderr } => RefusalView::BaseNotCheckedOut {
                stderr: stderr@,
            },
            Refusal::IsBaseBranch => RefusalView::IsBaseBranch,
            Refusal::NotDeleted { stderr } => RefusalView::NotDeleted { stderr: stderr@ },
            Refusal::NotRegistered { name } => RefusalView::NotRegistered { name: name@ },
        }
    }
}

impl RefusalView {
    /// The text of the refusal.
    pub open spec fn message(self) -> Seq<char> {
        match self {
            RefusalView::NotInRepository => "Not in a git repository"@,
            RefusalView::AlreadyExists { name } => "Branch '"@ + name + "' already exists"@,
            RefusalView::NotCreated { stderr } => "Failed to create git branch: "@ + stderr,
            RefusalView::DoesNotExist { name } => "Branch '"@ + name + "' does not exist"@,
            RefusalView::NotCheckedOut { stderr } => "Failed to checkout branch: "@ + stderr,
            RefusalView::NoBaseBranch =>
                "No base branch found (neither 'main' nor 'master' exists)"@,
            RefusalView::BaseNotCheckedOut { stderr } => "Failed to checkout base branch: "@
                + stderr,
            RefusalView::IsBaseBranch => "Cannot delete the base branch"@,
            RefusalView::NotDeleted { stderr } => "Failed to delete git branch: "@ + stderr,
            RefusalView::NotRegistered { name } => "Branch '"@ + name + "' not found in registry"@,
        }
    }
}

impl Refusal {
    /// The refusal as text
    pub fn message(&self) -> (res: String)
        ensures
            res@ == self@.message(),
    {
        match self {
            Refusal::NotInRepository => "Not in a git repository".to_owned(),
            Refusal::AlreadyExists { name } => text::join3(
                "Branch '",
                name.as_str(),
                "' already exists",
            ),
            Refusal::NotCreated { stderr } => text::join2(
                "Failed to create git branch: ",
                stderr.as_str(),
            ),
            Refusal::DoesNotExist { name } => text::join3(
                "Branch '",
                name.as_str(),
                "' does not exist",
            ),
            Refusal::NotCheckedOut { stderr } => text::join2(
                "Failed to checkout branch: ",
                stderr.as_str(),
            ),
            Refusal::NoBaseBranch =>
                "No base branch found (neither 'main' nor 'master' exists)".to_owned(),
            Refusal::BaseNotCheckedOut { stderr } => text::join2(
                "Failed to checkout base branch: ",
                stderr.as_str(),
            ),
            Refusal::IsBaseBranch => "Cannot delete the base branch".to_owned(),
            Refusal::NotDeleted { stderr } => text::join2(
                "Failed to delete git branch: ",
                stderr.as_str(),
            ),
            Refusal::NotRegistered { name } => text::join3(
                "Branch '",
                name.as_str(),
                "' not found in registry",
            ),
        }
    }
}

/// What an operation on branches failed with
#[derive(Debug)]
pub enum BranchError {
    /// The last action failed; its own error tells how, under the context where there is one
    Action(Option<Context>),
    /// The operation was refused
    Refused(Refusal),
}

/// What an error holds.
pub enum BranchErrorView {
    Action(Option<Context>),
    Refused(RefusalView),
}

impl View for BranchError {
    type V = BranchErrorView;

    open spec fn view(&self) -> BranchErrorView {
        match *self {
            BranchError::Action(context) => BranchErrorView::Action(context),
            BranchError::Refused(refusal) => BranchErrorView::Refused(refusal@),
        }
    }
}

} // verus!

//! Deleting a branch.

use crate::action::{Action, ActionView, Progress, ProgressView, Reply, ReplyView};
use crate::active;
use crate::branch::{BranchId, BranchView};
use crate::error::{BranchError, BranchErrorView, Refusal, RefusalView};
use crate::git::{self, Git, GitView};
use crate::layout::Layout;
use crate::registry::RegistryView;
use crate::run::{self, Machine, Run};
use crate::storage::{self, LoadRegistry, LoadView, SaveRegistry, SaveView};
use crate::text;
use std::path::PathBuf;
use vstd::prelude::*;

verus! {

/// Deleting a branch, step by step
#[derive(Debug)]
pub struct DeleteBranch {
    /// Where the service keeps its files
    pub layout: Layout,
    /// The current directory
    pub cwd: PathBuf,
    /// The name of the branch
    pub name: String,
    /// Whether to also delete the work directory
    pub delete_workdir: bool,
    /// How far the deletion has come
    pub stage: DeleteStage,
}

/// How far the deletion of a branch has come
#[derive(Debug)]
pub enum DeleteStage {
    /// Git is asked for the root of the repository
    Root,
    /// Git is told to delete the branch
    Delete { root: PathBuf },
    /// Whether there is a work directory is being asked
    FindWorkDir,
    /// The work directory is being removed
    RemoveWorkDir,
    /// The registry is being loaded
    Load { load: LoadRegistry },
    /// The registry is being saved
    Save { save: SaveRegistry },
    /// The marker of the current branch is being read
    ReadMarker,
    /// Whether there is a marker is being asked
    FindMarker,
    /// The marker is being removed
    RemoveMarker,
}

/// What a step of deleting a branch holds.
pub struct DeleteView {
    pub layout: Layout,
    pub cwd: PathBuf,
    pub name: Seq<char>,
    pub delete_workdir: bool,
    pub stage: DeleteStageView,
}

/// What a stage of deleting a branch holds.
pub enum DeleteStageView {
    Root,
    Delete { root: PathBuf },
    FindWorkDir,
    RemoveWorkDir,
    Load { load: LoadView },
    Save { save: SaveView },
    ReadMarker,
    FindMarker,
    RemoveMarker,
}

impl View for DeleteStage {
    type V = DeleteStageView;

    open spec fn view(&self) -> DeleteStageView {
        match *self {
            DeleteStage::Root => DeleteStageView::Root,
            DeleteStage::Delete { root } => DeleteStageView::Delete { root },
            DeleteStage::FindWorkDir => DeleteStageView::FindWorkDir,
            DeleteStage::RemoveWorkDir => DeleteStageView::RemoveWorkDir,
            DeleteStage::Load { load } => DeleteStageView::Load { load: load@ },
            DeleteStage::Save { save } => DeleteStageView::Save { save: save@ },
            DeleteStage::ReadMarker => DeleteStageView::ReadMarker,
            DeleteStage::FindMarker => DeleteStageView::FindMarker,
            DeleteStage::RemoveMarker => DeleteStageView::RemoveMarker,
        }
    }
}

impl View for DeleteBranch {
    type V = DeleteView;

    open spec fn view(&self) -> DeleteView {
        DeleteView {
            layout: self.layout,
            cwd: self.cwd,
            name: self.name@,
            delete_workdir: self.delete_workdir,
            stage: self.stage@,
        }
    }
}

/// `name` is that of a base branch, which is not to be deleted.
pub open spec fn is_base(name: Seq<char>) -> bool {
    name == "main"@ || name == "master"@
}

/// Whether a branch is a base branch, which is not to be deleted
pub fn is_base_branch(name: &String) -> (res: bool)
    ensures
        res == is_base(name@),
{
    text::same_text(name, "main") || text::same_text(name, "master")
}

impl DeleteView {
    /// The deletion of a branch, before anything is done.
    pub open spec fn begun(
        layout: Layout,
        cwd: PathBuf,
        name: Seq<char>,
        delete_workdir: bool,
    ) -> DeleteView {
        DeleteView { layout, cwd, name, delete_workdir, stage: DeleteStageView::Root }
    }

    /// The same deletion at another stage.
    pub open spec fn at(self, stage: DeleteStageView) -> DeleteView {
        DeleteView { stage, ..self }
    }

    /// What is to be done.
    pub open spec fn action(self) -> ActionView {
        match self.stage {
            DeleteStageView::Root => GitView::ShowRoot.at(self.cwd),
            DeleteStageView::Delete { root } => GitView::Delete { name: self.name }.at(root),
            DeleteStageView::FindWorkDir => ActionView::Exists {
                path: self.layout.work_dir(self.name),
            },
            DeleteStageView::RemoveWorkDir => ActionView::RemoveDir {
                path: self.layout.work_dir(self.name),
            },
            DeleteStageView::Load { load } => load.action(self.layout),
            DeleteStageView::Save { save } => save.action(self.layout),
            DeleteStageView::ReadMarker => ActionView::Read { path: self.layout.marker() },
            DeleteStageView::FindMarker => ActionView::Exists { path: self.layout.marker() },
            DeleteStageView::RemoveMarker => ActionView::Remove { path: self.layout.marker() },
        }
    }

    /// What follows the reply.
    pub open spec fn next(self, reply: ReplyView) -> ProgressView<DeleteView, ()> {
        match self.stage {
            DeleteStageView::Root => match git::root_in(reply) {
                Ok(root) => if is_base(self.name) {
                    ProgressView::Failed(BranchErrorView::Refused(RefusalView::IsBaseBranch))
                } else {
                    ProgressView::Ask(self.at(DeleteStageView::Delete { root }))
                },
                Err(error) => ProgressView::Failed(error),
            },
            DeleteStageView::Delete { .. } => match reply {
                ReplyView::Output(output) => if !output.succeeded() {
                    ProgressView::Failed(
                        BranchErrorView::Refused(RefusalView::NotDeleted { stderr: output.stderr }),
                    )
                } else if self.delete_workdir {
                    ProgressView::Ask(self.at(DeleteStageView::FindWorkDir))
                } else {
                    ProgressView::Ask(self.at(DeleteStageView::Load { load: LoadView::Find }))
                },
                _ => ProgressView::Failed(BranchErrorView::Action(None)),
            },
            DeleteStageView::FindWorkDir => match reply {
                ReplyView::Exists(true) => ProgressView::Ask(
                    self.at(DeleteStageView::RemoveWorkDir),
                ),
                _ => ProgressView::Ask(self.at(DeleteStageView::Load { load: LoadView::Find })),
            },
            DeleteStageView::RemoveWorkDir => match reply {
                ReplyView::Done => ProgressView::Ask(
                    self.at(DeleteStageView::Load { load: LoadView::Find }),
                ),
                _ => ProgressView::Failed(BranchErrorView::Action(None)),
            },
            DeleteStageView::Load { load } => match load.next(reply) {
                ProgressView::Ask(load) => ProgressView::Ask(
                    self.at(DeleteStageView::Load { load }),
                ),
                ProgressView::Done(registry) => ProgressView::Ask(
                    self.at(
                        DeleteStageView::Save { save: SaveView::of(registry.removed(self.name)) },
                    ),
                ),
                ProgressView::Failed(error) => ProgressView::Failed(error),
            },
            DeleteStageView::Save { save } => match save.next(reply) {
                ProgressView::Ask(save) => ProgressView::Ask(
                    self.at(DeleteStageView::Save { save }),
                ),
                ProgressView::Done(_) => ProgressView::Ask(self.at(DeleteStageView::ReadMarker)),
                ProgressView::Failed(error) => ProgressView::Failed(error),
            },
            DeleteStageView::ReadMarker => if active::current_in(reply) == Some(self.name) {
                ProgressView::Ask(self.at(DeleteStageView::FindMarker))
            } else {
                ProgressView::Done(())
            },
            DeleteStageView::FindMarker => match reply {
                ReplyView::Exists(true) => ProgressView::Ask(
                    self.at(DeleteStageView::RemoveMarker),
                ),
                _ => ProgressView::Done(()),
            },
            DeleteStageView::RemoveMarker => match reply {
                ReplyView::Done => ProgressView::Done(()),
                _ => ProgressView::Failed(BranchErrorView::Action(None)),
            },
        }
    }

    /// How many replies are to come at most.
    pub open spec fn rank(self) -> nat {
        match self.stage {
            DeleteStageView::Root => 13,
            DeleteStageView::Delete { .. } => 12,
            DeleteStageView::FindWorkDir => 11,
            DeleteStageView::RemoveWorkDir => 10,
            DeleteStageView::Load { load } => 6 + load.rank(),
            DeleteStageView::Save { save } => 3 + save.rank(),
            DeleteStageView::ReadMarker => 3,
            DeleteStageView::FindMarker => 2,
            DeleteStageView::RemoveMarker => 1,
        }
    }
}

impl DeleteBranch {
    /// Begin to delete a branch
    pub fn begin(layout: Layout, cwd: PathBuf, name: String, delete_workdir: bool) -> (res: Self)
        ensures
            res@ == DeleteView::begun(layout, cwd, name@, delete_workdir),
    {
        DeleteBranch { layout, cwd, name, delete_workdir, stage: DeleteStage::Root }
    }

    /// What is to be done
    pub fn action(&self) -> (res: Action)
        ensures
            res@ == self@.action(),
    {
        match &self.stage {
            DeleteStage::Root => Git::ShowRoot.at(&self.cwd),
            DeleteStage::Delete { root } => Git::Delete { name: self.name.as_str() }.at(root),
            DeleteStage::FindWorkDir => Action::Exists {
                path: self.layout.work_dir_for_branch(self.name.as_str()),
            },
            DeleteStage::RemoveWorkDir => Action::RemoveDir {
                path: self.layout.work_dir_for_branch(self.name.as_str()),
            },
            DeleteStage::Load { load } => load.action(&self.layout),
            DeleteStage::Save { save } => save.action(&self.layout),
            DeleteStage::ReadMarker => Action::Read { path: self.layout.current_branch_path() },
            DeleteStage::FindMarker => Action::Exists { path: self.layout.current_branch_path() },
            DeleteStage::RemoveMarker => Action::Remove { path: self.layout.current_branch_path() },
        }
    }

    /// Go on with the reply
    pub fn next(self, reply: Reply) -> (res: Progress<DeleteBranch, ()>)
        ensures
            res@ == self@.next(reply@),
    {
        match self.stage {
            DeleteStage::Root => match git::get_git_root(&reply) {
                Ok(root) => if is_base_branch(&self.name) {
                    Progress::Failed(BranchError::Refused(Refusal::IsBaseBranch))
                } else {
                    Progress::Ask(DeleteBranch { stage: DeleteStage::Delete { root }, ..self })
                },
                Err(error) => Progress::Failed(error),
            },
            DeleteStage::Delete { .. } => match reply {
                Reply::Output(output) => if !output.succeeded() {
                    Progress::Failed(
                        BranchError::Refused(Refusal::NotDeleted { stderr: output.stderr }),
                    )
                } else if self.delete_workdir {
                    Progress::Ask(DeleteBranch { stage: DeleteStage::FindWorkDir, ..self })
                } else {
                    let load = LoadRegistry::Find;
                    Progress::Ask(DeleteBranch { stage: DeleteStage::Load { load }, ..self })
                },
                _ => Progress::Failed(BranchError::Action(None)),
            },
            DeleteStage::FindWorkDir => if reply.is_found() {
                Progress::Ask(DeleteBranch { stage: DeleteStage::RemoveWorkDir, ..self })
            } else {
                let load = LoadRegistry::Find;
                Progress::Ask(DeleteBranch { stage: DeleteStage::Load { load }, ..self })
            },
            DeleteStage::RemoveWorkDir => if reply.is_done() {
                let load = LoadRegistry::Find;
                Progress::Ask(DeleteBranch { stage: DeleteStage::Load { load }, ..self })
            } else {
                Progress::Failed(BranchError::Action(None))
            },
            DeleteStage::Load { load } => match load.next(reply) {
                Progress::Ask(load) => Progress::Ask(
                    DeleteBranch { stage: DeleteStage::Load { load }, ..self },
                ),
                Progress::Done(registry) => {
                    let mut registry = registry;
                    registry.remove(&BranchId::new(self.name.as_str()));
                    let save = SaveRegistry::begin(registry);
                    Progress::Ask(DeleteBranch { stage: DeleteStage::Save { save }, ..self })
                },
                Progress::Failed(error) => Progress::Failed(error),
            },
            DeleteStage::Save { save } => match save.next(&reply) {
                Progress::Ask(save) => Progress::Ask(
                    DeleteBranch { stage: DeleteStage::Save { save }, ..self },
                ),
                Progress::Done(_) => Progress::Ask(
                    DeleteBranch { stage: DeleteStage::ReadMarker, ..self },
                ),
                Progress::Failed(error) => Progress::Failed(error),
            },
            DeleteStage::ReadMarker => match active::current_branch(&reply) {
                Some(current) => if current == self.name {
                    Progress::Ask(DeleteBranch { stage: DeleteStage::FindMarker, ..self })
                } else {
                    Progress::Done(())
                },
                None => Progress::Done(()),
            },
            DeleteStage::FindMarker => if reply.is_found() {
                Progress::Ask(DeleteBranch { stage: DeleteStage::RemoveMarker, ..self })
            } else {
                Progress::Done(())
            },
            DeleteStage::RemoveMarker => if reply.is_done() {
                Progress::Done(())
            } else {
                Progress::Failed(BranchError::Action(None))
            },
        }
    }
}

impl Machine for DeleteView {
    type Result = ();

    open spec fn act(self) -> ActionView {
        self.action()
    }

    open spec fn step(self, reply: ReplyView) -> ProgressView<DeleteView, ()> {
        self.next(reply)
    }
}

/// `after` is a registry that was loaded, without the branch `name`.
pub open spec fn removed_in(
    asked: Seq<ActionView>,
    replies: Seq<ReplyView>,
    layout: Layout,
    name: Seq<char>,
    after: RegistryView,
) -> bool {
    exists|before: RegistryView| #[trigger]
        storage::loaded(asked, replies, layout, before) && after == before.removed(name)
}

/// What was asked for begins with asking git for the root and telling it to delete the branch:
/// `replies` gave the root.
pub open spec fn asked_to_delete(
    asked: Seq<ActionView>,
    replies: Seq<ReplyView>,
    cwd: PathBuf,
    name: Seq<char>,
) -> bool {
    &&& replies.len() >= 1
    &&& git::root_in(replies[0]) matches Ok(root)
    &&& asked.len() >= 2
    &&& asked[0] == GitView::ShowRoot.at(cwd)
    &&& asked[1] == GitView::Delete { name }.at(root)
}

/// The `i`-th thing that was asked for is to store a registry that was loaded, without `name`.
pub open spec fn forgets_at(
    asked: Seq<ActionView>,
    replies: Seq<ReplyView>,
    layout: Layout,
    name: Seq<char>,
    i: int,
) -> bool {
    &&& 0 <= i < asked.len()
    &&& asked[i] matches ActionView::Store { path, registry }
    &&& path == layout.registry_path
    &&& removed_in(asked, replies, layout, name, registry)
}

/// Where that is wanted, it was asked for the branch's work directory, and a work directory that
/// was there was removed.
pub open spec fn work_dir_is_gone(
    asked: Seq<ActionView>,
    replies: Seq<ReplyView>,
    layout: Layout,
    name: Seq<char>,
    delete_workdir: bool,
) -> bool {
    let path = layout.work_dir(name);
    delete_workdir ==> {
        &&& asked.len() > 2
        &&& replies.len() > 2
        &&& asked[2] == (ActionView::Exists { path })
        &&& replies[2] == ReplyView::Exists(true) ==> {
            &&& asked.len() > 3
            &&& replies.len() > 3
            &&& asked[3] == (ActionView::RemoveDir { path })
            &&& replies[3] == ReplyView::Done
        }
    }
}

/// The last thing that was asked for, and the reply to it, leave no marker that names `name`: the
/// marker does not name it, or there is none, or it was removed.
pub open spec fn marker_is_clear(
    asked: Seq<ActionView>,
    replies: Seq<ReplyView>,
    layout: Layout,
    name: Seq<char>,
) -> bool {
    let i = asked.len() - 1;
    let marker = layout.marker();
    &&& 0 <= i < replies.len()
    &&& {
        ||| asked[i] == (ActionView::Read { path: marker }) && active::current_in(replies[i])
            != Some(name)
        ||| asked[i] == (ActionView::Exists { path: marker }) && replies[i] != ReplyView::Exists(
            true,
        )
        ||| asked[i] == (ActionView::Remove { path: marker }) && replies[i] == ReplyView::Done
    }
}

/// A directory is removed only where that was wanted, and only the branch's work directory; a
/// file is removed only where it is the marker.
pub open spec fn removes_only(
    asked: Seq<ActionView>,
    layout: Layout,
    name: Seq<char>,
    delete_workdir: bool,
) -> bool {
    &&& forall|i: int|
        #![trigger asked[i]]
        0 <= i < asked.len() ==> (asked[i] matches ActionView::RemoveDir { path } ==> delete_workdir
            && path == layout.work_dir(name))
    &&& forall|i: int|
        #![trigger asked[i]]
        0 <= i < asked.len() ==> (asked[i] matches ActionView::Remove { path } ==> path
            == layout.marker())
}

/// The marker is never written, and it is removed only after it was read and named the branch.
pub open spec fn marker_is_only_cleared(
    asked: Seq<ActionView>,
    replies: Seq<ReplyView>,
    layout: Layout,
    name: Seq<char>,
) -> bool {
    &&& forall|i: int| 0 <= i < asked.len() ==> !(#[trigger] asked[i] is Write)
    &&& forall|i: int|
        0 <= i < asked.len() && #[trigger] asked[i] is Remove ==> {
            &&& 2 <= i <= replies.len()
            &&& asked[i - 2] == (ActionView::Read { path: layout.marker() })
            &&& active::current_in(replies[i - 2]) == Some(name)
        }
}

spec fn delete_inv(begun: DeleteView, r: Run<DeleteView>, past: Seq<ReplyView>) -> bool {
    let n = r.asked.len() as int;
    &&& removes_only(r.asked, begun.layout, begun.name, begun.delete_workdir)
    &&& marker_is_only_cleared(r.asked, past, begun.layout, begun.name)
    &&& n > 0
    &&& r.asked[0] == GitView::ShowRoot.at(begun.cwd)
    &&& n > 1 ==> !is_base(begun.name) && asked_to_delete(r.asked, past, begun.cwd, begun.name)
    &&& !(r.progress is Ask) ==> past.len() > 0
    &&& n > 2 ==> past[1].succeeded()
    &&& n == 1 && past.len() > 0 ==> r.progress == begun.next(past[0]) && !(r.progress is Ask)
    &&& match r.progress {
        ProgressView::Ask(op) => {
            &&& op == begun.at(op.stage)
            &&& r.asked.last() == op.action()
            &&& n == past.len() + 1
            &&& op.stage is Root <==> n == 1
            &&& op.stage is Root || op.stage is Delete || op.stage is FindWorkDir
                || op.stage is RemoveWorkDir || work_dir_is_gone(
                r.asked,
                past,
                begun.layout,
                begun.name,
                begun.delete_workdir,
            )
            &&& match op.stage {
                DeleteStageView::Root => true,
                DeleteStageView::Delete { .. } => n == 2,
                DeleteStageView::FindWorkDir => n == 3 && begun.delete_workdir,
                DeleteStageView::RemoveWorkDir => n == 4 && begun.delete_workdir && r.asked[2] == (
                ActionView::Exists { path: begun.layout.work_dir(begun.name) }),
                DeleteStageView::Load { load } => storage::loading(
                    r.asked,
                    past,
                    begun.layout,
                    load,
                ),
                DeleteStageView::Save { save } => removed_in(
                    r.asked,
                    past,
                    begun.layout,
                    begun.name,
                    save.registry,
                ),
                DeleteStageView::ReadMarker => forgets_at(
                    r.asked,
                    past,
                    begun.layout,
                    begun.name,
                    n - 2,
                ),
                DeleteStageView::FindMarker => {
                    &&& forgets_at(r.asked, past, begun.layout, begun.name, n - 3)
                    &&& r.asked[n - 2] == (ActionView::Read { path: begun.layout.marker() })
                    &&& active::current_in(past[n - 2]) == Some(begun.name)
                },
                DeleteStageView::RemoveMarker => forgets_at(
                    r.asked,
                    past,
                    begun.layout,
                    begun.name,
                    n - 4,
                ),
            }
        },
        ProgressView::Done(_) => {
            &&& n > 2
            &&& work_dir_is_gone(
                r.asked,
                past,
                begun.layout,
                begun.name,
                begun.delete_workdir,
            )
            &&& marker_is_clear(r.asked, past, begun.layout, begun.name)
            &&& exists|i: int| forgets_at(r.asked, past, begun.layout, begun.name, i)
        },
        ProgressView::Failed(BranchErrorView::Refused(_)) => n <= 2 && run::wrote_nothing(r.asked),
        ProgressView::Failed(_) => true,
    }
}

proof fn lemma_delete_step(
    begun: DeleteView,
    r: Run<DeleteView>,
    past: Seq<ReplyView>,
    reply: ReplyView,
)
    requires
        begun.stage is Root,
        run::keeps_pace(r, past),
        delete_inv(begun, r, past),
    ensures
        delete_inv(begun, r.replied(reply), past.push(reply)),
{
    storage::lemma_loaded_stays(r, past, begun.layout, reply);
    let now = past.push(reply);
    let after = r.replied(reply);
    let n = r.asked.len() as int;
    assert(past.len() > 0 ==> now[0] == past[0]);
    assert(now[past.len() as int] == reply);
    assert(forall|i: int| 0 <= i < past.len() ==> now[i] == #[trigger] past[i]);
    assert(forall|i: int| 0 <= i < n ==> after.asked[i] == #[trigger] r.asked[i]);
    assert forall|i: int| 0 <= i < n && #[trigger] after.asked[i] is Remove implies {
        &&& 2 <= i <= now.len()
        &&& after.asked[i - 2] == (ActionView::Read { path: begun.layout.marker() })
        &&& active::current_in(now[i - 2]) == Some(begun.name)
    } by {
        assert(r.asked[i] is Remove);
        assert(r.asked[i - 2] == after.asked[i - 2]);
        assert(past[i - 2] == now[i - 2]);
    }
    assert(past.len() > 1 ==> now[1] == past[1]);
    assert(past.len() > 2 ==> now[2] == past[2]);
    assert(past.len() > 3 ==> now[3] == past[3]);
    if r.progress is Ask {
        let op = r.progress->Ask_0;
        assert(now[n - 1] == reply);
        match op.stage {
            DeleteStageView::Root => {
                assert(op == begun);
            },
            DeleteStageView::Load { load } => {
                storage::lemma_load_step(r, past, begun.layout, load, reply);
            },
            DeleteStageView::Save { save } => {
                assert(removed_in(after.asked, now, begun.layout, begun.name, save.registry));
            },
            DeleteStageView::ReadMarker => {
                assert(forgets_at(after.asked, now, begun.layout, begun.name, n - 2));
            },
            DeleteStageView::FindMarker => {
                assert(forgets_at(after.asked, now, begun.layout, begun.name, n - 3));
            },
            DeleteStageView::RemoveMarker => {
                assert(forgets_at(after.asked, now, begun.layout, begun.name, n - 4));
            },
            _ => {},
        }
    } else if r.progress is Done {
        let i = choose|i: int| forgets_at(r.asked, past, begun.layout, begun.name, i);
        assert(forgets_at(after.asked, now, begun.layout, begun.name, i));
        assert(now[n - 1] == past[n - 1]);
    }
}

proof fn lemma_delete_run(begun: DeleteView, replies: Seq<ReplyView>)
    requires
        begun.stage is Root,
    ensures
        delete_inv(begun, run::run(begun, replies), replies),
{
    let inv = |r: Run<DeleteView>, past: Seq<ReplyView>| delete_inv(begun, r, past);
    assert forall|r: Run<DeleteView>, past: Seq<ReplyView>, reply: ReplyView|
        run::keeps_pace(r, past) && inv(r, past) implies #[trigger] inv(
        r.replied(reply),
        past.push(reply),
    ) by {
        lemma_delete_step(begun, r, past, reply);
    }
    run::lemma_run_invariant(begun, replies, inv);
}

/// Deleting a branch succeeds only after git was told to delete it and did, its work directory was
/// removed where that is wanted and there was one, and a registry that was loaded was stored
/// without the branch; the marker of the current branch then does not name it. Nothing is ever
/// removed but the work directory, where that is wanted, and the marker, which is removed only
/// after it was read and named the branch, and never written. A deletion that is refused has
/// written nothing.
pub proof fn law_delete(
    layout: Layout,
    cwd: PathBuf,
    name: Seq<char>,
    delete_workdir: bool,
    replies: Seq<ReplyView>,
)
    ensures
        ({
            let r = run::run(DeleteView::begun(layout, cwd, name, delete_workdir), replies);
            &&& removes_only(r.asked, layout, name, delete_workdir)
            &&& marker_is_only_cleared(r.asked, replies, layout, name)
            &&& r.progress is Done ==> {
                &&& asked_to_delete(r.asked, replies, cwd, name)
                &&& replies.len() > 1 && replies[1].succeeded()
                &&& exists|i: int| forgets_at(r.asked, replies, layout, name, i)
                &&& work_dir_is_gone(r.asked, replies, layout, name, delete_workdir)
                &&& marker_is_clear(r.asked, replies, layout, name)
            }
            &&& r.progress matches ProgressView::Failed(BranchErrorView::Refused(_))
                ==> run::wrote_nothing(r.asked)
        }),
{
    lemma_delete_run(DeleteView::begun(layout, cwd, name, delete_workdir), replies);
}

/// A base branch is never deleted: git is asked for the root of the repository and for nothing
/// else, and where there is one, the deletion is refused.
pub proof fn law_base_branch_is_kept(
    layout: Layout,
    cwd: PathBuf,
    name: Seq<char>,
    delete_workdir: bool,
    replies: Seq<ReplyView>,
)
    requires
        is_base(name),
    ensures
        ({
            let r = run::run(DeleteView::begun(layout, cwd, name, delete_workdir), replies);
            &&& r.asked == seq![GitView::ShowRoot.at(cwd)]
            &&& !(r.progress is Done)
            &&& replies.len() > 0 && git::root_in(replies[0]) is Ok ==> r.progress
                == ProgressView::<DeleteView, ()>::Failed(
                BranchErrorView::Refused(RefusalView::IsBaseBranch),
            )
        }),
{
    let begun = DeleteView::begun(layout, cwd, name, delete_workdir);
    lemma_delete_run(begun, replies);
    let r = run::run(begun, replies);
    assert(r.asked =~= seq![GitView::ShowRoot.at(cwd)]);
}

/// Deleting a branch that git does not delete, as one that does not exist, is refused with what
/// git wrote of it, whatever else is replied; outside of a repository, none is deleted.
pub proof fn law_delete_is_refused(
    layout: Layout,
    cwd: PathBuf,
    name: Seq<char>,
    delete_workdir: bool,
    stderr: Seq<char>,
    replies: Seq<ReplyView>,
)
    requires
        replies.len() >= 2,
    ensures
        ({
            let begun = DeleteView::begun(layout, cwd, name, delete_workdir);
            let progress = run::run(begun, replies).progress;
            match git::root_in(replies[0]) {
                Err(error) => progress == ProgressView::<DeleteView, ()>::Failed(error),
                Ok(_) => !is_base(name) && replies[1].complained(stderr) ==> progress
                    == ProgressView::<DeleteView, ()>::Failed(
                    BranchErrorView::Refused(RefusalView::NotDeleted { stderr }),
                ),
            }
        }),
{
    let m = DeleteView::begun(layout, cwd, name, delete_workdir);
    run::lemma_run_steps(m, replies, 0);
    run::lemma_run_steps(m, replies, 1);
    if !(run::run(m, replies.take(2)).progress is Ask) {
        run::lemma_run_stays(m, replies, 2);
    }
}

/// Deleting a branch takes at most thirteen replies, and where each of them answers in kind, it
/// ends with a result or is refused.
pub proof fn law_delete_ends(op: DeleteView, replies: Seq<ReplyView>)
    requires
        replies.len() >= op.rank(),
    ensures
        !(run::run(op, replies).progress is Ask),
        run::fails_with_its_action(run::run(op, replies), replies),
        op.rank() <= 13,
{
    run::lemma_run_fails_with_its_action(op, replies);
    run::lemma_run_ends(op, replies, |op: DeleteView| op.rank());
}

/// In the registry, deleting a branch undoes creating it, but that no branch is active then, and
/// that a branch which had its identifier before is gone too: where there was none, the branches
/// are as before.
pub proof fn law_delete_undoes_create(before: RegistryView, branch: BranchView)
    requires
        !before.removed(branch.id).knows(branch.id),
    ensures
        before.recorded(branch).removed(branch.id) == (RegistryView {
            branches: before.removed(branch.id).branches,
            active_branch: None,
        }),
        !before.knows(branch.id) ==> before.recorded(branch).removed(branch.id).branches
            == before.branches,
{
    let rest = before.removed(branch.id);
    let after = before.recorded(branch);
    crate::create::law_created_branch_is_found(before, branch, branch.id);
    let n = rest.branches.len() as int;
    assert(after.branches[n] == branch);
    assert forall|j: int| 0 <= j < n implies (#[trigger] after.branches[j]).id != branch.id by {
        assert(after.branches[j] == rest.branches[j]);
    }
    assert(after.is_first(branch.id, n));
    crate::registry::lemma_position(after, branch.id);
    assert(after.branches.remove(n) =~= rest.branches);
}

/// What operations keep of registries, a deletion keeps.
proof fn lemma_delete_keeps(
    m: DeleteView,
    replies: Seq<ReplyView>,
    p: spec_fn(RegistryView) -> bool,
)
    requires
        run::is_kept(p),
        !(m.stage is Save),
    ensures
        run::stays(run::run(m, replies).asked, replies, p),
{
    let holds = |m: DeleteView|
        m.stage matches DeleteStageView::Save { save, .. } ==> p(save.registry);
    run::lemma_run_keeps(m, replies, p, holds);
}

/// The registry stays sound under a deletion: where no two branches of the registry that is
/// loaded have the same identifier, no two of the one that is stored have, and the active branch
/// stays a known one.
pub proof fn law_delete_keeps_registry_sound(
    layout: Layout,
    cwd: PathBuf,
    name: Seq<char>,
    delete_workdir: bool,
    replies: Seq<ReplyView>,
)
    ensures
        run::registry_stays_sound(
            run::run(DeleteView::begun(layout, cwd, name, delete_workdir), replies).asked,
            replies,
        ),
{
    let m = DeleteView::begun(layout, cwd, name, delete_workdir);
    run::lemma_soundness_is_kept();
    lemma_delete_keeps(m, replies, run::unique_ids());
    lemma_delete_keeps(m, replies, run::known_active());
}

} // verus!

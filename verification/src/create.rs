//! Creating a feature branch with its work directory.

use crate::action::{Action, ActionView, Progress, ProgressView, Reply, ReplyView};
use crate::branch::{self, AgentId, Branch, BranchView};
use crate::clock;
use crate::error::{BranchError, BranchErrorView, Context, Refusal, RefusalView};
use crate::git::{self, Git, GitView};
use crate::layout::Layout;
use crate::registry::{self, RegistryView};
use crate::run::{self, Machine, Run};
use crate::storage::{self, LoadRegistry, LoadView, SaveRegistry, SaveView};
use chrono::NaiveDateTime;
use std::path::PathBuf;
use vstd::prelude::*;

verus! {

/// Creating a branch, step by step
#[derive(Debug)]
pub struct CreateBranch {
    /// Where the service keeps its files
    pub layout: Layout,
    /// The current directory
    pub cwd: PathBuf,
    /// The name of the branch
    pub name: String,
    /// The description of its task
    pub task: String,
    /// The agent to be assigned, if any
    pub agent_id: Option<AgentId>,
    /// How far the creation has come
    pub stage: CreateStage,
}

/// How far the creation of a branch has come
#[derive(Debug)]
pub enum CreateStage {
    /// Git is asked for the root of the repository
    Root,
    /// Git is asked whether the branch exists
    Verify { root: PathBuf },
    /// Git is told to create the branch
    Checkout { root: PathBuf },
    /// The work directory is being created
    WorkDir,
    /// The registry is being loaded
    Load { load: LoadRegistry, branch: Branch },
    /// The registry is being saved
    Save { save: SaveRegistry, branch: Branch },
    /// The branch is being marked as the current one
    Mark { branch: Branch },
}

/// What a step of creating a branch holds.
pub struct CreateView {
    pub layout: Layout,
    pub cwd: PathBuf,
    pub name: Seq<char>,
    pub task: Seq<char>,
    pub agent_id: Option<Seq<char>>,
    pub stage: CreateStageView,
}

/// What a stage of creating a branch holds.
pub enum CreateStageView {
    Root,
    Verify { root: PathBuf },
    Checkout { root: PathBuf },
    WorkDir,
    Load { load: LoadView, branch: BranchView },
    Save { save: SaveView, branch: BranchView },
    Mark { branch: BranchView },
}

impl View for CreateStage {
    type V = CreateStageView;

    open spec fn view(&self) -> CreateStageView {
        match *self {
            CreateStage::Root => CreateStageView::Root,
            CreateStage::Verify { root } => CreateStageView::Verify { root },
            CreateStage::Checkout { root } => CreateStageView::Checkout { root },
            CreateStage::WorkDir => CreateStageView::WorkDir,
            CreateStage::Load { load, branch } => CreateStageView::Load {
                load: load@,
                branch: branch@,
            },
            CreateStage::Save { save, branch } => CreateStageView::Save {
                save: save@,
                branch: branch@,
            },
            CreateStage::Mark { branch } => CreateStageView::Mark { branch: branch@ },
        }
    }
}

impl View for CreateBranch {
    type V = CreateView;

    open spec fn view(&self) -> CreateView {
        CreateView {
            layout: self.layout,
            cwd: self.cwd,
            name: self.name@,
            task: self.task@,
            agent_id: branch::agent_view(self.agent_id),
            stage: self.stage@,
        }
    }
}

impl CreateView {
    /// The creation of a branch, before anything is done.
    pub open spec fn begun(
        layout: Layout,
        cwd: PathBuf,
        name: Seq<char>,
        task: Seq<char>,
        agent_id: Option<Seq<char>>,
    ) -> CreateView {
        CreateView { layout, cwd, name, task, agent_id, stage: CreateStageView::Root }
    }

    /// The same creation at another stage.
    pub open spec fn at(self, stage: CreateStageView) -> CreateView {
        CreateView { stage, ..self }
    }

    /// The branch that is created, dated `now`.
    pub open spec fn branch(self, now: NaiveDateTime) -> BranchView {
        BranchView::created(
            self.name,
            self.task,
            self.layout.work_dir(self.name),
            now,
        ).assigned(self.agent_id)
    }

    /// What is to be done.
    pub open spec fn action(self) -> ActionView {
        match self.stage {
            CreateStageView::Root => GitView::ShowRoot.at(self.cwd),
            CreateStageView::Verify { root } => GitView::Verify { name: self.name }.at(root),
            CreateStageView::Checkout { root } => GitView::CheckoutNew { name: self.name }.at(root),
            CreateStageView::WorkDir => ActionView::CreateDirs {
                path: self.layout.work_dir(self.name),
            },
            CreateStageView::Load { load, .. } => load.action(self.layout),
            CreateStageView::Save { save, .. } => save.action(self.layout),
            CreateStageView::Mark { .. } => storage::mark(self.layout, self.name),
        }
    }

    /// What follows the reply, where the time is `now`.
    pub open spec fn next(self, reply: ReplyView, now: NaiveDateTime) -> ProgressView<
        CreateView,
        BranchView,
    > {
        match self.stage {
            CreateStageView::Root => match git::root_in(reply) {
                Ok(root) => ProgressView::Ask(self.at(CreateStageView::Verify { root })),
                Err(error) => ProgressView::Failed(error),
            },
            CreateStageView::Verify { root } => match reply {
                ReplyView::Output(output) => if output.succeeded() {
                    ProgressView::Failed(
                        BranchErrorView::Refused(RefusalView::AlreadyExists { name: self.name }),
                    )
                } else {
                    ProgressView::Ask(self.at(CreateStageView::Checkout { root }))
                },
                _ => ProgressView::Failed(BranchErrorView::Action(None)),
            },
            CreateStageView::Checkout { root } => match reply {
                ReplyView::Output(output) => if output.succeeded() {
                    ProgressView::Ask(self.at(CreateStageView::WorkDir))
                } else {
                    ProgressView::Failed(
                        BranchErrorView::Refused(RefusalView::NotCreated { stderr: output.stderr }),
                    )
                },
                _ => ProgressView::Failed(BranchErrorView::Action(Some(Context::CreateBranch))),
            },
            CreateStageView::WorkDir => match reply {
                ReplyView::Done => ProgressView::Ask(
                    self.at(
                        CreateStageView::Load { load: LoadView::Find, branch: self.branch(now) },
                    ),
                ),
                _ => ProgressView::Failed(BranchErrorView::Action(None)),
            },
            CreateStageView::Load { load, branch } => match load.next(reply) {
                ProgressView::Ask(load) => ProgressView::Ask(
                    self.at(CreateStageView::Load { load, branch }),
                ),
                ProgressView::Done(registry) => ProgressView::Ask(
                    self.at(
                        CreateStageView::Save {
                            save: SaveView::of(registry.recorded(branch)),
                            branch,
                        },
                    ),
                ),
                ProgressView::Failed(error) => ProgressView::Failed(error),
            },
            CreateStageView::Save { save, branch } => match save.next(reply) {
                ProgressView::Ask(save) => ProgressView::Ask(
                    self.at(CreateStageView::Save { save, branch }),
                ),
                ProgressView::Done(_) => ProgressView::Ask(
                    self.at(CreateStageView::Mark { branch }),
                ),
                ProgressView::Failed(error) => ProgressView::Failed(error),
            },
            CreateStageView::Mark { branch } => match reply {
                ReplyView::Done => ProgressView::Done(branch),
                _ => ProgressView::Failed(BranchErrorView::Action(None)),
            },
        }
    }

    /// How many replies are to come at most.
    pub open spec fn rank(self) -> nat {
        match self.stage {
            CreateStageView::Root => 11,
            CreateStageView::Verify { .. } => 10,
            CreateStageView::Checkout { .. } => 9,
            CreateStageView::WorkDir => 8,
            CreateStageView::Load { load, .. } => 4 + load.rank(),
            CreateStageView::Save { save, .. } => 1 + save.rank(),
            CreateStageView::Mark { .. } => 1,
        }
    }
}

impl CreateBranch {
    /// What is to be done
    pub fn action(&self) -> (res: Action)
        ensures
            res@ == self@.action(),
    {
        match &self.stage {
            CreateStage::Root => Git::ShowRoot.at(&self.cwd),
            CreateStage::Verify { root } => Git::Verify { name: self.name.as_str() }.at(root),
            CreateStage::Checkout { root } => Git::CheckoutNew { name: self.name.as_str() }.at(
                root,
            ),
            CreateStage::WorkDir => Action::CreateDirs {
                path: self.layout.work_dir_for_branch(self.name.as_str()),
            },
            CreateStage::Load { load, .. } => load.action(&self.layout),
            CreateStage::Save { save, .. } => save.action(&self.layout),
            CreateStage::Mark { .. } => storage::mark_current(&self.layout, self.name.as_str()),
        }
    }

    /// Go on with the reply, dating the branch by the clock
    pub fn next(self, reply: Reply) -> (res: Progress<CreateBranch, Branch>)
        ensures
            exists|now: NaiveDateTime| res@ == #[trigger] self@.next(reply@, now),
    {
        match self.stage {
            CreateStage::WorkDir if reply.is_done() => self.dated(clock::now()),
            _ => {
                let ghost now: NaiveDateTime = arbitrary();
                let ghost follows = self@.next(reply@, now);
                self.undated(reply)
            },
        }
    }

    /// Go on with the reply, where the time is `now`
    pub fn next_at(self, reply: Reply, now: NaiveDateTime) -> (res: Progress<CreateBranch, Branch>)
        ensures
            res@ == self@.next(reply@, now),
    {
        match self.stage {
            CreateStage::WorkDir if reply.is_done() => self.dated(now),
            _ => self.undated(reply),
        }
    }

    /// Make the branch, dated `now`, the work directory being there
    fn dated(self, now: NaiveDateTime) -> (res: Progress<CreateBranch, Branch>)
        requires
            self.stage is WorkDir,
        ensures
            res@ == self@.next(ReplyView::Done, now),
    {
        let work_dir = self.layout.work_dir_for_branch(self.name.as_str());
        let branch = Branch::created(
            self.name.as_str(),
            self.task.as_str(),
            work_dir,
            now,
        ).agent_opt(self.agent_id.clone());
        let load = LoadRegistry::Find;
        Progress::Ask(CreateBranch { stage: CreateStage::Load { load, branch }, ..self })
    }

    /// Go on with a reply after which the branch is not made
    fn undated(self, reply: Reply) -> (res: Progress<CreateBranch, Branch>)
        requires
            self.stage is WorkDir ==> reply@ != ReplyView::Done,
        ensures
            forall|now: NaiveDateTime| res@ == #[trigger] self@.next(reply@, now),
    {
        match self.stage {
            CreateStage::Root => match git::get_git_root(&reply) {
                Ok(root) => Progress::Ask(
                    CreateBranch { stage: CreateStage::Verify { root }, ..self },
                ),
                Err(error) => Progress::Failed(error),
            },
            CreateStage::Verify { root } => match reply {
                Reply::Output(output) => if output.succeeded() {
                    Progress::Failed(
                        BranchError::Refused(Refusal::AlreadyExists { name: self.name }),
                    )
                } else {
                    Progress::Ask(CreateBranch { stage: CreateStage::Checkout { root }, ..self })
                },
                _ => Progress::Failed(BranchError::Action(None)),
            },
            CreateStage::Checkout { .. } => match reply {
                Reply::Output(output) => if output.succeeded() {
                    Progress::Ask(CreateBranch { stage: CreateStage::WorkDir, ..self })
                } else {
                    Progress::Failed(
                        BranchError::Refused(Refusal::NotCreated { stderr: output.stderr }),
                    )
                },
                _ => Progress::Failed(BranchError::Action(Some(Context::CreateBranch))),
            },
            CreateStage::WorkDir => Progress::Failed(BranchError::Action(None)),
            CreateStage::Load { load, branch } => match load.next(reply) {
                Progress::Ask(load) => Progress::Ask(
                    CreateBranch { stage: CreateStage::Load { load, branch }, ..self },
                ),
                Progress::Done(registry) => {
                    let mut registry = registry;
                    registry.record(branch.clone());
                    let save = SaveRegistry::begin(registry);
                    Progress::Ask(
                        CreateBranch { stage: CreateStage::Save { save, branch }, ..self },
                    )
                },
                Progress::Failed(error) => Progress::Failed(error),
            },
            CreateStage::Save { save, branch } => match save.next(&reply) {
                Progress::Ask(save) => Progress::Ask(
                    CreateBranch { stage: CreateStage::Save { save, branch }, ..self },
                ),
                Progress::Done(_) => Progress::Ask(
                    CreateBranch { stage: CreateStage::Mark { branch }, ..self },
                ),
                Progress::Failed(error) => Progress::Failed(error),
            },
            CreateStage::Mark { branch } => if reply.is_done() {
                Progress::Done(branch)
            } else {
                Progress::Failed(BranchError::Action(None))
            },
        }
    }
}

/// The creation of a branch, with the time at which the branch is dated.
pub struct DatedCreate {
    pub op: CreateView,
    pub now: NaiveDateTime,
}

impl Machine for DatedCreate {
    type Result = BranchView;

    open spec fn act(self) -> ActionView {
        self.op.action()
    }

    open spec fn step(self, reply: ReplyView) -> ProgressView<DatedCreate, BranchView> {
        match self.op.next(reply, self.now) {
            ProgressView::Ask(op) => ProgressView::Ask(DatedCreate { op, ..self }),
            ProgressView::Done(branch) => ProgressView::Done(branch),
            ProgressView::Failed(error) => ProgressView::Failed(error),
        }
    }
}

/// `after` is a registry that was loaded, with `branch` recorded in it.
pub open spec fn created_in(
    asked: Seq<ActionView>,
    replies: Seq<ReplyView>,
    layout: Layout,
    branch: BranchView,
    after: RegistryView,
) -> bool {
    exists|before: RegistryView| #[trigger]
        storage::loaded(asked, replies, layout, before) && after == before.recorded(branch)
}

/// What was asked for begins with asking git for the root and for the branch: `replies` gave the
/// root.
pub open spec fn asked_for_branch(
    asked: Seq<ActionView>,
    replies: Seq<ReplyView>,
    cwd: PathBuf,
    name: Seq<char>,
) -> bool {
    &&& replies.len() >= 1
    &&& git::root_in(replies[0]) matches Ok(root)
    &&& asked.len() >= 2
    &&& asked[0] == GitView::ShowRoot.at(cwd)
    &&& asked[1] == GitView::Verify { name }.at(root)
}

/// Git knew of no such branch, and did create it when it was told to; then its work directory was
/// to be created.
pub open spec fn asked_to_create(
    asked: Seq<ActionView>,
    replies: Seq<ReplyView>,
    layout: Layout,
    name: Seq<char>,
) -> bool {
    &&& replies.len() >= 3
    &&& git::root_in(replies[0]) matches Ok(root)
    &&& replies[1] is Output && !replies[1].succeeded()
    &&& asked.len() >= 4
    &&& asked[2] == GitView::CheckoutNew { name }.at(root)
    &&& replies[2].succeeded()
    &&& asked[3] == (ActionView::CreateDirs { path: layout.work_dir(name) })
}

/// What was asked for ends with storing a registry that was loaded, with `branch` recorded in it,
/// and with marking the branch as the current one.
pub open spec fn asked_to_record(
    asked: Seq<ActionView>,
    replies: Seq<ReplyView>,
    layout: Layout,
    branch: BranchView,
) -> bool {
    &&& asked.len() >= 2
    &&& asked.last() == storage::mark(layout, branch.name)
    &&& asked[asked.len() - 2] matches ActionView::Store { path, registry }
    &&& path == layout.registry_path
    &&& created_in(asked, replies, layout, branch, registry)
}

spec fn create_inv(begun: CreateView, r: Run<DatedCreate>, past: Seq<ReplyView>, now: NaiveDateTime)
    -> bool {
    let branch = begun.branch(now);
    match r.progress {
        ProgressView::Ask(m) => {
            &&& m.now == now
            &&& m.op == begun.at(m.op.stage)
            &&& r.asked.len() > 0
            &&& r.asked.last() == m.op.action()
            &&& !(m.op.stage is Root) ==> asked_for_branch(r.asked, past, begun.cwd, begun.name)
            &&& match m.op.stage {
                CreateStageView::Root => past.len() == 0 && r.asked.len() == 1,
                CreateStageView::Verify { root } => git::root_in(past[0]) == Ok::<
                    PathBuf,
                    BranchErrorView,
                >(root) && r.asked.len() == 2,
                CreateStageView::Checkout { root } => git::root_in(past[0]) == Ok::<
                    PathBuf,
                    BranchErrorView,
                >(root) && r.asked.len() == 3 && past[1] is Output && !past[1].succeeded(),
                CreateStageView::WorkDir => r.asked.len() == 4 && asked_to_create(
                    r.asked,
                    past,
                    begun.layout,
                    begun.name,
                ),
                CreateStageView::Load { branch: b, load } => b == branch && asked_to_create(
                    r.asked,
                    past,
                    begun.layout,
                    begun.name,
                ) && storage::loading(r.asked, past, begun.layout, load),
                CreateStageView::Save { branch: b, save } => b == branch && asked_to_create(
                    r.asked,
                    past,
                    begun.layout,
                    begun.name,
                ) && created_in(r.asked, past, begun.layout, branch, save.registry),
                CreateStageView::Mark { branch: b } => b == branch && asked_to_create(
                    r.asked,
                    past,
                    begun.layout,
                    begun.name,
                ) && asked_to_record(r.asked, past, begun.layout, branch),
            }
        },
        ProgressView::Done(b) => {
            &&& b == branch
            &&& asked_for_branch(r.asked, past, begun.cwd, begun.name)
            &&& asked_to_create(r.asked, past, begun.layout, begun.name)
            &&& asked_to_record(r.asked, past, begun.layout, branch)
        },
        ProgressView::Failed(BranchErrorView::Refused(refusal)) => {
            &&& run::wrote_nothing(r.asked)
            &&& refusal is AlreadyExists ==> {
                &&& refusal == RefusalView::AlreadyExists { name: begun.name }
                &&& r.asked.len() == 2
                &&& asked_for_branch(r.asked, past, begun.cwd, begun.name)
            }
        },
        ProgressView::Failed(_) => true,
    }
}

proof fn lemma_create_step(
    begun: CreateView,
    r: Run<DatedCreate>,
    past: Seq<ReplyView>,
    now: NaiveDateTime,
    reply: ReplyView,
)
    requires
        run::keeps_pace(r, past),
        create_inv(begun, r, past, now),
    ensures
        create_inv(begun, r.replied(reply), past.push(reply), now),
{
    let after = r.replied(reply);
    let done = past.push(reply);
    storage::lemma_loaded_stays(r, past, begun.layout, reply);
    assert(past.len() > 0 ==> done[0] == past[0]);
    assert(past.len() > 1 ==> done[1] == past[1]);
    assert(past.len() > 2 ==> done[2] == past[2]);
    assert(done[past.len() as int] == reply);
    if r.progress is Ask {
        let op = r.progress->Ask_0.op;
        match op.stage {
            CreateStageView::Load { load, .. } => {
                storage::lemma_load_step(r, past, begun.layout, load, reply);
            },
            CreateStageView::Save { save, branch } => {
                assert(created_in(after.asked, done, begun.layout, branch, save.registry));
            },
            CreateStageView::Mark { branch } => {
                let registry = r.asked[r.asked.len() - 2]->Store_registry;
                assert(created_in(after.asked, done, begun.layout, branch, registry));
            },
            _ => {},
        }
    }
}

/// Creating a branch succeeds only after git was asked for the branch and knew of none, git was
/// told to create it and did, its work directory was created, and it was recorded in the registry
/// that was loaded, as the active one, and marked as the current branch; the branch is then as it
/// was asked for. A creation that is refused has written nothing, and one that is refused because
/// the branch exists has done no more than to ask for it.
pub proof fn law_create(
    layout: Layout,
    cwd: PathBuf,
    name: Seq<char>,
    task: Seq<char>,
    agent_id: Option<Seq<char>>,
    now: NaiveDateTime,
    replies: Seq<ReplyView>,
)
    ensures
        ({
            let begun = CreateView::begun(layout, cwd, name, task, agent_id);
            let r = run::run(DatedCreate { op: begun, now }, replies);
            &&& r.progress matches ProgressView::Done(branch) ==> {
                &&& branch == begun.branch(now)
                &&& asked_for_branch(r.asked, replies, cwd, name)
                &&& asked_to_create(r.asked, replies, layout, name)
                &&& asked_to_record(r.asked, replies, layout, branch)
            }
            &&& r.progress matches ProgressView::Failed(BranchErrorView::Refused(refusal)) ==> {
                &&& run::wrote_nothing(r.asked)
                &&& refusal is AlreadyExists ==> {
                    &&& refusal == RefusalView::AlreadyExists { name }
                    &&& r.asked.len() == 2
                    &&& asked_for_branch(r.asked, replies, cwd, name)
                }
            }
        }),
{
    let begun = CreateView::begun(layout, cwd, name, task, agent_id);
    let inv = |r: Run<DatedCreate>, past: Seq<ReplyView>| create_inv(begun, r, past, now);
    assert forall|r: Run<DatedCreate>, past: Seq<ReplyView>, reply: ReplyView|
        run::keeps_pace(r, past) && inv(r, past) implies #[trigger] inv(
        r.replied(reply),
        past.push(reply),
    ) by {
        lemma_create_step(begun, r, past, now, reply);
    }
    run::lemma_run_invariant(DatedCreate { op: begun, now }, replies, inv);
}

/// Creating a branch that git already knows is refused, whatever else is replied; so is one that
/// git does not create, with what git wrote of it; outside of a repository, none is created.
pub proof fn law_create_is_refused(
    layout: Layout,
    cwd: PathBuf,
    name: Seq<char>,
    task: Seq<char>,
    agent_id: Option<Seq<char>>,
    now: NaiveDateTime,
    stderr: Seq<char>,
    replies: Seq<ReplyView>,
)
    requires
        replies.len() >= 3,
    ensures
        ({
            let op = CreateView::begun(layout, cwd, name, task, agent_id);
            let progress = run::run(DatedCreate { op, now }, replies).progress;
            match git::root_in(replies[0]) {
                Err(error) => progress == ProgressView::<DatedCreate, BranchView>::Failed(error),
                Ok(_) => {
                    &&& replies[1].succeeded() ==> progress == ProgressView::<
                        DatedCreate,
                        BranchView,
                    >::Failed(BranchErrorView::Refused(RefusalView::AlreadyExists { name }))
                    &&& replies[1] is Output && !replies[1].succeeded() && replies[2].complained(
                        stderr,
                    ) ==> progress == ProgressView::<DatedCreate, BranchView>::Failed(
                        BranchErrorView::Refused(RefusalView::NotCreated { stderr }),
                    )
                },
            }
        }),
{
    let m = DatedCreate { op: CreateView::begun(layout, cwd, name, task, agent_id), now };
    run::lemma_run_steps(m, replies, 0);
    run::lemma_run_steps(m, replies, 1);
    run::lemma_run_steps(m, replies, 2);
    if !(run::run(m, replies.take(3)).progress is Ask) {
        run::lemma_run_stays(m, replies, 3);
    }
}

/// Creating a branch takes at most eleven replies, and where each of them answers in kind, it ends
/// with the branch or is refused.
pub proof fn law_create_ends(op: CreateView, now: NaiveDateTime, replies: Seq<ReplyView>)
    requires
        replies.len() >= op.rank(),
    ensures
        !(run::run(DatedCreate { op, now }, replies).progress is Ask),
        run::fails_with_its_action(run::run(DatedCreate { op, now }, replies), replies),
        op.rank() <= 11,
{
    run::lemma_run_fails_with_its_action(DatedCreate { op, now }, replies);
    run::lemma_run_ends(DatedCreate { op, now }, replies, |m: DatedCreate| m.op.rank());
}

/// In the registry that is stored for a new branch, the branch is the last one and the active one,
/// and what is found under any other identifier is as it was. Where at most one branch had its
/// identifier, it is the one that is found, and the only one under it.
pub proof fn law_created_branch_is_found(
    before: RegistryView,
    branch: BranchView,
    other: Seq<char>,
)
    ensures
        ({
            let after = before.recorded(branch);
            &&& after.active_branch == Some(branch.id)
            &&& after.branches == before.removed(branch.id).branches.push(branch)
            &&& !before.knows(branch.id) ==> after.branches == before.branches.push(branch)
            &&& after.knows(branch.id)
            &&& !before.removed(branch.id).knows(branch.id) ==> {
                &&& after.lookup(branch.id) == Some(branch)
                &&& !after.removed(branch.id).knows(branch.id)
            }
            &&& before.ids_are_unique() ==> !before.removed(branch.id).knows(branch.id)
            &&& other != branch.id ==> after.lookup(other) == before.lookup(other)
        }),
{
    let rest = before.removed(branch.id);
    let added = rest.added(branch);
    let after = before.recorded(branch);
    let n = rest.branches.len() as int;
    assert(added.branches[n] == branch);
    assert(added.knows(branch.id));
    assert(after.branches[n] == branch);
    registry::law_lookup_after_remove(before, branch.id, other);
    registry::law_lookup_after_add(rest, branch, other);
    registry::law_lookup_after_add(rest, branch, branch.id);
    registry::law_lookup_after_remove(before, branch.id, branch.id);
    assert forall|id: Seq<char>| #[trigger] added.knows(id) implies after.knows(id)
        && after.lookup(id) == added.lookup(id) by {
        registry::lemma_position(added, id);
        let p = added.position(id);
        assert(after.branches[p].id == id);
        assert(after.is_first(id, p));
        registry::lemma_position(after, id);
    }
    if after.knows(other) {
        let i = choose|i: int|
            0 <= i < after.branches.len() && (#[trigger] after.branches[i]).id == other;
        assert(added.branches[i].id == other);
    }
    if !rest.knows(branch.id) {
        assert forall|j: int| 0 <= j < n implies (#[trigger] after.branches[j]).id
            != branch.id by {
            assert(after.branches[j] == rest.branches[j]);
        }
        assert(after.is_first(branch.id, n));
        registry::lemma_position(after, branch.id);
        let gone = after.removed(branch.id);
        assert(gone.branches =~= rest.branches);
        if gone.knows(branch.id) {
            let j = choose|j: int|
                0 <= j < gone.branches.len() && (#[trigger] gone.branches[j]).id == branch.id;
            assert(rest.branches[j].id == branch.id);
        }
    }
}

/// What operations keep of registries, a creation keeps.
proof fn lemma_create_keeps(
    m: DatedCreate,
    replies: Seq<ReplyView>,
    p: spec_fn(RegistryView) -> bool,
)
    requires
        run::is_kept(p),
        !(m.op.stage is Save),
    ensures
        run::stays(run::run(m, replies).asked, replies, p),
{
    let holds = |m: DatedCreate|
        m.op.stage matches CreateStageView::Save { save, .. } ==> p(save.registry);
    run::lemma_run_keeps(m, replies, p, holds);
}

/// The registry stays sound under a creation: where no two branches of the registry that is loaded
/// have the same identifier, no two of the one that is stored have, whatever the name of the new
/// branch is; and the active branch stays a known one.
pub proof fn law_create_keeps_registry_sound(
    layout: Layout,
    cwd: PathBuf,
    name: Seq<char>,
    task: Seq<char>,
    agent_id: Option<Seq<char>>,
    now: NaiveDateTime,
    replies: Seq<ReplyView>,
)
    ensures
        ({
            let op = CreateView::begun(layout, cwd, name, task, agent_id);
            run::registry_stays_sound(run::run(DatedCreate { op, now }, replies).asked, replies)
        }),
{
    let m = DatedCreate { op: CreateView::begun(layout, cwd, name, task, agent_id), now };
    run::lemma_soundness_is_kept();
    lemma_create_keeps(m, replies, run::unique_ids());
    lemma_create_keeps(m, replies, run::known_active());
}

} // verus!

//! Switching to a branch.

use crate::action::{Action, ActionView, Progress, ProgressView, Reply, ReplyView};
use crate::branch::{BranchId, BranchView};
use crate::create;
use crate::error::{BranchError, BranchErrorView, Context, Refusal, RefusalView};
use crate::git::{self, Git, GitView};
use crate::layout::Layout;
use crate::registry::RegistryView;
use crate::run::{self, Machine, Run};
use crate::storage::{self, LoadRegistry, LoadView, SaveRegistry, SaveView};
use std::path::PathBuf;
use vstd::prelude::*;

verus! {

/// Switching to a branch, step by step
#[derive(Debug)]
pub struct SwitchBranch {
    /// Where the service keeps its files
    pub layout: Layout,
    /// The current directory
    pub cwd: PathBuf,
    /// The name of the branch
    pub name: String,
    /// How far the switch has come
    pub stage: SwitchStage,
}

/// How far a switch has come
#[derive(Debug)]
pub enum SwitchStage {
    /// Git is asked for the root of the repository
    Root,
    /// Git is asked whether the branch exists
    Verify { root: PathBuf },
    /// Git is told to check the branch out
    Checkout { root: PathBuf },
    /// The branch is being marked as the current one
    Mark,
    /// The registry is being loaded
    Load { load: LoadRegistry },
    /// The registry is being saved; `to` is what the current directory is to be afterwards
    Save { save: SaveRegistry, to: PathBuf },
}

/// What a switch ends with
#[derive(Debug)]
pub struct Switched {
    /// What the current directory is to be from now on
    pub cwd: PathBuf,
}

impl DeepView for Switched {
    type V = PathBuf;

    open spec fn deep_view(&self) -> PathBuf {
        self.cwd
    }
}

/// What a step of switching holds.
pub struct SwitchView {
    pub layout: Layout,
    pub cwd: PathBuf,
    pub name: Seq<char>,
    pub stage: SwitchStageView,
}

/// What a stage of switching holds.
pub enum SwitchStageView {
    Root,
    Verify { root: PathBuf },
    Checkout { root: PathBuf },
    Mark,
    Load { load: LoadView },
    Save { save: SaveView, to: PathBuf },
}

impl View for SwitchStage {
    type V = SwitchStageView;

    open spec fn view(&self) -> SwitchStageView {
        match *self {
            SwitchStage::Root => SwitchStageView::Root,
            SwitchStage::Verify { root } => SwitchStageView::Verify { root },
            SwitchStage::Checkout { root } => SwitchStageView::Checkout { root },
            SwitchStage::Mark => SwitchStageView::Mark,
            SwitchStage::Load { load } => SwitchStageView::Load { load: load@ },
            SwitchStage::Save { save, to } => SwitchStageView::Save { save: save@, to },
        }
    }
}

impl View for SwitchBranch {
    type V = SwitchView;

    open spec fn view(&self) -> SwitchView {
        SwitchView {
            layout: self.layout,
            cwd: self.cwd,
            name: self.name@,
            stage: self.stage@,
        }
    }
}

impl SwitchView {
    /// A switch, before anything is done.
    pub open spec fn begun(layout: Layout, cwd: PathBuf, name: Seq<char>) -> SwitchView {
        SwitchView { layout, cwd, name, stage: SwitchStageView::Root }
    }

    /// The same switch at another stage.
    pub open spec fn at(self, stage: SwitchStageView) -> SwitchView {
        SwitchView { stage, ..self }
    }

    /// What is to be done.
    pub open spec fn action(self) -> ActionView {
        match self.stage {
            SwitchStageView::Root => GitView::ShowRoot.at(self.cwd),
            SwitchStageView::Verify { root } => GitView::Verify { name: self.name }.at(root),
            SwitchStageView::Checkout { root } => GitView::Checkout { name: self.name }.at(root),
            SwitchStageView::Mark => storage::mark(self.layout, self.name),
            SwitchStageView::Load { load } => load.action(self.layout),
            SwitchStageView::Save { save, .. } => save.action(self.layout),
        }
    }

    /// What the current directory is to be after the switch: the work directory of the branch,
    /// where `registry` knows it, and otherwise the same as before.
    pub open spec fn leads_to(self, registry: RegistryView) -> PathBuf {
        match registry.lookup(self.name) {
            Some(branch) => branch.work_dir,
            None => self.cwd,
        }
    }

    /// What follows the reply.
    pub open spec fn next(self, reply: ReplyView) -> ProgressView<SwitchView, PathBuf> {
        match self.stage {
            SwitchStageView::Root => match git::root_in(reply) {
                Ok(root) => ProgressView::Ask(self.at(SwitchStageView::Verify { root })),
                Err(error) => ProgressView::Failed(error),
            },
            SwitchStageView::Verify { root } => match reply {
                ReplyView::Output(output) => if output.succeeded() {
                    ProgressView::Ask(self.at(SwitchStageView::Checkout { root }))
                } else {
                    ProgressView::Failed(
                        BranchErrorView::Refused(RefusalView::DoesNotExist { name: self.name }),
                    )
                },
                _ => ProgressView::Failed(BranchErrorView::Action(None)),
            },
            SwitchStageView::Checkout { .. } => match reply {
                ReplyView::Output(output) => if output.succeeded() {
                    ProgressView::Ask(self.at(SwitchStageView::Mark))
                } else {
                    ProgressView::Failed(
                        BranchErrorView::Refused(
                            RefusalView::NotCheckedOut { stderr: output.stderr },
                        ),
                    )
                },
                _ => ProgressView::Failed(BranchErrorView::Action(Some(Context::Checkout))),
            },
            SwitchStageView::Mark => match reply {
                ReplyView::Done => ProgressView::Ask(
                    self.at(SwitchStageView::Load { load: LoadView::Find }),
                ),
                _ => ProgressView::Failed(BranchErrorView::Action(None)),
            },
            SwitchStageView::Load { load } => match load.next(reply) {
                ProgressView::Ask(load) => ProgressView::Ask(
                    self.at(SwitchStageView::Load { load }),
                ),
                ProgressView::Done(registry) => ProgressView::Ask(
                    self.at(
                        SwitchStageView::Save {
                            save: SaveView::of(registry.activated(self.name)),
                            to: self.leads_to(registry),
                        },
                    ),
                ),
                ProgressView::Failed(error) => ProgressView::Failed(error),
            },
            SwitchStageView::Save { save, to } => match save.next(reply) {
                ProgressView::Ask(save) => ProgressView::Ask(
                    self.at(SwitchStageView::Save { save, to }),
                ),
                ProgressView::Done(_) => ProgressView::Done(to),
                ProgressView::Failed(error) => ProgressView::Failed(error),
            },
        }
    }

    /// How many replies are to come at most.
    pub open spec fn rank(self) -> nat {
        match self.stage {
            SwitchStageView::Root => 10,
            SwitchStageView::Verify { .. } => 9,
            SwitchStageView::Checkout { .. } => 8,
            SwitchStageView::Mark => 7,
            SwitchStageView::Load { load } => 3 + load.rank(),
            SwitchStageView::Save { save, .. } => save.rank(),
        }
    }
}

impl SwitchBranch {
    /// What is to be done
    pub fn action(&self) -> (res: Action)
        ensures
            res@ == self@.action(),
    {
        match &self.stage {
            SwitchStage::Root => Git::ShowRoot.at(&self.cwd),
            SwitchStage::Verify { root } => Git::Verify { name: self.name.as_str() }.at(root),
            SwitchStage::Checkout { root } => Git::Checkout { name: self.name.as_str() }.at(root),
            SwitchStage::Mark => storage::mark_current(&self.layout, self.name.as_str()),
            SwitchStage::Load { load } => load.action(&self.layout),
            SwitchStage::Save { save, .. } => save.action(&self.layout),
        }
    }

    /// Go on with the reply
    pub fn next(self, reply: Reply) -> (res: Progress<SwitchBranch, Switched>)
        ensures
            res@ == self@.next(reply@),
    {
        match self.stage {
            SwitchStage::Root => match git::get_git_root(&reply) {
                Ok(root) => Progress::Ask(
                    SwitchBranch { stage: SwitchStage::Verify { root }, ..self },
                ),
                Err(error) => Progress::Failed(error),
            },
            SwitchStage::Verify { root } => match reply {
                Reply::Output(output) => if output.succeeded() {
                    Progress::Ask(SwitchBranch { stage: SwitchStage::Checkout { root }, ..self })
                } else {
                    Progress::Failed(
                        BranchError::Refused(Refusal::DoesNotExist { name: self.name }),
                    )
                },
                _ => Progress::Failed(BranchError::Action(None)),
            },
            SwitchStage::Checkout { .. } => match reply {
                Reply::Output(output) => if output.succeeded() {
                    Progress::Ask(SwitchBranch { stage: SwitchStage::Mark, ..self })
                } else {
                    Progress::Failed(
                        BranchError::Refused(Refusal::NotCheckedOut { stderr: output.stderr }),
                    )
                },
                _ => Progress::Failed(BranchError::Action(Some(Context::Checkout))),
            },
            SwitchStage::Mark => if reply.is_done() {
                let load = LoadRegistry::Find;
                Progress::Ask(SwitchBranch { stage: SwitchStage::Load { load }, ..self })
            } else {
                Progress::Failed(BranchError::Action(None))
            },
            SwitchStage::Load { load } => match load.next(reply) {
                Progress::Ask(load) => Progress::Ask(
                    SwitchBranch { stage: SwitchStage::Load { load }, ..self },
                ),
                Progress::Done(registry) => {
                    let mut registry = registry;
                    let branch_id = BranchId::new(self.name.as_str());
                    let to = match registry.get(&branch_id) {
                        Some(branch) => branch.work_dir.clone(),
                        None => self.cwd.clone(),
                    };
                    registry.set_active(&branch_id);
                    let save = SaveRegistry::begin(registry);
                    Progress::Ask(SwitchBranch { stage: SwitchStage::Save { save, to }, ..self })
                },
                Progress::Failed(error) => Progress::Failed(error),
            },
            SwitchStage::Save { save, to } => match save.next(&reply) {
                Progress::Ask(save) => Progress::Ask(
                    SwitchBranch { stage: SwitchStage::Save { save, to }, ..self },
                ),
                Progress::Done(_) => Progress::Done(Switched { cwd: to }),
                Progress::Failed(error) => Progress::Failed(error),
            },
        }
    }
}

impl Machine for SwitchView {
    type Result = PathBuf;

    open spec fn act(self) -> ActionView {
        self.action()
    }

    open spec fn step(self, reply: ReplyView) -> ProgressView<SwitchView, PathBuf> {
        self.next(reply)
    }
}

/// `after` is a registry that was loaded, with `name` as the active branch where it is known; `to`
/// is the work directory of that branch, or `cwd` where it is not known.
pub open spec fn switched_in(
    asked: Seq<ActionView>,
    replies: Seq<ReplyView>,
    layout: Layout,
    cwd: PathBuf,
    name: Seq<char>,
    after: RegistryView,
    to: PathBuf,
) -> bool {
    exists|before: RegistryView|
        {
            &&& #[trigger] storage::loaded(asked, replies, layout, before)
            &&& after == before.activated(name)
            &&& to == (match before.lookup(name) {
                Some(branch) => branch.work_dir,
                None => cwd,
            })
        }
}

/// Git knew of the branch, and did check it out when it was told to; then the branch was marked
/// as the current one.
pub open spec fn asked_to_switch(
    asked: Seq<ActionView>,
    replies: Seq<ReplyView>,
    layout: Layout,
    name: Seq<char>,
) -> bool {
    &&& replies.len() >= 3
    &&& git::root_in(replies[0]) matches Ok(root)
    &&& replies[1].succeeded()
    &&& asked.len() >= 4
    &&& asked[2] == GitView::Checkout { name }.at(root)
    &&& replies[2].succeeded()
    &&& asked[3] == storage::mark(layout, name)
}

spec fn switch_inv(begun: SwitchView, r: Run<SwitchView>, past: Seq<ReplyView>) -> bool {
    match r.progress {
        ProgressView::Ask(op) => {
            &&& op == begun.at(op.stage)
            &&& r.asked.len() > 0
            &&& r.asked.last() == op.action()
            &&& !(op.stage is Root) ==> create::asked_for_branch(
                r.asked,
                past,
                begun.cwd,
                begun.name,
            )
            &&& match op.stage {
                SwitchStageView::Root => past.len() == 0 && r.asked.len() == 1,
                SwitchStageView::Verify { root } => git::root_in(past[0]) == Ok::<
                    PathBuf,
                    BranchErrorView,
                >(root) && r.asked.len() == 2,
                SwitchStageView::Checkout { root } => git::root_in(past[0]) == Ok::<
                    PathBuf,
                    BranchErrorView,
                >(root) && r.asked.len() == 3 && past[1].succeeded(),
                SwitchStageView::Mark => r.asked.len() == 4 && asked_to_switch(
                    r.asked,
                    past,
                    begun.layout,
                    begun.name,
                ),
                SwitchStageView::Load { load } => asked_to_switch(
                    r.asked,
                    past,
                    begun.layout,
                    begun.name,
                ) && storage::loading(r.asked, past, begun.layout, load),
                SwitchStageView::Save { save, to } => asked_to_switch(
                    r.asked,
                    past,
                    begun.layout,
                    begun.name,
                ) && switched_in(
                    r.asked,
                    past,
                    begun.layout,
                    begun.cwd,
                    begun.name,
                    save.registry,
                    to,
                ),
            }
        },
        ProgressView::Done(to) => {
            &&& create::asked_for_branch(r.asked, past, begun.cwd, begun.name)
            &&& asked_to_switch(r.asked, past, begun.layout, begun.name)
            &&& r.asked.last() matches ActionView::Store { path, registry }
            &&& path == begun.layout.registry_path
            &&& switched_in(
                r.asked,
                past,
                begun.layout,
                begun.cwd,
                begun.name,
                registry,
                to,
            )
        },
        ProgressView::Failed(BranchErrorView::Refused(refusal)) => {
            &&& run::wrote_nothing(r.asked)
            &&& refusal is DoesNotExist ==> {
                &&& refusal == RefusalView::DoesNotExist { name: begun.name }
                &&& r.asked.len() == 2
                &&& create::asked_for_branch(r.asked, past, begun.cwd, begun.name)
            }
        },
        ProgressView::Failed(_) => true,
    }
}

proof fn lemma_switch_step(
    begun: SwitchView,
    r: Run<SwitchView>,
    past: Seq<ReplyView>,
    reply: ReplyView,
)
    requires
        run::keeps_pace(r, past),
        switch_inv(begun, r, past),
    ensures
        switch_inv(begun, r.replied(reply), past.push(reply)),
{
    let after = r.replied(reply);
    let now = past.push(reply);
    storage::lemma_loaded_stays(r, past, begun.layout, reply);
    assert(past.len() > 0 ==> now[0] == past[0]);
    assert(past.len() > 1 ==> now[1] == past[1]);
    assert(past.len() > 2 ==> now[2] == past[2]);
    assert(now[past.len() as int] == reply);
    if r.progress is Ask {
        let op = r.progress->Ask_0;
        match op.stage {
            SwitchStageView::Load { load } => {
                storage::lemma_load_step(r, past, begun.layout, load, reply);
            },
            SwitchStageView::Save { save, to } => {
                assert(switched_in(
                    after.asked,
                    now,
                    begun.layout,
                    begun.cwd,
                    begun.name,
                    save.registry,
                    to,
                ));
            },
            _ => {},
        }
    }
}

/// Switching to a branch succeeds only after git was asked for the branch and knew of it, git was
/// told to check it out and did, and it was marked as the current branch; the last thing that is
/// asked for is to store the registry that was loaded, with the branch active where it is known.
/// The current directory is then to be the work directory of the branch, where it is known, and
/// the same as before where it is not. A switch that is refused has written nothing, and one that
/// is refused because there is no such branch has done no more than to ask for it.
pub proof fn law_switch(
    layout: Layout,
    cwd: PathBuf,
    name: Seq<char>,
    replies: Seq<ReplyView>,
)
    ensures
        ({
            let r = run::run(SwitchView::begun(layout, cwd, name), replies);
            &&& r.progress matches ProgressView::Done(to) ==> {
                &&& create::asked_for_branch(r.asked, replies, cwd, name)
                &&& asked_to_switch(r.asked, replies, layout, name)
                &&& r.asked.last() matches ActionView::Store { path, registry }
                &&& path == layout.registry_path
                &&& switched_in(r.asked, replies, layout, cwd, name, registry, to)
            }
            &&& r.progress matches ProgressView::Failed(BranchErrorView::Refused(refusal)) ==> {
                &&& run::wrote_nothing(r.asked)
                &&& refusal is DoesNotExist ==> {
                    &&& refusal == RefusalView::DoesNotExist { name }
                    &&& r.asked.len() == 2
                    &&& create::asked_for_branch(r.asked, replies, cwd, name)
                }
            }
        }),
{
    let begun = SwitchView::begun(layout, cwd, name);
    let inv = |r: Run<SwitchView>, past: Seq<ReplyView>| switch_inv(begun, r, past);
    assert forall|r: Run<SwitchView>, past: Seq<ReplyView>, reply: ReplyView|
        run::keeps_pace(r, past) && inv(r, past) implies #[trigger] inv(
        r.replied(reply),
        past.push(reply),
    ) by {
        lemma_switch_step(begun, r, past, reply);
    }
    run::lemma_run_invariant(begun, replies, inv);
}

/// Switching to a branch that git does not know is refused, whatever else is replied; so is a
/// switch that git does not make, with what git wrote of it; outside of a repository, none is made.
pub proof fn law_switch_is_refused(
    layout: Layout,
    cwd: PathBuf,
    name: Seq<char>,
    stderr: Seq<char>,
    replies: Seq<ReplyView>,
)
    requires
        replies.len() >= 3,
    ensures
        ({
            let progress = run::run(SwitchView::begun(layout, cwd, name), replies).progress;
            match git::root_in(replies[0]) {
                Err(error) => progress == ProgressView::<SwitchView, PathBuf>::Failed(error),
                Ok(_) => {
                    &&& replies[1] is Output && !replies[1].succeeded() ==> progress
                        == ProgressView::<SwitchView, PathBuf>::Failed(
                        BranchErrorView::Refused(RefusalView::DoesNotExist { name }),
                    )
                    &&& replies[1].succeeded() && replies[2].complained(stderr) ==> progress
                        == ProgressView::<SwitchView, PathBuf>::Failed(
                        BranchErrorView::Refused(RefusalView::NotCheckedOut { stderr }),
                    )
                },
            }
        }),
{
    let m = SwitchView::begun(layout, cwd, name);
    run::lemma_run_steps(m, replies, 0);
    run::lemma_run_steps(m, replies, 1);
    run::lemma_run_steps(m, replies, 2);
    if !(run::run(m, replies.take(3)).progress is Ask) {
        run::lemma_run_stays(m, replies, 3);
    }
}

/// Switching to a branch that was created leads into its work directory: where the registry that is
/// loaded knows the branch by a record of its creation, that is where the switch leads to.
pub proof fn law_switch_leads_into_work_dir(
    op: SwitchView,
    before: RegistryView,
    branch: BranchView,
)
    requires
        !before.removed(op.name).knows(op.name),
        branch.id == op.name,
        branch.work_dir == op.layout.work_dir(op.name),
    ensures
        op.leads_to(before.recorded(branch)) == op.layout.work_dir(op.name),
{
    create::law_created_branch_is_found(before, branch, branch.id);
}

/// Switching to a branch takes at most ten replies, and where each of them answers in kind, it
/// ends with a result or is refused.
pub proof fn law_switch_ends(op: SwitchView, replies: Seq<ReplyView>)
    requires
        replies.len() >= op.rank(),
    ensures
        !(run::run(op, replies).progress is Ask),
        run::fails_with_its_action(run::run(op, replies), replies),
        op.rank() <= 10,
{
    run::lemma_run_fails_with_its_action(op, replies);
    run::lemma_run_ends(op, replies, |op: SwitchView| op.rank());
}

/// What operations keep of registries, a switch keeps.
proof fn lemma_switch_keeps(
    m: SwitchView,
    replies: Seq<ReplyView>,
    p: spec_fn(RegistryView) -> bool,
)
    requires
        run::is_kept(p),
        !(m.stage is Save),
    ensures
        run::stays(run::run(m, replies).asked, replies, p),
{
    let holds = |m: SwitchView|
        m.stage matches SwitchStageView::Save { save, .. } ==> p(save.registry);
    run::lemma_run_keeps(m, replies, p, holds);
}

/// The registry stays sound under a switch: where no two branches of the registry that is
/// loaded have the same identifier, no two of the one that is stored have, and the active branch
/// stays a known one.
pub proof fn law_switch_keeps_registry_sound(
    layout: Layout,
    cwd: PathBuf,
    name: Seq<char>,
    replies: Seq<ReplyView>,
)
    ensures
        run::registry_stays_sound(
            run::run(SwitchView::begun(layout, cwd, name), replies).asked,
            replies,
        ),
{
    let m = SwitchView::begun(layout, cwd, name);
    run::lemma_soundness_is_kept();
    lemma_switch_keeps(m, replies, run::unique_ids());
    lemma_switch_keeps(m, replies, run::known_active());
}

} // verus!

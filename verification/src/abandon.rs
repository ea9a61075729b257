//! Abandoning a branch.

use crate::action::{Action, ActionView, Progress, ProgressView, Reply, ReplyView};
use crate::branch::{BranchId, BranchStatus};
use crate::error::{BranchError, BranchErrorView, Refusal, RefusalView};
use crate::layout::Layout;
use crate::registry::RegistryView;
use crate::run::{self, Machine, Run};
use crate::storage::{self, LoadRegistry, LoadView, SaveRegistry, SaveView};
use vstd::prelude::*;

verus! {

/// Marking a branch as abandoned, step by step
#[derive(Debug)]
pub struct AbandonBranch {
    /// Where the service keeps its files
    pub layout: Layout,
    /// The name of the branch
    pub name: String,
    /// How far the operation has come
    pub stage: AbandonStage,
}

/// How far the abandoning of a branch has come
#[derive(Debug)]
pub enum AbandonStage {
    /// The registry is being loaded
    Load { load: LoadRegistry },
    /// The registry is being saved
    Save { save: SaveRegistry },
}

/// What a step of abandoning a branch holds.
pub struct AbandonView {
    pub layout: Layout,
    pub name: Seq<char>,
    pub stage: AbandonStageView,
}

/// What a stage of abandoning a branch holds.
pub enum AbandonStageView {
    Load { load: LoadView },
    Save { save: SaveView },
}

impl View for AbandonStage {
    type V = AbandonStageView;

    open spec fn view(&self) -> AbandonStageView {
        match *self {
            AbandonStage::Load { load } => AbandonStageView::Load { load: load@ },
            AbandonStage::Save { save } => AbandonStageView::Save { save: save@ },
        }
    }
}

impl View for AbandonBranch {
    type V = AbandonView;

    open spec fn view(&self) -> AbandonView {
        AbandonView { layout: self.layout, name: self.name@, stage: self.stage@ }
    }
}

impl AbandonView {
    /// The abandoning of a branch, before anything is done.
    pub open spec fn begun(layout: Layout, name: Seq<char>) -> AbandonView {
        AbandonView { layout, name, stage: AbandonStageView::Load { load: LoadView::Find } }
    }

    /// The same operation at another stage.
    pub open spec fn at(self, stage: AbandonStageView) -> AbandonView {
        AbandonView { stage, ..self }
    }

    /// What is to be done.
    pub open spec fn action(self) -> ActionView {
        match self.stage {
            AbandonStageView::Load { load } => load.action(self.layout),
            AbandonStageView::Save { save } => save.action(self.layout),
        }
    }

    /// What follows the reply.
    pub open spec fn next(self, reply: ReplyView) -> ProgressView<AbandonView, ()> {
        match self.stage {
            AbandonStageView::Load { load } => match load.next(reply) {
                ProgressView::Ask(load) => ProgressView::Ask(
                    self.at(AbandonStageView::Load { load }),
                ),
                ProgressView::Done(registry) => if registry.knows(self.name) {
                    let after = registry.with_status(self.name, BranchStatus::Abandoned);
                    ProgressView::Ask(self.at(AbandonStageView::Save { save: SaveView::of(after) }))
                } else {
                    ProgressView::Failed(
                        BranchErrorView::Refused(RefusalView::NotRegistered { name: self.name }),
                    )
                },
                ProgressView::Failed(error) => ProgressView::Failed(error),
            },
            AbandonStageView::Save { save } => match save.next(reply) {
                ProgressView::Ask(save) => ProgressView::Ask(
                    self.at(AbandonStageView::Save { save }),
                ),
                ProgressView::Done(_) => ProgressView::Done(()),
                ProgressView::Failed(error) => ProgressView::Failed(error),
            },
        }
    }

    /// How many replies are to come at most.
    pub open spec fn rank(self) -> nat {
        match self.stage {
            AbandonStageView::Load { load } => 3 + load.rank(),
            AbandonStageView::Save { save } => save.rank(),
        }
    }
}

impl AbandonBranch {
    /// What is to be done
    pub fn action(&self) -> (res: Action)
        ensures
            res@ == self@.action(),
    {
        match &self.stage {
            AbandonStage::Load { load } => load.action(&self.layout),
            AbandonStage::Save { save } => save.action(&self.layout),
        }
    }

    /// Go on with the reply
    pub fn next(self, reply: Reply) -> (res: Progress<AbandonBranch, ()>)
        ensures
            res@ == self@.next(reply@),
    {
        match self.stage {
            AbandonStage::Load { load } => match load.next(reply) {
                Progress::Ask(load) => Progress::Ask(
                    AbandonBranch { stage: AbandonStage::Load { load }, ..self },
                ),
                Progress::Done(registry) => {
                    let mut registry = registry;
                    let branch_id = BranchId::new(self.name.as_str());
                    if registry.get(&branch_id).is_none() {
                        Progress::Failed(
                            BranchError::Refused(Refusal::NotRegistered { name: self.name }),
                        )
                    } else {
                        registry.set_status(&branch_id, BranchStatus::Abandoned);
                        let save = SaveRegistry::begin(registry);
                        Progress::Ask(AbandonBranch { stage: AbandonStage::Save { save }, ..self })
                    }
                },
                Progress::Failed(error) => Progress::Failed(error),
            },
            AbandonStage::Save { save } => match save.next(&reply) {
                Progress::Ask(save) => Progress::Ask(
                    AbandonBranch { stage: AbandonStage::Save { save }, ..self },
                ),
                Progress::Done(_) => Progress::Done(()),
                Progress::Failed(error) => Progress::Failed(error),
            },
        }
    }
}

impl Machine for AbandonView {
    type Result = ();

    open spec fn act(self) -> ActionView {
        self.action()
    }

    open spec fn step(self, reply: ReplyView) -> ProgressView<AbandonView, ()> {
        self.next(reply)
    }
}

/// `after` is a registry that was loaded and that knows the branch `name`, with that branch
/// abandoned.
pub open spec fn abandoned_in(
    asked: Seq<ActionView>,
    replies: Seq<ReplyView>,
    layout: Layout,
    name: Seq<char>,
    after: RegistryView,
) -> bool {
    exists|before: RegistryView| #[trigger]
        storage::loaded(asked, replies, layout, before) && before.knows(name) && after
            == before.with_status(name, BranchStatus::Abandoned)
}

/// No command was to be run, and nothing to be written but the registry and the directory that it
/// stands in.
pub open spec fn writes_registry_only(asked: Seq<ActionView>, layout: Layout) -> bool {
    forall|i: int|
        #![trigger asked[i]]
        0 <= i < asked.len() ==> match asked[i] {
            ActionView::Store { path, .. } => path == layout.registry_path,
            ActionView::CreateDirs { path } => path == layout.forge_dir,
            action => action.writes_nothing() && !(action is Run),
        }
}

spec fn abandon_inv(
    layout: Layout,
    name: Seq<char>,
    r: Run<AbandonView>,
    past: Seq<ReplyView>,
) -> bool {
    &&& r.asked.len() > 0
    &&& writes_registry_only(r.asked, layout)
    &&& match r.progress {
        ProgressView::Ask(op) => {
            &&& op.layout == layout
            &&& op.name == name
            &&& r.asked.last() == op.action()
            &&& match op.stage {
                AbandonStageView::Load { load } => run::wrote_nothing(r.asked) && storage::loading(
                    r.asked,
                    past,
                    layout,
                    load,
                ),
                AbandonStageView::Save { save } => abandoned_in(
                    r.asked,
                    past,
                    layout,
                    name,
                    save.registry,
                ),
            }
        },
        ProgressView::Done(_) => {
            &&& r.asked.last() matches ActionView::Store { path, registry }
            &&& path == layout.registry_path
            &&& abandoned_in(r.asked, past, layout, name, registry)
        },
        ProgressView::Failed(BranchErrorView::Refused(refusal)) => {
            &&& refusal == RefusalView::NotRegistered { name }
            &&& run::wrote_nothing(r.asked)
            &&& exists|before: RegistryView| #[trigger]
                storage::loaded(r.asked, past, layout, before) && !before.knows(name)
        },
        ProgressView::Failed(_) => true,
    }
}

proof fn lemma_abandon_step(
    layout: Layout,
    name: Seq<char>,
    r: Run<AbandonView>,
    past: Seq<ReplyView>,
    reply: ReplyView,
)
    requires
        run::keeps_pace(r, past),
        abandon_inv(layout, name, r, past),
    ensures
        abandon_inv(layout, name, r.replied(reply), past.push(reply)),
{
    let after = r.replied(reply);
    let now = past.push(reply);
    storage::lemma_loaded_stays(r, past, layout, reply);
    if r.progress is Ask {
        let op = r.progress->Ask_0;
        match op.stage {
            AbandonStageView::Load { load } => {
                storage::lemma_load_step(r, past, layout, load, reply);
            },
            AbandonStageView::Save { save } => {
                assert(abandoned_in(after.asked, now, layout, name, save.registry));
            },
        }
    }
}

/// Abandoning a branch runs no command, and writes nothing but the registry. Where it succeeds, the
/// last thing that it asks for is to store the registry that was loaded, with the branch abandoned;
/// where it is refused, the registry that was loaded does not know the branch, and nothing was
/// written.
pub proof fn law_abandon(layout: Layout, name: Seq<char>, replies: Seq<ReplyView>)
    ensures
        ({
            let r = run::run(AbandonView::begun(layout, name), replies);
            &&& writes_registry_only(r.asked, layout)
            &&& r.progress is Done ==> {
                &&& r.asked.last() matches ActionView::Store { path, registry }
                &&& path == layout.registry_path
                &&& abandoned_in(r.asked, replies, layout, name, registry)
            }
            &&& r.progress matches ProgressView::Failed(BranchErrorView::Refused(refusal)) ==> {
                &&& refusal == RefusalView::NotRegistered { name }
                &&& run::wrote_nothing(r.asked)
                &&& exists|before: RegistryView| #[trigger]
                    storage::loaded(r.asked, replies, layout, before) && !before.knows(name)
            }
        }),
{
    let inv = |r: Run<AbandonView>, past: Seq<ReplyView>| abandon_inv(layout, name, r, past);
    assert forall|r: Run<AbandonView>, past: Seq<ReplyView>, reply: ReplyView|
        run::keeps_pace(r, past) && inv(r, past) implies #[trigger] inv(
        r.replied(reply),
        past.push(reply),
    ) by {
        lemma_abandon_step(layout, name, r, past, reply);
    }
    run::lemma_run_invariant(AbandonView::begun(layout, name), replies, inv);
}

/// Abandoning a branch takes at most six replies, and where each of them answers in kind, it
/// ends with a result or is refused.
pub proof fn law_abandon_ends(op: AbandonView, replies: Seq<ReplyView>)
    requires
        replies.len() >= op.rank(),
    ensures
        !(run::run(op, replies).progress is Ask),
        run::fails_with_its_action(run::run(op, replies), replies),
        op.rank() <= 6,
{
    run::lemma_run_fails_with_its_action(op, replies);
    run::lemma_run_ends(op, replies, |op: AbandonView| op.rank());
}

/// What operations keep of registries, an abandoning keeps.
proof fn lemma_abandon_keeps(
    m: AbandonView,
    replies: Seq<ReplyView>,
    p: spec_fn(RegistryView) -> bool,
)
    requires
        run::is_kept(p),
        !(m.stage is Save),
    ensures
        run::stays(run::run(m, replies).asked, replies, p),
{
    let holds = |m: AbandonView|
        m.stage matches AbandonStageView::Save { save, .. } ==> p(save.registry);
    run::lemma_run_keeps(m, replies, p, holds);
}

/// The registry stays sound under an abandoning: where no two branches of the registry that is
/// loaded have the same identifier, no two of the one that is stored have, and the active branch
/// stays a known one.
pub proof fn law_abandon_keeps_registry_sound(
    layout: Layout,
    name: Seq<char>,
    replies: Seq<ReplyView>,
)
    ensures
        run::registry_stays_sound(
            run::run(AbandonView::begun(layout, name), replies).asked,
            replies,
        ),
{
    let m = AbandonView::begun(layout, name);
    run::lemma_soundness_is_kept();
    lemma_abandon_keeps(m, replies, run::unique_ids());
    lemma_abandon_keeps(m, replies, run::known_active());
}

} // verus!

//! Loading and saving the registry, and the marker of the current branch.

use crate::action::{Action, ActionView, Progress, ProgressView, Reply, ReplyView};
use crate::error::{BranchError, BranchErrorView, Context};
use crate::layout::Layout;
use crate::registry::{BranchRegistry, RegistryView};
use crate::run::{self, Machine, Run};
use vstd::prelude::*;

verus! {

/// Loading the branch registry from disk, step by step
#[derive(Debug)]
pub enum LoadRegistry {
    /// Whether there is a registry is being asked
    Find,
    /// The registry's file is being read
    Read,
    /// The registry is being read out of the file's text
    Parse { text: String },
}

/// What a step of loading holds.
pub enum LoadView {
    Find,
    Read,
    Parse { text: Seq<char> },
}

impl View for LoadRegistry {
    type V = LoadView;

    open spec fn view(&self) -> LoadView {
        match *self {
            LoadRegistry::Find => LoadView::Find,
            LoadRegistry::Read => LoadView::Read,
            LoadRegistry::Parse { text } => LoadView::Parse { text: text@ },
        }
    }
}

impl LoadView {
    /// What is to be done.
    pub open spec fn action(self, layout: Layout) -> ActionView {
        match self {
            LoadView::Find => ActionView::Exists { path: layout.registry_path },
            LoadView::Read => ActionView::Read { path: layout.registry_path },
            LoadView::Parse { text } => ActionView::Parse { text },
        }
    }

    /// What follows the reply: where there is no file, the registry is empty; otherwise it is
    /// what the file's text says.
    pub open spec fn next(self, reply: ReplyView) -> ProgressView<LoadView, RegistryView> {
        match (self, reply) {
            (LoadView::Find, ReplyView::Exists(true)) => ProgressView::Ask(LoadView::Read),
            (LoadView::Find, _) => ProgressView::Done(RegistryView::empty()),
            (LoadView::Read, ReplyView::Text(text)) => ProgressView::Ask(LoadView::Parse { text }),
            (LoadView::Read, _) => ProgressView::Failed(BranchErrorView::Action(None)),
            (LoadView::Parse { .. }, ReplyView::Parsed(registry)) => ProgressView::Done(registry),
            (LoadView::Parse { .. }, _) => ProgressView::Failed(
                BranchErrorView::Action(Some(Context::ParseRegistry)),
            ),
        }
    }

    /// How many replies are to come at most.
    pub open spec fn rank(self) -> nat {
        match self {
            LoadView::Find => 3,
            LoadView::Read => 2,
            LoadView::Parse { .. } => 1,
        }
    }
}

impl LoadRegistry {
    /// What is to be done
    pub fn action(&self, layout: &Layout) -> (res: Action)
        ensures
            res@ == self@.action(*layout),
    {
        match self {
            LoadRegistry::Find => Action::Exists { path: layout.registry_path.clone() },
            LoadRegistry::Read => Action::Read { path: layout.registry_path.clone() },
            LoadRegistry::Parse { text } => Action::Parse { text: text.clone() },
        }
    }

    /// Go on with the reply
    pub fn next(self, reply: Reply) -> (res: Progress<LoadRegistry, BranchRegistry>)
        ensures
            res@ == self@.next(reply@),
    {
        match self {
            LoadRegistry::Find => if reply.is_found() {
                Progress::Ask(LoadRegistry::Read)
            } else {
                Progress::Done(BranchRegistry::new())
            },
            LoadRegistry::Read => match reply {
                Reply::Text(text) => Progress::Ask(LoadRegistry::Parse { text }),
                _ => Progress::Failed(BranchError::Action(None)),
            },
            LoadRegistry::Parse { .. } => match reply {
                Reply::Parsed(registry) => Progress::Done(registry),
                _ => Progress::Failed(BranchError::Action(Some(Context::ParseRegistry))),
            },
        }
    }
}

/// Saving the branch registry to disk, step by step
#[derive(Debug)]
pub struct SaveRegistry {
    /// The registry to be saved
    pub registry: BranchRegistry,
    /// How far the saving has come
    pub stage: SaveStage,
}

/// How far the saving of a registry has come
#[derive(Debug, Clone, Copy, PartialEq, Eq, Structural)]
pub enum SaveStage {
    /// Whether there is a directory for it is being asked
    FindDir,
    /// The directory is being created
    CreateDir,
    /// The registry is being written
    Store,
}

/// What a step of saving holds.
pub struct SaveView {
    pub registry: RegistryView,
    pub stage: SaveStage,
}

impl View for SaveRegistry {
    type V = SaveView;

    open spec fn view(&self) -> SaveView {
        SaveView { registry: self.registry@, stage: self.stage }
    }
}

impl SaveView {
    /// The saving of `registry`, before anything is done.
    pub open spec fn of(registry: RegistryView) -> SaveView {
        SaveView { registry, stage: SaveStage::FindDir }
    }

    /// What is to be done.
    pub open spec fn action(self, layout: Layout) -> ActionView {
        match self.stage {
            SaveStage::FindDir => ActionView::Exists { path: layout.forge_dir },
            SaveStage::CreateDir => ActionView::CreateDirs { path: layout.forge_dir },
            SaveStage::Store => ActionView::Store {
                path: layout.registry_path,
                registry: self.registry,
            },
        }
    }

    /// What follows the reply: the registry is written once the directory is there.
    pub open spec fn next(self, reply: ReplyView) -> ProgressView<SaveView, ()> {
        match (self.stage, reply) {
            (SaveStage::FindDir, ReplyView::Exists(true)) => ProgressView::Ask(
                SaveView { stage: SaveStage::Store, ..self },
            ),
            (SaveStage::FindDir, _) => ProgressView::Ask(
                SaveView { stage: SaveStage::CreateDir, ..self },
            ),
            (SaveStage::CreateDir, ReplyView::Done) => ProgressView::Ask(
                SaveView { stage: SaveStage::Store, ..self },
            ),
            (SaveStage::Store, ReplyView::Done) => ProgressView::Done(()),
            _ => ProgressView::Failed(BranchErrorView::Action(None)),
        }
    }

    /// How many replies are to come at most.
    pub open spec fn rank(self) -> nat {
        match self.stage {
            SaveStage::FindDir => 3,
            SaveStage::CreateDir => 2,
            SaveStage::Store => 1,
        }
    }
}

impl SaveRegistry {
    /// Begin to save a registry
    pub fn begin(registry: BranchRegistry) -> (res: Self)
        ensures
            res@ == SaveView::of(registry@),
    {
        SaveRegistry { registry, stage: SaveStage::FindDir }
    }

    /// What is to be done
    pub fn action(&self, layout: &Layout) -> (res: Action)
        ensures
            res@ == self@.action(*layout),
    {
        match self.stage {
            SaveStage::FindDir => Action::Exists { path: layout.forge_dir.clone() },
            SaveStage::CreateDir => Action::CreateDirs { path: layout.forge_dir.clone() },
            SaveStage::Store => Action::Store {
                path: layout.registry_path.clone(),
                registry: self.registry.clone(),
            },
        }
    }

    /// Go on with the reply
    pub fn next(self, reply: &Reply) -> (res: Progress<SaveRegistry, ()>)
        ensures
            res@ == self@.next(reply@),
    {
        match self.stage {
            SaveStage::FindDir => if reply.is_found() {
                Progress::Ask(SaveRegistry { stage: SaveStage::Store, ..self })
            } else {
                Progress::Ask(SaveRegistry { stage: SaveStage::CreateDir, ..self })
            },
            SaveStage::CreateDir => if reply.is_done() {
                Progress::Ask(SaveRegistry { stage: SaveStage::Store, ..self })
            } else {
                Progress::Failed(BranchError::Action(None))
            },
            SaveStage::Store => if reply.is_done() {
                Progress::Done(())
            } else {
                Progress::Failed(BranchError::Action(None))
            },
        }
    }
}

/// The action that makes `name` the current branch.
pub open spec fn mark(layout: Layout, name: Seq<char>) -> ActionView {
    ActionView::Write { path: layout.marker(), text: name }
}

/// The action that makes a branch the current branch
pub fn mark_current(layout: &Layout, name: &str) -> (res: Action)
    ensures
        res@ == mark(*layout, name@),
{
    Action::Write { path: layout.current_branch_path(), text: name.to_owned() }
}

/// The `i`-th thing that was asked for, and the reply to it, gave `registry`: there is no file and
/// `registry` is empty, or the file was read and `registry` is what its text says.
pub open spec fn loaded_at(
    asked: Seq<ActionView>,
    replies: Seq<ReplyView>,
    layout: Layout,
    registry: RegistryView,
    i: int,
) -> bool {
    let path = layout.registry_path;
    &&& 0 <= i < asked.len()
    &&& i < replies.len()
    &&& {
        ||| {
            &&& asked[i] == (ActionView::Exists { path })
            &&& replies[i] != ReplyView::Exists(true)
            &&& registry == RegistryView::empty()
        }
        ||| {
            &&& i > 0
            &&& asked[i - 1] == (ActionView::Read { path })
            &&& replies[i - 1] matches ReplyView::Text(text)
            &&& asked[i] == (ActionView::Parse { text })
            &&& replies[i] == ReplyView::Parsed(registry)
        }
    }
}

/// `registry` is what was loaded from disk.
pub open spec fn loaded(
    asked: Seq<ActionView>,
    replies: Seq<ReplyView>,
    layout: Layout,
    registry: RegistryView,
) -> bool {
    exists|i: int| loaded_at(asked, replies, layout, registry, i)
}

/// The text out of which a registry is being read is what was read from the file.
pub open spec fn loading(
    asked: Seq<ActionView>,
    replies: Seq<ReplyView>,
    layout: Layout,
    load: LoadView,
) -> bool {
    load matches LoadView::Parse { text } ==> {
        let i = replies.len() - 1;
        &&& 0 <= i < asked.len()
        &&& asked[i] == (ActionView::Read { path: layout.registry_path })
        &&& replies[i] == ReplyView::Text(text)
    }
}

/// What was loaded at some time stays loaded at that time.
pub proof fn lemma_loaded_at_stays<M: Machine>(
    r: Run<M>,
    past: Seq<ReplyView>,
    layout: Layout,
    registry: RegistryView,
    i: int,
    reply: ReplyView,
)
    requires
        loaded_at(r.asked, past, layout, registry, i),
    ensures
        loaded_at(r.replied(reply).asked, past.push(reply), layout, registry, i),
{
    let asked = r.replied(reply).asked;
    let now = past.push(reply);
    assert(asked[i] == r.asked[i] && now[i] == past[i]);
    assert(i > 0 ==> asked[i - 1] == r.asked[i - 1] && now[i - 1] == past[i - 1]);
}

/// What was loaded stays loaded.
pub proof fn lemma_loaded_stays<M: Machine>(
    r: Run<M>,
    past: Seq<ReplyView>,
    layout: Layout,
    reply: ReplyView,
)
    ensures
        forall|registry: RegistryView| #[trigger]
            loaded(r.asked, past, layout, registry) ==> loaded(
                r.replied(reply).asked,
                past.push(reply),
                layout,
                registry,
            ),
{
    let asked = r.replied(reply).asked;
    let now = past.push(reply);
    assert forall|registry: RegistryView| #[trigger]
        loaded(r.asked, past, layout, registry) implies loaded(asked, now, layout, registry) by {
        let i = choose|i: int| loaded_at(r.asked, past, layout, registry, i);
        lemma_loaded_at_stays(r, past, layout, registry, i, reply);
    }
}

/// A step of loading, within an operation, that ends with a registry has loaded it.
pub proof fn lemma_load_step<M: Machine>(
    r: Run<M>,
    past: Seq<ReplyView>,
    layout: Layout,
    load: LoadView,
    reply: ReplyView,
)
    requires
        run::keeps_pace(r, past),
        r.progress is Ask,
        r.asked.last() == load.action(layout),
        loading(r.asked, past, layout, load),
    ensures
        load.next(reply) matches ProgressView::Done(registry) ==> loaded_at(
            r.replied(reply).asked,
            past.push(reply),
            layout,
            registry,
            past.len() as int,
        ) && loaded(r.replied(reply).asked, past.push(reply), layout, registry),
        load.next(reply) matches ProgressView::Ask(next) ==> loading(
            r.replied(reply).asked,
            past.push(reply),
            layout,
            next,
        ),
{
    let asked = r.replied(reply).asked;
    let now = past.push(reply);
    let i = past.len() as int;
    assert(asked[i] == r.asked[i] && now[i] == reply);
    assert(i > 0 ==> asked[i - 1] == r.asked[i - 1] && now[i - 1] == past[i - 1]);
    if load.next(reply) is Done {
        assert(loaded_at(asked, now, layout, load.next(reply)->Done_0, i));
    }
}

/// Loading the registry, with where the service keeps its files.
pub struct LoadRun {
    pub layout: Layout,
    pub load: LoadView,
}

impl Machine for LoadRun {
    type Result = RegistryView;

    open spec fn act(self) -> ActionView {
        self.load.action(self.layout)
    }

    open spec fn step(self, reply: ReplyView) -> ProgressView<LoadRun, RegistryView> {
        match self.load.next(reply) {
            ProgressView::Ask(load) => ProgressView::Ask(LoadRun { load, ..self }),
            ProgressView::Done(registry) => ProgressView::Done(registry),
            ProgressView::Failed(error) => ProgressView::Failed(error),
        }
    }
}

/// Saving the registry, with where the service keeps its files.
pub struct SaveRun {
    pub layout: Layout,
    pub save: SaveView,
}

impl Machine for SaveRun {
    type Result = ();

    open spec fn act(self) -> ActionView {
        self.save.action(self.layout)
    }

    open spec fn step(self, reply: ReplyView) -> ProgressView<SaveRun, ()> {
        match self.save.next(reply) {
            ProgressView::Ask(save) => ProgressView::Ask(SaveRun { save, ..self }),
            ProgressView::Done(_) => ProgressView::Done(()),
            ProgressView::Failed(error) => ProgressView::Failed(error),
        }
    }
}

/// The registry that was to be stored last.
pub open spec fn stored_last(asked: Seq<ActionView>) -> RegistryView {
    match asked.last() {
        ActionView::Store { registry, .. } => registry,
        _ => RegistryView::empty(),
    }
}

/// A saving that succeeds has stored the registry, as the last thing, and has written nothing else
/// but the directory that the registry stands in.
pub proof fn law_save(layout: Layout, registry: RegistryView, replies: Seq<ReplyView>)
    ensures
        ({
            let r = run::run(SaveRun { layout, save: SaveView::of(registry) }, replies);
            &&& r.progress is Done ==> r.asked.last() == (ActionView::Store {
                path: layout.registry_path,
                registry,
            })
            &&& forall|i: int|
                #![trigger r.asked[i]]
                0 <= i < r.asked.len() ==> {
                    ||| r.asked[i].writes_nothing()
                    ||| r.asked[i] == (ActionView::CreateDirs { path: layout.forge_dir })
                    ||| r.asked[i] == (ActionView::Store { path: layout.registry_path, registry })
                }
        }),
{
    let begun = SaveRun { layout, save: SaveView::of(registry) };
    let inv = |r: Run<SaveRun>, past: Seq<ReplyView>|
        {
            &&& forall|i: int|
                #![trigger r.asked[i]]
                0 <= i < r.asked.len() ==> {
                    ||| r.asked[i].writes_nothing()
                    ||| r.asked[i] == (ActionView::CreateDirs { path: layout.forge_dir })
                    ||| r.asked[i] == (ActionView::Store { path: layout.registry_path, registry })
                }
            &&& match r.progress {
                ProgressView::Ask(op) => op.layout == layout && op.save.registry == registry,
                ProgressView::Done(_) => r.asked.last() == (ActionView::Store {
                    path: layout.registry_path,
                    registry,
                }),
                ProgressView::Failed(_) => true,
            }
        };
    assert forall|r: Run<SaveRun>, past: Seq<ReplyView>, reply: ReplyView|
        run::keeps_pace(r, past) && inv(r, past) implies #[trigger] inv(
        r.replied(reply),
        past.push(reply),
    ) by {}
    run::lemma_run_invariant(begun, replies, inv);
}

/// Loading gives back what was saved: after a saving that succeeded, where the file is there, can
/// be read, and its text is read as the registry that was stored, loading ends with that registry,
/// its branches in the same order and with the same active one. It reads the file that was written.
pub proof fn law_load_gives_back_what_was_saved(
    layout: Layout,
    registry: RegistryView,
    saving: Seq<ReplyView>,
    text: Seq<char>,
    loading: Seq<ReplyView>,
)
    requires
        run::run(SaveRun { layout, save: SaveView::of(registry) }, saving).progress is Done,
        loading.len() >= 3,
        loading[0] == ReplyView::Exists(true),
        loading[1] == ReplyView::Text(text),
        loading[2] == ReplyView::Parsed(
            stored_last(run::run(SaveRun { layout, save: SaveView::of(registry) }, saving).asked),
        ),
    ensures
        ({
            let saved = run::run(SaveRun { layout, save: SaveView::of(registry) }, saving);
            let loaded = run::run(LoadRun { layout, load: LoadView::Find }, loading);
            &&& loaded.progress == ProgressView::<LoadRun, RegistryView>::Done(registry)
            &&& saved.asked.last() matches ActionView::Store { path, .. }
            &&& loaded.asked == seq![
                ActionView::Exists { path },
                ActionView::Read { path },
                ActionView::Parse { text },
            ]
        }),
{
    law_save(layout, registry, saving);
    let m = LoadRun { layout, load: LoadView::Find };
    run::lemma_run_steps(m, loading, 0);
    run::lemma_run_steps(m, loading, 1);
    run::lemma_run_steps(m, loading, 2);
    run::lemma_run_stays(m, loading, 3);
    assert(run::run(m, loading).asked =~= seq![
        ActionView::Exists { path: layout.registry_path },
        ActionView::Read { path: layout.registry_path },
        ActionView::Parse { text },
    ]);
}

} // verus!

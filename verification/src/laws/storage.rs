//! Loading and saving the registry, and reading the marker.

use crate::action::{ActionView, ProgressView, ReplyView};
use crate::active::ActiveView;
use crate::error::{BranchErrorView, Context};
use crate::layout::Layout;
use crate::path;
use crate::registry::RegistryView;
use crate::run;
use crate::storage::{LoadRun, LoadView, SaveRun, SaveStage, SaveView};
use crate::text;
use vstd::prelude::*;

verus! {

/// A loading, from its beginning to its end: it is asked whether there is a file; where there is
/// none, the registry is empty, and otherwise it is what the text of the file is read as.
pub proof fn law_loading(layout: Layout, replies: Seq<ReplyView>)
    ensures
        ({
            let op = LoadRun { layout, load: LoadView::Find };
            let r = run::run(op, replies);
            let asked = r.asked;
            let n = asked.len() as int;
            let found = replies[0] == ReplyView::Exists(true);
            &&& 1 <= n <= 3 && n <= replies.len() + 1
            &&& asked[0] == (ActionView::Exists { path: layout.registry_path })
            &&& n > 1 ==> found && asked[1] == (ActionView::Read { path: layout.registry_path })
            &&& n > 2 ==> replies[1] is Text && asked[2] == (ActionView::Parse {
                text: replies[1]->Text_0,
            })
            &&& match r.progress {
                ProgressView::Done(registry) => {
                    &&& n <= replies.len()
                    &&& {
                        ||| {
                            &&& n == 1 && !found
                            &&& registry.branches.len() == 0
                            &&& registry.active_branch is None
                        }
                        ||| n == 3 && replies[2] == ReplyView::Parsed(registry)
                    }
                },
                ProgressView::Failed(error) => {
                    &&& n <= replies.len()
                    &&& {
                        ||| {
                            &&& n == 2 && !(replies[1] is Text)
                            &&& error == BranchErrorView::Action(None)
                        }
                        ||| {
                            &&& n == 3 && !(replies[2] is Parsed)
                            &&& error == BranchErrorView::Action(Some(Context::ParseRegistry))
                        }
                    }
                },
                ProgressView::Ask(m) => {
                    &&& n == replies.len() + 1
                    &&& m.layout == layout
                    &&& match m.load {
                        LoadView::Find => n == 1,
                        LoadView::Read => n == 2,
                        LoadView::Parse { text } => n == 3 && replies[1] == ReplyView::Text(text),
                    }
                },
            }
        }),
    decreases replies.len(),
{
    if replies.len() > 0 {
        let past = replies.drop_last();
        law_loading(layout, past);
        let m = LoadRun { layout, load: LoadView::Find };
        let earlier = run::run(m, past);
        assert(forall|i: int| 0 <= i < past.len() ==> #[trigger] past[i] == replies[i]);
        assert(forall|i: int|
            0 <= i < earlier.asked.len() ==> #[trigger] earlier.asked[i] == run::run(
                m,
                replies,
            ).asked[i]);
    }
}

/// A saving, from its argument to its end: the directory is created where it is not there, and the
/// registry that was given is stored.
pub proof fn law_saving(layout: Layout, registry: RegistryView, replies: Seq<ReplyView>)
    ensures
        ({
            let op = SaveRun { layout, save: SaveView::of(registry) };
            let r = run::run(op, replies);
            let asked = r.asked;
            let n = asked.len() as int;
            let found = replies[0] == ReplyView::Exists(true);
            let s = if found {
                1int
            } else {
                2int
            };
            &&& 1 <= n <= replies.len() + 1
            &&& asked[0] == (ActionView::Exists { path: layout.forge_dir })
            &&& n > 1 && !found ==> asked[1] == (ActionView::CreateDirs { path: layout.forge_dir })
            &&& n > 1 && n > s ==> {
                &&& n == s + 1
                &&& !found ==> replies[1] is Done
                &&& asked[s] == (ActionView::Store { path: layout.registry_path, registry })
            }
            &&& match r.progress {
                ProgressView::Done(_) => n > 1 && n == s + 1 && n <= replies.len()
                    && replies[s] is Done,
                ProgressView::Failed(error) => {
                    &&& 1 < n <= replies.len()
                    &&& !(replies[n - 1] is Done)
                    &&& error == BranchErrorView::Action(None)
                },
                ProgressView::Ask(m) => {
                    &&& n == replies.len() + 1
                    &&& m.layout == layout && m.save.registry == registry
                    &&& match m.save.stage {
                        SaveStage::FindDir => n == 1,
                        SaveStage::CreateDir => n == 2 && !found,
                        SaveStage::Store => n > 1 && n == s + 1,
                    }
                },
            }
        }),
    decreases replies.len(),
{
    if replies.len() > 0 {
        let past = replies.drop_last();
        law_saving(layout, registry, past);
        let m = SaveRun { layout, save: SaveView::of(registry) };
        let earlier = run::run(m, past);
        assert(forall|i: int| 0 <= i < past.len() ==> #[trigger] past[i] == replies[i]);
        assert(forall|i: int|
            0 <= i < earlier.asked.len() ==> #[trigger] earlier.asked[i] == run::run(
                m,
                replies,
            ).asked[i]);
    }
}

/// Asking for the current branch reads the marker, and gives what it holds, without white space
/// around it, or nothing where it cannot be read.
pub proof fn law_asking(layout: Layout, held: Seq<char>, reply: ReplyView)
    ensures
        (ActiveView { layout }).action() == (ActionView::Read {
            path: path::joined(layout.forge_dir, "current_branch"@),
        }),
        (ActiveView { layout }).next(ReplyView::Text(held)) == ProgressView::<
            ActiveView,
            Option<Seq<char>>,
        >::Done(Some(text::trimmed(held))),
        !(reply is Text) ==> (ActiveView { layout }).next(reply) == ProgressView::<
            ActiveView,
            Option<Seq<char>>,
        >::Done(None),
{
}

} // verus!

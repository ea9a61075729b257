//! Abandoning a branch.

use crate::action::{ActionView, ProgressView, ReplyView};
use crate::abandon::{AbandonStageView, AbandonView};
use crate::branch::BranchStatus;
use crate::error::{BranchErrorView, Context, RefusalView};
use crate::layout::Layout;
use crate::registry::RegistryView;
use crate::run;
use crate::storage::{LoadView, SaveStage};
use vstd::prelude::*;

verus! {

/// An abandoning, from its arguments to its end.
///
/// The registry is loaded and stored, with the branch abandoned. Nothing else is asked for. It is
/// refused where the registry does not know the branch, and only there, and any other failure is
/// that of the last action.
pub proof fn law_abandoning(layout: Layout, name: Seq<char>, replies: Seq<ReplyView>)
    ensures
        ({
            let op = AbandonView::begun(layout, name);
            let r = run::run(op, replies);
            let asked = r.asked;
            let n = asked.len() as int;
            let p = 0int;
            let found = replies[p] == ReplyView::Exists(true);
            let before = if found {
                replies[p + 2]->Parsed_0
            } else {
                RegistryView { branches: Seq::empty(), active_branch: None }
            };
            let q = if found {
                p + 3
            } else {
                p + 1
            };
            let s = if replies[q] == ReplyView::Exists(true) {
                q + 1
            } else {
                q + 2
            };
            let after = before.with_status(name, BranchStatus::Abandoned);
            // What is asked for, and what it takes to come to it.
            &&& 1 <= n <= replies.len() + 1
            &&& asked[p] == (ActionView::Exists { path: layout.registry_path })
            &&& n > p + 1 && found ==> asked[p + 1] == (ActionView::Read {
                path: layout.registry_path,
            })
            &&& n > p + 2 && found ==> replies[p + 1] is Text && asked[p + 2] == (
            ActionView::Parse { text: replies[p + 1]->Text_0 })
            &&& n > p + 1 && n > q ==> {
                &&& found ==> replies[p + 2] is Parsed
                &&& asked[q] == (ActionView::Exists { path: layout.forge_dir })
            }
            &&& n > p + 1 && n > q + 1 && s == q + 2 ==> asked[q + 1] == (ActionView::CreateDirs {
                path: layout.forge_dir,
            })
            &&& n > p + 1 && n > q + 1 && n > s ==> {
                &&& s == q + 2 ==> replies[q + 1] is Done
                &&& asked[s] == (ActionView::Store { path: layout.registry_path, registry: after })
            }
            &&& n > p + 1 && n > q ==> before.knows(name)
            &&& n > p + 1 && n > q + 1 && n > s ==> n == s + 1
            // What it ends with.
            &&& match r.progress {
                ProgressView::Done(_) => {
                    &&& n > q + 1 && n == s + 1
                    &&& n <= replies.len()
                    &&& replies[s] is Done
                },
                ProgressView::Failed(BranchErrorView::Refused(refusal)) => {
                    &&& n <= replies.len()
                    &&& n == q
                    &&& found ==> replies[p + 2] is Parsed
                    &&& !before.knows(name)
                    &&& refusal == (RefusalView::NotRegistered { name })
                },
                ProgressView::Failed(BranchErrorView::Action(context)) => {
                    &&& n <= replies.len()
                    &&& !(asked[n - 1] is Exists)
                    &&& !asked[n - 1].is_answered_by(replies[n - 1])
                    &&& context == (if asked[n - 1] is Parse {
                        Some(Context::ParseRegistry)
                    } else {
                        None
                    })
                },
                // Where it stands.
                ProgressView::Ask(m) => {
                    &&& n == replies.len() + 1
                    &&& m == op.at(m.stage)
                    &&& match m.stage {
                        AbandonStageView::Load { load } => match load {
                            LoadView::Find => n == p + 1,
                            LoadView::Read => n == p + 2 && found,
                            LoadView::Parse { text } => n == p + 3 && found && replies[p + 1]
                                == ReplyView::Text(text),
                        },
                        AbandonStageView::Save { save } => {
                            &&& save.registry == after
                            &&& n > q
                            &&& match save.stage {
                                SaveStage::FindDir => n == q + 1,
                                SaveStage::CreateDir => n == q + 2 && s == q + 2,
                                SaveStage::Store => n == s + 1,
                            }
                        },
                    }
                },
            }
        }),
    decreases replies.len(),
{
    if replies.len() > 0 {
        let past = replies.drop_last();
        law_abandoning(layout, name, past);
        let m = AbandonView::begun(layout, name);
        let earlier = run::run(m, past);
        assert(forall|i: int| 0 <= i < past.len() ==> #[trigger] past[i] == replies[i]);
        assert(forall|i: int|
            0 <= i < earlier.asked.len() ==> #[trigger] earlier.asked[i] == run::run(
                m,
                replies,
            ).asked[i]);
    }
}

} // verus!

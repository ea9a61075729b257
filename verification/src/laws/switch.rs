//! Switching to a branch.

use crate::action::{ActionView, ProgressView, ReplyView};
use crate::error::{BranchErrorView, Context, RefusalView};
use crate::laws::registry;
use crate::layout::Layout;
use crate::path;
use crate::registry::RegistryView;
use crate::run::{self, Run};
use crate::storage::{LoadView, SaveStage};
use crate::switch::{SwitchStageView, SwitchView};
use crate::text;
use std::path::PathBuf;
use vstd::prelude::*;

verus! {

/// A switch, from its arguments to its end.
///
/// Git is asked for the root of the repository, which is what it prints, trimmed, where that is
/// not blank; in the root, for the branch, of which it is to know; and to check the branch out.
/// Then the branch is named in the marker, and the registry is loaded and stored, with the branch
/// active where it is known. Nothing else is asked for. The current directory is then to be the
/// work directory of that branch, or as it was. Each refusal comes where it is due, and only
/// there, and any other failure is that of the last action.
pub proof fn law_switching(
    layout: Layout,
    cwd: PathBuf,
    name: Seq<char>,
    replies: Seq<ReplyView>,
)
    ensures
        ({
            let op = SwitchView::begun(layout, cwd, name);
            let r = run::run(op, replies);
            let asked = r.asked;
            let n = asked.len() as int;
            let root = path::from_text(text::trimmed(replies[0]->Output_0.stdout));
            let p = 4int;
            let found = replies[p] == ReplyView::Exists(true);
            let before = if found {
                replies[p + 2]->Parsed_0
            } else {
                RegistryView { branches: Seq::empty(), active_branch: None }
            };
            let q = if found {
                p + 3
            } else {
                p + 1
            };
            let s = if replies[q] == ReplyView::Exists(true) {
                q + 1
            } else {
                q + 2
            };
            let after = before.activated(name);
            let to = match before.lookup(name) {
                Some(branch) => branch.work_dir,
                None => cwd,
            };
            // What is asked for, and what it takes to come to it.
            &&& 1 <= n <= replies.len() + 1
            &&& asked[0] == (ActionView::Run {
                command: "git rev-parse --show-toplevel"@,
                dir: cwd,
            })
            &&& n > 1 ==> {
                &&& replies[0] is Output
                &&& text::trimmed(replies[0]->Output_0.stdout).len() > 0
                &&& asked[1] == (ActionView::Run {
                    command: "git rev-parse --verify refs/heads/"@ + name,
                    dir: root,
                })
            }
            &&& n > 2 ==> {
                &&& replies[1] is Output
                &&& replies[1]->Output_0.exit_code == Some(0i32)
                &&& asked[2] == (ActionView::Run { command: "git checkout "@ + name, dir: root })
            }
            &&& n > 3 ==> {
                &&& replies[2] is Output
                &&& replies[2]->Output_0.exit_code == Some(0i32)
                &&& asked[3] == (ActionView::Write {
                    path: path::joined(layout.forge_dir, "current_branch"@),
                    text: name,
                })
            }
            &&& n > p ==> replies[3] is Done && asked[p] == (ActionView::Exists {
                path: layout.registry_path,
            })
            &&& n > p + 1 && found ==> asked[p + 1] == (ActionView::Read {
                path: layout.registry_path,
            })
            &&& n > p + 2 && found ==> replies[p + 1] is Text && asked[p + 2] == (
            ActionView::Parse { text: replies[p + 1]->Text_0 })
            &&& n > p + 1 && n > q ==> {
                &&& found ==> replies[p + 2] is Parsed
                &&& asked[q] == (ActionView::Exists { path: layout.forge_dir })
            }
            &&& n > p + 1 && n > q + 1 && s == q + 2 ==> asked[q + 1] == (ActionView::CreateDirs {
                path: layout.forge_dir,
            })
            &&& n > p + 1 && n > q + 1 && n > s ==> {
                &&& s == q + 2 ==> replies[q + 1] is Done
                &&& asked[s] == (ActionView::Store { path: layout.registry_path, registry: after })
            }
            &&& n > p + 1 && n > q + 1 && n > s ==> n == s + 1
            // What it ends with.
            &&& match r.progress {
                ProgressView::Done(leads_to) => {
                    &&& leads_to == to
                    &&& n > q + 1 && n == s + 1
                    &&& n <= replies.len()
                    &&& replies[s] is Done
                },
                ProgressView::Failed(BranchErrorView::Refused(refusal)) => {
                    &&& n <= replies.len()
                    &&& replies[n - 1] is Output
                    &&& {
                        ||| {
                            &&& n == 1
                            &&& text::trimmed(replies[0]->Output_0.stdout).len() == 0
                            &&& refusal == RefusalView::NotInRepository
                        }
                        ||| {
                            &&& n == 2
                            &&& replies[1]->Output_0.exit_code != Some(0i32)
                            &&& refusal == (RefusalView::DoesNotExist { name })
                        }
                        ||| {
                            &&& n == 3
                            &&& replies[2]->Output_0.exit_code != Some(0i32)
                            &&& refusal == (RefusalView::NotCheckedOut {
                                stderr: replies[2]->Output_0.stderr,
                            })
                        }
                    }
                },
                ProgressView::Failed(BranchErrorView::Action(context)) => {
                    &&& n <= replies.len()
                    &&& !(asked[n - 1] is Exists)
                    &&& !asked[n - 1].is_answered_by(replies[n - 1])
                    &&& context == (if n == 1 {
                        Some(Context::GitRoot)
                    } else if n == 3 {
                        Some(Context::Checkout)
                    } else if asked[n - 1] is Parse {
                        Some(Context::ParseRegistry)
                    } else {
                        None
                    })
                },
                // Where it stands.
                ProgressView::Ask(m) => {
                    &&& n == replies.len() + 1
                    &&& m == op.at(m.stage)
                    &&& match m.stage {
                        SwitchStageView::Root => n == 1,
                        SwitchStageView::Verify { root: dir } => n == 2 && dir == root,
                        SwitchStageView::Checkout { root: dir } => n == 3 && dir == root,
                        SwitchStageView::Mark => n == 4,
                        SwitchStageView::Load { load } => match load {
                            LoadView::Find => n == p + 1,
                            LoadView::Read => n == p + 2 && found,
                            LoadView::Parse { text } => n == p + 3 && found && replies[p + 1]
                                == ReplyView::Text(text),
                        },
                        SwitchStageView::Save { save, to: dir } => {
                            &&& dir == to
                            &&& save.registry == after
                            &&& n > q
                            &&& match save.stage {
                                SaveStage::FindDir => n == q + 1,
                                SaveStage::CreateDir => n == q + 2 && s == q + 2,
                                SaveStage::Store => n == s + 1,
                            }
                        },
                    }
                },
            }
        }),
    decreases replies.len(),
{
    if replies.len() > 0 {
        let past = replies.drop_last();
        law_switching(layout, cwd, name, past);
        let m = SwitchView::begun(layout, cwd, name);
        let earlier = run::run(m, past);
        assert(forall|i: int| 0 <= i < past.len() ==> #[trigger] past[i] == replies[i]);
        assert(forall|i: int|
            0 <= i < earlier.asked.len() ==> #[trigger] earlier.asked[i] == run::run(
                m,
                replies,
            ).asked[i]);
    }
}

} // verus!

//! Deleting a branch.

use crate::action::{ActionView, ProgressView, ReplyView};
use crate::delete::{DeleteStageView, DeleteView};
use crate::error::{BranchErrorView, Context, RefusalView};
use crate::layout::Layout;
use crate::path;
use crate::registry::RegistryView;
use crate::run::{self, Run};
use crate::storage::{LoadView, SaveStage};
use crate::text;
use std::path::PathBuf;
use vstd::prelude::*;

verus! {

/// A deletion, from its arguments to its end.
///
/// Git is asked for the root of the repository, which is what it prints, trimmed, where that is
/// not blank; and, unless the name is main or master as a whole, it is told in the root to delete
/// the branch. Then the work directory is removed, where that is wanted and it is there, the
/// registry is loaded and stored without the branch, and the marker is removed, where it names the
/// branch and is there. Nothing else is asked for. Each refusal comes where it is due, and only
/// there, and any other failure is that of the last action.
pub proof fn law_deletion(
    layout: Layout,
    cwd: PathBuf,
    name: Seq<char>,
    delete_workdir: bool,
    replies: Seq<ReplyView>,
)
    ensures
        ({
            let op = DeleteView::begun(layout, cwd, name, delete_workdir);
            let r = run::run(op, replies);
            let asked = r.asked;
            let n = asked.len() as int;
            let root = path::from_text(text::trimmed(replies[0]->Output_0.stdout));
            let work_dir = path::joined(path::joined(layout.forge_dir, "work"@), name);
            let marker = path::joined(layout.forge_dir, "current_branch"@);
            let base = name == "main"@ || name == "master"@;
            let p = if !delete_workdir {
                2int
            } else if replies[2] == ReplyView::Exists(true) {
                4int
            } else {
                3int
            };
            let found = replies[p] == ReplyView::Exists(true);
            let before = if found {
                replies[p + 2]->Parsed_0
            } else {
                RegistryView { branches: Seq::empty(), active_branch: None }
            };
            let q = if found {
                p + 3
            } else {
                p + 1
            };
            let s = if replies[q] == ReplyView::Exists(true) {
                q + 1
            } else {
                q + 2
            };
            let after = before.removed(name);
            let names = replies[s + 1] is Text && text::trimmed(replies[s + 1]->Text_0) == name;
            // What is asked for, and what it takes to come to it.
            &&& 1 <= n <= replies.len() + 1
            &&& asked[0] == (ActionView::Run {
                command: "git rev-parse --show-toplevel"@,
                dir: cwd,
            })
            &&& n > 1 ==> {
                &&& replies[0] is Output
                &&& text::trimmed(replies[0]->Output_0.stdout).len() > 0
                &&& !base
                &&& asked[1] == (ActionView::Run { command: "git branch -D "@ + name, dir: root })
            }
            &&& n > 2 ==> {
                &&& replies[1] is Output
                &&& replies[1]->Output_0.exit_code == Some(0i32)
                &&& delete_workdir ==> asked[2] == (ActionView::Exists { path: work_dir })
            }
            &&& n > 3 && delete_workdir && p == 4 ==> asked[3] == (ActionView::RemoveDir {
                path: work_dir,
            })
            &&& n > 2 && (delete_workdir ==> n > 3) && n > p ==> {
                &&& p == 4 ==> replies[3] is Done
                &&& asked[p] == (ActionView::Exists { path: layout.registry_path })
            }
            &&& n > 2 && (delete_workdir ==> n > 3) ==> {
                &&& n > p + 1 && found ==> asked[p + 1] == (ActionView::Read {
                    path: layout.registry_path,
                })
                &&& n > p + 2 && found ==> replies[p + 1] is Text && asked[p + 2] == (
                ActionView::Parse { text: replies[p + 1]->Text_0 })
                &&& n > p + 1 && n > q ==> {
                    &&& found ==> replies[p + 2] is Parsed
                    &&& asked[q] == (ActionView::Exists { path: layout.forge_dir })
                }
                &&& n > p + 1 && n > q + 1 && s == q + 2 ==> asked[q + 1] == (
                ActionView::CreateDirs { path: layout.forge_dir })
                &&& n > p + 1 && n > q + 1 && n > s ==> {
                    &&& s == q + 2 ==> replies[q + 1] is Done
                    &&& asked[s] == (ActionView::Store {
                        path: layout.registry_path,
                        registry: after,
                    })
                }
                &&& n > p + 1 && n > q + 1 && n > s + 1 ==> replies[s] is Done && asked[s + 1] == (
                ActionView::Read { path: marker })
                &&& n > p + 1 && n > q + 1 && n > s + 2 ==> names && asked[s + 2] == (
                ActionView::Exists { path: marker })
                &&& n > p + 1 && n > q + 1 && n > s + 3 ==> {
                    &&& n == s + 4
                    &&& replies[s + 2] == ReplyView::Exists(true)
                    &&& asked[s + 3] == (ActionView::Remove { path: marker })
                }
            }
            // What it ends with.
            &&& match r.progress {
                ProgressView::Done(_) => {
                    &&& n > 2 && (delete_workdir ==> n > 3)
                    &&& n > q + 1 && n <= replies.len()
                    &&& {
                        ||| n == s + 2 && !names
                        ||| n == s + 3 && replies[s + 2] != ReplyView::Exists(true)
                        ||| n == s + 4 && replies[s + 3] is Done
                    }
                },
                ProgressView::Failed(BranchErrorView::Refused(refusal)) => {
                    &&& n <= replies.len()
                    &&& replies[n - 1] is Output
                    &&& {
                        ||| {
                            &&& n == 1
                            &&& text::trimmed(replies[0]->Output_0.stdout).len() == 0
                            &&& refusal == RefusalView::NotInRepository
                        }
                        ||| {
                            &&& n == 1
                            &&& text::trimmed(replies[0]->Output_0.stdout).len() > 0
                            &&& base
                            &&& refusal == RefusalView::IsBaseBranch
                        }
                        ||| {
                            &&& n == 2
                            &&& replies[1]->Output_0.exit_code != Some(0i32)
                            &&& refusal == (RefusalView::NotDeleted {
                                stderr: replies[1]->Output_0.stderr,
                            })
                        }
                    }
                },
                ProgressView::Failed(BranchErrorView::Action(context)) => {
                    &&& n <= replies.len()
                    &&& !(asked[n - 1] is Exists)
                    &&& !(n > p + 1 && n == s + 2)
                    &&& !asked[n - 1].is_answered_by(replies[n - 1])
                    &&& context == (if n == 1 {
                        Some(Context::GitRoot)
                    } else if asked[n - 1] is Parse {
                        Some(Context::ParseRegistry)
                    } else {
                        None
                    })
                },
                // Where it stands.
                ProgressView::Ask(m) => {
                    &&& n == replies.len() + 1
                    &&& m == op.at(m.stage)
                    &&& match m.stage {
                        DeleteStageView::Root => n == 1,
                        DeleteStageView::Delete { root: dir } => n == 2 && dir == root,
                        DeleteStageView::FindWorkDir => n == 3 && delete_workdir,
                        DeleteStageView::RemoveWorkDir => n == 4 && delete_workdir && p == 4,
                        DeleteStageView::Load { load } => n > p && n > 2 && (delete_workdir ==> n
                            > 3) && match load {
                            LoadView::Find => n == p + 1,
                            LoadView::Read => n == p + 2 && found,
                            LoadView::Parse { text } => n == p + 3 && found && replies[p + 1]
                                == ReplyView::Text(text),
                        },
                        DeleteStageView::Save { save } => {
                            &&& save.registry == after
                            &&& n > q && n > 3 && (delete_workdir ==> n > 4)
                            &&& match save.stage {
                                SaveStage::FindDir => n == q + 1,
                                SaveStage::CreateDir => n == q + 2 && s == q + 2,
                                SaveStage::Store => n == s + 1,
                            }
                        },
                        DeleteStageView::ReadMarker => n == s + 2 && n > q + 1 && n > 4,
                        DeleteStageView::FindMarker => n == s + 3 && n > q + 1 && n > 4 && names,
                        DeleteStageView::RemoveMarker => n == s + 4 && n > q + 1 && n > 4,
                    }
                },
            }
        }),
    decreases replies.len(),
{
    if replies.len() > 0 {
        let past = replies.drop_last();
        law_deletion(layout, cwd, name, delete_workdir, past);
        let m = DeleteView::begun(layout, cwd, name, delete_workdir);
        let earlier = run::run(m, past);
        assert(forall|i: int| 0 <= i < past.len() ==> #[trigger] past[i] == replies[i]);
        assert(forall|i: int|
            0 <= i < earlier.asked.len() ==> #[trigger] earlier.asked[i] == run::run(
                m,
                replies,
            ).asked[i]);
    }
}

} // verus!

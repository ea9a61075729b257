//! Creating a branch.

use crate::action::{ActionView, ProgressView, ReplyView};
use crate::branch::{BranchStatus, BranchView};
use crate::create::{CreateStageView, CreateView, DatedCreate};
use crate::error::{BranchErrorView, Context, RefusalView};
use crate::laws::registry;
use crate::layout::Layout;
use crate::path;
use crate::registry::RegistryView;
use crate::run::{self, Run};
use crate::storage::{LoadView, SaveStage};
use crate::text;
use chrono::NaiveDateTime;
use std::path::PathBuf;
use vstd::prelude::*;

verus! {

/// A creation, from its arguments to its end.
///
/// Git is asked for the root of the repository, which is what it prints, trimmed, where that is
/// not blank; in the root, for the branch, of which it is to know nothing; and to create the
/// branch and check it out. Then the work directory is created, the registry is loaded, stored
/// with the new branch as its last and active one and without any that had its identifier, and the
/// branch is named in the marker. Nothing else is asked for. The branch that is returned, and that
/// is stored, has the name, task and agent that were given. Each refusal comes where it is due,
/// and only there, and any other failure is that of the last action.
pub proof fn law_creation(
    layout: Layout,
    cwd: PathBuf,
    name: Seq<char>,
    task: Seq<char>,
    agent_id: Option<Seq<char>>,
    now: NaiveDateTime,
    replies: Seq<ReplyView>,
)
    ensures
        ({
            let op = CreateView::begun(layout, cwd, name, task, agent_id);
            let r = run::run(DatedCreate { op, now }, replies);
            let asked = r.asked;
            let n = asked.len() as int;
            let root = path::from_text(text::trimmed(replies[0]->Output_0.stdout));
            let branch = BranchView {
                id: name,
                name,
                task,
                work_dir: path::joined(path::joined(layout.forge_dir, "work"@), name),
                agent_id,
                created_at: now,
                status: BranchStatus::Active,
            };
            let found = replies[4] == ReplyView::Exists(true);
            let before = if found {
                replies[6]->Parsed_0
            } else {
                RegistryView { branches: Seq::empty(), active_branch: None }
            };
            let after = RegistryView {
                branches: before.removed(name).branches.push(branch),
                active_branch: Some(name),
            };
            let q = if found {
                7int
            } else {
                5int
            };
            let s = if replies[q] == ReplyView::Exists(true) {
                q + 1
            } else {
                q + 2
            };
            // What is asked for, and what it takes to come to it.
            &&& 1 <= n <= replies.len() + 1
            &&& asked[0] == (ActionView::Run {
                command: "git rev-parse --show-toplevel"@,
                dir: cwd,
            })
            &&& n > 1 ==> {
                &&& replies[0] is Output
                &&& text::trimmed(replies[0]->Output_0.stdout).len() > 0
                &&& asked[1] == (ActionView::Run {
                    command: "git rev-parse --verify refs/heads/"@ + name,
                    dir: root,
                })
            }
            &&& n > 2 ==> {
                &&& replies[1] is Output
                &&& replies[1]->Output_0.exit_code != Some(0i32)
                &&& asked[2] == (ActionView::Run { command: "git checkout -b "@ + name, dir: root })
            }
            &&& n > 3 ==> {
                &&& replies[2] is Output
                &&& replies[2]->Output_0.exit_code == Some(0i32)
                &&& asked[3] == (ActionView::CreateDirs { path: branch.work_dir })
            }
            &&& n > 4 ==> replies[3] is Done && asked[4] == (ActionView::Exists {
                path: layout.registry_path,
            })
            &&& n > 5 && found ==> asked[5] == (ActionView::Read { path: layout.registry_path })
            &&& n > 6 && found ==> replies[5] is Text && asked[6] == (ActionView::Parse {
                text: replies[5]->Text_0,
            })
            &&& n > q ==> {
                &&& found ==> replies[6] is Parsed
                &&& asked[q] == (ActionView::Exists { path: layout.forge_dir })
            }
            &&& n > q + 1 && s == q + 2 ==> asked[q + 1] == (ActionView::CreateDirs {
                path: layout.forge_dir,
            })
            &&& n > q + 1 && n > s ==> {
                &&& s == q + 2 ==> replies[q + 1] is Done
                &&& asked[s] == (ActionView::Store { path: layout.registry_path, registry: after })
            }
            &&& n > q + 1 && n > s + 1 ==> {
                &&& replies[s] is Done
                &&& n == s + 2
                &&& asked[s + 1] == (ActionView::Write {
                    path: path::joined(layout.forge_dir, "current_branch"@),
                    text: name,
                })
            }
            // What it ends with.
            &&& match r.progress {
                ProgressView::Done(created) => {
                    &&& created == branch
                    &&& n > q + 1 && n == s + 2
                    &&& n <= replies.len()
                    &&& replies[s + 1] is Done
                },
                ProgressView::Failed(BranchErrorView::Refused(refusal)) => {
                    &&& n <= replies.len()
                    &&& replies[n - 1] is Output
                    &&& {
                        ||| {
                            &&& n == 1
                            &&& text::trimmed(replies[0]->Output_0.stdout).len() == 0
                            &&& refusal == RefusalView::NotInRepository
                        }
                        ||| {
                            &&& n == 2
                            &&& replies[1]->Output_0.exit_code == Some(0i32)
                            &&& refusal == (RefusalView::AlreadyExists { name })
                        }
                        ||| {
                            &&& n == 3
                            &&& replies[2]->Output_0.exit_code != Some(0i32)
                            &&& refusal == (RefusalView::NotCreated {
                                stderr: replies[2]->Output_0.stderr,
                            })
                        }
                    }
                },
                ProgressView::Failed(BranchErrorView::Action(context)) => {
                    &&& n <= replies.len()
                    &&& !(asked[n - 1] is Exists)
                    &&& !asked[n - 1].is_answered_by(replies[n - 1])
                    &&& context == (if n == 1 {
                        Some(Context::GitRoot)
                    } else if n == 3 {
                        Some(Context::CreateBranch)
                    } else if asked[n - 1] is Parse {
                        Some(Context::ParseRegistry)
                    } else {
                        None
                    })
                },
                // Where it stands.
                ProgressView::Ask(m) => {
                    &&& n == replies.len() + 1
                    &&& m == DatedCreate { op: op.at(m.op.stage), now }
                    &&& match m.op.stage {
                        CreateStageView::Root => n == 1,
                        CreateStageView::Verify { root: dir } => n == 2 && dir == root,
                        CreateStageView::Checkout { root: dir } => n == 3 && dir == root,
                        CreateStageView::WorkDir => n == 4,
                        CreateStageView::Load { load, branch: b } => b == branch && match load {
                            LoadView::Find => n == 5,
                            LoadView::Read => n == 6 && found,
                            LoadView::Parse { text } => n == 7 && found && replies[5]
                                == ReplyView::Text(text),
                        },
                        CreateStageView::Save { save, branch: b } => {
                            &&& b == branch
                            &&& save.registry == after
                            &&& n > q
                            &&& match save.stage {
                                SaveStage::FindDir => n == q + 1,
                                SaveStage::CreateDir => n == q + 2 && s == q + 2,
                                SaveStage::Store => n == s + 1,
                            }
                        },
                        CreateStageView::Mark { branch: b } => b == branch && n == s + 2,
                    }
                },
            }
        }),
    decreases replies.len(),
{
    if replies.len() > 0 {
        let past = replies.drop_last();
        law_creation(layout, cwd, name, task, agent_id, now, past);
        let m = DatedCreate { op: CreateView::begun(layout, cwd, name, task, agent_id), now };
        let before = run::run(m, past);
        assert(forall|i: int| 0 <= i < past.len() ==> #[trigger] past[i] == replies[i]);
        assert(forall|i: int|
            0 <= i < before.asked.len() ==> #[trigger] before.asked[i] == run::run(
                m,
                replies,
            ).asked[i]);
        if before.progress is Ask {
            let op = before.progress->Ask_0.op;
            match op.stage {
                CreateStageView::Load { load, branch } => {
                    if load.next(replies.last()) is Done {
                        let registry = load.next(replies.last())->Done_0;
                        registry::law_changes(registry, branch, name, BranchStatus::Active);
                    }
                },
                _ => {},
            }
        }
    }
}

} // verus!

//! Merging a branch.

use crate::action::{ActionView, ProgressView, ReplyView};
use crate::branch::{BranchStatus, MergeResultView};
use crate::delete::DeleteView;
use crate::error::{BranchErrorView, Context, RefusalView};
use crate::layout::Layout;
use crate::merge::{MergeStageView, MergeView};
use crate::path;
use crate::registry::RegistryView;
use crate::run::{self, Run};
use crate::storage::{LoadView, SaveStage};
use crate::text;
use std::path::PathBuf;
use vstd::prelude::*;

verus! {

/// A merge, from its arguments to its end.
///
/// Git is asked for the root of the repository, which is what it prints, trimmed, where that is not
/// blank; in the root, for the branch that is checked out, and for main, or where it knows of none,
/// for master; to check that out; and, where it did, to merge. The merge has succeeded where git
/// exited with the code zero and did not write of a conflict to its standard error, and only there.
///
/// Where it has not, git is told right away to give the merge up, and then to check out again the
/// branch that it had named; the result tells of no success. There were conflicts where git wrote
/// so. Where it has, git is asked for the hash, and told to check out again the branch that it had
/// named; then what is asked for is just what a deletion asks for, where that is wanted, and
/// otherwise the registry is loaded and stored with the branch merged; the result tells of the base
/// branch and the hash. Nothing else is asked for.
///
/// Each refusal comes where it is due, and only there, and any other failure is that of the last
/// action.
pub proof fn law_merging(
    layout: Layout,
    cwd: PathBuf,
    name: Seq<char>,
    delete_after: bool,
    replies: Seq<ReplyView>,
)
    ensures
        ({
            let op = MergeView::begun(layout, cwd, name, delete_after);
            let r = run::run(op, replies);
            let asked = r.asked;
            let n = asked.len() as int;
            let root = path::from_text(text::trimmed(replies[0]->Output_0.stdout));
            let current = text::trimmed(replies[1]->Output_0.stdout);
            let back = ActionView::Run { command: "git checkout "@ + current, dir: root };
            let main = replies[2]->Output_0.exit_code == Some(0i32);
            let base = if main {
                "main"@
            } else {
                "master"@
            };
            let k = if main {
                3int
            } else {
                4int
            };
            let there = replies[k]->Output_0.exit_code == Some(0i32);
            let output = replies[k + 1]->Output_0;
            let merged = output.exit_code == Some(0i32) && !text::occurs_in(
                output.stderr,
                "conflict"@,
            );
            let conflicts = if output.exit_code == Some(0i32) {
                text::occurs_in(output.stderr, "conflict"@)
            } else {
                text::begins_a_line(output.stdout, "CONFLICT"@) || text::begins_a_line(
                    output.stderr,
                    "CONFLICT"@,
                )
            };
            let failure = MergeResultView {
                branch: name,
                success: false,
                has_conflicts: conflicts,
                commit_hash: None,
                message: if conflicts {
                    "Merge conflict detected. Please resolve conflicts in branch '"@ + name
                        + "' and try again."@
                } else {
                    "Failed to merge '"@ + name + "' into "@ + base + ": "@ + output.stderr
                },
            };
            let hash = if replies[k + 2] is Output {
                Some(text::trimmed(replies[k + 2]->Output_0.stdout))
            } else {
                None
            };
            let success = MergeResultView {
                branch: name,
                success: true,
                has_conflicts: false,
                commit_hash: hash,
                message: "Successfully merged '"@ + name + "' into "@ + base,
            };
            let p = k + 4;
            let deletion = run::run(
                DeleteView::begun(layout, cwd, name, false),
                replies.skip(p),
            );
            let found = replies[p] == ReplyView::Exists(true);
            let before = if found {
                replies[p + 2]->Parsed_0
            } else {
                RegistryView { branches: Seq::empty(), active_branch: None }
            };
            let after = before.with_status(name, BranchStatus::Merged);
            let q = if found {
                p + 3
            } else {
                p + 1
            };
            let s = if replies[q] == ReplyView::Exists(true) {
                q + 1
            } else {
                q + 2
            };
            // What is asked for, and what it takes to come to it.
            &&& 1 <= n <= replies.len() + 1
            &&& asked[0] == (ActionView::Run {
                command: "git rev-parse --show-toplevel"@,
                dir: cwd,
            })
            &&& n > 1 ==> {
                &&& replies[0] is Output
                &&& text::trimmed(replies[0]->Output_0.stdout).len() > 0
                &&& asked[1] == (ActionView::Run {
                    command: "git branch --show-current"@,
                    dir: root,
                })
            }
            &&& n > 2 ==> {
                &&& replies[1] is Output
                &&& asked[2] == (ActionView::Run {
                    command: "git rev-parse --verify refs/heads/"@ + "main"@,
                    dir: root,
                })
            }
            &&& n > 3 ==> replies[2] is Output
            &&& n > 3 && !main ==> asked[3] == (ActionView::Run {
                command: "git rev-parse --verify refs/heads/"@ + "master"@,
                dir: root,
            })
            &&& n > 4 && !main ==> {
                &&& replies[3] is Output
                &&& replies[3]->Output_0.exit_code == Some(0i32)
            }
            &&& n > 3 && n > k ==> asked[k] == (ActionView::Run {
                command: "git checkout "@ + base,
                dir: root,
            })
            &&& n > 4 && n > k + 1 ==> {
                &&& replies[k] is Output
                &&& !there ==> n == k + 2 && asked[k + 1] == back
                &&& there ==> asked[k + 1] == (ActionView::Run {
                    command: "git merge "@ + name + " --no-ff -m \"Merge branch '"@ + name
                        + "' into "@ + base + "\""@,
                    dir: root,
                })
            }
            &&& n > 5 && n > k + 2 ==> {
                &&& replies[k + 1] is Output
                &&& merged ==> asked[k + 2] == (ActionView::Run {
                    command: "git rev-parse HEAD"@,
                    dir: root,
                })
                &&& !merged ==> asked[k + 2] == (ActionView::Run {
                    command: "git merge --abort"@,
                    dir: root,
                })
            }
            &&& n > 6 && n > k + 3 ==> {
                &&& !merged ==> n == k + 4 && replies[k + 2] is Output
                &&& asked[k + 3] == back
            }
            &&& n > 7 && n > p ==> replies[k + 3] is Output
            &&& n > 7 && n > p && delete_after ==> asked.skip(p) == deletion.asked
            &&& n > 7 && n > p && !delete_after ==> {
                &&& asked[p] == (ActionView::Exists { path: layout.registry_path })
                &&& n > p + 1 && found ==> asked[p + 1] == (ActionView::Read {
                    path: layout.registry_path,
                })
                &&& n > p + 2 && found ==> replies[p + 1] is Text && asked[p + 2] == (
                ActionView::Parse { text: replies[p + 1]->Text_0 })
                &&& n > p + 1 && n > q ==> {
                    &&& found ==> replies[p + 2] is Parsed
                    &&& asked[q] == (ActionView::Exists { path: layout.forge_dir })
                }
                &&& n > p + 1 && n > q + 1 && s == q + 2 ==> asked[q + 1] == (
                ActionView::CreateDirs { path: layout.forge_dir })
                &&& n > p + 1 && n > q + 1 && n > s ==> {
                    &&& n == s + 1
                    &&& s == q + 2 ==> replies[q + 1] is Done
                    &&& asked[s] == (ActionView::Store {
                        path: layout.registry_path,
                        registry: after,
                    })
                }
            }
            // What it ends with.
            &&& match r.progress {
                ProgressView::Done(result) => {
                    &&& n <= replies.len()
                    &&& n > 6
                    &&& !merged ==> {
                        &&& result == failure
                        &&& n == k + 4
                        &&& replies[k + 3] is Output
                    }
                    &&& merged ==> {
                        &&& result == success
                        &&& n > p
                        &&& delete_after ==> !(deletion.progress is Ask)
                        &&& !delete_after ==> n > q + 1 && n == s + 1 && replies[s] is Done
                    }
                },
                ProgressView::Failed(BranchErrorView::Refused(refusal)) => {
                    &&& n <= replies.len()
                    &&& replies[n - 1] is Output
                    &&& {
                        ||| {
                            &&& n == 1
                            &&& text::trimmed(replies[0]->Output_0.stdout).len() == 0
                            &&& refusal == RefusalView::NotInRepository
                        }
                        ||| {
                            &&& n == 4 && !main
                            &&& replies[3]->Output_0.exit_code != Some(0i32)
                            &&& refusal == RefusalView::NoBaseBranch
                        }
                        ||| {
                            &&& n > 4 && n == k + 2 && !there
                            &&& refusal == (RefusalView::BaseNotCheckedOut {
                                stderr: replies[k]->Output_0.stderr,
                            })
                        }
                    }
                },
                ProgressView::Failed(BranchErrorView::Action(context)) => {
                    &&& n <= replies.len()
                    &&& !(asked[n - 1] is Exists)
                    &&& !(n > 5 && n == k + 3 && merged)
                    &&& n > 7 && n > p ==> !delete_after
                    &&& !asked[n - 1].is_answered_by(replies[n - 1])
                    &&& context == (if n == 1 {
                        Some(Context::GitRoot)
                    } else if n > 3 && n == k + 1 {
                        Some(Context::CheckoutBase)
                    } else if asked[n - 1] is Parse {
                        Some(Context::ParseRegistry)
                    } else {
                        None
                    })
                },
                // Where it stands.
                ProgressView::Ask(m) => {
                    &&& n == replies.len() + 1
                    &&& m == op.at(m.stage)
                    &&& match m.stage {
                        MergeStageView::Root => n == 1,
                        MergeStageView::Current { root: dir } => n == 2 && dir == root,
                        MergeStageView::FindMain { root: dir, current: c } => n == 3 && dir == root
                            && c == current,
                        MergeStageView::FindMaster { root: dir, current: c } => n == 4 && !main
                            && dir == root && c == current,
                        MergeStageView::CheckoutBase { root: dir, current: c, base: b } => n > 3
                            && n == k + 1 && dir == root && c == current && b == base,
                        MergeStageView::ReturnRefused { root: dir, current: c, stderr } => {
                            &&& n > 4 && n == k + 2 && !there && dir == root && c == current
                            &&& stderr == replies[k]->Output_0.stderr
                        },
                        MergeStageView::Merge { root: dir, current: c, base: b } => n > 4 && n == k
                            + 2 && there && dir == root && c == current && b == base,
                        MergeStageView::Abort { root: dir, current: c, result } => {
                            &&& n > 5 && n == k + 3 && !merged && dir == root && c == current
                            &&& result == failure
                        },
                        MergeStageView::ReturnAborted { root: dir, current: c, result } => {
                            &&& n > 6 && n == k + 4 && !merged && dir == root && c == current
                            &&& result == failure
                        },
                        MergeStageView::Hash { root: dir, current: c, base: b } => n > 5 && n == k
                            + 3 && merged && dir == root && c == current && b == base,
                        MergeStageView::Return { root: dir, current: c, base: b, hash: h } => {
                            &&& n > 6 && n == k + 4 && merged && dir == root && c == current
                            &&& b == base && h == hash
                        },
                        MergeStageView::Delete { delete, base: b, hash: h } => {
                            &&& n > 7 && n > p && merged && delete_after && b == base && h == hash
                            &&& deletion.progress == ProgressView::<DeleteView, ()>::Ask(delete)
                        },
                        MergeStageView::Load { load, base: b, hash: h } => {
                            &&& n > 7 && n > p && merged && !delete_after && b == base && h == hash
                            &&& match load {
                                LoadView::Find => n == p + 1,
                                LoadView::Read => n == p + 2 && found,
                                LoadView::Parse { text } => n == p + 3 && found && replies[p + 1]
                                    == ReplyView::Text(text),
                            }
                        },
                        MergeStageView::Save { save, base: b, hash: h } => {
                            &&& n > 8 && n > q && merged && !delete_after && b == base && h == hash
                            &&& save.registry == after
                            &&& match save.stage {
                                SaveStage::FindDir => n == q + 1,
                                SaveStage::CreateDir => n == q + 2 && s == q + 2,
                                SaveStage::Store => n == s + 1,
                            }
                        },
                    }
                },
            }
        }),
    decreases replies.len(),
{
    if replies.len() > 0 {
        let past = replies.drop_last();
        let reply = replies.last();
        law_merging(layout, cwd, name, delete_after, past);
        let m = MergeView::begun(layout, cwd, name, delete_after);
        let earlier = run::run(m, past);
        let r = run::run(m, replies);
        assert(forall|i: int| 0 <= i < past.len() ==> #[trigger] past[i] == replies[i]);
        assert(forall|i: int|
            0 <= i < earlier.asked.len() ==> #[trigger] earlier.asked[i] == r.asked[i]);
        let k = if past[2]->Output_0.exit_code == Some(0i32) {
            3int
        } else {
            4int
        };
        let p = k + 4;
        let delete = DeleteView::begun(layout, cwd, name, false);
        if earlier.progress is Ask {
            let stage = earlier.progress->Ask_0.stage;
            if stage is Return && r.progress is Ask && delete_after {
                assert(replies.skip(p) =~= Seq::empty());
                assert(r.asked.skip(p) =~= seq![delete.action()]);
            }
            if stage is Delete {
                lemma_goes_on(delete, past, replies, p);
                match stage->Delete_delete.next(reply) {
                    ProgressView::Ask(next) => {
                        assert(r.asked.skip(p) =~= earlier.asked.skip(p).push(next.action()));
                    },
                    _ => {},
                }
            }
        } else if past.len() >= p {
            lemma_goes_on(delete, past, replies, p);
        }
    }
}

/// The run of a deletion goes on with the next reply.
proof fn lemma_goes_on(
    delete: DeleteView,
    past: Seq<ReplyView>,
    replies: Seq<ReplyView>,
    p: int,
)
    requires
        replies.len() > 0,
        past == replies.drop_last(),
        0 <= p <= past.len(),
    ensures
        run::run(delete, replies.skip(p)) == run::run(delete, past.skip(p)).replied(replies.last()),
{
    assert(replies.skip(p).drop_last() =~= past.skip(p));
    assert(replies.skip(p).last() == replies.last());
}

} // verus!

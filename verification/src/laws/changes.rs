//! Looking for changes.

use crate::action::{ActionView, ProgressView, ReplyView};
use crate::changes::{CheckRun, CheckView};
use crate::error::{BranchErrorView, Context, RefusalView};
use crate::path;
use crate::run::{self, Run};
use crate::text;
use std::path::PathBuf;
use vstd::prelude::*;

verus! {

/// Looking for changes on a branch, from its arguments to its end.
///
/// Git is asked for the root of the repository, which is what it prints, trimmed, where that is not
/// blank; in the root, for the branch that is checked out; to check the other branch out; where it
/// did, for what has changed; and last to check out again the branch that it had named. There are
/// changes where it printed more than white space. It is refused outside of a repository and where
/// git did not check the branch out, and only there; any other failure is that of the last action.
pub proof fn law_looking(cwd: PathBuf, name: Seq<char>, replies: Seq<ReplyView>)
    ensures
        ({
            let op = CheckRun { cwd, name, check: CheckView::Root };
            let r = run::run(op, replies);
            let asked = r.asked;
            let n = asked.len() as int;
            let root = path::from_text(text::trimmed(replies[0]->Output_0.stdout));
            let current = text::trimmed(replies[1]->Output_0.stdout);
            let there = replies[2]->Output_0.exit_code == Some(0i32);
            let back = ActionView::Run { command: "git checkout "@ + current, dir: root };
            // What is asked for, and what it takes to come to it.
            &&& 1 <= n <= replies.len() + 1
            &&& asked[0] == (ActionView::Run {
                command: "git rev-parse --show-toplevel"@,
                dir: cwd,
            })
            &&& n > 1 ==> {
                &&& replies[0] is Output
                &&& text::trimmed(replies[0]->Output_0.stdout).len() > 0
                &&& asked[1] == (ActionView::Run {
                    command: "git branch --show-current"@,
                    dir: root,
                })
            }
            &&& n > 2 ==> {
                &&& replies[1] is Output
                &&& asked[2] == (ActionView::Run { command: "git checkout "@ + name, dir: root })
            }
            &&& n > 3 ==> {
                &&& replies[2] is Output
                &&& there ==> asked[3] == (ActionView::Run {
                    command: "git status --porcelain"@,
                    dir: root,
                })
                &&& !there ==> n == 4 && asked[3] == back
            }
            &&& n > 4 ==> replies[3] is Output && n == 5 && asked[4] == back
            // What it ends with.
            &&& match r.progress {
                ProgressView::Done(changed) => {
                    &&& n == 5 && n <= replies.len()
                    &&& replies[4] is Output
                    &&& changed <==> text::trimmed(replies[3]->Output_0.stdout).len() > 0
                },
                ProgressView::Failed(BranchErrorView::Refused(refusal)) => {
                    &&& n <= replies.len()
                    &&& replies[n - 1] is Output
                    &&& {
                        ||| {
                            &&& n == 1
                            &&& text::trimmed(replies[0]->Output_0.stdout).len() == 0
                            &&& refusal == RefusalView::NotInRepository
                        }
                        ||| {
                            &&& n == 4 && !there
                            &&& refusal == (RefusalView::NotCheckedOut {
                                stderr: replies[2]->Output_0.stderr,
                            })
                        }
                    }
                },
                ProgressView::Failed(BranchErrorView::Action(context)) => {
                    &&& n <= replies.len()
                    &&& !(replies[n - 1] is Output)
                    &&& context == (if n == 1 {
                        Some(Context::GitRoot)
                    } else {
                        None
                    })
                },
                // Where it stands.
                ProgressView::Ask(m) => {
                    &&& n == replies.len() + 1
                    &&& m.cwd == cwd && m.name == name
                    &&& match m.check {
                        CheckView::Root => n == 1,
                        CheckView::Current { root: dir } => n == 2 && dir == root,
                        CheckView::Checkout { root: dir, current: c } => n == 3 && dir == root && c
                            == current,
                        CheckView::Status { root: dir, current: c } => n == 4 && there && dir
                            == root && c == current,
                        CheckView::Return { root: dir, current: c, changed } => {
                            &&& n == 5 && dir == root && c == current
                            &&& changed <==> text::trimmed(replies[3]->Output_0.stdout).len() > 0
                        },
                        CheckView::ReturnRefused { root: dir, current: c, stderr } => {
                            &&& n == 4 && !there && dir == root && c == current
                            &&& stderr == replies[2]->Output_0.stderr
                        },
                    }
                },
            }
        }),
    decreases replies.len(),
{
    if replies.len() > 0 {
        let past = replies.drop_last();
        law_looking(cwd, name, past);
        let m = CheckRun { cwd, name, check: CheckView::Root };
        let earlier = run::run(m, past);
        assert(forall|i: int| 0 <= i < past.len() ==> #[trigger] past[i] == replies[i]);
        assert(forall|i: int|
            0 <= i < earlier.asked.len() ==> #[trigger] earlier.asked[i] == run::run(
                m,
                replies,
            ).asked[i]);
    }
}

} // verus!

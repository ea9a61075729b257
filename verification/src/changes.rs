//! Finding out whether a branch has uncommitted changes.

use crate::action::{Action, ActionView, Progress, ProgressView, Reply, ReplyView};
use crate::error::{BranchError, BranchErrorView, Refusal, RefusalView};
use crate::git::{self, Git, GitView};
use crate::run::{self, Machine, Run};
use crate::text;
use std::path::PathBuf;
use vstd::prelude::*;

verus! {

/// Looking for uncommitted changes on a branch, step by step: the branch is checked out for a
/// moment, and then the one that was checked out before
#[derive(Debug)]
pub enum CheckChanges {
    /// Git is asked for the root of the repository
    Root,
    /// Git is asked which branch is checked out
    Current { root: PathBuf },
    /// Git is told to check the branch out
    Checkout { root: PathBuf, current: String },
    /// Git is asked what has changed
    Status { root: PathBuf, current: String },
    /// Git is told to check the former branch out again
    Return { root: PathBuf, current: String, changed: bool },
    /// Git is told to check the former branch out again, not having checked the other one out
    ReturnRefused { root: PathBuf, current: String, stderr: String },
}

/// What a step of looking for changes holds.
pub enum CheckView {
    Root,
    Current { root: PathBuf },
    Checkout { root: PathBuf, current: Seq<char> },
    Status { root: PathBuf, current: Seq<char> },
    Return { root: PathBuf, current: Seq<char>, changed: bool },
    ReturnRefused { root: PathBuf, current: Seq<char>, stderr: Seq<char> },
}

impl View for CheckChanges {
    type V = CheckView;

    open spec fn view(&self) -> CheckView {
        match *self {
            CheckChanges::Root => CheckView::Root,
            CheckChanges::Current { root } => CheckView::Current { root },
            CheckChanges::Checkout { root, current } => CheckView::Checkout {
                root,
                current: current@,
            },
            CheckChanges::Status { root, current } => CheckView::Status { root, current: current@ },
            CheckChanges::Return { root, current, changed } => CheckView::Return {
                root,
                current: current@,
                changed,
            },
            CheckChanges::ReturnRefused { root, current, stderr } => CheckView::ReturnRefused {
                root,
                current: current@,
                stderr: stderr@,
            },
        }
    }
}

impl CheckView {
    /// What is to be done.
    pub open spec fn action(self, cwd: PathBuf, name: Seq<char>) -> ActionView {
        match self {
            CheckView::Root => GitView::ShowRoot.at(cwd),
            CheckView::Current { root } => GitView::ShowCurrent.at(root),
            CheckView::Checkout { root, .. } => GitView::Checkout { name }.at(root),
            CheckView::Status { root, .. } => GitView::Status.at(root),
            CheckView::Return { root, current, .. } => GitView::Checkout { name: current }.at(root),
            CheckView::ReturnRefused { root, current, .. } => GitView::Checkout {
                name: current,
            }.at(root),
        }
    }

    /// What follows the reply: there are changes where git prints any. On a branch that git does
    /// not check out, none can be looked for; the former branch is checked out again all the same.
    pub open spec fn next(self, reply: ReplyView) -> ProgressView<CheckView, bool> {
        match (self, reply) {
            (CheckView::Root, _) => match git::root_in(reply) {
                Ok(root) => ProgressView::Ask(CheckView::Current { root }),
                Err(error) => ProgressView::Failed(error),
            },
            (CheckView::Current { root }, ReplyView::Output(output)) => ProgressView::Ask(
                CheckView::Checkout { root, current: text::trimmed(output.stdout) },
            ),
            (CheckView::Checkout { root, current }, ReplyView::Output(output)) => {
                if output.succeeded() {
                    ProgressView::Ask(CheckView::Status { root, current })
                } else {
                    let stderr = output.stderr;
                    ProgressView::Ask(CheckView::ReturnRefused { root, current, stderr })
                }
            },
            (CheckView::Status { root, current }, ReplyView::Output(output)) => ProgressView::Ask(
                CheckView::Return {
                    root,
                    current,
                    changed: text::trimmed(output.stdout).len() > 0,
                },
            ),
            (CheckView::Return { changed, .. }, ReplyView::Output(_)) => ProgressView::Done(
                changed,
            ),
            (CheckView::ReturnRefused { stderr, .. }, ReplyView::Output(_)) => ProgressView::Failed(
                BranchErrorView::Refused(RefusalView::NotCheckedOut { stderr }),
            ),
            _ => ProgressView::Failed(BranchErrorView::Action(None)),
        }
    }

    /// How many replies are to come at most.
    pub open spec fn rank(self) -> nat {
        match self {
            CheckView::Root => 5,
            CheckView::Current { .. } => 4,
            CheckView::Checkout { .. } => 3,
            CheckView::Status { .. } => 2,
            CheckView::Return { .. } => 1,
            CheckView::ReturnRefused { .. } => 1,
        }
    }
}

impl CheckChanges {
    /// What is to be done
    pub fn action(&self, cwd: &PathBuf, name: &str) -> (res: Action)
        ensures
            res@ == self@.action(*cwd, name@),
    {
        match self {
            CheckChanges::Root => Git::ShowRoot.at(cwd),
            CheckChanges::Current { root } => Git::ShowCurrent.at(root),
            CheckChanges::Checkout { root, .. } => Git::Checkout { name }.at(root),
            CheckChanges::Status { root, .. } => Git::Status.at(root),
            CheckChanges::Return { root, current, .. } => Git::Checkout {
                name: current.as_str(),
            }.at(root),
            CheckChanges::ReturnRefused { root, current, .. } => Git::Checkout {
                name: current.as_str(),
            }.at(root),
        }
    }

    /// Go on with the reply
    pub fn next(self, reply: Reply) -> (res: Progress<CheckChanges, bool>)
        ensures
            res@ == self@.next(reply@),
    {
        match self {
            CheckChanges::Root => match git::get_git_root(&reply) {
                Ok(root) => Progress::Ask(CheckChanges::Current { root }),
                Err(error) => Progress::Failed(error),
            },
            CheckChanges::Current { root } => match reply {
                Reply::Output(output) => Progress::Ask(
                    CheckChanges::Checkout {
                        root,
                        current: text::trim_owned(output.stdout.as_str()),
                    },
                ),
                _ => Progress::Failed(BranchError::Action(None)),
            },
            CheckChanges::Checkout { root, current } => match reply {
                Reply::Output(output) => if output.succeeded() {
                    Progress::Ask(CheckChanges::Status { root, current })
                } else {
                    let stderr = output.stderr;
                    Progress::Ask(CheckChanges::ReturnRefused { root, current, stderr })
                },
                _ => Progress::Failed(BranchError::Action(None)),
            },
            CheckChanges::Status { root, current } => match reply {
                Reply::Output(output) => {
                    let changed = !output.stdout.trim().is_empty();
                    Progress::Ask(CheckChanges::Return { root, current, changed })
                },
                _ => Progress::Failed(BranchError::Action(None)),
            },
            CheckChanges::Return { changed, .. } => match reply {
                Reply::Output(_) => Progress::Done(changed),
                _ => Progress::Failed(BranchError::Action(None)),
            },
            CheckChanges::ReturnRefused { stderr, .. } => match reply {
                Reply::Output(_) => Progress::Failed(
                    BranchError::Refused(Refusal::NotCheckedOut { stderr }),
                ),
                _ => Progress::Failed(BranchError::Action(None)),
            },
        }
    }
}

/// Looking for changes on the branch `name`, from the directory `cwd`.
pub struct CheckRun {
    pub cwd: PathBuf,
    pub name: Seq<char>,
    pub check: CheckView,
}

impl Machine for CheckRun {
    type Result = bool;

    open spec fn act(self) -> ActionView {
        self.check.action(self.cwd, self.name)
    }

    open spec fn step(self, reply: ReplyView) -> ProgressView<CheckRun, bool> {
        match self.check.next(reply) {
            ProgressView::Ask(check) => ProgressView::Ask(CheckRun { check, ..self }),
            ProgressView::Done(changed) => ProgressView::Done(changed),
            ProgressView::Failed(error) => ProgressView::Failed(error),
        }
    }
}

/// What git is asked for to find out whether the branch `name` has changes, where `current` is
/// the branch that is checked out before.
pub open spec fn detour(
    cwd: PathBuf,
    name: Seq<char>,
    root: PathBuf,
    current: Seq<char>,
) -> Seq<ActionView> {
    seq![
        GitView::ShowRoot.at(cwd),
        GitView::ShowCurrent.at(root),
        GitView::Checkout { name }.at(root),
        GitView::Status.at(root),
        GitView::Checkout { name: current }.at(root),
    ]
}

/// What git is asked for where it does not check the branch `name` out.
pub open spec fn short_detour(
    cwd: PathBuf,
    name: Seq<char>,
    root: PathBuf,
    current: Seq<char>,
) -> Seq<ActionView> {
    seq![
        GitView::ShowRoot.at(cwd),
        GitView::ShowCurrent.at(root),
        GitView::Checkout { name }.at(root),
        GitView::Checkout { name: current }.at(root),
    ]
}

/// What git printed in reply to a command.
pub open spec fn printed(reply: ReplyView) -> Seq<char> {
    match reply {
        ReplyView::Output(output) => output.stdout,
        _ => Seq::empty(),
    }
}

spec fn check_inv(
    cwd: PathBuf,
    name: Seq<char>,
    r: Run<CheckRun>,
    past: Seq<ReplyView>,
) -> bool {
    match r.progress {
        ProgressView::Ask(op) => {
            let n = past.len() as int;
            &&& op.cwd == cwd
            &&& op.name == name
            &&& match op.check {
                CheckView::Root => n == 0 && r.asked =~= seq![GitView::ShowRoot.at(cwd)],
                CheckView::Current { root } => {
                    &&& n == 1
                    &&& git::root_in(past[0]) == Ok::<PathBuf, BranchErrorView>(root)
                    &&& r.asked =~= detour(cwd, name, root, Seq::empty()).take(2)
                },
                CheckView::Checkout { root, current } => {
                    &&& n == 2
                    &&& git::root_in(past[0]) == Ok::<PathBuf, BranchErrorView>(root)
                    &&& past[0] is Output && past[1] is Output
                    &&& current == text::trimmed(printed(past[1]))
                    &&& r.asked =~= detour(cwd, name, root, current).take(3)
                },
                CheckView::Status { root, current } => {
                    &&& n == 3
                    &&& git::root_in(past[0]) == Ok::<PathBuf, BranchErrorView>(root)
                    &&& past[0] is Output && past[1] is Output && past[2].succeeded()
                    &&& current == text::trimmed(printed(past[1]))
                    &&& r.asked =~= detour(cwd, name, root, current).take(4)
                },
                CheckView::Return { root, current, changed } => {
                    &&& n == 4
                    &&& past[0] is Output && past[1] is Output && past[2].succeeded()
                    &&& past[3] is Output
                    &&& git::root_in(past[0]) == Ok::<PathBuf, BranchErrorView>(root)
                    &&& current == text::trimmed(printed(past[1]))
                    &&& changed == (text::trimmed(printed(past[3])).len() > 0)
                    &&& r.asked =~= detour(cwd, name, root, current)
                },
                CheckView::ReturnRefused { root, current, stderr } => {
                    &&& n == 3
                    &&& past[0] is Output && past[1] is Output && past[2].complained(stderr)
                    &&& git::root_in(past[0]) == Ok::<PathBuf, BranchErrorView>(root)
                    &&& current == text::trimmed(printed(past[1]))
                    &&& r.asked =~= short_detour(cwd, name, root, current)
                },
            }
        },
        ProgressView::Done(changed) => {
            &&& past.len() >= 5
            &&& past[0] is Output && past[1] is Output && past[2].succeeded()
            &&& past[3] is Output && past[4] is Output
            &&& git::root_in(past[0]) is Ok
            &&& changed == (text::trimmed(printed(past[3])).len() > 0)
            &&& r.asked == detour(
                cwd,
                name,
                git::root_in(past[0])->Ok_0,
                text::trimmed(printed(past[1])),
            )
        },
        ProgressView::Failed(BranchErrorView::Refused(RefusalView::NotCheckedOut { stderr })) => {
            &&& past.len() >= 4
            &&& past[2].complained(stderr)
            &&& git::root_in(past[0]) is Ok
            &&& r.asked == short_detour(
                cwd,
                name,
                git::root_in(past[0])->Ok_0,
                text::trimmed(printed(past[1])),
            )
        },
        ProgressView::Failed(_) => true,
    }
}

/// Where looking for changes ends with an answer, git was asked for five things: the root of the
/// repository, the branch that is checked out, to check the other branch out, what has changed,
/// and last to check out again the branch that it had named. Each of these commands ran, and the
/// other branch was checked out. The answer is whether git printed any changes. Where it is refused
/// because git did not check the other branch out, git was told last to check out again the branch
/// that it had named, too.
pub proof fn law_check_returns(cwd: PathBuf, name: Seq<char>, replies: Seq<ReplyView>)
    ensures
        ({
            let r = run::run(CheckRun { cwd, name, check: CheckView::Root }, replies);
            r.progress matches ProgressView::Done(changed) ==> {
                &&& replies.len() >= 5
                &&& forall|i: int| 0 <= i < 5 ==> #[trigger] replies[i] is Output
                &&& replies[2].succeeded()
                &&& git::root_in(replies[0]) matches Ok(root)
                &&& r.asked == detour(cwd, name, root, text::trimmed(printed(replies[1])))
                &&& changed == (text::trimmed(printed(replies[3])).len() > 0)
            }
        }),
        ({
            let r = run::run(CheckRun { cwd, name, check: CheckView::Root }, replies);
            r.progress matches ProgressView::Failed(
                BranchErrorView::Refused(RefusalView::NotCheckedOut { stderr }),
            ) ==> {
                &&& replies.len() >= 4
                &&& replies[2].complained(stderr)
                &&& git::root_in(replies[0]) matches Ok(root)
                &&& r.asked == short_detour(cwd, name, root, text::trimmed(printed(replies[1])))
            }
        }),
{
    let inv = |r: Run<CheckRun>, past: Seq<ReplyView>| check_inv(cwd, name, r, past);
    assert forall|r: Run<CheckRun>, past: Seq<ReplyView>, reply: ReplyView|
        run::keeps_pace(r, past) && inv(r, past) implies #[trigger] inv(
        r.replied(reply),
        past.push(reply),
    ) by {
        let now = past.push(reply);
        if past.len() > 0 {
            assert(now[0] == past[0]);
        }
        if past.len() > 1 {
            assert(now[1] == past[1]);
        }
        if past.len() > 2 {
            assert(now[2] == past[2]);
        }
        if past.len() > 3 {
            assert(now[3] == past[3]);
        }
        if past.len() > 4 {
            assert(now[4] == past[4]);
        }
        assert(now[past.len() as int] == reply);
    }
    run::lemma_run_invariant(CheckRun { cwd, name, check: CheckView::Root }, replies, inv);
}

/// Looking for changes ends within five replies, whatever they are, and where each of them answers
/// in kind, it ends with an answer or is refused.
pub proof fn law_check_ends(cwd: PathBuf, name: Seq<char>, replies: Seq<ReplyView>)
    requires
        replies.len() >= 5,
    ensures
        !(run::run(CheckRun { cwd, name, check: CheckView::Root }, replies).progress is Ask),
        run::fails_with_its_action(
            run::run(CheckRun { cwd, name, check: CheckView::Root }, replies),
            replies,
        ),
{
    run::lemma_run_fails_with_its_action(CheckRun { cwd, name, check: CheckView::Root }, replies);
    run::lemma_run_ends(
        CheckRun { cwd, name, check: CheckView::Root },
        replies,
        |op: CheckRun| op.check.rank(),
    );
}

} // verus!

//! What a run of an operation is: the operation itself, one reply after the other.

use crate::abandon::AbandonView;
use crate::action::{ProgressView, ReplyView};
use crate::branch::BranchView;
use crate::changes::CheckRun;
use crate::create::DatedCreate;
use crate::delete::DeleteView;
use crate::list::ListView;
use crate::merge::MergeView;
use crate::registry::RegistryView;
use crate::run::{self, Machine, Run};
use crate::storage::{LoadRun, SaveRun};
use crate::switch::SwitchView;
use vstd::prelude::*;

verus! {

/// A run begins with the operation and what it asks for. Each reply takes it one step further, and
/// what the operation then asks for, if anything, comes behind what it has asked for; a run that
/// has ended stays as it is.
pub proof fn law_runs<M: Machine>(m: M, replies: Seq<ReplyView>, reply: ReplyView)
    ensures
        run::run(m, Seq::empty()) == (Run {
            progress: ProgressView::<M, M::Result>::Ask(m),
            asked: seq![m.act()],
        }),
        ({
            let r = run::run(m, replies);
            run::run(m, replies.push(reply)) == (match r.progress {
                ProgressView::Ask(op) => Run {
                    progress: op.step(reply),
                    asked: match op.step(reply) {
                        ProgressView::Ask(next) => r.asked.push(next.act()),
                        _ => r.asked,
                    },
                },
                _ => r,
            })
        }),
{
    assert(replies.push(reply).drop_last() =~= replies);
}

/// The runs of creating, switching, listing, merging, deleting and abandoning are those of the very
/// operations.
pub proof fn law_runs_of_operations(
    create: DatedCreate,
    switch: SwitchView,
    list: ListView,
    merge: MergeView,
    delete: DeleteView,
    abandon: AbandonView,
    reply: ReplyView,
)
    ensures
        create.act() == create.op.action(),
        create.step(reply) == (match create.op.next(reply, create.now) {
            ProgressView::Ask(op) => ProgressView::<DatedCreate, BranchView>::Ask(
                DatedCreate { op, now: create.now },
            ),
            ProgressView::Done(branch) => ProgressView::<DatedCreate, BranchView>::Done(branch),
            ProgressView::Failed(error) => ProgressView::<DatedCreate, BranchView>::Failed(error),
        }),
        switch.act() == switch.action(),
        switch.step(reply) == switch.next(reply),
        list.act() == list.action(),
        list.step(reply) == list.next(reply),
        merge.act() == merge.action(),
        merge.step(reply) == merge.next(reply),
        delete.act() == delete.action(),
        delete.step(reply) == delete.next(reply),
        abandon.act() == abandon.action(),
        abandon.step(reply) == abandon.next(reply),
{
}

/// The runs of looking for changes, loading and saving are those of the very operations.
pub proof fn law_runs_of_parts(check: CheckRun, load: LoadRun, save: SaveRun, reply: ReplyView)
    ensures
        check.act() == check.check.action(check.cwd, check.name),
        check.step(reply) == (match check.check.next(reply) {
            ProgressView::Ask(next) => ProgressView::<CheckRun, bool>::Ask(
                CheckRun { cwd: check.cwd, name: check.name, check: next },
            ),
            ProgressView::Done(changed) => ProgressView::<CheckRun, bool>::Done(changed),
            ProgressView::Failed(error) => ProgressView::<CheckRun, bool>::Failed(error),
        }),
        load.act() == load.load.action(load.layout),
        load.step(reply) == (match load.load.next(reply) {
            ProgressView::Ask(next) => ProgressView::<LoadRun, RegistryView>::Ask(
                LoadRun { layout: load.layout, load: next },
            ),
            ProgressView::Done(registry) => ProgressView::<LoadRun, RegistryView>::Done(registry),
            ProgressView::Failed(error) => ProgressView::<LoadRun, RegistryView>::Failed(error),
        }),
        save.act() == save.save.action(save.layout),
        save.step(reply) == (match save.save.next(reply) {
            ProgressView::Ask(next) => ProgressView::<SaveRun, ()>::Ask(
                SaveRun { layout: save.layout, save: next },
            ),
            ProgressView::Done(_) => ProgressView::<SaveRun, ()>::Done(()),
            ProgressView::Failed(error) => ProgressView::<SaveRun, ()>::Failed(error),
        }),
{
}

} // verus!

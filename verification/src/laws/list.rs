//! Listing the branches.

use crate::action::{ActionView, ProgressView, ReplyView};
use crate::branch::{BranchInfoView, BranchStatus};
use crate::changes::{CheckRun, CheckView};
use crate::error::{BranchErrorView, Context};
use crate::laws::text;
use crate::layout::Layout;
use crate::list::{self, ListStageView, ListView};
use crate::listing;
use crate::run::{self, Run};
use crate::storage::LoadView;
use std::path::PathBuf;
use vstd::prelude::*;

verus! {

/// A listing begins with loading the registry, and can fail there only, with that action. It writes
/// nothing, and where it has not ended, it waits for the reply to what it asked for last.
pub proof fn law_listing_begins(layout: Layout, cwd: PathBuf, replies: Seq<ReplyView>)
    ensures
        ({
            let op = ListView::begun(layout, cwd);
            let r = run::run(op, replies);
            let asked = r.asked;
            let n = asked.len() as int;
            let found = replies[0] == ReplyView::Exists(true);
            &&& 1 <= n <= replies.len() + 1
            &&& asked[0] == (ActionView::Exists { path: layout.registry_path })
            &&& n > 1 && found ==> asked[1] == (ActionView::Read { path: layout.registry_path })
            &&& n > 2 && found ==> replies[1] is Text && asked[2] == (ActionView::Parse {
                text: replies[1]->Text_0,
            })
            &&& n > 3 && found ==> replies[2] is Parsed
            &&& forall|i: int|
                0 <= i < n && i >= (if found {
                    3int
                } else {
                    1int
                }) ==> #[trigger] asked[i] is Run
            &&& match r.progress {
                ProgressView::Done(_) => n <= replies.len() && (found ==> n >= 3
                    && replies[2] is Parsed),
                ProgressView::Failed(error) => {
                    &&& n <= replies.len()
                    &&& found
                    &&& {
                        ||| {
                            &&& n == 2 && !(replies[1] is Text)
                            &&& error == BranchErrorView::Action(None)
                        }
                        ||| {
                            &&& n == 3 && !(replies[2] is Parsed)
                            &&& error == BranchErrorView::Action(Some(Context::ParseRegistry))
                        }
                    }
                },
                ProgressView::Ask(m) => {
                    &&& n == replies.len() + 1
                    &&& m == op.at(m.stage)
                    &&& match m.stage {
                        ListStageView::Load { load } => match load {
                            LoadView::Find => n == 1,
                            LoadView::Read => n == 2 && found,
                            LoadView::Parse { text } => n == 3 && found && replies[1]
                                == ReplyView::Text(text),
                        },
                        ListStageView::Check { .. } => n > 1 && (found ==> n > 3),
                    }
                },
            }
        }),
    decreases replies.len(),
{
    if replies.len() > 0 {
        let past = replies.drop_last();
        law_listing_begins(layout, cwd, past);
        let m = ListView::begun(layout, cwd);
        let earlier = run::run(m, past);
        assert(forall|i: int| 0 <= i < past.len() ==> #[trigger] past[i] == replies[i]);
        assert(forall|i: int|
            0 <= i < earlier.asked.len() ==> #[trigger] earlier.asked[i] == run::run(
                m,
                replies,
            ).asked[i]);
    }
}

/// A listing has one entry for each branch of the registry that was loaded, and the entry has each
/// field of the branch. The branches are looked at one after the other, right after the registry
/// was loaded, each by just what looking for changes on it asks for; the entry tells of changes
/// where that ended with some. Active branches come first, then merged ones, then abandoned ones,
/// each by the bytes of their names, and what has the same status and name stands as in the
/// registry.
pub proof fn law_listing_ends(layout: Layout, cwd: PathBuf, replies: Seq<ReplyView>)
    ensures
        ({
            let r = run::run(ListView::begun(layout, cwd), replies);
            let asked = r.asked;
            let found = replies[0] == ReplyView::Exists(true);
            let branches = if found {
                replies[2]->Parsed_0.branches
            } else {
                Seq::empty()
            };
            r.progress matches ProgressView::Done(listed) ==> exists|
                entries: Seq<BranchInfoView>,
                cuts: Seq<int>,
            |
                #![trigger entries.len(), cuts.len()]
                {
                    &&& entries.len() == branches.len()
                    &&& cuts.len() == branches.len() + 1
                    &&& cuts[0] == (if found {
                        3int
                    } else {
                        1int
                    })
                    &&& cuts.last() == asked.len()
                    &&& forall|i: int|
                        0 <= i < branches.len() ==> {
                            let entry = #[trigger] entries[i];
                            let branch = branches[i];
                            let looking = run::run(
                                CheckRun { cwd, name: branch.name, check: CheckView::Root },
                                replies.subrange(cuts[i], cuts[i + 1]),
                            );
                            &&& entry.id == branch.id
                            &&& entry.name == branch.name
                            &&& entry.task == branch.task
                            &&& entry.work_dir == branch.work_dir
                            &&& entry.agent_id == branch.agent_id
                            &&& entry.status == branch.status
                            &&& entry.created_at == branch.created_at
                            &&& 0 <= cuts[i] <= cuts[i + 1] <= asked.len()
                            &&& asked.subrange(cuts[i], cuts[i + 1]) == looking.asked
                            &&& !(looking.progress is Ask)
                            &&& entry.has_changes <==> looking.progress == ProgressView::<
                                CheckRun,
                                bool,
                            >::Done(true)
                        }
                    &&& listed.to_multiset() == entries.to_multiset()
                    &&& listing::is_listing_of(listed, entries)
                }
        }),
        run::run(ListView::begun(layout, cwd), replies).progress matches ProgressView::Done(listed)
            ==> forall|i: int, j: int|
            0 <= i < j < listed.len() ==> {
                let (a, b) = (#[trigger] listed[i], #[trigger] listed[j]);
                let x = vstd::utf8::encode_utf8(a.name);
                let y = vstd::utf8::encode_utf8(b.name);
                &&& b.status == BranchStatus::Active ==> a.status == BranchStatus::Active
                &&& a.status == BranchStatus::Abandoned ==> b.status == BranchStatus::Abandoned
                &&& a.status == b.status && x != y ==> exists|p: int|
                    {
                        &&& 0 <= p <= x.len()
                        &&& p < y.len()
                        &&& #[trigger] x.take(p) == y.take(p)
                        &&& p == x.len() || x[p] < y[p]
                    }
            },
{
    list::law_list(layout, cwd, replies);
    law_listing_begins(layout, cwd, replies);
    let r = run::run(ListView::begun(layout, cwd), replies);
    if r.progress is Done {
        let listed = r.progress->Done_0;
        let branches = list::registry_in(replies).branches;
        let (infos, cuts) = choose|infos: Seq<BranchInfoView>, cuts: Seq<int>|
            {
                &&& #[trigger] list::tells_of(r.asked, replies, cwd, branches, infos, cuts)
                &&& infos.len() == branches.len()
                &&& cuts.last() == r.asked.len()
                &&& listing::is_listing_of(listed, infos)
            };
        assert forall|i: int| 0 <= i < branches.len() implies list::looked_at(
            r.asked,
            replies,
            cwd,
            branches[i],
            #[trigger] infos[i],
            cuts[i],
            cuts[i + 1],
        ) by {}
        assert forall|i: int, j: int| 0 <= i < j < listed.len() implies {
            let (a, b) = (#[trigger] listed[i], #[trigger] listed[j]);
            let x = vstd::utf8::encode_utf8(a.name);
            let y = vstd::utf8::encode_utf8(b.name);
            &&& b.status == BranchStatus::Active ==> a.status == BranchStatus::Active
            &&& a.status == BranchStatus::Abandoned ==> b.status == BranchStatus::Abandoned
            &&& a.status == b.status && x != y ==> exists|p: int|
                {
                    &&& 0 <= p <= x.len()
                    &&& p < y.len()
                    &&& #[trigger] x.take(p) == y.take(p)
                    &&& p == x.len() || x[p] < y[p]
                }
        } by {
            text::law_listing_is_ordered(infos, listed, i, j);
        }
    }
}

} // verus!

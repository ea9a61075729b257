//! Listing the managed branches.

use crate::action::{Action, ActionView, Progress, ProgressView, Reply, ReplyView};
use crate::branch::{Branch, BranchInfo, BranchInfoView, BranchView};
use crate::changes::{CheckChanges, CheckRun, CheckView};
use crate::layout::Layout;
use crate::listing;
use crate::registry::RegistryView;
use crate::run::{self, Machine, Run};
use crate::storage::{self, LoadRegistry, LoadView};
use std::path::PathBuf;
use vstd::prelude::*;

verus! {

/// Listing all managed branches, step by step
#[derive(Debug)]
pub struct ListBranches {
    /// Where the service keeps its files
    pub layout: Layout,
    /// The current directory
    pub cwd: PathBuf,
    /// How far the listing has come
    pub stage: ListStage,
}

/// How far a listing has come
#[derive(Debug)]
pub enum ListStage {
    /// The registry is being loaded
    Load { load: LoadRegistry },
    /// One branch is being looked at for changes; those in `infos` have been, and those in `rest`
    /// are still to be
    Check { infos: Vec<BranchInfo>, branch: Branch, rest: Vec<Branch>, check: CheckChanges },
}

/// What a step of listing holds.
pub struct ListView {
    pub layout: Layout,
    pub cwd: PathBuf,
    pub stage: ListStageView,
}

/// What a stage of listing holds.
pub enum ListStageView {
    Load { load: LoadView },
    Check {
        infos: Seq<BranchInfoView>,
        branch: BranchView,
        rest: Seq<BranchView>,
        check: CheckView,
    },
}

impl View for ListStage {
    type V = ListStageView;

    open spec fn view(&self) -> ListStageView {
        match *self {
            ListStage::Load { load } => ListStageView::Load { load: load@ },
            ListStage::Check { infos, branch, rest, check } => ListStageView::Check {
                infos: infos.deep_view(),
                branch: branch@,
                rest: rest.deep_view(),
                check: check@,
            },
        }
    }
}

impl View for ListBranches {
    type V = ListView;

    open spec fn view(&self) -> ListView {
        ListView { layout: self.layout, cwd: self.cwd, stage: self.stage@ }
    }
}

impl ListView {
    /// A listing, before anything is done.
    pub open spec fn begun(layout: Layout, cwd: PathBuf) -> ListView {
        ListView { layout, cwd, stage: ListStageView::Load { load: LoadView::Find } }
    }

    /// The same listing at another stage.
    pub open spec fn at(self, stage: ListStageView) -> ListView {
        ListView { stage, ..self }
    }

    /// What is to be done.
    pub open spec fn action(self) -> ActionView {
        match self.stage {
            ListStageView::Load { load } => load.action(self.layout),
            ListStageView::Check { branch, check, .. } => check.action(self.cwd, branch.name),
        }
    }

    /// The listing after `infos` has been found out, with `rest` still to be looked at.
    pub open spec fn collected(
        self,
        infos: Seq<BranchInfoView>,
        rest: Seq<BranchView>,
    ) -> ProgressView<ListView, Seq<BranchInfoView>> {
        if rest.len() > 0 {
            ProgressView::Ask(
                self.at(
                    ListStageView::Check {
                        infos,
                        branch: rest.first(),
                        rest: rest.drop_first(),
                        check: CheckView::Root,
                    },
                ),
            )
        } else {
            ProgressView::Done(listing::listing_of(infos))
        }
    }

    /// What follows the reply: each branch is looked at in turn, and one that cannot be looked
    /// at counts as one without changes.
    pub open spec fn next(self, reply: ReplyView) -> ProgressView<ListView, Seq<BranchInfoView>> {
        match self.stage {
            ListStageView::Load { load } => match load.next(reply) {
                ProgressView::Ask(load) => ProgressView::Ask(self.at(ListStageView::Load { load })),
                ProgressView::Done(registry) => self.collected(Seq::empty(), registry.branches),
                ProgressView::Failed(error) => ProgressView::Failed(error),
            },
            ListStageView::Check { infos, branch, rest, check } => match check.next(reply) {
                ProgressView::Ask(check) => ProgressView::Ask(
                    self.at(ListStageView::Check { infos, branch, rest, check }),
                ),
                ProgressView::Done(changed) => self.collected(
                    infos.push(branch.info(changed)),
                    rest,
                ),
                ProgressView::Failed(_) => self.collected(infos.push(branch.info(false)), rest),
            },
        }
    }
}

impl ListBranches {
    /// Look at the next branch, or end with the listing where there is none
    fn collected(
        layout: Layout,
        cwd: PathBuf,
        infos: Vec<BranchInfo>,
        rest: Vec<Branch>,
    ) -> (res: Progress<ListBranches, Vec<BranchInfo>>)
        ensures
            forall|stage: ListStageView|
                res@ == (ListView { layout, cwd, stage }).collected(
                    infos.deep_view(),
                    rest.deep_view(),
                ),
    {
        if rest.len() > 0 {
            let ghost all = rest.deep_view();
            let mut rest = rest;
            let branch = rest.remove(0);
            assert(rest.deep_view() =~= all.drop_first());
            let check = CheckChanges::Root;
            Progress::Ask(
                ListBranches {
                    layout,
                    cwd,
                    stage: ListStage::Check { infos, branch, rest, check },
                },
            )
        } else {
            Progress::Done(listing::sort_infos(infos))
        }
    }

    /// What is to be done
    pub fn action(&self) -> (res: Action)
        ensures
            res@ == self@.action(),
    {
        match &self.stage {
            ListStage::Load { load } => load.action(&self.layout),
            ListStage::Check { branch, check, .. } => check.action(
                &self.cwd,
                branch.name.as_str(),
            ),
        }
    }

    /// Go on with the reply
    pub fn next(self, reply: Reply) -> (res: Progress<ListBranches, Vec<BranchInfo>>)
        ensures
            res@ == self@.next(reply@),
    {
        match self.stage {
            ListStage::Load { load } => match load.next(reply) {
                Progress::Ask(load) => Progress::Ask(
                    ListBranches { stage: ListStage::Load { load }, ..self },
                ),
                Progress::Done(registry) => {
                    let infos: Vec<BranchInfo> = Vec::new();
                    assert(infos.deep_view() =~= Seq::<BranchInfoView>::empty());
                    assert(registry.branches.deep_view() =~= registry@.branches);
                    ListBranches::collected(self.layout, self.cwd, infos, registry.branches)
                },
                Progress::Failed(error) => Progress::Failed(error),
            },
            ListStage::Check { infos, branch, rest, check } => {
                let changed = match check.next(reply) {
                    Progress::Ask(check) => {
                        let stage = ListStage::Check { infos, branch, rest, check };
                        return Progress::Ask(ListBranches { stage, ..self });
                    },
                    Progress::Done(changed) => changed,
                    Progress::Failed(_) => false,
                };
                let ghost before = infos.deep_view();
                let mut infos = infos;
                let mut info = BranchInfo::from(&branch);
                info.has_changes = changed;
                infos.push(info);
                assert(infos.deep_view() =~= before.push(info@));
                ListBranches::collected(self.layout, self.cwd, infos, rest)
            },
        }
    }
}

impl Machine for ListView {
    type Result = Seq<BranchInfoView>;

    open spec fn act(self) -> ActionView {
        self.action()
    }

    open spec fn step(self, reply: ReplyView) -> ProgressView<ListView, Seq<BranchInfoView>> {
        self.next(reply)
    }
}

/// Looking for changes on a branch, before anything is done.
pub open spec fn check_of(cwd: PathBuf, branch: BranchView) -> CheckRun {
    CheckRun { cwd, name: branch.name, check: CheckView::Root }
}

/// `info` tells of `branch`, with changes where looking for them found some: what was asked for
/// from the `from`-th thing to before the `to`-th is just what looking for changes on that branch
/// asks for, with the replies to it. Where looking for them failed, there are none.
pub open spec fn looked_at(
    asked: Seq<ActionView>,
    replies: Seq<ReplyView>,
    cwd: PathBuf,
    branch: BranchView,
    info: BranchInfoView,
    from: int,
    to: int,
) -> bool {
    let r = run::run(check_of(cwd, branch), replies.subrange(from, to));
    &&& 0 <= from <= to <= asked.len()
    &&& to <= replies.len()
    &&& asked.subrange(from, to) == r.asked
    &&& match r.progress {
        ProgressView::Ask(_) => false,
        ProgressView::Done(changed) => info == branch.info(changed),
        ProgressView::Failed(_) => info == branch.info(false),
    }
}

/// How many things are asked for to load the registry.
pub open spec fn loaded_by(replies: Seq<ReplyView>) -> int {
    if replies[0] == ReplyView::Exists(true) {
        3
    } else {
        1
    }
}

/// `infos` tells of the first of `branches`, which were looked at one after the other, right after
/// the registry was loaded: the `i`-th one from the thing at `cuts[i]` on.
pub open spec fn tells_of(
    asked: Seq<ActionView>,
    replies: Seq<ReplyView>,
    cwd: PathBuf,
    branches: Seq<BranchView>,
    infos: Seq<BranchInfoView>,
    cuts: Seq<int>,
) -> bool {
    &&& infos.len() <= branches.len()
    &&& cuts.len() == infos.len() + 1
    &&& cuts[0] == loaded_by(replies)
    &&& forall|i: int|
        0 <= i < infos.len() ==> looked_at(
            asked,
            replies,
            cwd,
            branches[i],
            #[trigger] infos[i],
            cuts[i],
            cuts[i + 1],
        )
}

/// The registry that a listing works on, read out of the replies: the empty one where there is no
/// file, and otherwise what the text of the file says.
pub open spec fn registry_in(replies: Seq<ReplyView>) -> RegistryView {
    match (replies[0], replies[2]) {
        (ReplyView::Exists(true), ReplyView::Parsed(registry)) => registry,
        _ => RegistryView::empty(),
    }
}

/// `listed` is the listing of all branches of the registry that was loaded, each as the replies
/// say, and nothing else was asked for than to load it and to look at each.
pub open spec fn lists_all(
    asked: Seq<ActionView>,
    replies: Seq<ReplyView>,
    layout: Layout,
    cwd: PathBuf,
    listed: Seq<BranchInfoView>,
) -> bool {
    let registry = registry_in(replies);
    &&& replies.len() > 0
    &&& storage::loaded(asked, replies, layout, registry)
    &&& exists|infos: Seq<BranchInfoView>, cuts: Seq<int>|
        {
            &&& #[trigger] tells_of(asked, replies, cwd, registry.branches, infos, cuts)
            &&& infos.len() == registry.branches.len()
            &&& cuts.last() == asked.len()
            &&& listing::is_listing_of(listed, infos)
        }
}

/// The replies that settle which registry the listing works on have come.
spec fn is_settled(past: Seq<ReplyView>) -> bool {
    past.len() > 0 && (past[0] == ReplyView::Exists(true) ==> past.len() > 2)
}

/// The branches of the registry have been looked at as far as `infos` tells; `branch` is the next
/// one, for which `check` is under way since the last of `cuts`, and `rest` follow.
spec fn halfway(
    begun: ListView,
    r: Run<ListView>,
    past: Seq<ReplyView>,
    stage: ListStageView,
    cuts: Seq<int>,
) -> bool {
    let registry = registry_in(past);
    let from = cuts.last();
    &&& stage matches ListStageView::Check { infos, branch, rest, check }
    &&& is_settled(past)
    &&& storage::loaded(r.asked, past, begun.layout, registry)
    &&& tells_of(r.asked, past, begun.cwd, registry.branches, infos, cuts)
    &&& registry.branches =~= registry.branches.take(infos.len() as int) + seq![branch] + rest
    &&& infos.len() < registry.branches.len()
    &&& 0 <= from <= past.len()
    &&& {
        let checked = run::run(
            check_of(begun.cwd, branch),
            past.subrange(from, past.len() as int),
        );
        &&& checked.asked == r.asked.skip(from)
        &&& checked.progress == ProgressView::<CheckRun, bool>::Ask(
            CheckRun { cwd: begun.cwd, name: branch.name, check },
        )
    }
}

spec fn list_inv(begun: ListView, r: Run<ListView>, past: Seq<ReplyView>) -> bool {
    &&& run::wrote_nothing(r.asked)
    &&& match r.progress {
        ProgressView::Ask(op) => {
            &&& op == begun.at(op.stage)
            &&& match op.stage {
                ListStageView::Load { load } => {
                    &&& storage::loading(r.asked, past, begun.layout, load)
                    &&& past.len() + load.rank() == 3
                    &&& past.len() > 0 ==> past[0] == ReplyView::Exists(true)
                },
                ListStageView::Check { .. } => exists|cuts: Seq<int>|
                    halfway(begun, r, past, op.stage, cuts),
            }
        },
        ProgressView::Done(listed) => {
            &&& is_settled(past)
            &&& lists_all(r.asked, past, begun.layout, begun.cwd, listed)
        },
        ProgressView::Failed(_) => true,
    }
}

/// What was found out about branches stays so.
proof fn lemma_tells_of_stays(
    r: Run<ListView>,
    past: Seq<ReplyView>,
    cwd: PathBuf,
    branches: Seq<BranchView>,
    infos: Seq<BranchInfoView>,
    cuts: Seq<int>,
    reply: ReplyView,
)
    requires
        past.len() > 0,
        tells_of(r.asked, past, cwd, branches, infos, cuts),
    ensures
        tells_of(r.replied(reply).asked, past.push(reply), cwd, branches, infos, cuts),
{
    let asked = r.replied(reply).asked;
    let now = past.push(reply);
    assert(now[0] == past[0]);
    assert forall|i: int| 0 <= i < infos.len() implies looked_at(
        asked,
        now,
        cwd,
        branches[i],
        #[trigger] infos[i],
        cuts[i],
        cuts[i + 1],
    ) by {
        assert(looked_at(r.asked, past, cwd, branches[i], infos[i], cuts[i], cuts[i + 1]));
        assert(now.subrange(cuts[i], cuts[i + 1]) =~= past.subrange(cuts[i], cuts[i + 1]));
        assert(asked.subrange(cuts[i], cuts[i + 1]) =~= r.asked.subrange(cuts[i], cuts[i + 1]));
    }
}

/// Where `infos` tells of the first branches of the registry, and `rest` are the others, the
/// listing goes on as it should.
proof fn lemma_collected(
    begun: ListView,
    op: ListView,
    r: Run<ListView>,
    past: Seq<ReplyView>,
    reply: ReplyView,
    infos: Seq<BranchInfoView>,
    rest: Seq<BranchView>,
    cuts: Seq<int>,
)
    requires
        run::keeps_pace(r, past),
        r.progress == ProgressView::<ListView, Seq<BranchInfoView>>::Ask(op),
        run::wrote_nothing(r.asked),
        op == begun.at(op.stage),
        op.next(reply) == op.collected(infos, rest),
        ({
            let now = past.push(reply);
            let branches = registry_in(now).branches;
            &&& is_settled(now)
            &&& storage::loaded(r.replied(reply).asked, now, begun.layout, registry_in(now))
            &&& tells_of(r.replied(reply).asked, now, begun.cwd, branches, infos, cuts)
            &&& cuts.last() == now.len()
            &&& branches == branches.take(infos.len() as int) + rest
        }),
    ensures
        list_inv(begun, r.replied(reply), past.push(reply)),
{
    let after = r.replied(reply);
    let now = past.push(reply);
    if rest.len() > 0 {
        let stage = after.progress->Ask_0.stage;
        let n = now.len() as int;
        assert(rest =~= seq![rest.first()] + rest.drop_first());
        assert(now.subrange(n, n) =~= Seq::empty());
        assert(after.asked.skip(n) =~= seq![after.progress->Ask_0.action()]);
        assert(halfway(begun, after, now, stage, cuts));
    } else {
        assert(rest =~= Seq::empty());
        assert(registry_in(now).branches.len() == infos.len());
        listing::law_listing_exists(infos);
        assert(after.asked == r.asked);
        assert(tells_of(
            after.asked,
            now,
            begun.cwd,
            registry_in(now).branches,
            infos,
            cuts,
        ));
    }
}

/// The invariant is kept while a branch is being looked at.
proof fn lemma_check_step(
    begun: ListView,
    r: Run<ListView>,
    past: Seq<ReplyView>,
    reply: ReplyView,
)
    requires
        run::keeps_pace(r, past),
        list_inv(begun, r, past),
        r.progress is Ask,
        r.progress->Ask_0.stage is Check,
    ensures
        list_inv(begun, r.replied(reply), past.push(reply)),
{
    let after = r.replied(reply);
    let now = past.push(reply);
    let op = r.progress->Ask_0;
    let (infos, branch, rest, check) = match op.stage {
        ListStageView::Check { infos, branch, rest, check } => (infos, branch, rest, check),
        _ => arbitrary(),
    };
    let cuts = choose|cuts: Seq<int>| halfway(begun, r, past, op.stage, cuts);
    let from = cuts.last();
    storage::lemma_loaded_stays(r, past, begun.layout, reply);
    assert(now[0] == past[0]);
    assert(past.len() > 2 ==> now[2] == past[2]);
    let branches = registry_in(now).branches;
    let k = infos.len() as int;
    let n = now.len() as int;
    let m = check_of(begun.cwd, branch);
    let seen = past.subrange(from, past.len() as int);
    assert(now.subrange(from, n) =~= seen.push(reply));
    assert(seen.push(reply).drop_last() =~= seen);
    assert(run::run(m, seen.push(reply)) == run::run(m, seen).replied(reply));
    lemma_tells_of_stays(r, past, begun.cwd, branches, infos, cuts, reply);
    if check.next(reply) is Ask {
        let stage = after.progress->Ask_0.stage;
        let next = after.progress->Ask_0;
        assert(after.asked.skip(from) =~= r.asked.skip(from).push(next.action()));
        assert(halfway(begun, after, now, stage, cuts));
    } else {
        let changed = check.next(reply) == ProgressView::<CheckView, bool>::Done(true);
        let info = branch.info(changed);
        let longer = infos.push(info);
        let more = cuts.push(n);
        assert(branches[k] == branch);
        assert(after.asked.subrange(from, n) =~= r.asked.skip(from));
        assert(looked_at(after.asked, now, begun.cwd, branch, info, from, n));
        assert forall|i: int| 0 <= i < longer.len() implies looked_at(
            after.asked,
            now,
            begun.cwd,
            branches[i],
            #[trigger] longer[i],
            more[i],
            more[i + 1],
        ) by {
            if i < k {
                assert(longer[i] == infos[i]);
                assert(more[i] == cuts[i] && more[i + 1] == cuts[i + 1]);
            } else {
                assert(more[i] == from);
            }
        }
        assert(branches =~= branches.take(k + 1) + rest);
        lemma_collected(begun, op, r, past, reply, longer, rest, more);
    }
}

proof fn lemma_list_step(
    begun: ListView,
    r: Run<ListView>,
    past: Seq<ReplyView>,
    reply: ReplyView,
)
    requires
        run::keeps_pace(r, past),
        list_inv(begun, r, past),
    ensures
        list_inv(begun, r.replied(reply), past.push(reply)),
{
    let after = r.replied(reply);
    let now = past.push(reply);
    storage::lemma_loaded_stays(r, past, begun.layout, reply);
    assert(past.len() > 0 ==> now[0] == past[0]);
    assert(past.len() > 2 ==> now[2] == past[2]);
    assert(now[past.len() as int] == reply);
    match r.progress {
        ProgressView::Ask(op) => match op.stage {
            ListStageView::Load { load } => {
                storage::lemma_load_step(r, past, begun.layout, load, reply);
                if load.next(reply) is Done {
                    let branches = registry_in(now).branches;
                    assert(branches =~= branches.take(0) + branches);
                    let cuts = seq![now.len() as int];
                    lemma_collected(begun, op, r, past, reply, Seq::empty(), branches, cuts);
                }
            },
            ListStageView::Check { .. } => {
                lemma_check_step(begun, r, past, reply);
            },
        },
        ProgressView::Done(listed) => {
            let branches = registry_in(past).branches;
            let (infos, cuts) = choose|infos: Seq<BranchInfoView>, cuts: Seq<int>|
                {
                    &&& #[trigger] tells_of(r.asked, past, begun.cwd, branches, infos, cuts)
                    &&& infos.len() == branches.len()
                    &&& cuts.last() == r.asked.len()
                    &&& listing::is_listing_of(listed, infos)
                };
            lemma_tells_of_stays(r, past, begun.cwd, branches, infos, cuts, reply);
        },
        ProgressView::Failed(_) => {},
    }
}

/// A listing writes nothing. Where it ends with one, it tells of every branch of the registry that
/// was loaded and of no other, in the order of a listing. Each branch was looked at in turn, and is
/// told of with the changes that looking for them on that branch found.
pub proof fn law_list(layout: Layout, cwd: PathBuf, replies: Seq<ReplyView>)
    ensures
        ({
            let r = run::run(ListView::begun(layout, cwd), replies);
            &&& run::wrote_nothing(r.asked)
            &&& r.progress matches ProgressView::Done(listed) ==> lists_all(
                r.asked,
                replies,
                layout,
                cwd,
                listed,
            )
        }),
{
    let begun = ListView::begun(layout, cwd);
    let inv = |r: Run<ListView>, past: Seq<ReplyView>| list_inv(begun, r, past);
    assert forall|r: Run<ListView>, past: Seq<ReplyView>, reply: ReplyView|
        run::keeps_pace(r, past) && inv(r, past) implies #[trigger] inv(
        r.replied(reply),
        past.push(reply),
    ) by {
        lemma_list_step(begun, r, past, reply);
    }
    run::lemma_run_invariant(begun, replies, inv);
}

/// Some entry of the listing tells of `branch`.
pub open spec fn is_listed(listed: Seq<BranchInfoView>, branch: BranchView) -> bool {
    exists|j: int|
        0 <= j < listed.len() && #[trigger] listed[j] == branch.info(listed[j].has_changes)
}

/// What a listing loads is what it lists: where the registry's file says `registry`, a listing that
/// comes about has an entry for each branch of it, and as many entries as there are branches. So a
/// branch that a creation has recorded in the registry is listed.
pub proof fn law_stored_branches_are_listed(
    layout: Layout,
    cwd: PathBuf,
    registry: RegistryView,
    replies: Seq<ReplyView>,
)
    requires
        replies.len() >= 3,
        replies[0] == ReplyView::Exists(true),
        replies[2] == ReplyView::Parsed(registry),
    ensures
        run::run(ListView::begun(layout, cwd), replies).progress matches ProgressView::Done(listed)
            ==> {
            &&& listed.len() == registry.branches.len()
            &&& forall|i: int|
                0 <= i < registry.branches.len() ==> is_listed(
                    listed,
                    #[trigger] registry.branches[i],
                )
            &&& forall|before: RegistryView, branch: BranchView|
                registry == #[trigger] before.recorded(branch) ==> is_listed(
                    listed,
                    branch,
                )
        },
{
    law_list(layout, cwd, replies);
    let progress = run::run(ListView::begun(layout, cwd), replies).progress;
    if progress is Done {
        let listed = progress->Done_0;
        let branches = registry.branches;
        let asked = run::run(ListView::begun(layout, cwd), replies).asked;
        let (infos, cuts) = choose|infos: Seq<BranchInfoView>, cuts: Seq<int>|
            {
                &&& #[trigger] tells_of(asked, replies, cwd, branches, infos, cuts)
                &&& infos.len() == branches.len()
                &&& cuts.last() == asked.len()
                &&& listing::is_listing_of(listed, infos)
            };
        listed.to_multiset_ensures();
        infos.to_multiset_ensures();
        assert forall|i: int| 0 <= i < branches.len() implies is_listed(
            listed,
            #[trigger] branches[i],
        ) by {
            assert(looked_at(asked, replies, cwd, branches[i], infos[i], cuts[i], cuts[i + 1]));
            assert(infos.contains(infos[i]));
            assert(listed.to_multiset().count(infos[i]) > 0);
            assert(listed.contains(infos[i]));
            let j = choose|j: int| 0 <= j < listed.len() && listed[j] == infos[i];
            assert(listed[j] == branches[i].info(listed[j].has_changes));
        }
        assert forall|before: RegistryView, branch: BranchView|
            registry == #[trigger] before.recorded(branch) implies is_listed(
            listed,
            branch,
        ) by {
            assert(before.removed(branch.id).added(branch).branches.last() == branch);
            assert(branches[branches.len() - 1] == branch);
        }
    }
}

/// No registry among the replies has more than `most` branches.
pub open spec fn at_most(replies: Seq<ReplyView>, most: nat) -> bool {
    forall|i: int|
        #![trigger replies[i]]
        0 <= i < replies.len() ==> (replies[i] matches ReplyView::Parsed(registry)
            ==> registry.branches.len() <= most)
}

spec fn list_ends_inv(r: Run<ListView>, past: Seq<ReplyView>, most: nat) -> bool {
    at_most(past, most) ==> (r.progress matches ProgressView::Ask(op) ==> match op.stage {
        ListStageView::Load { load } => past.len() + load.rank() <= 3,
        ListStageView::Check { rest, check, .. } => past.len() + check.rank() + 5 * rest.len() <= 3
            + 5 * most,
    })
}

/// Listing the branches of a registry takes at most three replies and five more for each branch,
/// and where each of them answers in kind, it ends with a listing.
pub proof fn law_list_ends(layout: Layout, cwd: PathBuf, replies: Seq<ReplyView>, most: nat)
    requires
        at_most(replies, most),
        replies.len() >= 3 + 5 * most,
    ensures
        !(run::run(ListView::begun(layout, cwd), replies).progress is Ask),
        run::fails_with_its_action(run::run(ListView::begun(layout, cwd), replies), replies),
{
    let begun = ListView::begun(layout, cwd);
    let inv = |r: Run<ListView>, past: Seq<ReplyView>| list_ends_inv(r, past, most);
    assert forall|r: Run<ListView>, past: Seq<ReplyView>, reply: ReplyView|
        run::keeps_pace(r, past) && inv(r, past) implies #[trigger] inv(
        r.replied(reply),
        past.push(reply),
    ) by {
        let now = past.push(reply);
        if at_most(now, most) {
            assert forall|i: int|
                #![trigger past[i]]
                0 <= i < past.len() implies (past[i] matches ReplyView::Parsed(registry)
                ==> registry.branches.len() <= most) by {
                assert(now[i] == past[i]);
            }
            assert(now[past.len() as int] == reply);
        }
    }
    run::lemma_run_fails_with_its_action(begun, replies);
    run::lemma_run_invariant(begun, replies, inv);
}

} // verus!

//! Whole runs of an operation: where it stands after a number of replies, and what it has asked
//! for until then.

use crate::action::{ActionView, ProgressView, ReplyView};
use crate::branch::{BranchStatus, BranchView};
use crate::error::BranchErrorView;
use crate::registry::{self, RegistryView};
use vstd::prelude::*;

verus! {

/// An operation that names actions and goes on with the replies to them.
pub trait Machine: Sized {
    /// What the operation ends with.
    type Result;

    /// What is to be done.
    spec fn act(self) -> ActionView;

    /// What follows the reply.
    spec fn step(self, reply: ReplyView) -> ProgressView<Self, Self::Result>;
}

/// Where an operation stands, and what it has asked for, oldest first.
pub struct Run<M: Machine> {
    pub progress: ProgressView<M, M::Result>,
    pub asked: Seq<ActionView>,
}

impl<M: Machine> Run<M> {
    /// The run of an operation that has not been replied to.
    pub open spec fn start(m: M) -> Run<M> {
        Run { progress: ProgressView::Ask(m), asked: seq![m.act()] }
    }

    /// The run after one more reply; one that has ended stays as it is.
    pub open spec fn replied(self, reply: ReplyView) -> Run<M> {
        match self.progress {
            ProgressView::Ask(m) => {
                let progress = m.step(reply);
                match progress {
                    ProgressView::Ask(next) => Run { progress, asked: self.asked.push(next.act()) },
                    _ => Run { progress, asked: self.asked },
                }
            },
            _ => self,
        }
    }
}

/// The run of the operation `m` after `replies`.
pub open spec fn run<M: Machine>(m: M, replies: Seq<ReplyView>) -> Run<M>
    decreases replies.len(),
{
    if replies.len() == 0 {
        Run::start(m)
    } else {
        run(m, replies.drop_last()).replied(replies.last())
    }
}

/// Everything that was asked for but for the last thing was replied to, and so was the last thing
/// where the run has ended.
pub open spec fn keeps_pace<M: Machine>(r: Run<M>, replies: Seq<ReplyView>) -> bool {
    &&& r.asked.len() > 0
    &&& match r.progress {
        ProgressView::Ask(m) => r.asked.len() == replies.len() + 1 && r.asked.last() == m.act(),
        _ => r.asked.len() <= replies.len(),
    }
}

/// What holds of a run at its start, and after each reply where it held before, holds of the run
/// at any time.
pub proof fn lemma_run_invariant<M: Machine>(
    m: M,
    replies: Seq<ReplyView>,
    inv: spec_fn(Run<M>, Seq<ReplyView>) -> bool,
)
    requires
        inv(Run::start(m), Seq::empty()),
        forall|r: Run<M>, past: Seq<ReplyView>, reply: ReplyView|
            keeps_pace(r, past) && inv(r, past) ==> #[trigger] inv(
                r.replied(reply),
                past.push(reply),
            ),
    ensures
        keeps_pace(run(m, replies), replies),
        inv(run(m, replies), replies),
    decreases replies.len(),
{
    if replies.len() == 0 {
        assert(replies =~= Seq::empty());
    } else {
        let past = replies.drop_last();
        lemma_run_invariant(m, past, inv);
        assert(inv(run(m, past).replied(replies.last()), past.push(replies.last())));
        assert(past.push(replies.last()) =~= replies);
    }
}

/// A run that has ended after some of the replies is not changed by the others.
pub proof fn lemma_run_stays<M: Machine>(m: M, replies: Seq<ReplyView>, k: int)
    requires
        0 <= k <= replies.len(),
        !(run(m, replies.take(k)).progress is Ask),
    ensures
        run(m, replies) == run(m, replies.take(k)),
    decreases replies.len(),
{
    if k == replies.len() {
        assert(replies.take(k) =~= replies);
    } else {
        assert(replies.drop_last().take(k) =~= replies.take(k));
        lemma_run_stays(m, replies.drop_last(), k);
    }
}

/// One more of the replies takes the run one step further.
pub proof fn lemma_run_steps<M: Machine>(m: M, replies: Seq<ReplyView>, k: int)
    requires
        0 <= k < replies.len(),
    ensures
        run(m, replies.take(0)) == Run::start(m),
        run(m, replies.take(k + 1)) == run(m, replies.take(k)).replied(replies[k]),
{
    assert(replies.take(k + 1).drop_last() =~= replies.take(k));
    assert(replies.take(k + 1).last() == replies[k]);
}

/// An operation whose rank sinks with each step that leaves something to ask for has no more
/// left to ask for, once there were as many replies as its rank at the start.
pub proof fn lemma_run_ends<M: Machine>(m: M, replies: Seq<ReplyView>, rank: spec_fn(M) -> nat)
    requires
        forall|op: M, reply: ReplyView|
            #![trigger op.step(reply)]
            op.step(reply) matches ProgressView::Ask(next) ==> rank(next) < rank(op),
        forall|op: M| #[trigger] rank(op) > 0,
    ensures
        run(m, replies).progress matches ProgressView::Ask(op) ==> rank(op) + replies.len()
            <= rank(m),
        replies.len() >= rank(m) ==> !(run(m, replies).progress is Ask),
    decreases replies.len(),
{
    if replies.len() > 0 {
        let past = replies.drop_last();
        lemma_run_ends(m, past, rank);
        if run(m, past).progress is Ask && run(m, replies).progress is Ask {
            let op = run(m, past).progress->Ask_0;
            let next = run(m, replies).progress->Ask_0;
            assert(op.step(replies.last()) == ProgressView::<M, M::Result>::Ask(next));
            assert(rank(next) > 0);
        }
    } else {
        assert(rank(m) > 0);
    }
}

/// The run has failed with an action only where the reply to the last one did not answer it.
pub open spec fn fails_with_its_action<M: Machine>(r: Run<M>, replies: Seq<ReplyView>) -> bool {
    r.progress matches ProgressView::Failed(BranchErrorView::Action(_)) ==> {
        let i = r.asked.len() - 1;
        &&& 0 <= i < replies.len()
        &&& !r.asked[i].is_answered_by(replies[i])
    }
}

/// An operation of which each step fails with its action only where the reply did not answer it
/// does so as a whole.
pub proof fn lemma_run_fails_with_its_action<M: Machine>(m: M, replies: Seq<ReplyView>)
    requires
        forall|op: M, reply: ReplyView|
            #![trigger op.step(reply)]
            op.step(reply) matches ProgressView::Failed(BranchErrorView::Action(_))
                ==> !op.act().is_answered_by(reply),
    ensures
        fails_with_its_action(run(m, replies), replies),
{
    let inv = |r: Run<M>, past: Seq<ReplyView>| fails_with_its_action(r, past);
    assert forall|r: Run<M>, past: Seq<ReplyView>, reply: ReplyView|
        keeps_pace(r, past) && inv(r, past) implies #[trigger] inv(
        r.replied(reply),
        past.push(reply),
    ) by {
        assert(past.push(reply)[past.len() as int] == reply);
        let i = r.asked.len() - 1;
        if !(r.progress is Ask) {
            assert(past.push(reply)[i] == past[i]);
        }
    }
    lemma_run_invariant(m, replies, inv);
}

/// `p` holds of the empty registry, and everything that operations do to a registry keeps it.
pub open spec fn is_kept(p: spec_fn(RegistryView) -> bool) -> bool {
    &&& p(RegistryView::empty())
    &&& forall|r: RegistryView, branch: BranchView| p(r) ==> #[trigger] p(r.recorded(branch))
    &&& forall|r: RegistryView, id: Seq<char>| p(r) ==> #[trigger] p(r.removed(id))
    &&& forall|r: RegistryView, id: Seq<char>| p(r) ==> #[trigger] p(r.activated(id))
    &&& forall|r: RegistryView, id: Seq<char>, status: BranchStatus|
        p(r) ==> #[trigger] p(r.with_status(id, status))
}

/// Where `p` holds of each registry that the replies gave, it holds of each that is to be stored.
pub open spec fn stays(
    asked: Seq<ActionView>,
    replies: Seq<ReplyView>,
    p: spec_fn(RegistryView) -> bool,
) -> bool {
    gave_only(replies, p) ==> forall|i: int|
        #![trigger asked[i]]
        0 <= i < asked.len() ==> (asked[i] matches ActionView::Store { registry, .. } ==> p(
            registry,
        ))
}

/// `p` holds of each registry that the replies gave.
pub open spec fn gave_only(replies: Seq<ReplyView>, p: spec_fn(RegistryView) -> bool) -> bool {
    forall|i: int|
        #![trigger replies[i]]
        0 <= i < replies.len() ==> (replies[i] matches ReplyView::Parsed(registry) ==> p(registry))
}

/// That no two branches of a registry have the same identifier.
pub open spec fn unique_ids() -> spec_fn(RegistryView) -> bool {
    |registry: RegistryView| registry.ids_are_unique()
}

/// That the active branch of a registry, if there is one, is among its branches.
pub open spec fn known_active() -> spec_fn(RegistryView) -> bool {
    |registry: RegistryView| registry.active_is_known()
}

/// Where the registries that the replies gave are sound, so is each registry that is to be stored:
/// no two of its branches have the same identifier, and its active branch is among them.
pub open spec fn registry_stays_sound(asked: Seq<ActionView>, replies: Seq<ReplyView>) -> bool {
    &&& stays(asked, replies, unique_ids())
    &&& stays(asked, replies, known_active())
}

/// What makes a registry sound is kept by everything that operations do to it.
pub proof fn lemma_soundness_is_kept()
    ensures
        is_kept(unique_ids()),
        is_kept(known_active()),
{
    let branch: BranchView = arbitrary();
    let id: Seq<char> = arbitrary();
    let status = BranchStatus::Active;
    registry::law_ids_stay_unique(RegistryView::empty(), branch, id, status);
    registry::law_active_stays_known(RegistryView::empty(), branch, id, status);
    assert forall|r: RegistryView, branch: BranchView| #[trigger]
        r.recorded(branch).active_is_known() && (r.ids_are_unique() ==> r.recorded(
            branch,
        ).ids_are_unique()) by {
        registry::law_ids_stay_unique(r, branch, id, status);
        registry::law_active_stays_known(r, branch, id, status);
    }
    assert forall|r: RegistryView, id: Seq<char>|
        #![trigger r.removed(id)]
        {
            &&& r.ids_are_unique() ==> r.removed(id).ids_are_unique()
            &&& r.active_is_known() ==> r.removed(id).active_is_known()
        } by {
        registry::law_ids_stay_unique(r, branch, id, status);
        registry::law_active_stays_known(r, branch, id, status);
    }
    assert forall|r: RegistryView, id: Seq<char>|
        #![trigger r.activated(id)]
        {
            &&& r.ids_are_unique() ==> r.activated(id).ids_are_unique()
            &&& r.active_is_known() ==> r.activated(id).active_is_known()
        } by {
        registry::law_ids_stay_unique(r, branch, id, status);
        registry::law_active_stays_known(r, branch, id, status);
    }
    assert forall|r: RegistryView, id: Seq<char>, status: BranchStatus|
        #![trigger r.with_status(id, status)]
        {
            &&& r.ids_are_unique() ==> r.with_status(id, status).ids_are_unique()
            &&& r.active_is_known() ==> r.with_status(id, status).active_is_known()
        } by {
        registry::law_ids_stay_unique(r, branch, id, status);
        registry::law_active_stays_known(r, branch, id, status);
    }
}

/// An operation that never holds a registry to be stored of which `p` does not hold, as long as
/// `p` holds of those that it is given, stores only registries of which `p` holds.
pub proof fn lemma_run_keeps<M: Machine>(
    m: M,
    replies: Seq<ReplyView>,
    p: spec_fn(RegistryView) -> bool,
    holds: spec_fn(M) -> bool,
)
    requires
        holds(m),
        forall|op: M| #![trigger op.act()]
            holds(op) ==> (op.act() matches ActionView::Store { registry, .. } ==> p(registry)),
        forall|op: M, reply: ReplyView|
            #![trigger op.step(reply)]
            holds(op) && (reply matches ReplyView::Parsed(registry) ==> p(registry)) ==> (op.step(
                reply,
            ) matches ProgressView::Ask(next) ==> holds(next)),
    ensures
        stays(run(m, replies).asked, replies, p),
{
    let inv = |r: Run<M>, past: Seq<ReplyView>|
        stays(r.asked, past, p) && (gave_only(past, p) ==> (r.progress matches ProgressView::Ask(op)
            ==> holds(op)));
    assert(inv(Run::start(m), Seq::empty()));
    assert forall|r: Run<M>, past: Seq<ReplyView>, reply: ReplyView|
        keeps_pace(r, past) && inv(r, past) implies #[trigger] inv(
        r.replied(reply),
        past.push(reply),
    ) by {
        let now = past.push(reply);
        if gave_only(now, p) {
            assert forall|i: int|
                #![trigger past[i]]
                0 <= i < past.len() implies (past[i] matches ReplyView::Parsed(registry) ==> p(
                registry,
            )) by {
                assert(now[i] == past[i]);
            }
            assert(now[past.len() as int] == reply);
        }
    }
    lemma_run_invariant(m, replies, inv);
}

/// Nothing that was asked for writes anything, but for what git commands do.
pub open spec fn wrote_nothing(asked: Seq<ActionView>) -> bool {
    forall|i: int| 0 <= i < asked.len() ==> (#[trigger] asked[i]).writes_nothing()
}

} // verus!

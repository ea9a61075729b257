//! Registries, branch by branch and field by field.

use crate::branch::{Branch, BranchStatus, BranchView};
use crate::registry::{self, RegistryView};
use vstd::prelude::*;

verus! {

/// A branch is looked up under its identifier: what is found is the first one that has it, and
/// something is found just where some branch has it.
pub proof fn law_lookup(r: RegistryView, id: Seq<char>, i: int)
    ensures
        r.knows(id) <==> exists|j: int|
            0 <= j < r.branches.len() && (#[trigger] r.branches[j]).id == id,
        r.knows(id) <==> r.lookup(id) is Some,
        0 <= i < r.branches.len() && r.branches[i].id == id && (forall|j: int|
            0 <= j < i ==> (#[trigger] r.branches[j]).id != id) ==> r.lookup(id) == Some(
            r.branches[i],
        ) && r.position(id) == i,
        r.knows(id) ==> 0 <= r.position(id) < r.branches.len() && r.branches[r.position(id)].id
            == id && forall|j: int|
            0 <= j < r.position(id) ==> (#[trigger] r.branches[j]).id != id,
{
    if r.knows(id) {
        registry::lemma_position(r, id);
    }
    if 0 <= i < r.branches.len() && r.branches[i].id == id && (forall|j: int|
        0 <= j < i ==> (#[trigger] r.branches[j]).id != id) {
        assert(r.is_first(id, i));
        registry::lemma_position(r, id);
    }
}

/// What each operation on a registry changes, and what it leaves: adding puts the branch behind
/// all others; removing takes out the first branch of that identifier, and makes it no longer the
/// active one; activating and changing a status change nothing where there is no such branch.
pub proof fn law_changes(
    r: RegistryView,
    branch: BranchView,
    id: Seq<char>,
    status: BranchStatus,
)
    ensures
        RegistryView::empty().branches.len() == 0,
        RegistryView::empty().active_branch is None,
        r.added(branch).branches == r.branches.push(branch),
        r.added(branch).active_branch == r.active_branch,
        r.removed(id).active_branch == (if r.active_branch == Some(id) {
            None
        } else {
            r.active_branch
        }),
        !r.knows(id) ==> r.removed(id).branches == r.branches,
        r.knows(id) ==> r.removed(id).branches == r.branches.take(r.position(id)) + r.branches.skip(
            r.position(id) + 1,
        ),
        r.activated(id).branches == r.branches,
        r.activated(id).active_branch == (if r.knows(id) {
            Some(id)
        } else {
            r.active_branch
        }),
        r.with_status(id, status).active_branch == r.active_branch,
        r.with_status(id, status).branches.len() == r.branches.len(),
        forall|i: int|
            0 <= i < r.branches.len() ==> {
                let (b, c) = (r.branches[i], #[trigger] r.with_status(id, status).branches[i]);
                &&& c.id == b.id
                &&& c.name == b.name
                &&& c.task == b.task
                &&& c.work_dir == b.work_dir
                &&& c.agent_id == b.agent_id
                &&& c.created_at == b.created_at
                &&& r.knows(id) && i == r.position(id) ==> c.status == status
                &&& !(r.knows(id) && i == r.position(id)) ==> c.status == b.status
            },
        r.recorded(branch).branches == r.removed(branch.id).branches.push(branch),
        r.recorded(branch).active_branch == Some(branch.id),
{
    if r.knows(id) {
        registry::lemma_position(r, id);
        let p = r.position(id);
        assert(r.branches.remove(p) =~= r.branches.take(p) + r.branches.skip(p + 1));
    }
    let added = r.removed(branch.id).added(branch);
    assert(added.branches.last().id == branch.id);
    assert(added.knows(branch.id));
}

/// Identifiers are unique where no two branches have the same, and the active branch is known where
/// there is none or some branch has its identifier.
pub proof fn law_soundness(r: RegistryView)
    ensures
        r.ids_are_unique() <==> forall|i: int, j: int|
            0 <= i < j < r.branches.len() ==> (#[trigger] r.branches[i]).id != (
            #[trigger] r.branches[j]).id,
        r.active_is_known() <==> r.active_branch is None || r.knows(r.active_branch->0),
{
}

/// The active branches of a registry are all those that have that status, in the same order.
pub proof fn law_active_branches(branches: Seq<Branch>, branch: Branch)
    ensures
        registry::only_active(Seq::empty()).len() == 0,
        registry::only_active(branches.push(branch)) == (if branch.status == BranchStatus::Active {
            registry::only_active(branches).push(branch)
        } else {
            registry::only_active(branches)
        }),
{
    reveal(Seq::filter);
    assert(branches.push(branch).drop_last() =~= branches);
}

} // verus!

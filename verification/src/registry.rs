//! The registry of managed branches.

use crate::branch::{Branch, BranchId, BranchStatus, BranchView};
use vstd::prelude::*;

verus! {

/// Branch registry for storing branch metadata
#[derive(Debug)]
pub struct BranchRegistry {
    /// All managed branches
    pub branches: Vec<Branch>,
    /// Currently active branch ID (if any)
    pub active_branch: Option<BranchId>,
}

/// What a registry holds: its branches, in the order in which they were added, and the
/// identifier of the active one.
pub struct RegistryView {
    pub branches: Seq<BranchView>,
    pub active_branch: Option<Seq<char>>,
}

impl RegistryView {
    /// The registry without branches.
    pub open spec fn empty() -> RegistryView {
        RegistryView { branches: Seq::empty(), active_branch: None }
    }

    /// The first branch with the identifier `id` stands at `i`.
    pub open spec fn is_first(self, id: Seq<char>, i: int) -> bool {
        &&& 0 <= i < self.branches.len()
        &&& self.branches[i].id == id
        &&& forall|j: int| 0 <= j < i ==> (#[trigger] self.branches[j]).id != id
    }

    /// Some branch has the identifier `id`.
    pub open spec fn knows(self, id: Seq<char>) -> bool {
        exists|i: int| 0 <= i < self.branches.len() && (#[trigger] self.branches[i]).id == id
    }

    /// Where the first branch with the identifier `id` stands, in a registry that knows `id`.
    pub open spec fn position(self, id: Seq<char>) -> int {
        choose|i: int| self.is_first(id, i)
    }

    /// The first branch with the identifier `id`, if there is one.
    pub open spec fn lookup(self, id: Seq<char>) -> Option<BranchView> {
        if self.knows(id) {
            Some(self.branches[self.position(id)])
        } else {
            None
        }
    }

    /// The registry with one more branch, at the end.
    pub open spec fn added(self, branch: BranchView) -> RegistryView {
        RegistryView { branches: self.branches.push(branch), ..self }
    }

    /// The registry without the first branch that has the identifier `id`, and with no active
    /// branch where that was the active one.
    pub open spec fn removed(self, id: Seq<char>) -> RegistryView {
        RegistryView {
            branches: if self.knows(id) {
                self.branches.remove(self.position(id))
            } else {
                self.branches
            },
            active_branch: if self.active_branch == Some(id) {
                None
            } else {
                self.active_branch
            },
        }
    }

    /// The registry with `id` as the active branch, where `id` is known.
    pub open spec fn activated(self, id: Seq<char>) -> RegistryView {
        if self.knows(id) {
            RegistryView { active_branch: Some(id), ..self }
        } else {
            self
        }
    }

    /// The registry with a new branch, which is the active one and takes the place of one that had
    /// its identifier.
    pub open spec fn recorded(self, branch: BranchView) -> RegistryView {
        self.removed(branch.id).added(branch).activated(branch.id)
    }

    /// The registry in which the first branch with the identifier `id`, where there is one, has
    /// the status `status`.
    pub open spec fn with_status(self, id: Seq<char>, status: BranchStatus) -> RegistryView {
        if self.knows(id) {
            let i = self.position(id);
            RegistryView {
                branches: self.branches.update(i, BranchView { status, ..self.branches[i] }),
                ..self
            }
        } else {
            self
        }
    }

    /// The active branch, if there is one, is one of the registry's branches.
    pub open spec fn active_is_known(self) -> bool {
        self.active_branch matches Some(id) ==> self.knows(id)
    }

    /// No two branches have the same identifier.
    pub open spec fn ids_are_unique(self) -> bool {
        forall|i: int, j: int|
            0 <= i < j < self.branches.len() ==> (#[trigger] self.branches[i]).id != (
            #[trigger] self.branches[j]).id
    }
}

/// A registry that knows `id` has a first branch with that identifier, and only one.
pub proof fn lemma_position(r: RegistryView, id: Seq<char>)
    requires
        r.knows(id),
    ensures
        r.is_first(id, r.position(id)),
        forall|i: int| #[trigger] r.is_first(id, i) ==> i == r.position(id),
{
    let i = choose|i: int| 0 <= i < r.branches.len() && (#[trigger] r.branches[i]).id == id;
    lemma_first_up_to(r, id, i);
    assert(r.is_first(id, r.position(id)));
    assert forall|i: int| #[trigger] r.is_first(id, i) implies i == r.position(id) by {
        let p = r.position(id);
        assert(r.branches[i].id == id);
        assert(r.branches[p].id == id);
    }
}

proof fn lemma_first_up_to(r: RegistryView, id: Seq<char>, n: int)
    requires
        0 <= n < r.branches.len(),
        r.branches[n].id == id,
    ensures
        exists|i: int| r.is_first(id, i),
    decreases n,
{
    if forall|j: int| 0 <= j < n ==> (#[trigger] r.branches[j]).id != id {
        assert(r.is_first(id, n));
    } else {
        let j = choose|j: int| 0 <= j < n && (#[trigger] r.branches[j]).id == id;
        lemma_first_up_to(r, id, j);
    }
}

impl View for BranchRegistry {
    type V = RegistryView;

    open spec fn view(&self) -> RegistryView {
        RegistryView {
            branches: self.branches@.map_values(|b: Branch| b@),
            active_branch: match self.active_branch {
                Some(id) => Some(id@),
                None => None,
            },
        }
    }
}

impl DeepView for BranchRegistry {
    type V = RegistryView;

    open spec fn deep_view(&self) -> RegistryView {
        self@
    }
}

/// The branches of a sequence that are active.
pub open spec fn only_active(branches: Seq<Branch>) -> Seq<Branch> {
    branches.filter(|b: Branch| b.status == BranchStatus::Active)
}

impl Clone for BranchRegistry {
    fn clone(&self) -> (res: Self)
        ensures
            res@ == self@,
            res.branches@ == self.branches@,
    {
        let mut branches: Vec<Branch> = Vec::new();
        for i in 0..self.branches.len()
            invariant
                branches@ == self.branches@.take(i as int),
        {
            branches.push(self.branches[i].clone());
        }
        assert(branches@ =~= self.branches@);
        BranchRegistry { branches, active_branch: self.active_branch.clone() }
    }
}

impl Default for BranchRegistry {
    fn default() -> (res: Self)
        ensures
            res.branches@ == Seq::<Branch>::empty(),
            res.active_branch is None,
            res@ == RegistryView::empty(),
    {
        let res = BranchRegistry { branches: Vec::new(), active_branch: None };
        assert(res@.branches =~= Seq::<BranchView>::empty());
        res
    }
}

impl BranchRegistry {
    /// Create a new empty registry
    pub fn new() -> (res: Self)
        ensures
            res.branches@ == Seq::<Branch>::empty(),
            res.active_branch is None,
            res@ == RegistryView::empty(),
    {
        BranchRegistry::default()
    }

    /// Add a branch to the registry
    pub fn add_branch(&mut self, branch: Branch)
        ensures
            final(self).branches@ == old(self).branches@.push(branch),
            final(self).active_branch == old(self).active_branch,
            final(self)@ == old(self)@.added(branch@),
    {
        self.branches.push(branch);
        assert(self@.branches =~= old(self)@.branches.push(branch@));
    }

    fn find(&self, id: &BranchId) -> (res: Option<usize>)
        ensures
            match res {
                Some(i) => self@.knows(id@) && i == self@.position(id@) && self@.is_first(
                    id@,
                    i as int,
                ) && i < self.branches@.len(),
                None => !self@.knows(id@),
            },
    {
        for i in 0..self.branches.len()
            invariant
                forall|j: int| 0 <= j < i ==> (#[trigger] self@.branches[j]).id != id@,
        {
            assert(self@.branches[i as int] == self.branches@[i as int]@);
            if self.branches[i].id == *id {
                proof {
                    assert(self@.is_first(id@, i as int));
                    assert(self@.knows(id@));
                    lemma_position(self@, id@);
                }
                return Some(i);
            }
        }
        None
    }

    /// Get a branch by ID
    pub fn get(&self, id: &BranchId) -> (res: Option<&Branch>)
        ensures
            res is Some <==> self@.knows(id@),
            res matches Some(b) ==> {
                let i = self@.position(id@);
                &&& self@.is_first(id@, i)
                &&& *b == self.branches@[i]
                &&& self@.lookup(id@) == Some(b@)
            },
    {
        match self.find(id) {
            Some(i) => Some(&self.branches[i]),
            None => None,
        }
    }

    /// Get a branch by ID (mutable)
    pub fn get_mut(&mut self, id: &BranchId) -> (res: Option<&mut Branch>)
        ensures
            match res {
                Some(b) => {
                    let i = old(self)@.position(id@);
                    &&& old(self)@.knows(id@)
                    &&& old(self)@.is_first(id@, i)
                    &&& *b == old(self).branches@[i]
                    &&& final(self).branches@ == old(self).branches@.update(i, *final(b))
                    &&& final(self).active_branch == old(self).active_branch
                },
                None => !old(self)@.knows(id@) && *final(self) == *old(self),
            },
    {
        match self.find(id) {
            Some(i) => Some(&mut self.branches[i]),
            None => None,
        }
    }

    /// Remove a branch from the registry
    pub fn remove(&mut self, id: &BranchId) -> (res: Option<Branch>)
        ensures
            final(self)@ == old(self)@.removed(id@),
            res is Some <==> old(self)@.knows(id@),
            match res {
                Some(b) => {
                    let i = old(self)@.position(id@);
                    &&& old(self)@.is_first(id@, i)
                    &&& b == old(self).branches@[i]
                    &&& final(self).branches@ == old(self).branches@.remove(i)
                },
                None => final(self).branches@ == old(self).branches@,
            },
    {
        let is_active = match &self.active_branch {
            Some(active) => *active == *id,
            None => false,
        };
        let pos = self.find(id);
        if is_active {
            self.active_branch = None;
        }
        match pos {
            Some(i) => {
                let branch = self.branches.remove(i);
                assert(self@.branches =~= old(self)@.branches.remove(i as int));
                Some(branch)
            },
            None => None,
        }
    }

    /// Set the active branch
    pub fn set_active(&mut self, id: &BranchId) -> (res: Option<&Branch>)
        ensures
            final(self)@ == old(self)@.activated(id@),
            final(self).branches == old(self).branches,
            res is Some <==> old(self)@.knows(id@),
            res matches Some(b) ==> {
                let i = old(self)@.position(id@);
                &&& old(self)@.is_first(id@, i)
                &&& *b == old(self).branches@[i]
            },
    {
        match self.find(id) {
            Some(i) => {
                self.active_branch = Some(id.clone());
                Some(&self.branches[i])
            },
            None => None,
        }
    }

    /// List all branches
    pub fn list(&self) -> (res: &[Branch])
        ensures
            res@ == self.branches@,
    {
        self.branches.as_slice()
    }

    /// List all active branches
    pub fn active_branches(&self) -> (res: Vec<&Branch>)
        ensures
            res@.map_values(|b: &Branch| *b) == only_active(self.branches@),
    {
        let mut res: Vec<&Branch> = Vec::new();
        proof {
            reveal(Seq::filter);
            assert(self.branches@.take(0) =~= Seq::<Branch>::empty());
        }
        for i in 0..self.branches.len()
            invariant
                res@.map_values(|b: &Branch| *b) =~= only_active(self.branches@.take(i as int)),
        {
            let ghost before = self.branches@.take(i as int);
            let ghost collected = res@.map_values(|b: &Branch| *b);
            let branch = &self.branches[i];
            proof {
                reveal(Seq::filter);
                assert(self.branches@.take(i + 1) =~= before.push(*branch));
                assert(self.branches@.take(i + 1).drop_last() =~= before);
            }
            if branch.status == BranchStatus::Active {
                res.push(branch);
                assert(res@.map_values(|b: &Branch| *b) =~= collected.push(*branch));
            }
        }
        assert(self.branches@.take(self.branches@.len() as int) =~= self.branches@);
        res
    }

    /// Add a new branch as the active one, in place of one that had its ID
    pub(crate) fn record(&mut self, branch: Branch)
        ensures
            final(self)@ == old(self)@.recorded(branch@),
    {
        let id = branch.id.clone();
        self.remove(&id);
        self.add_branch(branch);
        self.set_active(&id);
    }

    /// Set the status of the first branch with the given ID, where there is one
    pub(crate) fn set_status(&mut self, id: &BranchId, status: BranchStatus)
        ensures
            final(self)@ == old(self)@.with_status(id@, status),
    {
        proof {
            if self@.knows(id@) {
                lemma_position(self@, id@);
            }
        }
        match self.get_mut(id) {
            Some(branch) => {
                branch.status = status;
            },
            None => {},
        }
        assert(self@.branches =~= old(self)@.with_status(id@, status).branches);
    }
}

/// Adding a branch changes what is found under its own identifier only, and only where nothing
/// was found there before: the branch that was added first is the one that is found.
pub proof fn law_lookup_after_add(r: RegistryView, branch: BranchView, id: Seq<char>)
    ensures
        r.added(branch).lookup(id) == (if r.knows(id) {
            r.lookup(id)
        } else if branch.id == id {
            Some(branch)
        } else {
            None
        }),
{
    let after = r.added(branch);
    let n = r.branches.len() as int;
    assert(after.branches[n] == branch);
    if r.knows(id) {
        lemma_position(r, id);
        let i = r.position(id);
        assert(after.branches[i] == r.branches[i]);
        assert(after.is_first(id, i));
        lemma_position(after, id);
    } else if branch.id == id {
        assert forall|j: int| 0 <= j < n implies (#[trigger] after.branches[j]).id != id by {
            assert(after.branches[j] == r.branches[j]);
        }
        assert(after.is_first(id, n));
        lemma_position(after, id);
    } else if after.knows(id) {
        let i = choose|i: int|
            0 <= i < after.branches.len() && (#[trigger] after.branches[i]).id == id;
        assert(after.branches[i] == r.branches[i]);
    }
}

/// Removing a branch under a fresh identifier right after adding it gives the branches of before,
/// and the active branch of before, unless that was already the fresh identifier.
pub proof fn law_remove_undoes_add(r: RegistryView, branch: BranchView)
    requires
        !r.knows(branch.id),
    ensures
        r.added(branch).removed(branch.id).branches == r.branches,
        r.active_branch != Some(branch.id) ==> r.added(branch).removed(branch.id) == r,
{
    let after = r.added(branch);
    let n = r.branches.len() as int;
    assert(after.branches[n] == branch);
    assert forall|j: int| 0 <= j < n implies (#[trigger] after.branches[j]).id != branch.id by {
        assert(after.branches[j] == r.branches[j]);
    }
    assert(after.is_first(branch.id, n));
    lemma_position(after, branch.id);
    assert(after.branches.remove(n) =~= r.branches);
}

/// Removing a branch leaves what is found under every other identifier as it was, and where no
/// two branches share an identifier, nothing is found under the removed one any more.
pub proof fn law_lookup_after_remove(r: RegistryView, id: Seq<char>, other: Seq<char>)
    ensures
        other != id ==> r.removed(id).lookup(other) == r.lookup(other),
        r.ids_are_unique() ==> !r.removed(id).knows(id),
{
    let after = r.removed(id);
    if r.knows(id) {
        lemma_position(r, id);
        let p = r.position(id);
        if other != id {
            if r.knows(other) {
                lemma_position(r, other);
                let q = r.position(other);
                let moved = if q < p {
                    q
                } else {
                    q - 1
                };
                assert(after.branches[moved] == r.branches[q]);
                assert forall|j: int| 0 <= j < moved implies (#[trigger] after.branches[j]).id
                    != other by {
                    let from = if j < p {
                        j
                    } else {
                        j + 1
                    };
                    assert(after.branches[j] == r.branches[from]);
                }
                assert(after.is_first(other, moved));
                lemma_position(after, other);
            } else if after.knows(other) {
                let j = choose|j: int|
                    0 <= j < after.branches.len() && (#[trigger] after.branches[j]).id == other;
                let from = if j < p {
                    j
                } else {
                    j + 1
                };
                assert(after.branches[j] == r.branches[from]);
            }
        }
        if r.ids_are_unique() && after.knows(id) {
            let j = choose|j: int|
                0 <= j < after.branches.len() && (#[trigger] after.branches[j]).id == id;
            let from = if j < p {
                j
            } else {
                j + 1
            };
            assert(after.branches[j] == r.branches[from]);
            assert(r.branches[p].id == id);
        }
    } else if r.knows(other) {
        lemma_position(r, other);
        assert(after.is_first(other, r.position(other)));
        lemma_position(after, other);
    }
}

/// Changing a status changes nothing but the status of the one branch that is found under the
/// identifier.
pub proof fn law_lookup_after_status(
    r: RegistryView,
    id: Seq<char>,
    status: BranchStatus,
    other: Seq<char>,
)
    ensures
        r.with_status(id, status).knows(other) == r.knows(other),
        other != id ==> r.with_status(id, status).lookup(other) == r.lookup(other),
        r.lookup(id) matches Some(b) ==> r.with_status(id, status).lookup(id) == Some(
            BranchView { status, ..b },
        ),
        r.with_status(id, status).active_branch == r.active_branch,
        r.with_status(id, status).branches.len() == r.branches.len(),
{
    let after = r.with_status(id, status);
    if r.knows(id) {
        lemma_position(r, id);
        assert forall|j: int| 0 <= j < r.branches.len() implies (#[trigger] after.branches[j]).id
            == r.branches[j].id by {}
        let p = r.position(id);
        assert(after.branches[p].id == id);
        assert(after.is_first(id, p));
        lemma_position(after, id);
        if r.knows(other) {
            lemma_position(r, other);
            let q = r.position(other);
            assert(after.branches[q].id == other);
            assert(after.is_first(other, q));
            lemma_position(after, other);
        } else if after.knows(other) {
            let j = choose|j: int|
                0 <= j < after.branches.len() && (#[trigger] after.branches[j]).id == other;
            assert(r.branches[j].id == other);
        }
    }
}

/// That the active branch is one of the registry's branches holds of the empty registry, and
/// every operation keeps it.
pub proof fn law_active_stays_known(
    r: RegistryView,
    branch: BranchView,
    id: Seq<char>,
    status: BranchStatus,
)
    ensures
        RegistryView::empty().active_is_known(),
        r.active_is_known() ==> r.added(branch).active_is_known(),
        r.active_is_known() ==> r.removed(id).active_is_known(),
        r.active_is_known() ==> r.activated(id).active_is_known(),
        r.active_is_known() ==> r.with_status(id, status).active_is_known(),
        r.recorded(branch).active_is_known(),
{
    let added = r.removed(branch.id).added(branch);
    assert(added.branches.last().id == branch.id);
    assert(r.recorded(branch).branches.last().id == branch.id);
    if r.active_is_known() && r.active_branch is Some {
        let active = r.active_branch->0;
        law_lookup_after_add(r, branch, active);
        law_lookup_after_remove(r, id, active);
        law_lookup_after_status(r, id, status, active);
    }
}

/// That no two branches share an identifier holds of the empty registry; removing a branch,
/// activating one or changing a status keeps it, and so does adding a branch under a fresh
/// identifier, or recording a new branch under any.
pub proof fn law_ids_stay_unique(
    r: RegistryView,
    branch: BranchView,
    id: Seq<char>,
    status: BranchStatus,
)
    ensures
        RegistryView::empty().ids_are_unique(),
        r.ids_are_unique() && !r.knows(branch.id) ==> r.added(branch).ids_are_unique(),
        r.ids_are_unique() ==> r.removed(id).ids_are_unique(),
        r.ids_are_unique() ==> r.activated(id).ids_are_unique(),
        r.ids_are_unique() ==> r.with_status(id, status).ids_are_unique(),
        r.ids_are_unique() ==> r.recorded(branch).ids_are_unique(),
{
    if r.ids_are_unique() {
        law_lookup_after_remove(r, branch.id, branch.id);
        if r.knows(branch.id) {
            lemma_position(r, branch.id);
        }
        let rest = r.removed(branch.id);
        let after = rest.added(branch);
        assert forall|i: int, j: int| 0 <= i < j < after.branches.len() implies (
        #[trigger] after.branches[i]).id != (#[trigger] after.branches[j]).id by {
            assert(after.branches[i] == rest.branches[i]);
            if j < rest.branches.len() {
                assert(after.branches[j] == rest.branches[j]);
            }
        }
    }
    if r.knows(id) {
        lemma_position(r, id);
    }
    if r.ids_are_unique() && !r.knows(branch.id) {
        let after = r.added(branch);
        assert forall|i: int, j: int| 0 <= i < j < after.branches.len() implies (
        #[trigger] after.branches[i]).id != (#[trigger] after.branches[j]).id by {
            assert(after.branches[i] == r.branches[i]);
            if j < r.branches.len() {
                assert(after.branches[j] == r.branches[j]);
            }
        }
    }
}

/// The last branch that was activated is the active one, and activating leaves the branches as
/// they are.
pub proof fn law_last_activation_counts(r: RegistryView, first: Seq<char>, second: Seq<char>)
    ensures
        r.knows(second) ==> r.activated(first).activated(second) == r.activated(second),
        r.knows(second) ==> r.activated(second).active_branch == Some(second),
        !r.knows(second) ==> r.activated(second) == r,
        r.activated(second).branches == r.branches,
{
    let after = r.activated(first);
    assert(after.branches == r.branches);
    if r.knows(second) {
        let i = choose|i: int|
            0 <= i < r.branches.len() && (#[trigger] r.branches[i]).id == second;
        assert(after.branches[i].id == second);
    }
}

} // verus!

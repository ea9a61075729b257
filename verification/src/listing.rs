//! The order in which branches are listed: active ones first, then merged, then abandoned, and
//! within each group by name.

use crate::branch::{BranchInfo, BranchInfoView, BranchStatus};
use crate::text;
use vstd::prelude::*;
use vstd::seq_lib::*;

verus! {

/// The place of a status in a listing.
pub open spec fn status_rank(status: BranchStatus) -> int {
    match status {
        BranchStatus::Active => 0,
        BranchStatus::Merged => 1,
        BranchStatus::Abandoned => 2,
    }
}

/// `a` is to stand before `b`.
pub open spec fn goes_before(a: BranchInfoView, b: BranchInfoView) -> bool {
    ||| status_rank(a.status) < status_rank(b.status)
    ||| status_rank(a.status) == status_rank(b.status) && text::text_before(a.name, b.name)
}

/// Neither of the two is to stand before the other.
pub open spec fn ties(a: BranchInfoView, b: BranchInfoView) -> bool {
    !goes_before(a, b) && !goes_before(b, a)
}

/// Those of `infos` that tie with `key`, in the order in which they stand.
pub open spec fn tied_with(infos: Seq<BranchInfoView>, key: BranchInfoView) -> Seq<
    BranchInfoView,
> {
    infos.filter(|info: BranchInfoView| ties(info, key))
}

/// Nothing stands behind what it is to stand before.
pub open spec fn in_order(infos: Seq<BranchInfoView>) -> bool {
    forall|i: int, j: int| 0 <= i < j < infos.len() ==> !goes_before(infos[j], infos[i])
}

/// `listed` holds just what `infos` holds, in order, and ties stand as they stood in `infos`.
pub open spec fn is_listing_of(listed: Seq<BranchInfoView>, infos: Seq<BranchInfoView>) -> bool {
    &&& in_order(listed)
    &&& listed.to_multiset() == infos.to_multiset()
    &&& forall|key: BranchInfoView| #[trigger] tied_with(listed, key) == tied_with(infos, key)
}

/// The one listing of `infos`.
pub open spec fn listing_of(infos: Seq<BranchInfoView>) -> Seq<BranchInfoView> {
    choose|listed: Seq<BranchInfoView>| is_listing_of(listed, infos)
}

/// Not standing behind is transitive.
proof fn lemma_order_is_transitive(a: BranchInfoView, b: BranchInfoView, c: BranchInfoView)
    requires
        !goes_before(a, b),
        !goes_before(b, c),
    ensures
        !goes_before(a, c),
{
    let x = vstd::utf8::encode_utf8(a.name);
    let y = vstd::utf8::encode_utf8(b.name);
    let z = vstd::utf8::encode_utf8(c.name);
    if text::bytes_before(x, z) && !text::bytes_before(x, y) && !text::bytes_before(y, z) {
        if text::bytes_before(y, x) {
            text::lemma_bytes_before_transitive(y, x, z);
        } else {
            text::lemma_bytes_before_total(x, y);
        }
    }
}

/// What stands before something does not stand behind it.
proof fn lemma_order_is_asymmetric(a: BranchInfoView, b: BranchInfoView)
    requires
        goes_before(a, b),
    ensures
        !goes_before(b, a),
{
    let x = vstd::utf8::encode_utf8(a.name);
    let y = vstd::utf8::encode_utf8(b.name);
    if text::bytes_before(x, y) && text::bytes_before(y, x) {
        text::lemma_bytes_before_transitive(x, y, x);
        text::lemma_bytes_before_irreflexive(x);
    }
}

/// A listing with one more piece of information, which came before all others, put behind just
/// those that are to stand before it.
proof fn lemma_listing_grows(
    listed: Seq<BranchInfoView>,
    infos: Seq<BranchInfoView>,
    info: BranchInfoView,
    p: int,
)
    requires
        is_listing_of(listed, infos),
        0 <= p <= listed.len(),
        forall|i: int| 0 <= i < p ==> goes_before(#[trigger] listed[i], info),
        p < listed.len() ==> !goes_before(listed[p], info),
    ensures
        is_listing_of(listed.insert(p, info), seq![info] + infos),
{
    let grown = listed.insert(p, info);
    let front = listed.take(p);
    let back = listed.skip(p);
    assert(listed =~= front + back);
    assert(grown =~= front + (seq![info] + back));
    assert forall|i: int| p <= i < listed.len() implies !goes_before(
        #[trigger] listed[i],
        info,
    ) by {
        if i > p {
            lemma_order_is_transitive(listed[i], listed[p], info);
        }
    }
    assert forall|i: int, j: int| 0 <= i < j < grown.len() implies !goes_before(
        grown[j],
        grown[i],
    ) by {
        if i < p && j == p {
            lemma_order_is_asymmetric(listed[i], info);
        } else if i < p && j > p {
            assert(grown[j] == listed[j - 1]);
        } else if i > p {
            assert(grown[i] == listed[i - 1]);
            assert(grown[j] == listed[j - 1]);
        }
    }
    to_multiset_insert(listed, p, info);
    to_multiset_insert(infos, 0, info);
    assert(infos.insert(0, info) =~= seq![info] + infos);
    assert forall|key: BranchInfoView| #[trigger] tied_with(grown, key) == tied_with(
        seq![info] + infos,
        key,
    ) by {
        let pred = |x: BranchInfoView| ties(x, key);
        assert(tied_with(listed, key) == tied_with(infos, key));
        Seq::filter_distributes_over_add(front, back, pred);
        Seq::filter_distributes_over_add(front, seq![info] + back, pred);
        back.lemma_filter_prepend(info, pred);
        infos.lemma_filter_prepend(info, pred);
        if pred(info) {
            assert forall|i: int| 0 <= i < front.len() implies !pred(#[trigger] front[i]) by {
                if !goes_before(front[i], key) {
                    lemma_order_is_transitive(front[i], key, info);
                }
            }
            assert(front.all(|x: BranchInfoView| !pred(x)));
            front.lemma_all_neg_filter_empty(pred);
        }
        assert(tied_with(grown, key) =~= tied_with(seq![info] + infos, key));
    }
}

/// Whether `a` is to stand before `b`
fn info_before(a: &BranchInfo, b: &BranchInfo) -> (res: bool)
    ensures
        res == goes_before(a@, b@),
{
    let left: u8 = rank(a.status);
    let right: u8 = rank(b.status);
    left < right || (left == right && text::comes_before(a.name.as_str(), b.name.as_str()))
}

fn rank(status: BranchStatus) -> (res: u8)
    ensures
        res == status_rank(status),
{
    match status {
        BranchStatus::Active => 0,
        BranchStatus::Merged => 1,
        BranchStatus::Abandoned => 2,
    }
}

/// Sort by status (active first) then by name, keeping ties as they stand
pub fn sort_infos(infos: Vec<BranchInfo>) -> (res: Vec<BranchInfo>)
    ensures
        is_listing_of(res.deep_view(), infos.deep_view()),
        res.deep_view() == listing_of(infos.deep_view()),
{
    let ghost all = infos.deep_view();
    let mut infos = infos;
    let mut listed: Vec<BranchInfo> = Vec::new();
    assert(infos.deep_view() =~= all.take(all.len() as int));
    assert(listed.deep_view() =~= all.skip(all.len() as int));
    while infos.len() > 0
        invariant
            infos@.len() <= all.len(),
            infos.deep_view() == all.take(infos@.len() as int),
            is_listing_of(listed.deep_view(), all.skip(infos@.len() as int)),
        decreases infos@.len(),
    {
        let ghost n = infos@.len() as int;
        let ghost infos_before = infos.deep_view();
        match infos.pop() {
            Some(info) => {
                let ghost before = listed.deep_view();
                assert(info@ == infos_before[n - 1]);
                assert(info@ == all[n - 1]);
                let mut p: usize = 0;
                while p < listed.len() && info_before(&listed[p], &info)
                    invariant
                        p <= listed@.len(),
                        before == listed.deep_view(),
                        forall|i: int| 0 <= i < p ==> goes_before(#[trigger] before[i], info@),
                    decreases listed@.len() - p,
                {
                    p = p + 1;
                }
                listed.insert(p, info);
                proof {
                    lemma_listing_grows(before, all.skip(n), info@, p as int);
                    assert(listed.deep_view() =~= before.insert(p as int, info@));
                    assert(all.skip(n - 1) =~= seq![info@] + all.skip(n));
                    assert(infos.deep_view() =~= all.take(n - 1));
                }
            },
            None => {},
        }
    }
    assert(all.skip(0) =~= all);
    proof {
        law_listing_is_unique(all, listed.deep_view(), listing_of(all));
    }
    listed
}

proof fn lemma_listings_agree(a: Seq<BranchInfoView>, b: Seq<BranchInfoView>)
    requires
        in_order(a),
        in_order(b),
        a.to_multiset() == b.to_multiset(),
        forall|key: BranchInfoView| #[trigger] tied_with(a, key) == tied_with(b, key),
    ensures
        a == b,
    decreases a.len(),
{
    a.to_multiset_ensures();
    b.to_multiset_ensures();
    assert(a.len() == b.len());
    if a.len() > 0 {
        let x = a[0];
        let y = b[0];
        assert(b.contains(x)) by {
            assert(a.contains(x));
            assert(a.to_multiset().count(x) > 0);
        }
        assert(a.contains(y)) by {
            assert(b.contains(y));
            assert(b.to_multiset().count(y) > 0);
        }
        let i = choose|i: int| 0 <= i < b.len() && b[i] == x;
        let j = choose|j: int| 0 <= j < a.len() && a[j] == y;
        lemma_does_not_precede_itself(x);
        lemma_does_not_precede_itself(y);
        assert(!goes_before(b[i], b[0]));
        assert(!goes_before(a[j], a[0]));
        assert(ties(y, x));
        let rest_a = a.drop_first();
        let rest_b = b.drop_first();
        assert(a =~= seq![x] + rest_a);
        assert(b =~= seq![y] + rest_b);
        rest_a.lemma_filter_prepend(x, |info: BranchInfoView| ties(info, x));
        rest_b.lemma_filter_prepend(y, |info: BranchInfoView| ties(info, x));
        assert(tied_with(a, x)[0] == x);
        assert(tied_with(b, x)[0] == y);
        assert(x == y);
        assert(rest_a =~= a.remove(0));
        assert(rest_b =~= b.remove(0));
        assert(rest_a.to_multiset() =~= rest_b.to_multiset());
        assert forall|key: BranchInfoView| #[trigger] tied_with(rest_a, key) == tied_with(
            rest_b,
            key,
        ) by {
            let pred = |info: BranchInfoView| ties(info, key);
            rest_a.lemma_filter_prepend(x, pred);
            rest_b.lemma_filter_prepend(y, pred);
            let head = if pred(x) {
                seq![x]
            } else {
                Seq::<BranchInfoView>::empty()
            };
            assert(tied_with(a, key) == tied_with(b, key));
            assert(tied_with(a, key).skip(head.len() as int) =~= tied_with(rest_a, key));
            assert(tied_with(b, key).skip(head.len() as int) =~= tied_with(rest_b, key));
        }
        assert forall|k: int, l: int| 0 <= k < l < rest_a.len() implies !goes_before(
            rest_a[l],
            rest_a[k],
        ) by {
            assert(!goes_before(a[l + 1], a[k + 1]));
        }
        assert forall|k: int, l: int| 0 <= k < l < rest_b.len() implies !goes_before(
            rest_b[l],
            rest_b[k],
        ) by {
            assert(!goes_before(b[l + 1], b[k + 1]));
        }
        lemma_listings_agree(rest_a, rest_b);
    } else {
        assert(a =~= b);
    }
}

proof fn lemma_does_not_precede_itself(a: BranchInfoView)
    ensures
        !goes_before(a, a),
{
    text::lemma_bytes_before_irreflexive(vstd::utf8::encode_utf8(a.name));
}

/// How many of the first pieces of information, and at least `p`, are to stand before `info`.
proof fn lemma_insertion_point(listed: Seq<BranchInfoView>, info: BranchInfoView, p: int) -> (res:
    int)
    requires
        0 <= p <= listed.len(),
        forall|i: int| 0 <= i < p ==> goes_before(#[trigger] listed[i], info),
    ensures
        0 <= res <= listed.len(),
        forall|i: int| 0 <= i < res ==> goes_before(#[trigger] listed[i], info),
        res < listed.len() ==> !goes_before(listed[res], info),
    decreases listed.len() - p,
{
    if p < listed.len() && goes_before(listed[p], info) {
        lemma_insertion_point(listed, info, p + 1)
    } else {
        p
    }
}

/// Whatever there is to list has a listing.
pub proof fn law_listing_exists(infos: Seq<BranchInfoView>)
    ensures
        is_listing_of(listing_of(infos), infos),
    decreases infos.len(),
{
    if infos.len() == 0 {
        assert(is_listing_of(infos, infos));
    } else {
        let rest = infos.drop_first();
        law_listing_exists(rest);
        let listed = listing_of(rest);
        let p = lemma_insertion_point(listed, infos[0], 0);
        lemma_listing_grows(listed, rest, infos[0], p);
        assert(seq![infos[0]] + rest =~= infos);
        assert(is_listing_of(listed.insert(p, infos[0]), infos));
    }
}

/// There is only one listing of the same pieces of information.
pub proof fn law_listing_is_unique(
    infos: Seq<BranchInfoView>,
    a: Seq<BranchInfoView>,
    b: Seq<BranchInfoView>,
)
    requires
        is_listing_of(a, infos),
        is_listing_of(b, infos),
    ensures
        a == b,
{
    assert forall|key: BranchInfoView| #[trigger] tied_with(a, key) == tied_with(b, key) by {
        assert(tied_with(a, key) == tied_with(infos, key));
        assert(tied_with(b, key) == tied_with(infos, key));
    }
    lemma_listings_agree(a, b);
}

/// A listing names the active branches before the others, and the merged ones before those that
/// were abandoned.
pub proof fn law_active_come_first(
    infos: Seq<BranchInfoView>,
    listed: Seq<BranchInfoView>,
    i: int,
    j: int,
)
    requires
        is_listing_of(listed, infos),
        0 <= i < j < listed.len(),
    ensures
        status_rank(listed[i].status) <= status_rank(listed[j].status),
        listed[i].status == listed[j].status ==> !text::text_before(listed[j].name, listed[i].name),
{
    assert(!goes_before(listed[j], listed[i]));
}

} // verus!

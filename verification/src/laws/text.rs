//! Trimming, searching and the order of names.

use crate::branch::{BranchInfoView, BranchStatus};
use crate::listing;
use crate::text;
use vstd::prelude::*;

verus! {

proof fn lemma_trimmed_start(s: Seq<char>) -> (a: int)
    ensures
        0 <= a <= s.len(),
        text::trimmed_start(s) == s.skip(a),
        forall|i: int| 0 <= i < a ==> text::is_white_space(#[trigger] s[i]),
        a < s.len() ==> !text::is_white_space(s[a]),
    decreases s.len(),
{
    if s.len() > 0 && text::is_white_space(s.first()) {
        let rest = s.drop_first();
        let b = lemma_trimmed_start(rest);
        assert(rest.skip(b) =~= s.skip(b + 1));
        assert forall|i: int| 0 <= i < b + 1 implies text::is_white_space(#[trigger] s[i]) by {
            if i > 0 {
                assert(rest[i - 1] == s[i]);
            }
        }
        if b + 1 < s.len() {
            assert(rest[b] == s[b + 1]);
        }
        b + 1
    } else {
        assert(s.skip(0) =~= s);
        0
    }
}

proof fn lemma_trimmed_end(s: Seq<char>) -> (b: int)
    ensures
        0 <= b <= s.len(),
        text::trimmed_end(s) == s.take(b),
        forall|i: int| b <= i < s.len() ==> text::is_white_space(#[trigger] s[i]),
        b > 0 ==> !text::is_white_space(s[b - 1]),
    decreases s.len(),
{
    if s.len() > 0 && text::is_white_space(s.last()) {
        let rest = s.drop_last();
        let b = lemma_trimmed_end(rest);
        assert(rest.take(b) =~= s.take(b));
        assert forall|i: int| b <= i < s.len() implies text::is_white_space(#[trigger] s[i]) by {
            if i < s.len() - 1 {
                assert(rest[i] == s[i]);
            }
        }
        if b > 0 {
            assert(rest[b - 1] == s[b - 1]);
        }
        b
    } else {
        assert(s.take(s.len() as int) =~= s);
        s.len() as int
    }
}

/// The characters that count as white space.
pub proof fn law_white_space(c: char)
    ensures
        text::is_white_space(c) <==> {
            ||| '\u{9}' <= c <= '\u{d}'
            ||| c == ' '
            ||| c == '\u{85}'
            ||| c == '\u{a0}'
            ||| c == '\u{1680}'
            ||| '\u{2000}' <= c <= '\u{200a}'
            ||| c == '\u{2028}'
            ||| c == '\u{2029}'
            ||| c == '\u{202f}'
            ||| c == '\u{205f}'
            ||| c == '\u{3000}'
        },
{
}

/// Trimming takes white space off both ends and nothing else: what it leaves is a part of the text
/// that neither begins nor ends with white space, and all around it is white space.
pub proof fn law_trimmed(s: Seq<char>)
    ensures
        exists|a: int, b: int|
            {
                &&& 0 <= a <= b <= s.len()
                &&& text::trimmed(s) == #[trigger] s.subrange(a, b)
                &&& forall|i: int|
                    0 <= i < a || b <= i < s.len() ==> text::is_white_space(#[trigger] s[i])
                &&& a < b ==> !text::is_white_space(s[a]) && !text::is_white_space(s[b - 1])
            },
{
    let a = lemma_trimmed_start(s);
    let rest = s.skip(a);
    let n = lemma_trimmed_end(rest);
    let b = a + n;
    assert(rest.take(n) =~= s.subrange(a, b));
    assert forall|i: int| 0 <= i < a || b <= i < s.len() implies text::is_white_space(
        #[trigger] s[i],
    ) by {
        if b <= i {
            assert(rest[i - a] == s[i]);
        }
    }
    if a < b {
        assert(rest[n - 1] == s[b - 1]);
    }
}

/// A text occurs in another where it stands there as a whole, and begins a line where nothing, or
/// the end of another line, stands right before it.
pub proof fn law_occurrences(s: Seq<char>, word: Seq<char>)
    ensures
        text::occurs_in(s, word) <==> exists|i: int|
            0 <= i <= s.len() - word.len() && #[trigger] s.subrange(i, i + word.len()) == word,
        text::begins_a_line(s, word) <==> exists|i: int|
            0 <= i <= s.len() - word.len() && #[trigger] s.subrange(i, i + word.len()) == word && (i
                == 0 || s[i - 1] == '\n'),
{
    if text::occurs_in(s, word) {
        let i = choose|i: int| text::occurs_at(s, word, i);
        assert(s.subrange(i, i + word.len()) == word);
    }
    if text::begins_a_line(s, word) {
        let i = choose|i: int| #[trigger]
            text::occurs_at(s, word, i) && (i == 0 || s[i - 1] == '\n');
        assert(s.subrange(i, i + word.len()) == word);
    }
    assert forall|i: int|
        0 <= i <= s.len() - word.len() && #[trigger] s.subrange(i, i + word.len())
            == word implies text::occurs_at(s, word, i) by {}
}

/// One text comes before another where, in their bytes, it is a proper beginning of the other, or
/// has the smaller byte where the two first differ.
pub proof fn law_order_of_bytes(a: Seq<u8>, b: Seq<u8>)
    ensures
        text::bytes_before(a, b) <==> exists|p: int|
            {
                &&& 0 <= p <= a.len()
                &&& p < b.len()
                &&& #[trigger] a.take(p) == b.take(p)
                &&& p == a.len() || a[p] < b[p]
            },
    decreases a.len(),
{
    if a.len() > 0 && b.len() > 0 && a[0] == b[0] {
        let (x, y) = (a.drop_first(), b.drop_first());
        law_order_of_bytes(x, y);
        if text::bytes_before(a, b) {
            let p = choose|p: int|
                {
                    &&& 0 <= p <= x.len()
                    &&& p < y.len()
                    &&& #[trigger] x.take(p) == y.take(p)
                    &&& p == x.len() || x[p] < y[p]
                };
            assert(a.take(p + 1) =~= seq![a[0]] + x.take(p));
            assert(b.take(p + 1) =~= seq![b[0]] + y.take(p));
            assert(a.take(p + 1) == b.take(p + 1));
        } else if exists|p: int|
            {
                &&& 0 <= p <= a.len()
                &&& p < b.len()
                &&& #[trigger] a.take(p) == b.take(p)
                &&& p == a.len() || a[p] < b[p]
            } {
            let p = choose|p: int|
                {
                    &&& 0 <= p <= a.len()
                    &&& p < b.len()
                    &&& #[trigger] a.take(p) == b.take(p)
                    &&& p == a.len() || a[p] < b[p]
                };
            assert(p > 0);
            assert(x.take(p - 1) =~= a.take(p).drop_first());
            assert(y.take(p - 1) =~= b.take(p).drop_first());
            assert(x.take(p - 1) == y.take(p - 1));
        }
    } else {
        assert(a.take(0) =~= b.take(0));
        assert forall|p: int|
            {
                &&& 0 <= p <= a.len()
                &&& p < b.len()
                &&& #[trigger] a.take(p) == b.take(p)
                &&& p == a.len() || a[p] < b[p]
            } implies text::bytes_before(a, b) by {
            if p > 0 {
                assert(a.take(p)[0] == a[0]);
                assert(b.take(p)[0] == b[0]);
            }
        }
    }
}

proof fn lemma_filters_agree(
    s: Seq<BranchInfoView>,
    f: spec_fn(BranchInfoView) -> bool,
    g: spec_fn(BranchInfoView) -> bool,
)
    requires
        forall|x: BranchInfoView| #[trigger] f(x) == g(x),
    ensures
        s.filter(f) == s.filter(g),
    decreases s.len(),
{
    reveal(Seq::filter);
    if s.len() > 0 {
        lemma_filters_agree(s.drop_last(), f, g);
    }
}

/// A listing holds what there is to list and nothing else, and what has the same status and the
/// same name stands in it as it stood before.
pub proof fn law_listing_keeps(
    infos: Seq<BranchInfoView>,
    listed: Seq<BranchInfoView>,
    key: BranchInfoView,
)
    requires
        listing::is_listing_of(listed, infos),
    ensures
        listed.to_multiset() == infos.to_multiset(),
        listed.filter(
            |x: BranchInfoView|
                x.status == key.status && vstd::utf8::encode_utf8(x.name)
                    == vstd::utf8::encode_utf8(key.name),
        ) == infos.filter(
            |x: BranchInfoView|
                x.status == key.status && vstd::utf8::encode_utf8(x.name)
                    == vstd::utf8::encode_utf8(key.name),
        ),
{
    let alike = |x: BranchInfoView|
        x.status == key.status && vstd::utf8::encode_utf8(x.name) == vstd::utf8::encode_utf8(
            key.name,
        );
    let tied = |x: BranchInfoView| listing::ties(x, key);
    assert forall|x: BranchInfoView| #[trigger] tied(x) == alike(x) by {
        let m = vstd::utf8::encode_utf8(x.name);
        let n = vstd::utf8::encode_utf8(key.name);
        text::lemma_bytes_before_irreflexive(n);
        if !text::bytes_before(m, n) && !text::bytes_before(n, m) {
            text::lemma_bytes_before_total(m, n);
        }
    }
    lemma_filters_agree(listed, tied, alike);
    lemma_filters_agree(infos, tied, alike);
    assert(listing::tied_with(listed, key) == listing::tied_with(infos, key));
}

/// In a listing, active branches come first, then merged ones, then abandoned ones; those of the
/// same status come in the order of the bytes of their names.
pub proof fn law_listing_is_ordered(
    infos: Seq<BranchInfoView>,
    listed: Seq<BranchInfoView>,
    i: int,
    j: int,
)
    requires
        listing::is_listing_of(listed, infos),
        0 <= i < j < listed.len(),
    ensures
        listed[j].status == BranchStatus::Active ==> listed[i].status == BranchStatus::Active,
        listed[i].status == BranchStatus::Abandoned ==> listed[j].status == BranchStatus::Abandoned,
        listed[i].status == listed[j].status ==> {
            let a = vstd::utf8::encode_utf8(listed[i].name);
            let b = vstd::utf8::encode_utf8(listed[j].name);
            a == b || exists|p: int|
                {
                    &&& 0 <= p <= a.len()
                    &&& p < b.len()
                    &&& #[trigger] a.take(p) == b.take(p)
                    &&& p == a.len() || a[p] < b[p]
                }
        },
{
    listing::law_active_come_first(infos, listed, i, j);
    let a = vstd::utf8::encode_utf8(listed[i].name);
    let b = vstd::utf8::encode_utf8(listed[j].name);
    law_order_of_bytes(a, b);
    if !text::bytes_before(a, b) && !text::bytes_before(b, a) {
        text::lemma_bytes_before_total(a, b);
    }
}

/// There is a listing of whatever there is to list, and it is the one that is chosen.
pub proof fn law_listing_is_chosen(infos: Seq<BranchInfoView>)
    ensures
        listing::is_listing_of(listing::listing_of(infos), infos),
        listing::listing_of(infos).len() == infos.len(),
{
    listing::law_listing_exists(infos);
    listing::listing_of(infos).to_multiset_ensures();
    infos.to_multiset_ensures();
}

} // verus!

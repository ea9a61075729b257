//! Text as sequences of characters: trimming, searching, joining and the order of strings.

use vstd::prelude::*;

verus! {

/// Whether `c` has the Unicode property `White_Space`.
pub open spec fn is_white_space(c: char) -> bool {
    let n = c as u32;
    ||| 0x9 <= n <= 0xd
    ||| n == 0x20
    ||| n == 0x85
    ||| n == 0xa0
    ||| n == 0x1680
    ||| 0x2000 <= n <= 0x200a
    ||| n == 0x2028
    ||| n == 0x2029
    ||| n == 0x202f
    ||| n == 0x205f
    ||| n == 0x3000
}

/// `s` without its leading white space.
pub open spec fn trimmed_start(s: Seq<char>) -> Seq<char>
    decreases s.len(),
{
    if s.len() > 0 && is_white_space(s.first()) {
        trimmed_start(s.drop_first())
    } else {
        s
    }
}

/// `s` without its trailing white space.
pub open spec fn trimmed_end(s: Seq<char>) -> Seq<char>
    decreases s.len(),
{
    if s.len() > 0 && is_white_space(s.last()) {
        trimmed_end(s.drop_last())
    } else {
        s
    }
}

/// `s` without white space at either end.
pub open spec fn trimmed(s: Seq<char>) -> Seq<char> {
    trimmed_end(trimmed_start(s))
}

/// `needle` stands in `s` at position `i`.
pub open spec fn occurs_at(s: Seq<char>, needle: Seq<char>, i: int) -> bool {
    0 <= i && i + needle.len() <= s.len() && s.subrange(i, i + needle.len()) == needle
}

/// `needle` stands somewhere in `s`.
pub open spec fn occurs_in(s: Seq<char>, needle: Seq<char>) -> bool {
    exists|i: int| occurs_at(s, needle, i)
}

/// Some line of `s` begins with `word`.
pub open spec fn begins_a_line(s: Seq<char>, word: Seq<char>) -> bool {
    exists|i: int| #[trigger] occurs_at(s, word, i) && (i == 0 || s[i - 1] == '\n')
}

/// `str::trim`: the string without its leading and trailing white space, where white space is
/// what has the Unicode property `White_Space`.
pub assume_specification[ str::trim ](s: &str) -> (res: &str)
    ensures
        res@ == trimmed(s@),
;

/// `str::contains` on a string pattern: whether the pattern is a sub-slice of the string.
#[verifier::external_body]
pub(crate) fn contains(s: &str, needle: &str) -> (res: bool)
    ensures
        res == occurs_in(s@, needle@),
{
    s.contains(needle)
}

/// Whether some line of a string begins with a word.
pub(crate) fn has_line_with(s: &str, word: &str) -> (res: bool)
    ensures
        res == begins_a_line(s@, word@),
{
    let lines: String = join2("\n", s);
    let start: String = join2("\n", word);
    let res = contains(lines.as_str(), start.as_str());
    proof {
        reveal_strlit("\n");
        let n = word@.len() as int;
        assert(start@.subrange(1, n + 1) =~= word@);
        if occurs_in(lines@, start@) {
            let i = choose|i: int| occurs_at(lines@, start@, i);
            assert(s@.subrange(i, i + n) =~= lines@.subrange(i, i + n + 1).subrange(1, n + 1));
            assert(occurs_at(s@, word@, i));
            assert(lines@.subrange(i, i + n + 1)[0] == lines@[i]);
        }
        if begins_a_line(s@, word@) {
            let i = choose|i: int| #[trigger]
                occurs_at(s@, word@, i) && (i == 0 || s@[i - 1] == '\n');
            assert(lines@.subrange(i, i + n + 1) =~= start@) by {
                assert forall|j: int| 0 <= j < n implies lines@.subrange(i, i + n + 1)[j + 1]
                    == word@[j] by {
                    assert(s@.subrange(i, i + n)[j] == word@[j]);
                }
            }
            assert(occurs_at(lines@, start@, i));
        }
    }
    res
}

/// Whether two strings hold the same characters.
pub(crate) fn same_text(a: &String, b: &str) -> (res: bool)
    ensures
        res == (a@ == b@),
{
    let b: String = b.to_owned();
    *a == b
}

/// The string trimmed, as a string of its own.
pub(crate) fn trim_owned(s: &str) -> (res: String)
    ensures
        res@ == trimmed(s@),
{
    s.trim().to_owned()
}

/// Two pieces of text, one after the other.
pub(crate) fn join2(a: &str, b: &str) -> (res: String)
    ensures
        res@ == a@ + b@,
{
    let mut res: String = a.to_owned();
    res.append(b);
    res
}

/// Three pieces of text, one after the other.
pub(crate) fn join3(a: &str, b: &str, c: &str) -> (res: String)
    ensures
        res@ == a@ + b@ + c@,
{
    let mut res: String = join2(a, b);
    res.append(c);
    res
}

/// `a` comes strictly before `b` in the lexicographic order of bytes.
pub open spec fn bytes_before(a: Seq<u8>, b: Seq<u8>) -> bool
    decreases a.len(),
{
    if b.len() == 0 {
        false
    } else if a.len() == 0 {
        true
    } else if a[0] != b[0] {
        a[0] < b[0]
    } else {
        bytes_before(a.drop_first(), b.drop_first())
    }
}

/// `a` comes strictly before `b` in the order of strings, which is that of their UTF-8 bytes.
pub open spec fn text_before(a: Seq<char>, b: Seq<char>) -> bool {
    bytes_before(vstd::utf8::encode_utf8(a), vstd::utf8::encode_utf8(b))
}

/// Whether `a` comes strictly before `b` in the order of strings.
pub(crate) fn comes_before(a: &str, b: &str) -> (res: bool)
    ensures
        res == text_before(a@, b@),
{
    let left = a.as_bytes();
    let right = b.as_bytes();
    let mut i: usize = 0;
    assert(left@.skip(0) =~= left@);
    assert(right@.skip(0) =~= right@);
    while i < left.len() && i < right.len() && left[i] == right[i]
        invariant
            i <= left@.len(),
            i <= right@.len(),
            bytes_before(left@, right@) == bytes_before(
                left@.skip(i as int),
                right@.skip(i as int),
            ),
        decreases left@.len() - i,
    {
        assert(left@.skip(i as int).drop_first() =~= left@.skip(i + 1));
        assert(right@.skip(i as int).drop_first() =~= right@.skip(i + 1));
        i = i + 1;
    }
    if i >= right.len() {
        false
    } else if i >= left.len() {
        true
    } else {
        left[i] < right[i]
    }
}

/// The byte order is irreflexive.
pub(crate) proof fn lemma_bytes_before_irreflexive(a: Seq<u8>)
    ensures
        !bytes_before(a, a),
    decreases a.len(),
{
    if a.len() > 0 {
        lemma_bytes_before_irreflexive(a.drop_first());
    }
}

/// The byte order is transitive.
pub(crate) proof fn lemma_bytes_before_transitive(a: Seq<u8>, b: Seq<u8>, c: Seq<u8>)
    requires
        bytes_before(a, b),
        bytes_before(b, c),
    ensures
        bytes_before(a, c),
    decreases a.len(),
{
    if a.len() > 0 && a[0] == b[0] && b[0] == c[0] {
        lemma_bytes_before_transitive(a.drop_first(), b.drop_first(), c.drop_first());
    }
}

/// Two different byte strings are ordered one way or the other.
pub(crate) proof fn lemma_bytes_before_total(a: Seq<u8>, b: Seq<u8>)
    requires
        !bytes_before(a, b),
        !bytes_before(b, a),
    ensures
        a == b,
    decreases a.len(),
{
    if a.len() > 0 && b.len() > 0 {
        lemma_bytes_before_total(a.drop_first(), b.drop_first());
        assert(a =~= seq![a[0]] + a.drop_first());
        assert(b =~= seq![b[0]] + b.drop_first());
    } else {
        assert(a =~= b);
    }
}

} // verus!

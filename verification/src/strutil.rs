//! Verified helpers on strings: equality, substring containment, and the
//! pieces of a string before or after a separator character. Asset file
//! names encode a keyword, a language and a platform between separators,
//! so asset discovery is built on these.

use vstd::prelude::*;

verus! {

/// Whether `needle` occurs as a contiguous substring of `hay`.
pub open spec fn contains_seq(hay: Seq<char>, needle: Seq<char>) -> bool {
    exists|i: int|
        0 <= i && i + needle.len() <= hay.len() && #[trigger] hay.subrange(i, i + needle.len())
            == needle
}

/// The characters of `s` before the first occurrence of `sep`; all of
/// `s` when `sep` does not occur.
pub open spec fn before_first(s: Seq<char>, sep: char) -> Seq<char>
    decreases s.len(),
{
    if s.len() == 0 {
        s
    } else if s[0] == sep {
        Seq::empty()
    } else {
        seq![s[0]] + before_first(s.drop_first(), sep)
    }
}

/// The characters of `s` after the last occurrence of `sep`; all of `s`
/// when `sep` does not occur.
pub open spec fn after_last(s: Seq<char>, sep: char) -> Seq<char>
    decreases s.len(),
{
    if s.len() == 0 {
        s
    } else if s[s.len() - 1] == sep {
        Seq::empty()
    } else {
        after_last(s.drop_last(), sep) + seq![s[s.len() - 1]]
    }
}

/// The text before the first `sep` equals the prefix of `s` that ends at
/// the first position `i` holding `sep` (or at the end when none does).
proof fn lemma_before_first_subrange(s: Seq<char>, sep: char, i: int)
    requires
        0 <= i <= s.len(),
        forall|j: int| 0 <= j < i ==> s[j] != sep,
        i < s.len() ==> s[i] == sep,
    ensures
        before_first(s, sep) == s.subrange(0, i),
    decreases s.len(),
{
    if s.len() == 0 {
        assert(before_first(s, sep) =~= s.subrange(0, i));
    } else if s[0] == sep {
        assert(i == 0);
        assert(before_first(s, sep) =~= s.subrange(0, i));
    } else {
        assert(i >= 1);
        let rest = s.drop_first();
        lemma_before_first_subrange(rest, sep, i - 1);
        assert(before_first(s, sep) =~= s.subrange(0, i));
    }
}

/// The text after the last `sep` equals the suffix of `s` that starts
/// right after the last position holding `sep` (at 0 when none does).
proof fn lemma_after_last_subrange(s: Seq<char>, sep: char, b: int)
    requires
        0 <= b <= s.len(),
        forall|j: int| b <= j < s.len() ==> s[j] != sep,
        b > 0 ==> s[b - 1] == sep,
    ensures
        after_last(s, sep) == s.subrange(b, s.len() as int),
    decreases s.len(),
{
    if s.len() == 0 {
        assert(after_last(s, sep) =~= s.subrange(b, s.len() as int));
    } else if s[s.len() - 1] == sep {
        assert(b == s.len());
        assert(after_last(s, sep) =~= s.subrange(b, s.len() as int));
    } else {
        assert(b < s.len());
        let front = s.drop_last();
        lemma_after_last_subrange(front, sep, b);
        assert(after_last(s, sep) =~= s.subrange(b, s.len() as int));
    }
}

/// The characters of `s` before the first occurrence of `sep`.
pub fn split_before_first<'a>(s: &'a str, sep: char) -> (r: &'a str)
    ensures
        r@ == before_first(s@, sep),
{
    let len = s.unicode_len();
    let mut i: usize = 0;
    while i < len
        invariant
            len == s@.len(),
            i <= len,
            forall|j: int| 0 <= j < i ==> s@[j] != sep,
        ensures
            i <= len,
            forall|j: int| 0 <= j < i ==> s@[j] != sep,
            i < len ==> s@[i as int] == sep,
        decreases len - i,
    {
        if s.get_char(i) == sep {
            break;
        }
        i = i + 1;
    }
    proof {
        lemma_before_first_subrange(s@, sep, i as int);
    }
    s.substring_char(0, i)
}

/// The characters of `s` after the last occurrence of `sep`.
pub fn split_after_last<'a>(s: &'a str, sep: char) -> (r: &'a str)
    ensures
        r@ == after_last(s@, sep),
{
    let len = s.unicode_len();
    let mut i: usize = len;
    while i > 0
        invariant
            len == s@.len(),
            i <= len,
            forall|j: int| i <= j < len ==> s@[j] != sep,
        ensures
            i <= len,
            forall|j: int| i <= j < len ==> s@[j] != sep,
            i > 0 ==> s@[i - 1] == sep,
        decreases i,
    {
        if s.get_char(i - 1) == sep {
            break;
        }
        i = i - 1;
    }
    proof {
        lemma_after_last_subrange(s@, sep, i as int);
    }
    s.substring_char(i, len)
}

/// Whether `needle` occurs in `hay` starting at position `at`.
fn match_at(hay: &str, needle: &str, at: usize, hay_len: usize, needle_len: usize) -> (r: bool)
    requires
        hay_len == hay@.len(),
        needle_len == needle@.len(),
        at + needle_len <= hay_len,
    ensures
        r == (hay@.subrange(at as int, at + needle@.len()) == needle@),
{
    let mut k: usize = 0;
    while k < needle_len
        invariant
            hay_len == hay@.len(),
            needle_len == needle@.len(),
            at + needle_len <= hay_len,
            k <= needle_len,
            forall|m: int| 0 <= m < k ==> hay@[at + m] == needle@[m],
        decreases needle_len - k,
    {
        if hay.get_char(at + k) != needle.get_char(k) {
            proof {
                assert(hay@.subrange(at as int, at + needle@.len())[k as int] != needle@[k as int]);
            }
            return false;
        }
        k = k + 1;
    }
    proof {
        assert(hay@.subrange(at as int, at + needle@.len()) =~= needle@);
    }
    true
}

/// Whether `needle` occurs as a contiguous substring of `hay`.
pub fn contains_sub(hay: &str, needle: &str) -> (r: bool)
    ensures
        r == contains_seq(hay@, needle@),
{
    let hay_len = hay.unicode_len();
    let needle_len = needle.unicode_len();
    if needle_len > hay_len {
        return false;
    }
    if needle_len == 0 {
        proof {
            assert(hay@.subrange(0, 0 + needle@.len() as int) =~= needle@);
        }
        return true;
    }
    let last = hay_len - needle_len;
    let mut i: usize = 0;
    while i <= last
        invariant
            hay_len == hay@.len(),
            needle_len == needle@.len(),
            0 < needle_len <= hay_len,
            last == hay_len - needle_len,
            i <= last + 1,
            forall|j: int| 0 <= j < i ==> #[trigger] hay@.subrange(j, j + needle@.len()) != needle@,
        decreases last + 1 - i,
    {
        if match_at(hay, needle, i, hay_len, needle_len) {
            proof {
                assert(hay@.subrange(i as int, i as int + needle@.len() as int) == needle@);
            }
            return true;
        }
        i = i + 1;
    }
    false
}

/// Character-for-character string equality.
pub fn str_equal(a: &str, b: &str) -> (r: bool)
    ensures
        r == (a@ == b@),
{
    let a_len = a.unicode_len();
    let b_len = b.unicode_len();
    if a_len != b_len {
        return false;
    }
    let mut i: usize = 0;
    while i < a_len
        invariant
            a_len == a@.len(),
            b_len == b@.len(),
            a_len == b_len,
            i <= a_len,
            forall|j: int| 0 <= j < i ==> a@[j] == b@[j],
        decreases a_len - i,
    {
        if a.get_char(i) != b.get_char(i) {
            return false;
        }
        i = i + 1;
    }
    proof {
        assert(a@ =~= b@);
    }
    true
}

} // verus!

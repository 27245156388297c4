use vstd::prelude::*;
use vstd::string::*;

verus! {

/// `needle` occurs in `hay` as a contiguous run of characters.
pub open spec fn is_substring(hay: Seq<char>, needle: Seq<char>) -> bool {
    exists|i: int|
        0 <= i && i + needle.len() <= hay.len() && #[trigger] hay.subrange(
            i,
            i + needle.len(),
        ) == needle
}

/// `hay` begins with `needle`.
pub open spec fn is_prefix(hay: Seq<char>, needle: Seq<char>) -> bool {
    needle.len() <= hay.len() && hay.subrange(0, needle.len() as int) == needle
}

/// Whether the `n` characters of `needle` stand in `hay` from place `at` on.
fn matches_at(hay: &str, needle: &str, at: usize, n: usize) -> (same: bool)
    requires
        n == needle@.len(),
        at + n <= hay@.len() <= usize::MAX,
    ensures
        same == (hay@.subrange(at as int, at + n) == needle@),
{
    let mut j: usize = 0;
    while j < n
        invariant
            n == needle@.len(),
            at + n <= hay@.len() <= usize::MAX,
            j <= n,
            forall|a: int| 0 <= a < j ==> hay@[at + a] == needle@[a],
        decreases n - j,
    {
        if hay.get_char(at + j) != needle.get_char(j) {
            assert(hay@.subrange(at as int, at + n)[j as int] != needle@[j as int]);
            return false;
        }
        j = j + 1;
    }
    assert(hay@.subrange(at as int, at + n) =~= needle@);
    true
}

/// Whether `hay` holds `needle` as a substring.
pub fn str_contains(hay: &str, needle: &str) -> (found: bool)
    ensures
        found == is_substring(hay@, needle@),
{
    let n = needle.unicode_len();
    let h = hay.unicode_len();
    if h < n {
        return false;
    }
    if n == 0 {
        assert(hay@.subrange(0int, 0int + needle@.len()) =~= needle@);
        return true;
    }
    let last = h - n;
    let mut i: usize = 0;
    while i <= last
        invariant
            n == needle@.len(),
            h == hay@.len(),
            0 < n <= h,
            last == h - n,
            i <= last + 1,
            forall|a: int| 0 <= a < i ==> #[trigger] hay@.subrange(a, a + n) != needle@,
        decreases last + 1 - i,
    {
        if matches_at(hay, needle, i, n) {
            return true;
        }
        i = i + 1;
    }
    false
}

/// Whether `hay` begins with `needle`.
pub fn starts_with(hay: &str, needle: &str) -> (begins: bool)
    ensures
        begins == is_prefix(hay@, needle@),
{
    let n = needle.unicode_len();
    if hay.unicode_len() < n {
        return false;
    }
    matches_at(hay, needle, 0, n)
}

/// Whether two string slices hold the same characters.
pub fn str_eq(a: &str, b: &str) -> (same: bool)
    ensures
        same == (a@ == b@),
{
    let n = b.unicode_len();
    if a.unicode_len() != n {
        return false;
    }
    assert(a@.subrange(0, n as int) =~= a@);
    matches_at(a, b, 0, n)
}

} // verus!

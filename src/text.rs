//! Verified operations on strings, stated over their character sequences.
use vstd::prelude::*;
use vstd::string::StrSliceExecFns;
use vstd::string::StringExecFns;

verus! {

/// Whether `s` ends with `suf`.
pub open spec fn ends_with(s: Seq<char>, suf: Seq<char>) -> bool {
    suf.len() <= s.len() && s.subrange(s.len() - suf.len(), s.len() as int) == suf
}

/// `s` without `suf` at its end, when it ends with it.
pub open spec fn strip_suffix(s: Seq<char>, suf: Seq<char>) -> Seq<char> {
    if ends_with(s, suf) {
        s.subrange(0, s.len() - suf.len())
    } else {
        s
    }
}

/// `s` without a leading `c`, when it starts with one.
pub open spec fn strip_prefix_char(s: Seq<char>, c: char) -> Seq<char> {
    if s.len() > 0 && s[0] == c {
        s.subrange(1, s.len() as int)
    } else {
        s
    }
}

/// Character equality of two strings.
pub fn str_eq(a: &str, b: &str) -> (r: bool)
    ensures
        r == (a@ == b@),
{
    let n = a.unicode_len();
    if n != b.unicode_len() {
        return false;
    }
    let mut i: usize = 0;
    while i < n
        invariant
            n == a@.len(),
            n == b@.len(),
            i <= n,
            a@.subrange(0, i as int) == b@.subrange(0, i as int),
        decreases n - i,
    {
        if a.get_char(i) != b.get_char(i) {
            return false;
        }
        assert(a@.subrange(0, i + 1) == a@.subrange(0, i as int).push(a@[i as int]));
        assert(b@.subrange(0, i + 1) == b@.subrange(0, i as int).push(b@[i as int]));
        i = i + 1;
    }
    assert(a@ == a@.subrange(0, n as int));
    assert(b@ == b@.subrange(0, n as int));
    true
}

/// Whether the first `end` characters of `s` end with `suf`.
pub fn prefix_ends_with(s: &str, end: usize, suf: &str) -> (r: bool)
    requires
        end <= s@.len(),
    ensures
        r == ends_with(s@.subrange(0, end as int), suf@),
{
    let k = suf.unicode_len();
    if k > end {
        return false;
    }
    let tail = s.substring_char(end - k, end);
    let r = str_eq(tail, suf);
    assert(s@.subrange(0, end as int).subrange(end - k, end as int) == s@.subrange(end - k, end as int));
    r
}

/// Removes `suf` from the end of `s`, when it is there.
pub fn strip_suffix_str(s: &str, suf: &str) -> (r: String)
    ensures
        r@ == strip_suffix(s@, suf@),
{
    let n = s.unicode_len();
    let k = suf.unicode_len();
    if prefix_ends_with(s, n, suf) {
        assert(s@.subrange(0, n as int) == s@);
        String::from_str(s.substring_char(0, n - k))
    } else {
        assert(s@.subrange(0, n as int) == s@);
        String::from_str(s)
    }
}

/// Removes one leading `c` from `s`, when it is there.
pub fn strip_prefix_char_str(s: &str, c: char) -> (r: String)
    ensures
        r@ == strip_prefix_char(s@, c),
{
    let n = s.unicode_len();
    if n > 0 && s.get_char(0) == c {
        String::from_str(s.substring_char(1, n))
    } else {
        assert(s@.subrange(0, n as int) == s@);
        String::from_str(s)
    }
}

/// Index of the last occurrence of `c` in `s`, if any.
pub open spec fn last_index_of(s: Seq<char>, c: char) -> Option<int>
    decreases s.len(),
{
    if s.len() == 0 {
        None
    } else if s.last() == c {
        Some(s.len() - 1)
    } else {
        last_index_of(s.drop_last(), c)
    }
}

/// Finds the last occurrence of `c` in `s`.
pub fn rfind_char(s: &str, c: char) -> (r: Option<usize>)
    ensures
        r matches Some(i) ==> i < s@.len() && last_index_of(s@, c) == Some(i as int),
        r is None ==> last_index_of(s@, c) is None,
{
    let mut end = s.unicode_len();
    assert(s@.subrange(0, end as int) == s@);
    while end > 0
        invariant
            end <= s@.len(),
            last_index_of(s@.subrange(0, end as int), c) == last_index_of(s@, c),
        decreases end,
    {
        if s.get_char(end - 1) == c {
            return Some(end - 1);
        }
        assert(s@.subrange(0, end as int).drop_last() == s@.subrange(0, end - 1));
        end = end - 1;
    }
    None
}

} // verus!

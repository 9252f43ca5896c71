use vstd::prelude::*;

verus! {

/// The characters of `s` lower-cased, as `str::to_lowercase` gives them.
pub uninterp spec fn lower_of(s: Seq<char>) -> Seq<char>;

/// Whether `c` has the Unicode `Uppercase` property.
pub uninterp spec fn upper_char(c: char) -> bool;

/// `s` ends with `suffix`.
pub open spec fn ends_with_seq(s: Seq<char>, suffix: Seq<char>) -> bool {
    suffix.len() <= s.len() && s.subrange(s.len() - suffix.len(), s.len() as int) == suffix
}

/// `needle` occurs in `s` at position `i`.
pub open spec fn occurs_at(s: Seq<char>, needle: Seq<char>, i: int) -> bool {
    0 <= i && i + needle.len() <= s.len() && s.subrange(i, i + needle.len()) == needle
}

/// `needle` occurs somewhere in `s`.
pub open spec fn contains_seq(s: Seq<char>, needle: Seq<char>) -> bool {
    exists|i: int| #[trigger] occurs_at(s, needle, i)
}

/// Some character of `s` is upper case.
pub open spec fn has_upper(s: Seq<char>) -> bool {
    exists|i: int| 0 <= i < s.len() && #[trigger] upper_char(s[i])
}

/// Relies on `String::push`: appends one character.
#[verifier::external_body]
pub(crate) fn push_char(s: &mut String, c: char)
    ensures
        final(s)@ == old(s)@.push(c),
{
    s.push(c);
}

/// Relies on `str::to_lowercase`: the result depends on the characters alone.
#[verifier::external_body]
pub(crate) fn lowercase(s: &str) -> (r: String)
    ensures
        r@ == lower_of(s@),
{
    s.to_lowercase()
}

/// Relies on `char::is_uppercase`.
#[verifier::external_body]
pub(crate) fn char_is_upper(c: char) -> (r: bool)
    ensures
        r == upper_char(c),
{
    c.is_uppercase()
}

/// Whether some character of `s` is upper case.
pub fn contains_upper(s: &str) -> (r: bool)
    ensures
        r == has_upper(s@),
{
    let n = s.unicode_len();
    let mut i: usize = 0;
    while i < n
        invariant
            n == s@.len(),
            i <= n,
            forall|k: int| 0 <= k < i ==> !upper_char(#[trigger] s@[k]),
        decreases n - i,
    {
        if char_is_upper(s.get_char(i)) {
            return true;
        }
        i = i + 1;
    }
    false
}

/// Whether `needle` occurs in `s` starting at character `start`.
fn occurs_at_exec(s: &str, needle: &str, start: usize) -> (r: bool)
    requires
        start + needle@.len() <= s@.len(),
        s@.len() <= usize::MAX,
    ensures
        r == occurs_at(s@, needle@, start as int),
{
    let m = needle.unicode_len();
    let mut j: usize = 0;
    while j < m
        invariant
            m == needle@.len(),
            start + m <= s@.len(),
            s@.len() <= usize::MAX,
            j <= m,
            forall|k: int| 0 <= k < j ==> s@[start + k] == needle@[k],
        decreases m - j,
    {
        if s.get_char(start + j) != needle.get_char(j) {
            assert(s@.subrange(start as int, start + m)[j as int] != needle@[j as int]);
            return false;
        }
        j = j + 1;
    }
    assert(s@.subrange(start as int, start + m) =~= needle@);
    true
}

/// Whether `s` ends with `suffix`.
pub fn str_ends_with(s: &str, suffix: &str) -> (r: bool)
    ensures
        r == ends_with_seq(s@, suffix@),
{
    let n = s.unicode_len();
    let m = suffix.unicode_len();
    if m > n {
        return false;
    }
    occurs_at_exec(s, suffix, n - m)
}

/// Whether `needle` occurs anywhere in `s`.
pub fn str_contains(s: &str, needle: &str) -> (r: bool)
    ensures
        r == contains_seq(s@, needle@),
{
    let n = s.unicode_len();
    let m = needle.unicode_len();
    if m > n {
        return false;
    }
    let limit = n - m;
    let mut i: usize = 0;
    while i < limit
        invariant
            n == s@.len(),
            m == needle@.len(),
            limit == n - m,
            i <= limit,
            forall|k: int| 0 <= k < i ==> !occurs_at(s@, needle@, k),
        decreases limit - i,
    {
        if occurs_at_exec(s, needle, i) {
            return true;
        }
        i = i + 1;
    }
    if occurs_at_exec(s, needle, limit) {
        return true;
    }
    assert forall|k: int| !occurs_at(s@, needle@, k) by {
        if 0 <= k && k + m <= n && k != limit {
            assert(k < i);
        }
    }
    false
}

} // verus!

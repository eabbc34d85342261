//! Character-level scanning of text held as a vector of characters.

use vstd::prelude::*;

use super::grammar;

verus! {

/// Calls `String::push` (std). Trusted: the contract claims that the push
/// leaves the characters of `s` followed by exactly `c`.
#[verifier::external_body]
pub(crate) fn push_char(s: &mut String, c: char)
    ensures
        final(s)@ == old(s)@.push(c),
{
    s.push(c);
}

/// The characters of `s`, in order.
pub(crate) fn chars_of(s: &str) -> (out: Vec<char>)
    ensures
        out@ == s@,
{
    let mut out: Vec<char> = Vec::new();
    for c in it: s.chars()
        invariant
            out@ == it.seq().take(it.index()),
    {
        out.push(c);
    }
    out
}

/// Whether `c` is Unicode whitespace.
pub(crate) fn char_is_whitespace(c: char) -> (b: bool)
    ensures
        b == grammar::is_whitespace(c),
{
    let u = c as u32;
    u == 0x20 || (0x09 <= u && u <= 0x0d) || u == 0x85 || u == 0xa0 || u == 0x1680 || (0x2000
        <= u && u <= 0x200a) || u == 0x2028 || u == 0x2029 || u == 0x202f || u == 0x205f || u
        == 0x3000
}

/// Position of the first `c` in `text[lo..hi]`, or `hi`.
pub(crate) fn find_in(text: &Vec<char>, lo: usize, hi: usize, c: char) -> (k: usize)
    requires
        lo <= hi <= text@.len(),
    ensures
        lo <= k <= hi,
        k - lo == grammar::find_char(text@.subrange(lo as int, hi as int), c),
{
    let mut k = lo;
    while k < hi && text[k] != c
        invariant
            lo <= k <= hi <= text@.len(),
            forall|j: int| lo <= j < k ==> text@[j] != c,
        decreases hi - k,
    {
        k = k + 1;
    }
    proof {
        grammar::lemma_find_char_unique(text@.subrange(lo as int, hi as int), c, k - lo);
    }
    k
}

/// Bounds of `grammar::trim(text[lo..hi])` within `text`.
pub(crate) fn trim_range(text: &Vec<char>, lo: usize, hi: usize) -> (r: (usize, usize))
    requires
        lo <= hi <= text@.len(),
    ensures
        lo <= r.0 <= r.1 <= hi,
        text@.subrange(r.0 as int, r.1 as int) == grammar::trim(text@.subrange(lo as int, hi as int)),
{
    let ghost s = text@;
    let mut a = lo;
    while a < hi && char_is_whitespace(text[a])
        invariant
            lo <= a <= hi <= s.len(),
            s == text@,
            grammar::trim_start(s.subrange(lo as int, hi as int)) == grammar::trim_start(
                s.subrange(a as int, hi as int),
            ),
        decreases hi - a,
    {
        assert(s.subrange(a as int, hi as int).drop_first() =~= s.subrange(a + 1, hi as int));
        a = a + 1;
    }
    assert(grammar::trim_start(s.subrange(a as int, hi as int)) == s.subrange(a as int, hi as int));
    let mut b = hi;
    while b > a && char_is_whitespace(text[b - 1])
        invariant
            lo <= a <= b <= hi <= s.len(),
            s == text@,
            grammar::trim_end(s.subrange(a as int, hi as int)) == grammar::trim_end(s.subrange(a as int, b as int)),
        decreases b - a,
    {
        assert(s.subrange(a as int, b as int).drop_last() =~= s.subrange(a as int, b - 1));
        b = b - 1;
    }
    assert(grammar::trim_end(s.subrange(a as int, b as int)) == s.subrange(a as int, b as int));
    (a, b)
}

/// A string holding `text[lo..hi]`.
pub(crate) fn string_of(text: &Vec<char>, lo: usize, hi: usize) -> (s: String)
    requires
        lo <= hi <= text@.len(),
    ensures
        s@ == text@.subrange(lo as int, hi as int),
{
    let mut s = String::new();
    let mut i = lo;
    while i < hi
        invariant
            lo <= i <= hi <= text@.len(),
            s@ == text@.subrange(lo as int, i as int),
        decreases hi - i,
    {
        push_char(&mut s, text[i]);
        assert(text@.subrange(lo as int, i + 1) =~= text@.subrange(lo as int, i as int).push(
            text@[i as int],
        ));
        i = i + 1;
    }
    s
}

} // verus!

//! Character-level helpers: digits, case folding, substring search and
//! single-character appends.

use vstd::prelude::*;

verus! {

/// Whether `c` is an ASCII decimal digit.
pub open spec fn is_digit(c: char) -> bool {
    '0' <= c && c <= '9'
}

/// The numeric value of an ASCII decimal digit.
pub open spec fn digit_val(c: char) -> int {
    c as int - '0' as int
}

/// The ASCII digit character of a value below ten.
pub open spec fn digit_char_of(d: int) -> char {
    (d + '0' as int) as char
}

/// Builds the digit character of a value below ten.
pub fn digit_char(d: u8) -> (r: char)
    requires
        d <= 9,
    ensures
        r == digit_char_of(d as int),
        is_digit(r),
        digit_val(r) == d as int,
{
    (d + 48) as char
}

/// Whether `n` occurs as a contiguous subsequence of `h`.
pub open spec fn contains_seq(h: Seq<char>, n: Seq<char>) -> bool {
    exists|i: int|
        0 <= i && i + n.len() <= h.len() && #[trigger] h.subrange(i, i + n.len() as int) == n
}

/// Whether `n` occurs in `h` starting at position `i`.
spec fn matches_at(h: Seq<char>, n: Seq<char>, i: int) -> bool {
    0 <= i && i + n.len() <= h.len() && h.subrange(i, i + n.len() as int) == n
}

/// Substring search by characters, the meaning of a case-sensitive
/// `contains` on text.
pub fn str_contains(h: &str, n: &str) -> (r: bool)
    ensures
        r == contains_seq(h@, n@),
{
    let hlen = h.unicode_len();
    let nlen = n.unicode_len();
    if nlen > hlen {
        return false;
    }
    let mut i: usize = 0;
    while i <= hlen - nlen
        invariant
            hlen == h@.len(),
            nlen == n@.len(),
            nlen <= hlen,
            i <= hlen - nlen + 1,
            forall|k: int| 0 <= k < i ==> !matches_at(h@, n@, k),
        decreases hlen - nlen + 1 - i,
    {
        let mut j: usize = 0;
        let mut ok = true;
        while j < nlen
            invariant
                hlen == h@.len(),
                nlen == n@.len(),
                i + nlen <= hlen,
                j <= nlen,
                ok <==> (forall|t: int| 0 <= t < j ==> h@[i + t] == n@[t]),
            decreases nlen - j,
        {
            if h.get_char(i + j) != n.get_char(j) {
                ok = false;
            }
            j += 1;
        }
        if ok {
            proof {
                assert(h@.subrange(i as int, i + n@.len() as int) =~= n@);
                assert(matches_at(h@, n@, i as int));
            }
            return true;
        }
        proof {
            assert(!matches_at(h@, n@, i as int)) by {
                if matches_at(h@, n@, i as int) {
                    let t = choose|t: int| 0 <= t < nlen && h@[i + t] != n@[t];
                    assert(h@.subrange(i as int, i + n@.len() as int)[t] == h@[i + t]);
                }
            };
        }
        i += 1;
    }
    proof {
        assert forall|k: int| #![trigger h@.subrange(k, k + n@.len() as int)]
            0 <= k && k + n@.len() <= h@.len() implies !matches_at(h@, n@, k) by {
            assert(k < i);
        }
    }
    false
}

/// What `str::to_lowercase` returns: a function of the characters alone.
pub uninterp spec fn lower_of(s: Seq<char>) -> Seq<char>;

/// Relies on `str::to_lowercase`: the lowercase equivalent of the text,
/// which depends on the characters alone; an empty text stays empty.
#[verifier::external_body]
pub(crate) fn to_lowercase(s: &str) -> (r: String)
    ensures
        r@ == lower_of(s@),
        s@.len() == 0 ==> r@.len() == 0,
{
    s.to_lowercase()
}

/// Relies on `String::push`: appends the given character to the end of the
/// string.
#[verifier::external_body]
pub(crate) fn push_char(s: &mut String, c: char)
    ensures
        final(s)@ == old(s)@.push(c),
{
    s.push(c);
}

/// Case-insensitive containment: whether the folded needle occurs in the
/// folded haystack.
pub open spec fn contains_ci(h: Seq<char>, n: Seq<char>) -> bool {
    contains_seq(lower_of(h), lower_of(n))
}

/// Case-insensitive `contains` on text, by folding both sides.
pub fn str_contains_ci(h: &str, n: &str) -> (r: bool)
    ensures
        r == contains_ci(h@, n@),
{
    let hl = to_lowercase(h);
    let nl = to_lowercase(n);
    str_contains(hl.as_str(), nl.as_str())
}

} // verus!

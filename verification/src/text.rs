//! Small verified text utilities shared by the request logic.

use vstd::prelude::*;

verus! {

/// Character-for-character string equality.
pub fn str_eq(a: &str, b: &str) -> (r: bool)
    ensures
        r == (a@ == b@),
{
    let alen = a.unicode_len();
    let blen = b.unicode_len();
    if alen != blen {
        return false;
    }
    let mut i: usize = 0;
    while i < alen
        invariant
            i <= alen,
            alen == a@.len(),
            alen == b@.len(),
            forall|j: int| 0 <= j < i as int ==> a@[j] == b@[j],
        decreases alen - i,
    {
        if a.get_char(i) != b.get_char(i) {
            return false;
        }
        i = i + 1;
    }
    proof {
        assert(a@ =~= b@);
    }
    true
}

/// What follows the `gift=` cookie prefix, if the text starts with it.
pub open spec fn spec_gift_value(s: Seq<char>) -> Option<Seq<char>> {
    if s.len() >= 5 && s.subrange(0, 5) == "gift="@ {
        Some(s.subrange(5, s.len() as int))
    } else {
        None
    }
}

/// Strips the `gift=` cookie prefix from a header value; anything not
/// carrying the prefix is refused.
pub fn strip_gift_prefix(s: &str) -> (r: Option<String>)
    ensures
        match r {
            Some(v) => spec_gift_value(s@) == Some(v@),
            None => spec_gift_value(s@) is None,
        },
{
    let n = s.unicode_len();
    if n < 5 {
        return None;
    }
    let head = s.substring_char(0, 5);
    if !str_eq(head, "gift=") {
        return None;
    }
    let tail = s.substring_char(5, n);
    Some(tail.to_owned())
}

} // verus!

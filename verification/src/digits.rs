//! Verified numeral handling: parsing unsigned decimal and hexadecimal
//! text the way std's `from_str_radix` reads it (an optional leading plus,
//! then digits, overflow refused), and rendering numbers back to text.

use vstd::prelude::*;

verus! {

/// The value of one digit character under `radix`, if it is a digit at
/// all. Letter digits are read in either case.
pub open spec fn digit_val(c: char, radix: u64) -> Option<u64> {
    let u = c as u32;
    if '0' as u32 <= u && u <= '9' as u32 && (u - '0' as u32) < radix {
        Some((u - '0' as u32) as u64)
    } else if 'a' as u32 <= u && u <= 'z' as u32 && (u - 'a' as u32) + 10 < radix {
        Some(((u - 'a' as u32) + 10) as u64)
    } else if 'A' as u32 <= u && u <= 'Z' as u32 && (u - 'A' as u32) + 10 < radix {
        Some(((u - 'A' as u32) + 10) as u64)
    } else {
        None
    }
}

/// The unbounded value of a digit string: defined only when the string is
/// nonempty and all digits.
pub open spec fn digits_val(s: Seq<char>, radix: u64) -> Option<int>
    decreases s.len(),
{
    if s.len() == 0 {
        None
    } else if s.len() == 1 {
        match digit_val(s[0], radix) {
            Some(d) => Some(d as int),
            None => None,
        }
    } else {
        match digits_val(s.drop_last(), radix) {
            Some(v) => match digit_val(s.last(), radix) {
                Some(d) => Some(v * radix + d),
                None => None,
            },
            None => None,
        }
    }
}

/// What `u64::from_str_radix` accepts: an optional leading plus, then at
/// least one digit, and a value that fits the word.
pub open spec fn spec_parse_u64(s: Seq<char>, radix: u64) -> Option<u64> {
    let body = if s.len() >= 1 && s[0] == '+' {
        s.subrange(1, s.len() as int)
    } else {
        s
    };
    match digits_val(body, radix) {
        Some(v) => if v <= u64::MAX {
            Some(v as u64)
        } else {
            None
        },
        None => None,
    }
}

/// A digit string's value never shrinks as the string grows, a failed
/// prefix fails the whole, and values are never negative.
proof fn lemma_digits_step(s: Seq<char>, radix: u64, j: int)
    requires
        0 <= j <= s.len(),
        radix >= 2,
    ensures
        j >= 1 ==> (digits_val(s.subrange(0, j), radix) is None ==> digits_val(s, radix)
            is None),
        digits_val(s, radix) matches Some(w) ==> w >= 0,
        (digits_val(s.subrange(0, j), radix) matches Some(v) ==> (digits_val(s, radix)
            matches Some(w) ==> w >= v)),
    decreases s.len(), s.len() - j,
{
    if j == s.len() {
        assert(s.subrange(0, j) =~= s);
        if s.len() > 0 && digits_val(s, radix) is Some {
            if s.len() == 1 {
            } else {
                lemma_digits_step(s.drop_last(), radix, s.len() - 1);
                assert(s.drop_last().subrange(0, s.len() - 1) =~= s.drop_last());
            }
        }
    } else {
        lemma_digits_step(s, radix, j + 1);
        let p = s.subrange(0, j);
        let q = s.subrange(0, j + 1);
        assert(q.drop_last() =~= p);
        if j == 0 {
            assert(p.len() == 0);
        } else {
            if digits_val(p, radix) is None {
                assert(digits_val(q, radix) is None);
            } else {
                let v = digits_val(p, radix)->Some_0;
                lemma_digits_step(p, radix, j);
                assert(v >= 0);
                if digits_val(q, radix) is Some {
                    let w = digits_val(q, radix)->Some_0;
                    assert(w >= v) by {
                        assert(w == v * radix + digit_val(q.last(), radix)->Some_0);
                        assert(v * radix >= v * 2) by (nonlinear_arith)
                            requires
                                v >= 0,
                                radix >= 2,
                        ;
                    }
                }
            }
        }
    }
}

/// The value of one digit character, or nothing.
pub fn digit_of(c: char, radix: u64) -> (r: Option<u64>)
    ensures
        r == digit_val(c, radix),
{
    let u = c as u32;
    if '0' as u32 <= u && u <= '9' as u32 && ((u - '0' as u32) as u64) < radix {
        Some((u - '0' as u32) as u64)
    } else if 'a' as u32 <= u && u <= 'z' as u32 && ((u - 'a' as u32) as u64 + 10) < radix {
        Some((u - 'a' as u32) as u64 + 10)
    } else if 'A' as u32 <= u && u <= 'Z' as u32 && ((u - 'A' as u32) as u64 + 10) < radix {
        Some((u - 'A' as u32) as u64 + 10)
    } else {
        None
    }
}

/// Reads an unsigned number the way `u64::from_str_radix` does: an
/// optional leading plus, then at least one digit; anything else, or a
/// value beyond the word, is refused.
pub fn parse_u64_radix(s: &str, radix: u64) -> (r: Option<u64>)
    requires
        2 <= radix <= 36,
    ensures
        r == spec_parse_u64(s@, radix),
{
    let n = s.unicode_len();
    let start: usize = if n >= 1 && s.get_char(0) == '+' {
        1
    } else {
        0
    };
    let ghost body = if s@.len() >= 1 && s@[0] == '+' {
        s@.subrange(1, s@.len() as int)
    } else {
        s@
    };
    proof {
        assert(body.len() == n - start);
    }
    if n == start {
        return None;
    }
    let mut acc: u64 = 0;
    let mut i: usize = start;
    while i < n
        invariant
            2 <= radix <= 36,
            start <= i <= n,
            n == s@.len(),
            start < n,
            body == (if s@.len() >= 1 && s@[0] == '+' {
                s@.subrange(1, s@.len() as int)
            } else {
                s@
            }),
            body.len() == n - start,
            forall|j: int| 0 <= j < body.len() ==> body[j] == s@[j + start],
            i > start ==> digits_val(body.subrange(0, (i - start) as int), radix) == Some(
                acc as int,
            ),
            i == start ==> acc == 0,
        decreases n - i,
    {
        let c = s.get_char(i);
        proof {
            assert(body[(i - start) as int] == c);
        }
        let ghost pre = body.subrange(0, (i - start) as int);
        let ghost cur = body.subrange(0, (i - start) as int + 1);
        proof {
            assert(cur.drop_last() =~= pre);
            assert(cur.last() == c);
        }
        match digit_of(c, radix) {
            None => {
                proof {
                    assert(digits_val(cur, radix) is None);
                    lemma_digits_step(body, radix, (i - start) as int + 1);
                }
                return None;
            },
            Some(d) => {
                if acc > (u64::MAX - d) / radix {
                    proof {
                        assert(digits_val(cur, radix) matches Some(w) && w > u64::MAX) by {
                            if i == start {
                                assert(cur.len() == 1);
                                assert(d <= 35);
                                assert(false) by (nonlinear_arith)
                                    requires
                                        acc == 0,
                                        d <= 35,
                                        radix >= 2,
                                        acc > (u64::MAX - d) / (radix as int),
                                ;
                            } else {
                                assert(digits_val(cur, radix) == Some(
                                    (acc as int) * radix + d,
                                ));
                                assert((acc as int) * radix + d > u64::MAX) by (nonlinear_arith)
                                    requires
                                        acc > (u64::MAX - d) / (radix as int),
                                        d < radix,
                                        2 <= radix <= 36,
                                        0 <= acc <= u64::MAX,
                                        0 <= d,
                                ;
                            }
                        }
                        lemma_digits_step(body, radix, (i - start) as int + 1);
                        if digits_val(body, radix) is Some {
                            assert(digits_val(body, radix)->Some_0 > u64::MAX);
                        }
                    }
                    return None;
                }
                proof {
                    let md = (u64::MAX - d) as int;
                    let q = md / (radix as int);
                    vstd::arithmetic::div_mod::lemma_fundamental_div_mod(md, radix as int);
                    assert((acc as int) * (radix as int) <= q * (radix as int))
                        by (nonlinear_arith)
                        requires
                            0 <= acc as int <= q,
                            radix >= 2,
                    ;
                    assert(q * (radix as int) <= md);
                }
                acc = acc * radix + d;
                i = i + 1;
                proof {
                    assert(body.subrange(0, (i - start) as int) =~= cur);
                }
            },
        }
    }
    proof {
        assert(body.subrange(0, (n - start) as int) =~= body);
    }
    Some(acc)
}

/// A decimal digit's character form.
pub open spec fn dec_char_view(d: u64) -> Seq<char> {
    if d == 0 {
        "0"@
    } else if d == 1 {
        "1"@
    } else if d == 2 {
        "2"@
    } else if d == 3 {
        "3"@
    } else if d == 4 {
        "4"@
    } else if d == 5 {
        "5"@
    } else if d == 6 {
        "6"@
    } else if d == 7 {
        "7"@
    } else if d == 8 {
        "8"@
    } else {
        "9"@
    }
}

/// The decimal rendering of a number, most significant digit first, no
/// leading zeros except for zero itself.
pub open spec fn spec_dec(n: u64) -> Seq<char>
    decreases n,
{
    if n < 10 {
        dec_char_view(n)
    } else {
        spec_dec(n / 10) + dec_char_view(n % 10)
    }
}

/// One decimal digit as text.
fn dec_digit_str(d: u64) -> (r: &'static str)
    requires
        d < 10,
    ensures
        r@ == dec_char_view(d),
{
    if d == 0 {
        "0"
    } else if d == 1 {
        "1"
    } else if d == 2 {
        "2"
    } else if d == 3 {
        "3"
    } else if d == 4 {
        "4"
    } else if d == 5 {
        "5"
    } else if d == 6 {
        "6"
    } else if d == 7 {
        "7"
    } else if d == 8 {
        "8"
    } else {
        "9"
    }
}

/// Renders a number in decimal.
pub fn u64_to_dec(n: u64) -> (r: String)
    ensures
        r@ == spec_dec(n),
    decreases n,
{
    if n < 10 {
        dec_digit_str(n).to_owned()
    } else {
        let mut s = u64_to_dec(n / 10);
        s.append(dec_digit_str(n % 10));
        s
    }
}

/// An uppercase hexadecimal digit's character form.
pub open spec fn hex_char_view(d: u64) -> Seq<char> {
    if d < 10 {
        dec_char_view(d)
    } else if d == 10 {
        "A"@
    } else if d == 11 {
        "B"@
    } else if d == 12 {
        "C"@
    } else if d == 13 {
        "D"@
    } else if d == 14 {
        "E"@
    } else {
        "F"@
    }
}

/// The first `n` of a word's 16 hexadecimal digits, most significant
/// first.
pub open spec fn hex_prefix(w: u64, n: int) -> Seq<char>
    decreases n,
{
    if n <= 0 {
        Seq::empty()
    } else {
        hex_prefix(w, n - 1) + hex_char_view((w >> ((16 - n) * 4) as u64) & 0xF)
    }
}

/// The fixed-width, 16-digit uppercase hexadecimal rendering of a word.
pub open spec fn spec_hex16(w: u64) -> Seq<char> {
    hex_prefix(w, 16)
}

/// One hexadecimal digit as uppercase text.
fn hex_digit_str(d: u64) -> (r: &'static str)
    requires
        d < 16,
    ensures
        r@ == hex_char_view(d),
{
    if d < 10 {
        dec_digit_str(d)
    } else if d == 10 {
        "A"
    } else if d == 11 {
        "B"
    } else if d == 12 {
        "C"
    } else if d == 13 {
        "D"
    } else if d == 14 {
        "E"
    } else {
        "F"
    }
}

/// Renders a word as exactly 16 uppercase hexadecimal digits.
pub fn u64_to_hex16(w: u64) -> (r: String)
    ensures
        r@ == spec_hex16(w),
{
    let mut s = String::new();
    let mut i: usize = 0;
    while i < 16
        invariant
            i <= 16,
            s@ == hex_prefix(w, i as int),
        decreases 16 - i,
    {
        let nib: u64 = (w >> ((16 - (i + 1)) * 4) as u64) & 0xF;
        proof {
            assert((w >> ((16 - (i + 1)) * 4) as u64) & 0xF < 16) by (bit_vector);
        }
        s.append(hex_digit_str(nib));
        i = i + 1;
    }
    s
}

} // verus!

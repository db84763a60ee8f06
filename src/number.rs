//! Parsing of integer operands in a given radix, as `i32::from_str_radix`
//! reads them.
use vstd::prelude::*;

verus! {

/// The value of a digit character: `0`-`9`, then `a`-`z` or `A`-`Z` from 10
/// on; `-1` for any other character.
pub open spec fn digit_value(c: char) -> int {
    if '0' <= c && c <= '9' {
        c as int - '0' as int
    } else if 'a' <= c && c <= 'z' {
        c as int - 'a' as int + 10
    } else if 'A' <= c && c <= 'Z' {
        c as int - 'A' as int + 10
    } else {
        -1
    }
}

/// Every character of `s` is a digit of the radix.
pub open spec fn all_digits(s: Seq<char>, radix: int) -> bool {
    forall|i: int| 0 <= i < s.len() ==> 0 <= #[trigger] digit_value(s[i]) < radix
}

/// The value of the digit string `s` in the radix, most significant first.
pub open spec fn digits_value(s: Seq<char>, radix: int) -> int
    decreases s.len(),
{
    if s.len() == 0 {
        0
    } else {
        digits_value(s.drop_last(), radix) * radix + digit_value(s.last())
    }
}

/// Whether `s` opens with a sign character.
pub open spec fn has_sign(s: Seq<char>) -> bool {
    s.len() > 0 && (s[0] == '-' || s[0] == '+')
}

/// The integer written by `s` in the radix: an optional `+` or `-`, then at
/// least one digit; `None` when `s` has another shape or its value does not
/// fit in an `i32`.
pub open spec fn int_value(s: Seq<char>, radix: int) -> Option<int> {
    let body = if has_sign(s) { s.drop_first() } else { s };
    let magnitude = digits_value(body, radix);
    let v = if has_sign(s) && s[0] == '-' { -magnitude } else { magnitude };
    if body.len() > 0 && all_digits(body, radix) && i32::MIN <= v <= i32::MAX {
        Some(v)
    } else {
        None
    }
}

proof fn lemma_digits_value_nonneg(s: Seq<char>, radix: int)
    requires
        all_digits(s, radix),
        radix >= 1,
    ensures
        digits_value(s, radix) >= 0,
    decreases s.len(),
{
    if s.len() > 0 {
        assert(all_digits(s.drop_last(), radix)) by {
            assert forall|i: int| 0 <= i < s.drop_last().len() implies 0 <= #[trigger] digit_value(
                s.drop_last()[i],
            ) < radix by {
                assert(s.drop_last()[i] == s[i]);
            }
        }
        lemma_digits_value_nonneg(s.drop_last(), radix);
        assert(0 <= digit_value(s[s.len() - 1]));
        assert(digits_value(s.drop_last(), radix) * radix >= 0) by (nonlinear_arith)
            requires
                digits_value(s.drop_last(), radix) >= 0,
                radix >= 1,
        ;
    }
}

/// The value of a digit character, or `None` when it is not a digit.
fn char_digit(c: char) -> (r: Option<u32>)
    ensures
        r matches Some(d) ==> d as int == digit_value(c),
        r is None ==> digit_value(c) == -1,
{
    if '0' <= c && c <= '9' {
        Some(c as u32 - '0' as u32)
    } else if 'a' <= c && c <= 'z' {
        Some(c as u32 - 'a' as u32 + 10)
    } else if 'A' <= c && c <= 'Z' {
        Some(c as u32 - 'A' as u32 + 10)
    } else {
        None
    }
}

/// Reads `s` as an integer in the radix, accepting what
/// `i32::from_str_radix` accepts.
pub fn parse_int(s: &str, radix: u32) -> (r: Option<i32>)
    requires
        2 <= radix <= 36,
    ensures
        r matches Some(v) ==> int_value(s@, radix as int) == Some(v as int),
        r is None ==> int_value(s@, radix as int) is None,
{
    let n = s.unicode_len();
    let signed = n > 0 && (s.get_char(0) == '-' || s.get_char(0) == '+');
    let negative = signed && s.get_char(0) == '-';
    let start: usize = if signed { 1 } else { 0 };
    let ghost body = if has_sign(s@) { s@.drop_first() } else { s@ };
    assert(signed == has_sign(s@));
    assert(body =~= s@.subrange(start as int, n as int));
    if start == n {
        return None;
    }
    let mut acc: i64 = 0;
    let mut big = false;
    let mut i = start;
    while i < n
        invariant
            start <= i <= n,
            n == s@.len(),
            start < n,
            2 <= radix <= 36,
            body =~= s@.subrange(start as int, n as int),
            body == (if has_sign(s@) { s@.drop_first() } else { s@ }),
            all_digits(s@.subrange(start as int, i as int), radix as int),
            !big ==> acc == digits_value(s@.subrange(start as int, i as int), radix as int),
            !big ==> 0 <= acc <= 0x8000_0000,
            big ==> digits_value(s@.subrange(start as int, i as int), radix as int) > 0x8000_0000,
        decreases n - i,
    {
        let c = s.get_char(i);
        let ghost prev = s@.subrange(start as int, i as int);
        let ghost next = s@.subrange(start as int, i + 1);
        assert(next.drop_last() =~= prev);
        assert(next.last() == c);
        match char_digit(c) {
            None => {
                assert(!all_digits(body, radix as int)) by {
                    assert(body[i - start] == c);
                    assert(!(0 <= digit_value(body[i - start]) < radix));
                }
                assert(int_value(s@, radix as int) is None);
                return None;
            },
            Some(d) => {
                if d >= radix {
                    assert(!all_digits(body, radix as int)) by {
                        assert(body[i - start] == c);
                    }
                    return None;
                }
                assert(all_digits(next, radix as int)) by {
                    assert forall|j: int| 0 <= j < next.len() implies 0 <= #[trigger] digit_value(
                        next[j],
                    ) < radix by {
                        if j < prev.len() {
                            assert(next[j] == prev[j]);
                        }
                    }
                }
                if big {
                    proof {
                        lemma_digits_value_nonneg(prev, radix as int);
                    }
                    assert(digits_value(prev, radix as int) * (radix as int) >= digits_value(
                        prev,
                        radix as int,
                    )) by (nonlinear_arith)
                        requires
                            digits_value(prev, radix as int) >= 0,
                            radix >= 2,
                    ;
                } else {
                    assert(acc * radix <= 0x8000_0000 * 36) by (nonlinear_arith)
                        requires
                            0 <= acc <= 0x8000_0000,
                            radix <= 36,
                    ;
                    let v = acc * (radix as i64) + (d as i64);
                    if v > 0x8000_0000 {
                        big = true;
                    } else {
                        acc = v;
                    }
                }
            },
        }
        i = i + 1;
    }
    assert(s@.subrange(start as int, n as int) =~= body);
    if big {
        None
    } else if negative {
        Some((0 - acc) as i32)
    } else if acc <= 0x7FFF_FFFF {
        Some(acc as i32)
    } else {
        None
    }
}


/// Whether every character of `s` is a digit of the radix.
pub fn all_digits_in(s: &str, radix: u32) -> (r: bool)
    ensures
        r == all_digits(s@, radix as int),
{
    let n = s.unicode_len();
    let mut i: usize = 0;
    while i < n
        invariant
            n == s@.len(),
            i <= n,
            forall|j: int| 0 <= j < i ==> 0 <= #[trigger] digit_value(s@[j]) < radix,
        decreases n - i,
    {
        let c = s.get_char(i);
        match char_digit(c) {
            Some(d) => {
                if d >= radix {
                    assert(!(0 <= digit_value(s@[i as int]) < radix));
                    return false;
                }
            },
            None => {
                assert(!(0 <= digit_value(s@[i as int]) < radix));
                return false;
            },
        }
        i = i + 1;
    }
    true
}

} // verus!

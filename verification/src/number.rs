//! Reading unsigned numbers written in decimal or hexadecimal.
//!
//! A number is an optional `+` followed by at least one digit. It has a
//! value when that value fits into a `usize`.

use vstd::prelude::*;

verus! {

/// The value of `c` as a digit in base `radix`, for a base of ten or
/// sixteen; `None` when `c` is no such digit.
pub open spec fn digit_value(c: char, radix: u32) -> Option<nat> {
    if '0' <= c <= '9' {
        Some((c as u32 - '0' as u32) as nat)
    } else if radix == 16 && 'a' <= c <= 'f' {
        Some((c as u32 - 'a' as u32 + 10) as nat)
    } else if radix == 16 && 'A' <= c <= 'F' {
        Some((c as u32 - 'A' as u32 + 10) as nat)
    } else {
        None
    }
}

/// Whether every character of `s` is a digit in base `radix`.
pub open spec fn all_digits(s: Seq<char>, radix: u32) -> bool {
    forall|i: int| 0 <= i < s.len() ==> digit_value(#[trigger] s[i], radix) is Some
}

/// The number that the digits `s` spell in base `radix`, most significant
/// digit first.
pub open spec fn digits_value(s: Seq<char>, radix: u32) -> nat
    decreases s.len(),
{
    if s.len() == 0 {
        0
    } else {
        digits_value(s.drop_last(), radix) * (radix as nat) + match digit_value(s.last(), radix) {
            Some(d) => d,
            None => 0,
        }
    }
}

/// The digits of a written number: `s` without its leading `+`, if it has
/// one.
pub open spec fn unsigned_digits(s: Seq<char>) -> Seq<char> {
    if s.len() > 0 && s[0] == '+' {
        s.skip(1)
    } else {
        s
    }
}

/// The number written as `s` in base `radix`, if `s` is a number that fits
/// into a `usize`.
pub open spec fn number_value(s: Seq<char>, radix: u32) -> Option<usize> {
    let digits = unsigned_digits(s);
    if digits.len() > 0 && all_digits(digits, radix) && digits_value(digits, radix) <= usize::MAX {
        Some(digits_value(digits, radix) as usize)
    } else {
        None
    }
}

/// Reads one digit of base `radix`, which is ten or sixteen.
fn read_digit(c: char, radix: u32) -> (digit: Option<usize>)
    requires
        radix == 10 || radix == 16,
    ensures
        digit is Some <==> digit_value(c, radix) is Some,
        digit matches Some(d) ==> d == digit_value(c, radix)->0 && d < radix,
{
    if '0' <= c && c <= '9' {
        Some((c as u32 - '0' as u32) as usize)
    } else if radix == 16 && 'a' <= c && c <= 'f' {
        Some((c as u32 - 'a' as u32 + 10) as usize)
    } else if radix == 16 && 'A' <= c && c <= 'F' {
        Some((c as u32 - 'A' as u32 + 10) as usize)
    } else {
        None
    }
}

/// Where the digits of a written number start: behind its leading `+`, if
/// it has one.
spec fn digits_start(s: Seq<char>) -> int {
    if s.len() > 0 && s[0] == '+' {
        1
    } else {
        0
    }
}

/// The digits among the first `i` characters of the written number `s`.
spec fn digits_read(s: Seq<char>, i: int) -> Seq<char> {
    if i <= digits_start(s) {
        Seq::empty()
    } else {
        s.subrange(digits_start(s), i)
    }
}

/// Reads the number written as `text` in base `radix`, which is ten or
/// sixteen.
fn read_number(text: &str, radix: u32) -> (number: Option<usize>)
    requires
        radix == 10 || radix == 16,
    ensures
        number == number_value(text@, radix),
{
    let mut value: usize = 0;
    let mut at_start = true;
    let mut any_digit = false;
    let mut all_valid = true;
    let mut too_large = false;
    let ghost mut bad: int = 0;
    for c in it: text.chars()
        invariant
            radix == 10 || radix == 16,
            it.seq() == text@,
            at_start == (it.index() == 0),
            any_digit == (digits_read(text@, it.index() as int).len() > 0),
            all_valid == all_digits(digits_read(text@, it.index() as int), radix),
            !all_valid ==> digits_start(text@) <= bad < it.index() && digit_value(
                text@[bad],
                radix,
            ) is None,
            all_valid ==> (too_large <==> digits_value(digits_read(text@, it.index() as int), radix)
                > usize::MAX),
            all_valid && !too_large ==> value == digits_value(
                digits_read(text@, it.index() as int),
                radix,
            ),
    {
        let ghost i = it.index() as int;
        let ghost before = digits_read(text@, i);
        let ghost after = digits_read(text@, i + 1);
        if at_start && c == '+' {
            proof {
                assert(after =~= Seq::<char>::empty());
            }
        } else {
            proof {
                assert(after =~= before.push(c));
                assert(after.drop_last() =~= before);
                assert(after.last() == c);
            }
            any_digit = true;
            match read_digit(c, radix) {
                Some(digit) => {
                    proof {
                        if all_valid {
                            assert forall|j: int| 0 <= j < after.len() implies digit_value(
                                #[trigger] after[j],
                                radix,
                            ) is Some by {
                                if j < before.len() {
                                    assert(after[j] == before[j]);
                                }
                            }
                        } else {
                            assert(after[bad - digits_start(text@)] == text@[bad]);
                        }
                        let front = digits_value(before, radix);
                        assert(front * radix + digit >= front) by (nonlinear_arith)
                            requires
                                radix >= 1,
                                front >= 0,
                                digit >= 0,
                        ;
                    }
                    if !too_large {
                        if value > (usize::MAX - digit) / (radix as usize) {
                            proof {
                                assert(value * radix + digit > usize::MAX) by (nonlinear_arith)
                                    requires
                                        value > (usize::MAX - digit) / (radix as int),
                                        radix > 0,
                                        digit <= usize::MAX,
                                ;
                            }
                            too_large = true;
                        } else {
                            proof {
                                assert(value * radix + digit <= usize::MAX) by (nonlinear_arith)
                                    requires
                                        value <= (usize::MAX - digit) / (radix as int),
                                        radix > 0,
                                        digit <= usize::MAX,
                                ;
                            }
                            value = value * (radix as usize) + digit;
                        }
                    }
                },
                None => {
                    proof {
                        if all_valid {
                            bad = i;
                        }
                        assert(after[bad - digits_start(text@)] == text@[bad]);
                    }
                    all_valid = false;
                },
            }
        }
        at_start = false;
    }
    proof {
        assert(digits_read(text@, text@.len() as int) =~= unsigned_digits(text@));
    }
    if any_digit && all_valid && !too_large {
        Some(value)
    } else {
        None
    }
}

/// Reads a decimal number: `Some(n)` exactly when `text` is an optional `+`
/// and one or more decimal digits that spell `n`, and `n` fits.
pub fn read_decimal(text: &str) -> (number: Option<usize>)
    ensures
        number == number_value(text@, 10),
{
    read_number(text, 10)
}

/// Reads a hexadecimal number: `Some(n)` exactly when `text` is an optional
/// `+` and one or more hexadecimal digits, of either case, that spell `n`,
/// and `n` fits.
pub fn read_hexadecimal(text: &str) -> (number: Option<usize>)
    ensures
        number == number_value(text@, 16),
{
    read_number(text, 16)
}

} // verus!

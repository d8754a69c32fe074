//! Verified parsing of the raw text fields of a daily bar.
//!
//! The store receives each bar as a row of plain strings and must validate
//! every field before it enters the time series: a date made of digits and
//! dashes, signed and unsigned integers, and a decimal-shaped performance
//! figure whose value the engine never reads.  Each parser's contract states
//! exactly which strings it accepts and which value it returns.

use vstd::prelude::*;

verus! {

/// A decimal digit.
pub open spec fn is_digit(c: char) -> bool {
    48 <= c as u32 <= 57
}

/// The numeric value of one digit.
pub open spec fn digit_val(c: char) -> int {
    c as u32 - 48
}

/// Every character of `s` is a decimal digit (vacuously true when empty).
pub open spec fn all_digits(s: Seq<char>) -> bool {
    forall|i: int| 0 <= i < s.len() ==> is_digit(#[trigger] s[i])
}

/// The value of a digit string read most-significant first.
pub open spec fn digits_val(s: Seq<char>) -> int
    decreases s.len(),
{
    if s.len() == 0 {
        0
    } else {
        digits_val(s.drop_last()) * 10 + digit_val(s.last())
    }
}

/// `s` with every dash removed, order kept.
pub open spec fn undashed(s: Seq<char>) -> Seq<char>
    decreases s.len(),
{
    if s.len() == 0 {
        Seq::empty()
    } else if s.last() == '-' {
        undashed(s.drop_last())
    } else {
        undashed(s.drop_last()).push(s.last())
    }
}

/// The digits of an unsigned field: an optional leading `+` is dropped.
pub open spec fn uint_body(s: Seq<char>) -> Seq<char> {
    if s.len() > 0 && s[0] == '+' {
        s.drop_first()
    } else {
        s
    }
}

/// The value of an unsigned field.
pub open spec fn uint_val(s: Seq<char>) -> int {
    digits_val(uint_body(s))
}

/// `s` is a well-formed unsigned 64-bit field.
pub open spec fn is_u64_field(s: Seq<char>) -> bool {
    uint_body(s).len() > 0 && all_digits(uint_body(s)) && uint_val(s) <= u64::MAX
}

/// `s` is a well-formed unsigned 32-bit field.
pub open spec fn is_u32_field(s: Seq<char>) -> bool {
    uint_body(s).len() > 0 && all_digits(uint_body(s)) && uint_val(s) <= u32::MAX
}

/// The digits of a signed field: a leading sign is dropped.
pub open spec fn int_body(s: Seq<char>) -> Seq<char> {
    if s.len() > 0 && (s[0] == '-' || s[0] == '+') {
        s.drop_first()
    } else {
        s
    }
}

/// The signed value of a signed field.
pub open spec fn int_val(s: Seq<char>) -> int {
    if s.len() > 0 && s[0] == '-' {
        -digits_val(int_body(s))
    } else {
        digits_val(int_body(s))
    }
}

/// `s` is a well-formed signed 32-bit field.
pub open spec fn is_i32_field(s: Seq<char>) -> bool {
    int_body(s).len() > 0 && all_digits(int_body(s)) && i32::MIN <= int_val(s) <= i32::MAX
}

/// The `YYYYMMDD` value of a date field, its dashes dropped.
pub open spec fn date_val(s: Seq<char>) -> int {
    digits_val(undashed(s))
}

/// `s` is a well-formed date field: digits and dashes, at least one digit,
/// with a value that fits in a `u32`.
pub open spec fn is_date_field(s: Seq<char>) -> bool {
    undashed(s).len() > 0 && all_digits(undashed(s)) && date_val(s) <= u32::MAX
}

/// A digit string's value is never negative.
pub proof fn lemma_digits_val_nonneg(s: Seq<char>)
    requires
        all_digits(s),
    ensures
        digits_val(s) >= 0,
    decreases s.len(),
{
    if s.len() > 0 {
        assert(all_digits(s.drop_last()));
        lemma_digits_val_nonneg(s.drop_last());
    }
}

/// Every non-dash character of `s` appears in `undashed(s)`.
proof fn lemma_undashed_keeps(s: Seq<char>, j: int)
    requires
        0 <= j < s.len(),
        s[j] != '-',
    ensures
        exists|k: int| 0 <= k < undashed(s).len() && undashed(s)[k] == s[j],
    decreases s.len(),
{
    if j == s.len() - 1 {
        let u = undashed(s);
        assert(u[u.len() - 1] == s[j]);
    } else {
        lemma_undashed_keeps(s.drop_last(), j);
        let k = choose|k: int|
            0 <= k < undashed(s.drop_last()).len() && undashed(s.drop_last())[k] == s[j];
        if s.last() == '-' {
            assert(undashed(s)[k] == s[j]);
        } else {
            assert(undashed(s)[k] == undashed(s.drop_last()).push(s.last())[k]);
            assert(undashed(s)[k] == s[j]);
        }
    }
}

/// Core digit scan: reads `s` from position `from` to the end as an unsigned
/// number.  Accepts exactly the non-empty all-digit tails whose value fits in
/// a `u64`.
fn parse_digits(s: &str, from: usize) -> (r: Option<u64>)
    requires
        from <= s@.len(),
    ensures
        ({
            let body = s@.subrange(from as int, s@.len() as int);
            &&& (r is Some <==> body.len() > 0 && all_digits(body) && digits_val(body)
                <= u64::MAX)
            &&& (r is Some ==> r->0 == digits_val(body))
        }),
{
    let ghost body = s@.subrange(from as int, s@.len() as int);
    let n = s.unicode_len();
    if from == n {
        return None;
    }
    // Accumulates the value, capped one above `u64::MAX` once it no longer
    // fits, so the cap itself can never overflow the accumulator.
    let mut acc: u128 = 0;
    let mut i: usize = from;
    while i < n
        invariant
            from <= i <= n,
            n == s@.len(),
            body == s@.subrange(from as int, n as int),
            all_digits(s@.subrange(from as int, i as int)),
            acc <= u64::MAX + 1,
            digits_val(s@.subrange(from as int, i as int)) <= u64::MAX ==> acc == digits_val(
                s@.subrange(from as int, i as int),
            ),
            digits_val(s@.subrange(from as int, i as int)) > u64::MAX ==> acc == u64::MAX + 1,
        decreases n - i,
    {
        let c = s.get_char(i);
        let cv = c as u32;
        if cv < 48 || cv > 57 {
            assert(!all_digits(body)) by {
                assert(body[i - from] == s@[i as int]);
            }
            return None;
        }
        let d: u128 = (cv - 48) as u128;
        let ghost prefix = s@.subrange(from as int, i as int);
        let ghost prefix1 = s@.subrange(from as int, i + 1);
        proof {
            assert(prefix1.drop_last() =~= prefix);
            assert(prefix1.last() == s@[i as int]);
            assert(all_digits(prefix1));
            lemma_digits_val_nonneg(prefix);
        }
        let next: u128 = acc * 10 + d;
        if next > u64::MAX as u128 {
            acc = u64::MAX as u128 + 1;
        } else {
            acc = next;
        }
        i = i + 1;
    }
    proof {
        assert(s@.subrange(from as int, i as int) == body);
        lemma_digits_val_nonneg(body);
    }
    if acc > u64::MAX as u128 {
        None
    } else {
        Some(acc as u64)
    }
}

/// Parses an unsigned 64-bit field: an optional leading `+`, then digits.
pub fn parse_u64(s: &str) -> (r: Option<u64>)
    ensures
        r is Some <==> is_u64_field(s@),
        r is Some ==> r->0 == uint_val(s@),
{
    if s.unicode_len() > 0 && s.get_char(0) == '+' {
        let r = parse_digits(s, 1);
        proof {
            assert(s@.subrange(1, s@.len() as int) =~= s@.drop_first());
        }
        r
    } else {
        let r = parse_digits(s, 0);
        proof {
            assert(s@.subrange(0, s@.len() as int) =~= s@);
        }
        r
    }
}

/// Parses an unsigned 32-bit field: an optional leading `+`, then digits.
pub fn parse_u32(s: &str) -> (r: Option<u32>)
    ensures
        r is Some <==> is_u32_field(s@),
        r is Some ==> r->0 == uint_val(s@),
{
    match parse_u64(s) {
        Some(v) => if v <= u32::MAX as u64 {
            Some(v as u32)
        } else {
            None
        },
        None => None,
    }
}

/// Parses a signed 32-bit field: an optional sign, then digits, with the
/// signed value required to fit in an `i32`.
pub fn parse_i32(s: &str) -> (r: Option<i32>)
    ensures
        r is Some <==> is_i32_field(s@),
        r is Some ==> r->0 == int_val(s@),
{
    let (neg, from): (bool, usize) = if s.unicode_len() > 0 && s.get_char(0) == '-' {
        (true, 1)
    } else if s.unicode_len() > 0 && s.get_char(0) == '+' {
        (false, 1)
    } else {
        (false, 0)
    };
    proof {
        if from == 1 {
            assert(s@.subrange(1, s@.len() as int) =~= s@.drop_first());
        } else {
            assert(s@.subrange(0, s@.len() as int) =~= s@);
        }
    }
    match parse_digits(s, from) {
        Some(v) => {
            if neg {
                if v <= i32::MAX as u64 + 1 {
                    Some((-(v as i64)) as i32)
                } else {
                    None
                }
            } else {
                if v <= i32::MAX as u64 {
                    Some(v as i32)
                } else {
                    None
                }
            }
        },
        None => None,
    }
}

/// Parses a calendar date: dashes are dropped wherever they stand, and the
/// remaining characters must be digits whose value fits in a `u32`, giving
/// the canonical `YYYYMMDD` integer.
pub fn parse_date(s: &str) -> (r: Option<u32>)
    ensures
        r is Some <==> is_date_field(s@),
        r is Some ==> r->0 == date_val(s@),
{
    let n = s.unicode_len();
    let mut acc: u64 = 0;
    let mut seen: bool = false;
    let mut i: usize = 0;
    while i < n
        invariant
            0 <= i <= n,
            n == s@.len(),
            all_digits(undashed(s@.subrange(0, i as int))),
            seen <==> undashed(s@.subrange(0, i as int)).len() > 0,
            acc <= u32::MAX + 1,
            digits_val(undashed(s@.subrange(0, i as int))) <= u32::MAX ==> acc == digits_val(
                undashed(s@.subrange(0, i as int)),
            ),
            digits_val(undashed(s@.subrange(0, i as int))) > u32::MAX ==> acc == u32::MAX + 1,
        decreases n - i,
    {
        let c = s.get_char(i);
        let ghost prefix = s@.subrange(0, i as int);
        let ghost prefix1 = s@.subrange(0, i + 1);
        proof {
            assert(prefix1.drop_last() =~= prefix);
            assert(prefix1.last() == s@[i as int]);
        }
        if c != '-' {
            let cv = c as u32;
            if cv < 48 || cv > 57 {
                assert(!all_digits(undashed(s@))) by {
                    lemma_undashed_keeps(s@, i as int);
                }
                return None;
            }
            let d: u64 = (cv - 48) as u64;
            proof {
                lemma_digits_val_nonneg(undashed(prefix));
                assert(undashed(prefix1) == undashed(prefix).push(s@[i as int]));
                assert(undashed(prefix).push(s@[i as int]).drop_last() =~= undashed(prefix));
                assert(digits_val(undashed(prefix1)) == digits_val(undashed(prefix)) * 10
                    + digit_val(s@[i as int]));
            }
            let next: u64 = acc * 10 + d;
            if next > u32::MAX as u64 {
                acc = u32::MAX as u64 + 1;
            } else {
                acc = next;
            }
            seen = true;
        }
        i = i + 1;
    }
    proof {
        assert(s@.subrange(0, i as int) == s@);
        lemma_digits_val_nonneg(undashed(s@));
    }
    if !seen {
        return None;
    }
    if acc > u32::MAX as u64 {
        None
    } else {
        Some(acc as u32)
    }
}

/// Scanner states for the shape check of a decimal literal.
pub enum FpState {
    /// Nothing read yet.
    Start,
    /// A leading sign was read.
    AfterSign,
    /// Inside the integer part.
    IntPart,
    /// A dot right after at least one integer digit.
    DotAfterInt,
    /// Inside the fractional part.
    Frac,
    /// A dot with no integer digits before it.
    DotOnly,
    /// An exponent marker was read.
    ExpStart,
    /// A sign right after the exponent marker.
    ExpSign,
    /// Inside the exponent digits.
    ExpDigits,
    /// The input can no longer be a decimal literal.
    Bad,
}

/// One step of the decimal-literal scanner.
pub open spec fn fp_next(st: FpState, c: char) -> FpState {
    match st {
        FpState::Start => if c == '+' || c == '-' {
            FpState::AfterSign
        } else if is_digit(c) {
            FpState::IntPart
        } else if c == '.' {
            FpState::DotOnly
        } else {
            FpState::Bad
        },
        FpState::AfterSign => if is_digit(c) {
            FpState::IntPart
        } else if c == '.' {
            FpState::DotOnly
        } else {
            FpState::Bad
        },
        FpState::IntPart => if is_digit(c) {
            FpState::IntPart
        } else if c == '.' {
            FpState::DotAfterInt
        } else if c == 'e' || c == 'E' {
            FpState::ExpStart
        } else {
            FpState::Bad
        },
        FpState::DotAfterInt => if is_digit(c) {
            FpState::Frac
        } else if c == 'e' || c == 'E' {
            FpState::ExpStart
        } else {
            FpState::Bad
        },
        FpState::Frac => if is_digit(c) {
            FpState::Frac
        } else if c == 'e' || c == 'E' {
            FpState::ExpStart
        } else {
            FpState::Bad
        },
        FpState::DotOnly => if is_digit(c) {
            FpState::Frac
        } else {
            FpState::Bad
        },
        FpState::ExpStart => if c == '+' || c == '-' {
            FpState::ExpSign
        } else if is_digit(c) {
            FpState::ExpDigits
        } else {
            FpState::Bad
        },
        FpState::ExpSign => if is_digit(c) {
            FpState::ExpDigits
        } else {
            FpState::Bad
        },
        FpState::ExpDigits => if is_digit(c) {
            FpState::ExpDigits
        } else {
            FpState::Bad
        },
        FpState::Bad => FpState::Bad,
    }
}

/// The scanner state after reading all of `s`.
pub open spec fn fp_scan(s: Seq<char>) -> FpState
    decreases s.len(),
{
    if s.len() == 0 {
        FpState::Start
    } else {
        fp_next(fp_scan(s.drop_last()), s.last())
    }
}

/// `s` has the shape of a decimal literal: an optional sign, then an integer
/// part, a fractional part or both, then an optional exponent with digits.
pub open spec fn is_decimal_lit(s: Seq<char>) -> bool {
    fp_scan(s) is IntPart || fp_scan(s) is DotAfterInt || fp_scan(s) is Frac || fp_scan(s)
        is ExpDigits
}

/// Decides whether `s` is shaped like a decimal literal.
pub fn is_decimal(s: &str) -> (r: bool)
    ensures
        r == is_decimal_lit(s@),
{
    let n = s.unicode_len();
    let mut st = FpState::Start;
    let mut i: usize = 0;
    while i < n
        invariant
            0 <= i <= n,
            n == s@.len(),
            st == fp_scan(s@.subrange(0, i as int)),
        decreases n - i,
    {
        let c = s.get_char(i);
        let ghost prefix = s@.subrange(0, i as int);
        let ghost prefix1 = s@.subrange(0, i + 1);
        proof {
            assert(prefix1.drop_last() =~= prefix);
            assert(prefix1.last() == s@[i as int]);
        }
        let cv = c as u32;
        let digit = cv >= 48 && cv <= 57;
        st = match st {
            FpState::Start => if c == '+' || c == '-' {
                FpState::AfterSign
            } else if digit {
                FpState::IntPart
            } else if c == '.' {
                FpState::DotOnly
            } else {
                FpState::Bad
            },
            FpState::AfterSign => if digit {
                FpState::IntPart
            } else if c == '.' {
                FpState::DotOnly
            } else {
                FpState::Bad
            },
            FpState::IntPart => if digit {
                FpState::IntPart
            } else if c == '.' {
                FpState::DotAfterInt
            } else if c == 'e' || c == 'E' {
                FpState::ExpStart
            } else {
                FpState::Bad
            },
            FpState::DotAfterInt => if digit {
                FpState::Frac
            } else if c == 'e' || c == 'E' {
                FpState::ExpStart
            } else {
                FpState::Bad
            },
            FpState::Frac => if digit {
                FpState::Frac
            } else if c == 'e' || c == 'E' {
                FpState::ExpStart
            } else {
                FpState::Bad
            },
            FpState::DotOnly => if digit {
                FpState::Frac
            } else {
                FpState::Bad
            },
            FpState::ExpStart => if c == '+' || c == '-' {
                FpState::ExpSign
            } else if digit {
                FpState::ExpDigits
            } else {
                FpState::Bad
            },
            FpState::ExpSign => if digit {
                FpState::ExpDigits
            } else {
                FpState::Bad
            },
            FpState::ExpDigits => if digit {
                FpState::ExpDigits
            } else {
                FpState::Bad
            },
            FpState::Bad => FpState::Bad,
        };
        i = i + 1;
    }
    proof {
        assert(s@.subrange(0, i as int) == s@);
    }
    match st {
        FpState::IntPart => true,
        FpState::DotAfterInt => true,
        FpState::Frac => true,
        FpState::ExpDigits => true,
        _ => false,
    }
}

} // verus!

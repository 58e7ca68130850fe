//! Parsing coordinate text into fixed-point degree units.
//!
//! A coordinate field is accepted when, after trimming surrounding ASCII
//! whitespace, it is a plain finite decimal number — an optional sign,
//! digits, and at most one decimal point — whose magnitude is within the
//! axis limit.  The value is scaled to units of 1/3_000_000_000 degree;
//! fractional digits beyond the ninth lie below the scale and are
//! truncated.

use vstd::prelude::*;
use vstd::string::StrSliceExecFns;
use crate::mesh::{UNITS_PER_DEGREE, LAT_LIMIT_UNITS, LON_LIMIT_UNITS};

verus! {

/// An ASCII whitespace character, as trimmed from field ends.
pub open spec fn is_space_char(c: char) -> bool {
    c == ' ' || c == '\t' || c == '\r' || c == '\n'
}

/// `s` with surrounding whitespace removed.
pub open spec fn spec_trim(s: Seq<char>) -> Seq<char>
    decreases s.len(),
{
    if s.len() == 0 {
        s
    } else if is_space_char(s[0]) {
        spec_trim(s.drop_first())
    } else if is_space_char(s.last()) {
        spec_trim(s.drop_last())
    } else {
        s
    }
}

/// A decimal digit character.
pub open spec fn is_digit_char(c: char) -> bool {
    48 <= c as int && c as int <= 57
}

/// The value of a decimal digit character.
pub open spec fn digit_val(c: char) -> int {
    c as int - 48
}

/// Every character of `s` is a decimal digit.
pub open spec fn all_digit_chars(s: Seq<char>) -> bool {
    forall|k: int| 0 <= k < s.len() ==> is_digit_char(#[trigger] s[k])
}

/// The integer denoted by a sequence of decimal digits (0 when empty).
pub open spec fn digits_value(s: Seq<char>) -> int
    decreases s.len(),
{
    if s.len() == 0 {
        0
    } else {
        digits_value(s.drop_last()) * 10 + digit_val(s.last())
    }
}

/// The weight, in units, of the fractional digit at 0-based position `k`:
/// the first fractional digit counts tenths of a degree, and digits past
/// the ninth lie below the unit scale.
pub open spec fn frac_scale(k: int) -> int {
    if k == 0 {
        300_000_000
    } else if k == 1 {
        30_000_000
    } else if k == 2 {
        3_000_000
    } else if k == 3 {
        300_000
    } else if k == 4 {
        30_000
    } else if k == 5 {
        3_000
    } else if k == 6 {
        300
    } else if k == 7 {
        30
    } else if k == 8 {
        3
    } else {
        0
    }
}

/// The value, in units, of a fractional digit sequence.
pub open spec fn spec_frac_units(s: Seq<char>) -> int
    decreases s.len(),
{
    if s.len() == 0 {
        0
    } else {
        spec_frac_units(s.drop_last()) + digit_val(s.last()) * frac_scale(s.len() - 1)
    }
}

/// The trimmed field starts with an explicit sign.
pub open spec fn spec_has_sign(t: Seq<char>) -> bool {
    t.len() > 0 && (t[0] == '+' || t[0] == '-')
}

/// The trimmed field denotes a negative value.
pub open spec fn spec_is_neg(t: Seq<char>) -> bool {
    t.len() > 0 && t[0] == '-'
}

/// The trimmed field with any sign removed.
pub open spec fn spec_body(t: Seq<char>) -> Seq<char> {
    if spec_has_sign(t) {
        t.drop_first()
    } else {
        t
    }
}

/// The unsigned part contains a decimal point.
pub open spec fn body_has_dot(b: Seq<char>) -> bool {
    exists|i: int| 0 <= i < b.len() && b[i] == '.'
}

/// The unsigned part of a decimal number: digits with at most one decimal
/// point, and at least one digit.
pub open spec fn spec_body_valid(b: Seq<char>) -> bool {
    if body_has_dot(b) {
        b.len() >= 2 && exists|i: int|
            0 <= i < b.len() && b[i] == '.' && all_digit_chars(b.subrange(0, i))
                && all_digit_chars(b.subrange(i + 1, b.len() as int))
    } else {
        b.len() > 0 && all_digit_chars(b)
    }
}

/// The magnitude, in units, denoted by a valid unsigned part.
pub open spec fn spec_body_units(b: Seq<char>) -> int {
    if body_has_dot(b) {
        let i = choose|i: int| 0 <= i < b.len() && b[i] == '.';
        digits_value(b.subrange(0, i)) * (UNITS_PER_DEGREE as int) + spec_frac_units(
            b.subrange(i + 1, b.len() as int),
        )
    } else {
        digits_value(b) * (UNITS_PER_DEGREE as int)
    }
}

/// The trimmed field is a finite decimal number.
pub open spec fn spec_is_decimal(t: Seq<char>) -> bool {
    spec_body_valid(spec_body(t))
}

/// The value, in units, denoted by a valid trimmed field.
pub open spec fn spec_decimal_units(t: Seq<char>) -> int {
    if spec_is_neg(t) {
        -spec_body_units(spec_body(t))
    } else {
        spec_body_units(spec_body(t))
    }
}

/// The field text `s` parses as a coordinate within `limit` units.
pub open spec fn spec_parses_within(s: Seq<char>, limit: int) -> bool {
    spec_is_decimal(spec_trim(s)) && -limit <= spec_decimal_units(spec_trim(s)) <= limit
}

/// Trimming removes exactly the leading run `[0, i)` and trailing run
/// `[j, len)` of whitespace.
proof fn lemma_trim_window(s: Seq<char>, i: int, j: int)
    requires
        0 <= i <= j <= s.len(),
        forall|k: int| 0 <= k < i ==> is_space_char(#[trigger] s[k]),
        forall|k: int| j <= k < s.len() ==> is_space_char(#[trigger] s[k]),
        i < j ==> !is_space_char(s[i]) && !is_space_char(s[j - 1]),
    ensures
        spec_trim(s) == s.subrange(i, j),
    decreases s.len(),
{
    if s.len() == 0 {
        assert(spec_trim(s) =~= s.subrange(i, j));
    } else if is_space_char(s[0]) {
        let s1 = s.drop_first();
        if i == 0 {
            assert(i == j);
            lemma_trim_window(s1, 0, 0);
            assert(s1.subrange(0, 0) =~= s.subrange(i, j));
        } else {
            lemma_trim_window(s1, i - 1, j - 1);
            assert(s1.subrange(i - 1, j - 1) =~= s.subrange(i, j));
        }
    } else if is_space_char(s.last()) {
        assert(i < j) by {
            if i == j {
                assert(is_space_char(s[0]));
            }
        }
        assert(j < s.len()) by {
            if j == s.len() {
                assert(!is_space_char(s[j - 1]));
            }
        }
        let s1 = s.drop_last();
        lemma_trim_window(s1, i, j);
        assert(s1.subrange(i, j) =~= s.subrange(i, j));
    } else {
        assert(i == 0) by {
            if i > 0 {
                assert(is_space_char(s[0]));
            }
        }
        assert(j == s.len()) by {
            if j < s.len() {
                assert(is_space_char(s[s.len() - 1]));
            }
        }
        assert(s.subrange(i, j) =~= s);
    }
}

/// Appending a digit multiplies the value by ten and adds the digit.
proof fn lemma_digits_push(s: Seq<char>, c: char)
    ensures
        digits_value(s.push(c)) == digits_value(s) * 10 + digit_val(c),
{
    assert(s.push(c).drop_last() =~= s);
}

/// Appending a fractional digit adds it at its positional weight.
proof fn lemma_frac_push(s: Seq<char>, c: char)
    ensures
        spec_frac_units(s.push(c)) == spec_frac_units(s) + digit_val(c) * frac_scale(
            s.len() as int,
        ),
{
    assert(s.push(c).drop_last() =~= s);
}

/// Whether `c` is an ASCII whitespace character.
fn is_ws(c: char) -> (b: bool)
    ensures
        b == is_space_char(c),
{
    c == ' ' || c == '\t' || c == '\r' || c == '\n'
}

/// Parse a coordinate field: trim surrounding whitespace, read a finite
/// decimal number, and scale it to units, rejecting a magnitude beyond
/// `limit` units.  Returns the value exactly when the field is such a
/// number within the limit.
pub fn parse_units(s: &str, limit: i64) -> (r: Option<i64>)
    requires
        0 < limit <= LON_LIMIT_UNITS,
    ensures
        match r {
            Some(v) => spec_parses_within(s@, limit as int) && v == spec_decimal_units(
                spec_trim(s@),
            ),
            None => !spec_parses_within(s@, limit as int),
        },
{
    let n = s.unicode_len();
    let mut lo: usize = 0;
    while lo < n && is_ws(s.get_char(lo))
        invariant
            n == s@.len(),
            0 <= lo <= n,
            forall|k: int| 0 <= k < lo ==> is_space_char(#[trigger] s@[k]),
        decreases n - lo,
    {
        lo = lo + 1;
    }
    let mut hi: usize = n;
    while hi > lo && is_ws(s.get_char(hi - 1))
        invariant
            n == s@.len(),
            0 <= lo <= hi <= n,
            forall|k: int| 0 <= k < lo ==> is_space_char(#[trigger] s@[k]),
            forall|k: int| hi <= k < n ==> is_space_char(#[trigger] s@[k]),
        decreases hi,
    {
        hi = hi - 1;
    }
    let ghost t = s@.subrange(lo as int, hi as int);
    proof {
        lemma_trim_window(s@, lo as int, hi as int);
    }

    let mut k: usize = lo;
    let mut neg = false;
    if k < hi {
        let c0 = s.get_char(k);
        if c0 == '+' {
            k = k + 1;
        } else if c0 == '-' {
            neg = true;
            k = k + 1;
        }
    }
    let body_start = k;
    let ghost b = s@.subrange(body_start as int, hi as int);
    proof {
        assert(spec_body(t) =~= b);
        assert(spec_is_neg(t) == neg);
    }

    let mut int_val: u64 = 0;
    let mut too_big = false;
    let mut has_dot = false;
    let mut dot_idx: usize = 0;
    let mut facc: u64 = 0;
    let mut scale: u64 = 300_000_000;
    while k < hi
        invariant
            n == s@.len(),
            lo <= body_start <= k <= hi <= n,
            b == s@.subrange(body_start as int, hi as int),
            spec_body(spec_trim(s@)) == b,
            spec_is_neg(spec_trim(s@)) == neg,
            !has_dot ==> forall|j: int|
                body_start <= j < k ==> is_digit_char(#[trigger] s@[j]),
            !has_dot ==> (!too_big ==> int_val == digits_value(
                s@.subrange(body_start as int, k as int),
            ) && int_val <= 200),
            !has_dot ==> (too_big ==> digits_value(s@.subrange(body_start as int, k as int))
                > 200),
            has_dot ==> body_start <= dot_idx < k && s@[dot_idx as int] == '.',
            has_dot ==> forall|j: int|
                body_start <= j < dot_idx ==> is_digit_char(#[trigger] s@[j]),
            has_dot ==> forall|j: int|
                dot_idx < j < k ==> is_digit_char(#[trigger] s@[j]),
            has_dot ==> (!too_big ==> int_val == digits_value(
                s@.subrange(body_start as int, dot_idx as int),
            ) && int_val <= 200),
            has_dot ==> (too_big ==> digits_value(
                s@.subrange(body_start as int, dot_idx as int),
            ) > 200),
            has_dot ==> facc == spec_frac_units(s@.subrange(dot_idx as int + 1, k as int))
                && scale == frac_scale(k - dot_idx - 1),
            !has_dot ==> facc == 0 && scale == 300_000_000,
            facc + 10 * scale <= 3_000_000_000,
            scale <= 300_000_000,
        decreases hi - k,
    {
        let c = s.get_char(k);
        let cv = c as u32;
        if 48 <= cv && cv <= 57 {
            let d = (cv - 48) as u64;
            if !has_dot {
                proof {
                    assert(s@.subrange(body_start as int, k as int + 1) =~= s@.subrange(
                        body_start as int, k as int).push(s@[k as int]));
                    lemma_digits_push(s@.subrange(body_start as int, k as int), s@[k as int]);
                }
                if !too_big {
                    let nv = int_val * 10 + d;
                    if nv > 200 {
                        too_big = true;
                    } else {
                        int_val = nv;
                    }
                }
            } else {
                proof {
                    assert(s@.subrange(dot_idx as int + 1, k as int + 1) =~= s@.subrange(
                        dot_idx as int + 1, k as int).push(s@[k as int]));
                    lemma_frac_push(s@.subrange(dot_idx as int + 1, k as int), s@[k as int]);
                    assert(d * scale <= 9 * scale) by (nonlinear_arith)
                        requires d <= 9, scale >= 0;
                    assert(10 * (scale / 10) <= scale);
                }
                facc = facc + d * scale;
                scale = scale / 10;
            }
        } else if c == '.' {
            if has_dot {
                proof {
                    let kr = k - body_start;
                    let dr = dot_idx - body_start;
                    assert(b[kr] == '.');
                    assert(b[dr] == '.');
                    assert(!is_digit_char('.'));
                    assert forall|i: int|
                        0 <= i < b.len() && b[i] == '.' implies !(all_digit_chars(
                        b.subrange(0, i)) && all_digit_chars(
                        b.subrange(i + 1, b.len() as int))) by {
                        if i < kr {
                            assert(b.subrange(i + 1, b.len() as int)[kr - i - 1] == b[kr]);
                        } else if i > kr {
                            assert(b.subrange(0, i)[kr] == b[kr]);
                        } else {
                            assert(b.subrange(0, i)[dr] == b[dr]);
                        }
                    }
                    assert(!spec_body_valid(b));
                }
                return None;
            }
            has_dot = true;
            dot_idx = k;
            proof {
                assert(s@.subrange(dot_idx as int + 1, k as int + 1) =~= Seq::<char>::empty());
            }
        } else {
            proof {
                let kr = k - body_start;
                assert(b[kr] == c);
                assert(!is_digit_char(c));
                if body_has_dot(b) {
                    assert forall|i: int|
                        0 <= i < b.len() && b[i] == '.' implies !(all_digit_chars(
                        b.subrange(0, i)) && all_digit_chars(
                        b.subrange(i + 1, b.len() as int))) by {
                        if i < kr {
                            assert(b.subrange(i + 1, b.len() as int)[kr - i - 1] == b[kr]);
                        } else if i > kr {
                            assert(b.subrange(0, i)[kr] == b[kr]);
                        }
                    }
                }
                assert(!spec_body_valid(b));
            }
            return None;
        }
        k = k + 1;
    }

    if body_start == hi {
        proof {
            assert(b.len() == 0);
            assert(!spec_body_valid(b));
        }
        return None;
    }

    let ghost int_part = if has_dot {
        s@.subrange(body_start as int, dot_idx as int)
    } else {
        b
    };
    proof {
        if !has_dot {
            assert(b =~= s@.subrange(body_start as int, k as int));
            assert(all_digit_chars(b));
            assert(!body_has_dot(b)) by {
                if body_has_dot(b) {
                    let i = choose|i: int| 0 <= i < b.len() && b[i] == '.';
                    assert(is_digit_char(b[i]));
                }
            }
            assert(spec_body_valid(b));
            assert(spec_body_units(b) == digits_value(b) * (UNITS_PER_DEGREE as int));
        } else {
            let dr = dot_idx - body_start;
            assert(b[dr] == '.');
            assert(body_has_dot(b));
            assert(b.subrange(0, dr) =~= s@.subrange(body_start as int, dot_idx as int));
            assert(b.subrange(dr + 1, b.len() as int) =~= s@.subrange(
                dot_idx as int + 1, hi as int));
            assert(all_digit_chars(b.subrange(0, dr)));
            assert(all_digit_chars(b.subrange(dr + 1, b.len() as int)));
            let i = choose|i: int| 0 <= i < b.len() && b[i] == '.';
            assert(i == dr) by {
                if i < dr {
                    assert(is_digit_char(b.subrange(0, dr)[i]));
                } else if i > dr {
                    assert(is_digit_char(b.subrange(dr + 1, b.len() as int)[i - dr - 1]));
                }
            }
            assert(spec_body_units(b) == digits_value(int_part) * (UNITS_PER_DEGREE as int)
                + spec_frac_units(s@.subrange(dot_idx as int + 1, hi as int)));
            if b.len() >= 2 {
                assert(spec_body_valid(b));
            } else {
                assert(!spec_body_valid(b));
            }
        }
    }

    if has_dot && hi - body_start < 2 {
        return None;
    }

    if too_big {
        proof {
            assert(digits_value(int_part) > 200);
            assert(digits_value(int_part) * (UNITS_PER_DEGREE as int) >= 201
                * (UNITS_PER_DEGREE as int)) by (nonlinear_arith)
                requires digits_value(int_part) >= 201;
            if has_dot {
                assert(spec_frac_units(s@.subrange(dot_idx as int + 1, hi as int)) == facc);
            }
            assert(spec_body_units(b) > LON_LIMIT_UNITS);
        }
        return None;
    }

    let mag: u64 = int_val * UNITS_PER_DEGREE + facc;
    proof {
        assert(mag == spec_body_units(b));
    }
    if mag > (limit as u64) {
        return None;
    }
    if neg {
        Some(-(mag as i64))
    } else {
        Some(mag as i64)
    }
}

/// Parse a latitude field: a finite decimal number of degrees with
/// magnitude at most 90.
pub fn parse_latitude(s: &str) -> (r: Option<i64>)
    ensures
        match r {
            Some(v) => spec_parses_within(s@, LAT_LIMIT_UNITS as int) && v == spec_decimal_units(
                spec_trim(s@),
            ),
            None => !spec_parses_within(s@, LAT_LIMIT_UNITS as int),
        },
{
    parse_units(s, LAT_LIMIT_UNITS)
}

/// Parse a longitude field: a finite decimal number of degrees with
/// magnitude at most 180.
pub fn parse_longitude(s: &str) -> (r: Option<i64>)
    ensures
        match r {
            Some(v) => spec_parses_within(s@, LON_LIMIT_UNITS as int) && v == spec_decimal_units(
                spec_trim(s@),
            ),
            None => !spec_parses_within(s@, LON_LIMIT_UNITS as int),
        },
{
    parse_units(s, LON_LIMIT_UNITS)
}

} // verus!

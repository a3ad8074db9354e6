//! Numeric attribute values: unsigned integer text and decimal
//! floating-point text, as std's `FromStr` implementations accept them.

use vstd::prelude::*;

use crate::digits::{
    all_digits, digit_run_end, digit_run_end_exec, digits_val, is_digit, is_digit_exec,
    lemma_digit_run_end, parse_digit_run,
};

verus! {

/// The digit part of unsigned-integer text: an optional leading `+` sign
/// followed by the digits.
pub open spec fn uint_digits(s: Seq<char>) -> Seq<char> {
    if s.len() > 0 && s[0] == '+' {
        s.skip(1)
    } else {
        s
    }
}

/// Unsigned-integer text: an optional `+`, then one or more digits.
pub open spec fn is_uint_text(s: Seq<char>) -> bool {
    uint_digits(s).len() >= 1 && all_digits(uint_digits(s))
}

/// The value denoted by unsigned-integer text.
pub open spec fn uint_val(s: Seq<char>) -> nat {
    digits_val(uint_digits(s))
}

/// What `parse_u64` returns for `s`.
pub open spec fn u64_of_text(s: Seq<char>) -> Option<u64> {
    if is_uint_text(s) && uint_val(s) <= u64::MAX {
        Some(uint_val(s) as u64)
    } else {
        None
    }
}

/// What `parse_u32` returns for `s`.
pub open spec fn u32_of_text(s: Seq<char>) -> Option<u32> {
    if is_uint_text(s) && uint_val(s) <= u32::MAX {
        Some(uint_val(s) as u32)
    } else {
        None
    }
}

/// Reads `s` as a `u64`: an optional `+` sign, one or more decimal digits,
/// and a value that fits.
pub fn parse_u64(s: &str) -> (r: Option<u64>)
    ensures
        r == u64_of_text(s@),
{
    let n = s.unicode_len();
    let start: usize = if n > 0 && s.get_char(0) == '+' {
        1
    } else {
        0
    };
    if start >= n {
        return None;
    }
    let e = digit_run_end_exec(s, start, n);
    proof {
        lemma_digit_run_end(s@, start as int);
        assert(uint_digits(s@) =~= s@.subrange(start as int, n as int));
    }
    if e < n {
        proof {
            assert(!is_digit(s@[e as int]));
            assert(uint_digits(s@)[e - start] == s@[e as int]);
            assert(!all_digits(uint_digits(s@)));
        }
        return None;
    }
    parse_digit_run(s, start, n)
}

/// Reads `s` as a `u32`, the same way as [`parse_u64`].
pub fn parse_u32(s: &str) -> (r: Option<u32>)
    ensures
        r == u32_of_text(s@),
{
    match parse_u64(s) {
        Some(v) => if v <= u32::MAX as u64 {
            Some(v as u32)
        } else {
            None
        },
        None => None,
    }
}

/// A sign character.
pub open spec fn is_sign(c: char) -> bool {
    c == '+' || c == '-'
}

/// `c` is `lo` in either letter case.
pub open spec fn ci(c: char, lo: char, up: char) -> bool {
    c == lo || c == up
}

/// The rest of `s` from `j` is `inf` in any letter case.
pub open spec fn inf_from(s: Seq<char>, j: int) -> bool {
    &&& s.len() - j == 3
    &&& ci(s[j], 'i', 'I')
    &&& ci(s[j + 1], 'n', 'N')
    &&& ci(s[j + 2], 'f', 'F')
}

/// The rest of `s` from `j` is `infinity` in any letter case.
pub open spec fn infinity_from(s: Seq<char>, j: int) -> bool {
    &&& s.len() - j == 8
    &&& ci(s[j], 'i', 'I')
    &&& ci(s[j + 1], 'n', 'N')
    &&& ci(s[j + 2], 'f', 'F')
    &&& ci(s[j + 3], 'i', 'I')
    &&& ci(s[j + 4], 'n', 'N')
    &&& ci(s[j + 5], 'i', 'I')
    &&& ci(s[j + 6], 't', 'T')
    &&& ci(s[j + 7], 'y', 'Y')
}

/// The rest of `s` from `j` is `nan` in any letter case.
pub open spec fn nan_from(s: Seq<char>, j: int) -> bool {
    &&& s.len() - j == 3
    &&& ci(s[j], 'n', 'N')
    &&& ci(s[j + 1], 'a', 'A')
    &&& ci(s[j + 2], 'n', 'N')
}

/// The rest of `s` from `j` is an exponent part: `e` or `E`, an optional
/// sign, and one or more digits reaching the end.
pub open spec fn exp_from(s: Seq<char>, j: int) -> bool {
    &&& 0 <= j < s.len()
    &&& (s[j] == 'e' || s[j] == 'E')
    &&& {
        let k = if j + 1 < s.len() && is_sign(s[j + 1]) {
            j + 2
        } else {
            j + 1
        };
        k < s.len() && digit_run_end(s, k) == s.len()
    }
}

/// The rest of `s` from `o` is a decimal number: digits with an optional
/// dot and further digits, or a dot with digits, then an optional exponent.
pub open spec fn number_from(s: Seq<char>, o: int) -> bool {
    let de = digit_run_end(s, o);
    if de > o {
        let j = if de < s.len() && s[de] == '.' {
            digit_run_end(s, de + 1)
        } else {
            de
        };
        j == s.len() || exp_from(s, j)
    } else if 0 <= o && o + 1 < s.len() && s[o] == '.' && is_digit(s[o + 1]) {
        let j = digit_run_end(s, o + 1);
        j == s.len() || exp_from(s, j)
    } else {
        false
    }
}

/// `s` is floating-point text as std's `FromStr` for floats accepts it: an
/// optional sign, then `inf`, `infinity` or `nan` in any letter case, or a
/// decimal number with an optional exponent.
pub open spec fn is_float_text(s: Seq<char>) -> bool {
    let o: int = if s.len() > 0 && is_sign(s[0]) {
        1
    } else {
        0
    };
    ||| inf_from(s, o)
    ||| infinity_from(s, o)
    ||| nan_from(s, o)
    ||| number_from(s, o)
}

/// `c` is `lo` in either letter case.
fn ci_exec(c: char, lo: char, up: char) -> (b: bool)
    ensures
        b == ci(c, lo, up),
{
    c == lo || c == up
}

/// Tests for an exponent part filling the rest of `s` from `j`.
fn exp_from_exec(s: &str, j: usize, n: usize) -> (b: bool)
    requires
        n == s@.len(),
        j <= n,
    ensures
        b == exp_from(s@, j as int),
{
    if j >= n {
        return false;
    }
    let c = s.get_char(j);
    if !(c == 'e' || c == 'E') {
        return false;
    }
    let k = if j + 1 < n {
        let c1 = s.get_char(j + 1);
        if c1 == '+' || c1 == '-' {
            j + 2
        } else {
            j + 1
        }
    } else {
        j + 1
    };
    if k >= n {
        return false;
    }
    let e = digit_run_end_exec(s, k, n);
    e == n
}

/// Tests for a decimal number filling the rest of `s` from `o`.
fn number_from_exec(s: &str, o: usize, n: usize) -> (b: bool)
    requires
        n == s@.len(),
        o <= n,
    ensures
        b == number_from(s@, o as int),
{
    let de = digit_run_end_exec(s, o, n);
    if de > o {
        let j = if de < n && s.get_char(de) == '.' {
            digit_run_end_exec(s, de + 1, n)
        } else {
            de
        };
        j == n || exp_from_exec(s, j, n)
    } else if o < n && o + 1 < n && s.get_char(o) == '.' && is_digit_exec(s.get_char(o + 1)) {
        let j = digit_run_end_exec(s, o + 1, n);
        j == n || exp_from_exec(s, j, n)
    } else {
        false
    }
}

/// Tests whether `s` is floating-point text, per [`is_float_text`].
pub fn is_float_text_exec(s: &str) -> (b: bool)
    ensures
        b == is_float_text(s@),
{
    let n = s.unicode_len();
    let o: usize = if n > 0 {
        let c = s.get_char(0);
        if c == '+' || c == '-' {
            1
        } else {
            0
        }
    } else {
        0
    };
    if n - o == 3 {
        if ci_exec(s.get_char(o), 'i', 'I') && ci_exec(s.get_char(o + 1), 'n', 'N') && ci_exec(
            s.get_char(o + 2),
            'f',
            'F',
        ) {
            return true;
        }
        if ci_exec(s.get_char(o), 'n', 'N') && ci_exec(s.get_char(o + 1), 'a', 'A') && ci_exec(
            s.get_char(o + 2),
            'n',
            'N',
        ) {
            return true;
        }
    }
    if n - o == 8 {
        if ci_exec(s.get_char(o), 'i', 'I') && ci_exec(s.get_char(o + 1), 'n', 'N') && ci_exec(
            s.get_char(o + 2),
            'f',
            'F',
        ) && ci_exec(s.get_char(o + 3), 'i', 'I') && ci_exec(s.get_char(o + 4), 'n', 'N')
            && ci_exec(s.get_char(o + 5), 'i', 'I') && ci_exec(s.get_char(o + 6), 't', 'T')
            && ci_exec(s.get_char(o + 7), 'y', 'Y') {
            return true;
        }
    }
    number_from_exec(s, o, n)
}

} // verus!

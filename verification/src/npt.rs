//! The "normal play time" (NPT) textual duration format.
//!
//! An NPT value is decoded from the leftmost occurrence of one of two
//! grammars inside the attribute text, tried in fixed order:
//! hours `:` two-digit minutes `:` two-digit seconds, with an optional
//! dot-prefixed fractional-second digit string; or, failing that, a bare
//! run of second digits with the same optional fraction.
//!
//! A fraction of length `n` read as the integer `v` contributes exactly
//! `floor(1000 * v / 10^n)` milliseconds.

use vstd::arithmetic::div_mod::lemma_fundamental_div_mod_converse;
use vstd::prelude::*;

use crate::digits::{
    all_digits, digit_run_end, digit_run_end_exec, digit_val, digit_val_exec, digits_val,
    is_digit, is_digit_exec, lemma_digit_run_end, lemma_digits_split, lemma_digits_val_bound,
    parse_digit_run, pow10,
};
use crate::duration::MediaDuration;

verus! {

/// The milliseconds contributed by the fractional digit string `f`:
/// `floor(1000 * value(f) / 10^len(f))`.
pub open spec fn frac_millis(f: Seq<char>) -> nat {
    1000 * digits_val(f) / pow10(f.len())
}

/// A dot-prefixed fractional digit string begins at position `j`.
pub open spec fn frac_at(s: Seq<char>, j: int) -> bool {
    &&& 0 <= j
    &&& j + 1 < s.len()
    &&& s[j] == '.'
    &&& is_digit(s[j + 1])
}

/// The fractional digit string beginning after the dot at `j`.
pub open spec fn frac_digits(s: Seq<char>, j: int) -> Seq<char> {
    s.subrange(j + 1, digit_run_end(s, j + 1))
}

/// The milliseconds contributed by the optional fraction at position `j`.
pub open spec fn frac_part_millis(s: Seq<char>, j: int) -> nat {
    if frac_at(s, j) {
        frac_millis(frac_digits(s, j))
    } else {
        0
    }
}

/// The hours`:`minutes`:`seconds grammar matches at position `i`.
pub open spec fn hhmmss_at(s: Seq<char>, i: int) -> bool {
    let he = digit_run_end(s, i);
    &&& 0 <= i < s.len()
    &&& he > i
    &&& he + 6 <= s.len()
    &&& s[he] == ':'
    &&& is_digit(s[he + 1])
    &&& is_digit(s[he + 2])
    &&& s[he + 3] == ':'
    &&& is_digit(s[he + 4])
    &&& is_digit(s[he + 5])
}

/// The milliseconds denoted by the hours`:`minutes`:`seconds match at `i`.
pub open spec fn hhmmss_millis(s: Seq<char>, i: int) -> nat {
    let he = digit_run_end(s, i);
    let h = digits_val(s.subrange(i, he));
    let m = digits_val(s.subrange(he + 1, he + 3));
    let sec = digits_val(s.subrange(he + 4, he + 6));
    (h * 3600 + m * 60 + sec) * 1000 + frac_part_millis(s, he + 6)
}

/// The bare-seconds grammar matches at position `i`.
pub open spec fn sec_at(s: Seq<char>, i: int) -> bool {
    0 <= i < s.len() && is_digit(s[i])
}

/// The milliseconds denoted by the bare-seconds match at `i`.
pub open spec fn sec_millis(s: Seq<char>, i: int) -> nat {
    let se = digit_run_end(s, i);
    digits_val(s.subrange(i, se)) * 1000 + frac_part_millis(s, se)
}

/// The leftmost position at or after `i` where the first grammar matches.
pub open spec fn first_hhmmss(s: Seq<char>, i: int) -> Option<int>
    decreases s.len() - i,
{
    if i >= s.len() {
        None
    } else if hhmmss_at(s, i) {
        Some(i)
    } else {
        first_hhmmss(s, i + 1)
    }
}

/// The leftmost position at or after `i` where the second grammar matches.
pub open spec fn first_sec(s: Seq<char>, i: int) -> Option<int>
    decreases s.len() - i,
{
    if i >= s.len() {
        None
    } else if sec_at(s, i) {
        Some(i)
    } else {
        first_sec(s, i + 1)
    }
}

/// What the NPT text `s` denotes, in milliseconds; `None` when neither
/// grammar matches anywhere in `s`.
pub open spec fn npt_millis(s: Seq<char>) -> Option<nat> {
    match first_hhmmss(s, 0) {
        Some(i) => Some(hhmmss_millis(s, i)),
        None => match first_sec(s, 0) {
            Some(i) => Some(sec_millis(s, i)),
            None => None,
        },
    }
}

/// The duration fits a `MediaDuration`: at most `u64::MAX` whole seconds.
pub open spec fn npt_fits(ms: nat) -> bool {
    ms <= u64::MAX as nat * 1000 + 999
}

/// What `parse_npt` returns: the denoted duration, clipped to `None` when
/// it does not fit.
pub open spec fn npt_clipped(s: Seq<char>) -> Option<nat> {
    match npt_millis(s) {
        Some(ms) => if npt_fits(ms) {
            Some(ms)
        } else {
            None
        },
        None => None,
    }
}

/// A fraction contributes at most 999 milliseconds, and its value is read
/// off its first three digits.
proof fn lemma_frac_value(f: Seq<char>)
    requires
        all_digits(f),
        f.len() >= 1,
    ensures
        frac_millis(f) == digit_val(f[0]) * 100 + (if f.len() >= 2 {
            digit_val(f[1])
        } else {
            0
        }) * 10 + (if f.len() >= 3 {
            digit_val(f[2])
        } else {
            0
        }),
        frac_millis(f) <= 999,
{
    reveal_with_fuel(digits_val, 5);
    reveal_with_fuel(pow10, 5);
    let d1 = digit_val(f[0]);
    if f.len() == 1 {
        assert(f.drop_last() =~= Seq::<char>::empty());
        assert(digits_val(f) == d1);
        assert(pow10(f.len()) == 10);
        lemma_fundamental_div_mod_converse(1000 * d1 as int, 10, 100 * d1 as int, 0);
    } else if f.len() == 2 {
        let d2 = digit_val(f[1]);
        assert(f.drop_last().drop_last() =~= Seq::<char>::empty());
        assert(digits_val(f) == d1 * 10 + d2);
        assert(pow10(f.len()) == 100);
        lemma_fundamental_div_mod_converse(
            1000 * (d1 * 10 + d2) as int,
            100,
            (d1 * 100 + d2 * 10) as int,
            0,
        );
    } else if f.len() == 3 {
        let d2 = digit_val(f[1]);
        let d3 = digit_val(f[2]);
        assert(f.drop_last().drop_last().drop_last() =~= Seq::<char>::empty());
        assert(digits_val(f) == (d1 * 10 + d2) * 10 + d3);
        assert(pow10(f.len()) == 1000);
        lemma_fundamental_div_mod_converse(
            1000 * digits_val(f) as int,
            1000,
            digits_val(f) as int,
            0,
        );
    } else {
        let g = f.subrange(0, 3);
        let rest = f.subrange(3, f.len() as int);
        lemma_digits_split(f, 3);
        let d2 = digit_val(f[1]);
        let d3 = digit_val(f[2]);
        assert(g.drop_last().drop_last().drop_last() =~= Seq::<char>::empty());
        assert(g.last() == f[2] && g.drop_last().last() == f[1] && g.drop_last().drop_last().last()
            == f[0]);
        assert(digits_val(g) == (d1 * 10 + d2) * 10 + d3);
        let p = pow10((f.len() - 3) as nat);
        assert(pow10(f.len()) == 10 * pow10((f.len() - 1) as nat));
        assert(pow10((f.len() - 1) as nat) == 10 * pow10((f.len() - 2) as nat));
        assert(pow10((f.len() - 2) as nat) == 10 * p);
        assert(pow10(f.len()) == 1000 * p);
        assert(1000 * digits_val(f) == digits_val(g) * (1000 * p) + 1000 * digits_val(rest))
            by (nonlinear_arith)
            requires
                digits_val(f) == digits_val(g) * p + digits_val(rest),
        ;
        assert(1000 * digits_val(rest) < 1000 * p) by (nonlinear_arith)
            requires
                digits_val(rest) < p,
        ;
        lemma_fundamental_div_mod_converse(
            1000 * digits_val(f) as int,
            (1000 * p) as int,
            digits_val(g) as int,
            1000 * digits_val(rest) as int,
        );
        assert(digit_val(f[0]) <= 9 && d2 <= 9 && d3 <= 9);
    }
}

/// Reads the optional fraction that begins at position `j`.
fn frac_part_exec(s: &str, j: usize, n: usize) -> (ms: u16)
    requires
        n == s@.len(),
        j <= n,
    ensures
        ms == frac_part_millis(s@, j as int),
        ms <= 999,
{
    if j >= n || !(s.get_char(j) == '.') {
        return 0;
    }
    if j + 1 >= n || !is_digit_exec(s.get_char(j + 1)) {
        return 0;
    }
    let fe = digit_run_end_exec(s, j + 1, n);
    proof {
        lemma_digit_run_end(s@, j + 1 as int);
        assert(fe > j + 1);
        assert(all_digits(frac_digits(s@, j as int)));
        lemma_frac_value(frac_digits(s@, j as int));
        assert(frac_digits(s@, j as int)[0] == s@[j + 1 as int]);
    }
    let flen = fe - (j + 1);
    let d1 = digit_val_exec(s.get_char(j + 1));
    let d2 = if flen >= 2 {
        proof {
            assert(frac_digits(s@, j as int)[1] == s@[j + 2 as int]);
        }
        digit_val_exec(s.get_char(j + 2))
    } else {
        0
    };
    let d3 = if flen >= 3 {
        proof {
            assert(frac_digits(s@, j as int)[2] == s@[j + 3 as int]);
        }
        digit_val_exec(s.get_char(j + 3))
    } else {
        0
    };
    (d1 * 100 + d2 * 10 + d3) as u16
}

/// Tests whether the first grammar matches at position `i`.
fn hhmmss_at_exec(s: &str, i: usize, n: usize) -> (b: bool)
    requires
        n == s@.len(),
        i < n,
    ensures
        b == hhmmss_at(s@, i as int),
{
    let he = digit_run_end_exec(s, i, n);
    if he == i {
        return false;
    }
    if n - he < 6 {
        return false;
    }
    s.get_char(he) == ':' && is_digit_exec(s.get_char(he + 1)) && is_digit_exec(
        s.get_char(he + 2),
    ) && s.get_char(he + 3) == ':' && is_digit_exec(s.get_char(he + 4)) && is_digit_exec(
        s.get_char(he + 5),
    )
}

/// Finds the leftmost match of the first grammar.
fn find_hhmmss(s: &str, n: usize) -> (r: Option<usize>)
    requires
        n == s@.len(),
    ensures
        match r {
            Some(i) => first_hhmmss(s@, 0) == Some(i as int) && i < n && hhmmss_at(s@, i as int),
            None => first_hhmmss(s@, 0) is None,
        },
{
    let mut i: usize = 0;
    while i < n
        invariant
            i <= n,
            n == s@.len(),
            first_hhmmss(s@, 0) == first_hhmmss(s@, i as int),
        decreases n - i,
    {
        if hhmmss_at_exec(s, i, n) {
            return Some(i);
        }
        i = i + 1;
    }
    None
}

/// Finds the leftmost match of the second grammar: the first digit.
fn find_sec(s: &str, n: usize) -> (r: Option<usize>)
    requires
        n == s@.len(),
    ensures
        match r {
            Some(i) => first_sec(s@, 0) == Some(i as int) && i < n && sec_at(s@, i as int),
            None => first_sec(s@, 0) is None,
        },
{
    let mut i: usize = 0;
    while i < n
        invariant
            i <= n,
            n == s@.len(),
            first_sec(s@, 0) == first_sec(s@, i as int),
        decreases n - i,
    {
        if is_digit_exec(s.get_char(i)) {
            return Some(i);
        }
        i = i + 1;
    }
    None
}

/// Builds the duration of the first-grammar match at `i`.
fn hhmmss_value(s: &str, i: usize, n: usize) -> (r: Option<MediaDuration>)
    requires
        n == s@.len(),
        i < n,
        hhmmss_at(s@, i as int),
    ensures
        match r {
            Some(d) => npt_fits(hhmmss_millis(s@, i as int)) && d@ == hhmmss_millis(
                s@,
                i as int,
            ) && d.millis < 1000,
            None => !npt_fits(hhmmss_millis(s@, i as int)),
        },
{
    let he = digit_run_end_exec(s, i, n);
    proof {
        lemma_digit_run_end(s@, i as int);
    }
    let ghost hval = digits_val(s@.subrange(i as int, he as int));
    let ghost mval = digits_val(s@.subrange(he + 1 as int, he + 3 as int));
    let ghost sval = digits_val(s@.subrange(he + 4 as int, he + 6 as int));
    let ghost fr = frac_part_millis(s@, he + 6 as int);
    let mv = parse_digit_run(s, he + 1, he + 3);
    let sv = parse_digit_run(s, he + 4, he + 6);
    proof {
        lemma_digits_val_bound(s@.subrange(he + 1 as int, he + 3 as int));
        lemma_digits_val_bound(s@.subrange(he + 4 as int, he + 6 as int));
        reveal_with_fuel(pow10, 3);
        assert(pow10(2) == 100);
        assert(mval < 100 && sval < 100);
    }
    let m = if let Some(v) = mv {
        v
    } else {
        proof {
            assert(false);
        }
        0
    };
    let sec = if let Some(v) = sv {
        v
    } else {
        proof {
            assert(false);
        }
        0
    };
    match parse_digit_run(s, i, he) {
        Some(h) => {
            let total: u128 = h as u128 * 3600 + m as u128 * 60 + sec as u128;
            if total > u64::MAX as u128 {
                proof {
                    assert((hval * 3600 + mval * 60 + sval) * 1000 + fr > u64::MAX as nat * 1000
                        + 999) by (nonlinear_arith)
                        requires
                            hval * 3600 + mval * 60 + sval > u64::MAX as nat,
                            fr >= 0,
                    ;
                }
                None
            } else {
                let fr_ms = frac_part_exec(s, he + 6, n);
                proof {
                    assert(npt_fits(hhmmss_millis(s@, i as int))) by (nonlinear_arith)
                        requires
                            hhmmss_millis(s@, i as int) == (hval * 3600 + mval * 60 + sval) * 1000
                                + fr,
                            hval * 3600 + mval * 60 + sval <= u64::MAX as nat,
                            fr <= 999,
                    ;
                }
                Some(MediaDuration { secs: total as u64, millis: fr_ms })
            }
        },
        None => {
            proof {
                assert(hval > u64::MAX as nat);
                assert((hval * 3600 + mval * 60 + sval) * 1000 + fr > u64::MAX as nat * 1000 + 999)
                    by (nonlinear_arith)
                    requires
                        hval > u64::MAX as nat,
                        mval >= 0 && sval >= 0 && fr >= 0,
                ;
            }
            None
        },
    }
}

/// Builds the duration of the second-grammar match at `i`.
fn sec_value(s: &str, i: usize, n: usize) -> (r: Option<MediaDuration>)
    requires
        n == s@.len(),
        i < n,
        sec_at(s@, i as int),
    ensures
        match r {
            Some(d) => npt_fits(sec_millis(s@, i as int)) && d@ == sec_millis(s@, i as int)
                && d.millis < 1000,
            None => !npt_fits(sec_millis(s@, i as int)),
        },
{
    let se = digit_run_end_exec(s, i, n);
    proof {
        lemma_digit_run_end(s@, i as int);
    }
    let ghost sval = digits_val(s@.subrange(i as int, se as int));
    let ghost fr = frac_part_millis(s@, se as int);
    match parse_digit_run(s, i, se) {
        Some(secs) => {
            let fr_ms = frac_part_exec(s, se, n);
            proof {
                assert(npt_fits(sec_millis(s@, i as int))) by (nonlinear_arith)
                    requires
                        sec_millis(s@, i as int) == sval * 1000 + fr,
                        sval <= u64::MAX as nat,
                        fr <= 999,
                ;
            }
            Some(MediaDuration { secs, millis: fr_ms })
        },
        None => {
            proof {
                assert(sval * 1000 + fr > u64::MAX as nat * 1000 + 999) by (nonlinear_arith)
                    requires
                        sval > u64::MAX as nat,
                        fr >= 0,
                ;
            }
            None
        },
    }
}

/// Decodes a "normal play time" value: the leftmost match of the
/// hours`:`minutes`:`seconds grammar or, failing that, of the bare-seconds
/// grammar; `None` when neither matches or the duration does not fit.
pub fn parse_npt(text: &str) -> (r: Option<MediaDuration>)
    ensures
        match npt_clipped(text@) {
            Some(ms) => r matches Some(d) && d@ == ms && d.millis < 1000,
            None => r is None,
        },
{
    let n = text.unicode_len();
    if let Some(i) = find_hhmmss(text, n) {
        return hhmmss_value(text, i, n);
    }
    if let Some(i) = find_sec(text, n) {
        return sec_value(text, i, n);
    }
    None
}

} // verus!

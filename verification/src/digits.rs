//! Decimal digit strings: their numeric value, and verified conversion of
//! digit runs to machine integers.

use vstd::prelude::*;

verus! {

/// An ASCII decimal digit.
pub open spec fn is_digit(c: char) -> bool {
    '0' <= c && c <= '9'
}

/// The numeric value of one digit character.
pub open spec fn digit_val(c: char) -> nat {
    (c as int - '0' as int) as nat
}

/// Every character of `s` is a decimal digit.
pub open spec fn all_digits(s: Seq<char>) -> bool {
    forall|i: int| 0 <= i < s.len() ==> is_digit(#[trigger] s[i])
}

/// The value of `s` read as a decimal numeral (most significant digit first).
pub open spec fn digits_val(s: Seq<char>) -> nat
    decreases s.len(),
{
    if s.len() == 0 {
        0
    } else {
        digits_val(s.drop_last()) * 10 + digit_val(s.last())
    }
}

/// Ten to the power `n`.
pub open spec fn pow10(n: nat) -> nat
    decreases n,
{
    if n == 0 {
        1
    } else {
        10 * pow10((n - 1) as nat)
    }
}

pub proof fn lemma_pow10_pos(n: nat)
    ensures
        pow10(n) >= 1,
    decreases n,
{
    if n > 0 {
        lemma_pow10_pos((n - 1) as nat);
    }
}

/// A digit string's value is below ten to its length.
pub proof fn lemma_digits_val_bound(s: Seq<char>)
    requires
        all_digits(s),
    ensures
        digits_val(s) < pow10(s.len()),
    decreases s.len(),
{
    if s.len() > 0 {
        assert(all_digits(s.drop_last()));
        lemma_digits_val_bound(s.drop_last());
        assert(is_digit(s.last()));
        assert(digit_val(s.last()) <= 9);
    }
}

/// Splitting a digit string at `k` splits its value by place value.
pub proof fn lemma_digits_split(s: Seq<char>, k: int)
    requires
        all_digits(s),
        0 <= k <= s.len(),
    ensures
        digits_val(s) == digits_val(s.subrange(0, k)) * pow10((s.len() - k) as nat) + digits_val(
            s.subrange(k, s.len() as int),
        ),
        digits_val(s.subrange(k, s.len() as int)) < pow10((s.len() - k) as nat),
    decreases s.len(),
{
    let tail = s.subrange(k, s.len() as int);
    assert(all_digits(tail));
    lemma_digits_val_bound(tail);
    if k == s.len() {
        assert(s.subrange(0, k) =~= s);
        assert(tail =~= Seq::<char>::empty());
        assert(digits_val(tail) == 0);
        assert(pow10((s.len() - k) as nat) == 1);
        assert(digits_val(s) * 1 == digits_val(s)) by (nonlinear_arith);
    } else {
        let dl = s.drop_last();
        assert(all_digits(dl));
        lemma_digits_split(dl, k);
        assert(dl.subrange(0, k) =~= s.subrange(0, k));
        assert(tail.drop_last() =~= dl.subrange(k, dl.len() as int));
        assert(tail.last() == s.last());
        let a = digits_val(s.subrange(0, k));
        let b = digits_val(dl.subrange(k, dl.len() as int));
        let p = pow10((s.len() - 1 - k) as nat);
        assert(pow10((s.len() - k) as nat) == 10 * p);
        assert(digits_val(dl) == a * p + b);
        assert(digits_val(s) == (a * p + b) * 10 + digit_val(s.last()));
        assert(digits_val(tail) == b * 10 + digit_val(s.last()));
        assert((a * p + b) * 10 + digit_val(s.last()) == a * (10 * p) + (b * 10 + digit_val(
            s.last(),
        ))) by (nonlinear_arith);
        assert(digits_val(s) == a * pow10((s.len() - k) as nat) + digits_val(tail));
    }
}

/// A prefix of a digit string never has a larger value than the whole.
pub proof fn lemma_digits_prefix_le(s: Seq<char>, k: int)
    requires
        all_digits(s),
        0 <= k <= s.len(),
    ensures
        digits_val(s.subrange(0, k)) <= digits_val(s),
{
    lemma_digits_split(s, k);
    let a = digits_val(s.subrange(0, k));
    let p = pow10((s.len() - k) as nat);
    lemma_pow10_pos((s.len() - k) as nat);
    assert(a * 1 <= a * p) by (nonlinear_arith)
        requires
            1 <= p,
            0 <= a,
    ;
}

/// Where the maximal run of digits beginning at `i` ends.
pub open spec fn digit_run_end(s: Seq<char>, i: int) -> int
    decreases s.len() - i,
{
    if 0 <= i < s.len() && is_digit(s[i]) {
        digit_run_end(s, i + 1)
    } else {
        i
    }
}

/// The characterizing facts of `digit_run_end`.
pub proof fn lemma_digit_run_end(s: Seq<char>, i: int)
    requires
        0 <= i <= s.len(),
    ensures
        i <= digit_run_end(s, i) <= s.len(),
        forall|j: int| i <= j < digit_run_end(s, i) ==> is_digit(#[trigger] s[j]),
        digit_run_end(s, i) < s.len() ==> !is_digit(s[digit_run_end(s, i)]),
    decreases s.len() - i,
{
    if i < s.len() && is_digit(s[i]) {
        lemma_digit_run_end(s, i + 1);
    }
}

/// Tests one character for being a decimal digit.
pub fn is_digit_exec(c: char) -> (b: bool)
    ensures
        b == is_digit(c),
{
    c >= '0' && c <= '9'
}

/// Finds where the maximal digit run beginning at `i` ends.
pub fn digit_run_end_exec(s: &str, i: usize, n: usize) -> (r: usize)
    requires
        n == s@.len(),
        i <= n,
    ensures
        r == digit_run_end(s@, i as int),
        i <= r <= n,
{
    proof {
        lemma_digit_run_end(s@, i as int);
    }
    let mut k = i;
    while k < n && is_digit_exec(s.get_char(k))
        invariant
            i <= k <= n,
            n == s@.len(),
            digit_run_end(s@, i as int) == digit_run_end(s@, k as int),
        decreases n - k,
    {
        k = k + 1;
    }
    proof {
        lemma_digit_run_end(s@, k as int);
    }
    k
}

/// The numeric value of one digit character.
pub fn digit_val_exec(c: char) -> (v: u64)
    requires
        is_digit(c),
    ensures
        v == digit_val(c),
        v <= 9,
{
    (c as u32 - 48) as u64
}

/// Converts the digit run `s[from..to]` to a `u64`, or reports that its
/// value does not fit.
pub fn parse_digit_run(s: &str, from: usize, to: usize) -> (r: Option<u64>)
    requires
        from <= to <= s@.len(),
        forall|j: int| from <= j < to ==> is_digit(#[trigger] s@[j]),
    ensures
        match r {
            Some(v) => v == digits_val(s@.subrange(from as int, to as int)),
            None => digits_val(s@.subrange(from as int, to as int)) > u64::MAX,
        },
{
    let ghost t = s@.subrange(from as int, to as int);
    let mut acc: u128 = 0;
    let mut j = from;
    while j < to
        invariant
            from <= j <= to <= s@.len(),
            forall|q: int| from <= q < to ==> is_digit(#[trigger] s@[q]),
            t == s@.subrange(from as int, to as int),
            acc == digits_val(s@.subrange(from as int, j as int)),
            acc <= u64::MAX,
        decreases to - j,
    {
        let c = s.get_char(j);
        let d = digit_val_exec(c);
        let next: u128 = acc * 10 + d as u128;
        proof {
            let pre = s@.subrange(from as int, j as int);
            let pre1 = s@.subrange(from as int, j + 1 as int);
            assert(pre1.drop_last() =~= pre);
            assert(pre1.last() == s@[j as int]);
            assert(digits_val(pre1) == digits_val(pre) * 10 + digit_val(s@[j as int]));
        }
        if next > u64::MAX as u128 {
            proof {
                let pre1 = s@.subrange(from as int, j + 1 as int);
                assert(all_digits(t));
                assert(pre1 =~= t.subrange(0, j + 1 - from));
                lemma_digits_prefix_le(t, j + 1 - from);
            }
            return None;
        }
        acc = next;
        j = j + 1;
    }
    proof {
        assert(s@.subrange(from as int, j as int) =~= t);
    }
    Some(acc as u64)
}

} // verus!

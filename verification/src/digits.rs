//! Base-10 digit strings and their numeric value.
//!
//! `digits_val` is the mathematical meaning of a digit string; the integer
//! readers' contracts are stated in terms of it.  `parse_magnitude` is the
//! shared verified scanner: it accepts exactly the non-empty all-digit
//! strings whose value fits in a `u128`, and returns that value.

use vstd::prelude::*;

use crate::chars::digit_char;
use crate::chars::digit_val;
use crate::chars::digit_value;
use crate::chars::is_digit;
use vstd::string::StrSliceExecFns;

verus! {

/// Every character of `s` is an ASCII decimal digit.
pub open spec fn all_digits(s: Seq<char>) -> bool {
    forall|i: int| 0 <= i < s.len() ==> is_digit(#[trigger] s[i])
}

/// The base-10 value of a digit string (0 for the empty string).
pub open spec fn digits_val(s: Seq<char>) -> int
    decreases s.len(),
{
    if s.len() == 0 {
        0
    } else {
        10 * digits_val(s.take(s.len() - 1)) + digit_val(s[s.len() - 1])
    }
}

/// The value of a digit string is never negative.
pub proof fn lemma_digits_val_nonneg(s: Seq<char>)
    requires
        all_digits(s),
    ensures
        digits_val(s) >= 0,
    decreases s.len(),
{
    if s.len() > 0 {
        let t = s.take(s.len() - 1);
        assert(forall|i: int| 0 <= i < t.len() ==> t[i] == s[i] && is_digit(#[trigger] t[i]));
        lemma_digits_val_nonneg(t);
        assert(is_digit(s[s.len() - 1]));
        assert(digit_val(s[s.len() - 1]) >= 0);
    }
}

/// Extending a digit string never shrinks its value: any prefix of an
/// all-digit string has a value no larger than the whole string's.
pub proof fn lemma_digits_val_prefix_le(s: Seq<char>, k: int)
    requires
        all_digits(s),
        0 <= k <= s.len(),
    ensures
        digits_val(s.take(k)) <= digits_val(s),
    decreases s.len() - k,
{
    if k == s.len() {
        assert(s.take(k) =~= s);
    } else {
        let t = s.take(k + 1);
        assert(forall|i: int| 0 <= i < t.len() ==> t[i] == s[i] && is_digit(#[trigger] t[i]));
        assert(t.take(k) =~= s.take(k));
        lemma_digits_val_nonneg(s.take(k));
        assert(digits_val(t) == 10 * digits_val(s.take(k)) + digit_val(t[k]));
        assert(is_digit(t[k]));
        assert(digit_val(t[k]) >= 0);
        assert(digits_val(s.take(k)) <= digits_val(t));
        lemma_digits_val_prefix_le(s, k + 1);
    }
}

/// The shared magnitude scanner.  Starting at position `from`, it succeeds
/// exactly when the rest of `s` is one or more digits whose value fits in a
/// `u128`, and then returns that value.
pub fn parse_magnitude(s: &str, from: usize) -> (r: Option<u128>)
    requires
        from <= s@.len(),
    ensures
        match r {
            Some(v) => {
                let d = s@.skip(from as int);
                d.len() > 0 && all_digits(d) && digits_val(d) == v
            },
            None => {
                let d = s@.skip(from as int);
                d.len() == 0 || !all_digits(d) || digits_val(d) > u128::MAX
            },
        },
{
    let ghost d = s@.skip(from as int);
    let n = s.unicode_len();
    if from == n {
        return None;
    }
    let mut acc: u128 = 0;
    let mut i: usize = from;
    while i < n
        invariant
            from <= i <= n,
            n == s@.len(),
            d == s@.skip(from as int),
            all_digits(s@.subrange(from as int, i as int)),
            acc == digits_val(s@.subrange(from as int, i as int)),
        decreases n - i,
    {
        let c = s.get_char(i);
        if !digit_char(c) {
            proof {
                assert(d[i - from] == s@[i as int]);
                assert(!all_digits(d));
            }
            return None;
        }
        let dv = digit_value(c) as u128;
        let ghost p = s@.subrange(from as int, i + 1);
        proof {
            assert(p.take(p.len() - 1) =~= s@.subrange(from as int, i as int));
            assert(p[p.len() - 1] == s@[i as int]);
            assert(digits_val(p) == 10 * acc + digit_val(s@[i as int]));
            assert(forall|j: int|
                0 <= j < p.len() ==> p[j] == s@[from + j] && is_digit(#[trigger] p[j]));
        }
        let step = match acc.checked_mul(10) {
            Some(m) => m.checked_add(dv),
            None => None,
        };
        match step {
            Some(x) => {
                acc = x;
                i = i + 1;
            },
            None => {
                proof {
                    assert(digits_val(p) > u128::MAX);
                    if all_digits(d) {
                        assert(p =~= d.take(i + 1 - from));
                        lemma_digits_val_prefix_le(d, i + 1 - from);
                        assert(digits_val(d) > u128::MAX);
                    }
                }
                return None;
            },
        }
    }
    proof {
        assert(s@.subrange(from as int, n as int) =~= d);
    }
    Some(acc)
}

} // verus!

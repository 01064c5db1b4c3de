//! The floating-point readers' cores, at the level of text.
//!
//! A floating-point reader first trims its line and replaces every comma
//! with a dot, so that both `12.3` and `12,3` read as the same number; it
//! then demands a base-10 literal: an optional sign, digits with at most
//! one decimal point and at least one digit, and an optional exponent.
//! This module validates that grammar and returns the normalized literal;
//! the conversion of the literal to a binary floating-point value is left
//! to the unverified shell, which only ever receives literals this grammar
//! accepts.

use vstd::prelude::*;

use crate::chars::digit_char;
use crate::chars::is_digit;
use crate::chars::is_space;
use crate::chars::swap_comma;
use crate::digits::all_digits;
use crate::ints::signed_body;
use crate::ints::signed_token_ok;
use crate::text::lemma_trim_space_congruent;
use crate::text::trim_spec;
use crate::text::trim_str;
use vstd::string::StrSliceExecFns;
use vstd::string::StringExecFns;

verus! {

/// An exponent marker.
pub open spec fn is_exp_char(c: char) -> bool {
    c == 'e' || c == 'E'
}

/// `s` with every comma replaced by a dot.
pub open spec fn swap_all(s: Seq<char>) -> Seq<char> {
    s.map_values(|c: char| swap_comma(c))
}

/// The normalization a floating-point reader applies to its raw line:
/// trim, then replace every comma with a dot.
pub open spec fn float_norm(line: Seq<char>) -> Seq<char> {
    swap_all(trim_spec(line))
}

/// A mantissa: one or more digits, or digits around exactly one decimal
/// point with at least one digit somewhere.
pub open spec fn mantissa_ok(s: Seq<char>) -> bool {
    (s.len() > 0 && all_digits(s)) || (s.len() >= 2 && exists|i: int|
        0 <= i < s.len() && s[i] == '.' && all_digits(s.take(i)) && all_digits(s.skip(i + 1)))
}

/// A full literal: an optional sign, a mantissa, and an optional exponent
/// part, itself a sign and one or more digits after an exponent marker.
pub open spec fn float_token_ok(s: Seq<char>) -> bool {
    let b = signed_body(s);
    mantissa_ok(b) || (exists|j: int|
        0 <= j < b.len() && is_exp_char(b[j]) && mantissa_ok(b.take(j)) && signed_token_ok(
            b.skip(j + 1),
        ))
}

/// A raw line is a valid floating-point input when its normalized form is
/// a well-formed literal.
pub open spec fn float_line_ok(line: Seq<char>) -> bool {
    float_token_ok(float_norm(line))
}

/// A mantissa never contains a character that is neither a digit nor the
/// decimal point.
proof fn lemma_mantissa_bad_char(s: Seq<char>, k: int)
    requires
        0 <= k < s.len(),
        !is_digit(s[k]),
        s[k] != '.',
    ensures
        !mantissa_ok(s),
{
    assert(!all_digits(s));
    assert forall|i: int| 0 <= i < s.len() && s[i] == '.' implies !(all_digits(s.take(i))
        && all_digits(s.skip(i + 1))) by {
        if k < i {
            assert(s.take(i)[k] == s[k]);
            assert(!all_digits(s.take(i)));
        } else {
            assert(s.skip(i + 1)[k - i - 1] == s[k]);
            assert(!all_digits(s.skip(i + 1)));
        }
    }
}

/// A mantissa never contains two decimal points.
proof fn lemma_mantissa_two_dots(s: Seq<char>, k1: int, k2: int)
    requires
        0 <= k1 < k2 < s.len(),
        s[k1] == '.',
        s[k2] == '.',
    ensures
        !mantissa_ok(s),
{
    assert(!is_digit(s[k1]));
    assert(!all_digits(s));
    assert forall|i: int| 0 <= i < s.len() && s[i] == '.' implies !(all_digits(s.take(i))
        && all_digits(s.skip(i + 1))) by {
        let k = if i == k1 {
            k2
        } else {
            k1
        };
        assert(s[k] == '.' && k != i);
        if k < i {
            assert(s.take(i)[k] == s[k]);
            assert(!all_digits(s.take(i)));
        } else {
            assert(s.skip(i + 1)[k - i - 1] == s[k]);
            assert(!all_digits(s.skip(i + 1)));
        }
    }
}

/// A mantissa never contains an exponent marker.
proof fn lemma_mantissa_exp_char(s: Seq<char>, k: int)
    requires
        0 <= k < s.len(),
        is_exp_char(s[k]),
    ensures
        !mantissa_ok(s),
{
    lemma_mantissa_bad_char(s, k);
}

/// Every character of the given range is a digit, or not.
fn check_digits(s: &str, from: usize, to: usize) -> (b: bool)
    requires
        from <= to <= s@.len(),
    ensures
        b == all_digits(s@.subrange(from as int, to as int)),
{
    let ghost sub = s@.subrange(from as int, to as int);
    let mut i: usize = from;
    while i < to
        invariant
            from <= i <= to <= s@.len(),
            sub == s@.subrange(from as int, to as int),
            forall|k: int| 0 <= k < i - from ==> is_digit(#[trigger] sub[k]),
        decreases to - i,
    {
        let c = s.get_char(i);
        if !digit_char(c) {
            proof {
                assert(sub[i - from] == s@[i as int]);
            }
            return false;
        }
        proof {
            assert(sub[i - from] == s@[i as int]);
        }
        i = i + 1;
    }
    true
}

/// The given range is a well-formed mantissa, or not.
fn check_mantissa(s: &str, from: usize, to: usize) -> (b: bool)
    requires
        from <= to <= s@.len(),
    ensures
        b == mantissa_ok(s@.subrange(from as int, to as int)),
{
    let ghost sub = s@.subrange(from as int, to as int);
    if from == to {
        return false;
    }
    let mut i: usize = from;
    let mut dot: Option<usize> = None;
    while i < to
        invariant
            from <= i <= to <= s@.len(),
            from < to,
            sub == s@.subrange(from as int, to as int),
            match dot {
                None => forall|k: int| 0 <= k < i - from ==> is_digit(#[trigger] sub[k]),
                Some(dp) => from <= dp < i && s@[dp as int] == '.' && forall|k: int|
                    0 <= k < i - from && k != dp - from ==> is_digit(#[trigger] sub[k]),
            },
        decreases to - i,
    {
        let c = s.get_char(i);
        proof {
            assert(sub[i - from] == s@[i as int]);
        }
        if digit_char(c) {
            i = i + 1;
        } else if c == '.' {
            match dot {
                None => {
                    dot = Some(i);
                    i = i + 1;
                },
                Some(dp) => {
                    proof {
                        assert(sub[dp - from] == s@[dp as int]);
                        lemma_mantissa_two_dots(sub, dp - from, i - from);
                    }
                    return false;
                },
            }
        } else {
            proof {
                lemma_mantissa_bad_char(sub, i - from);
            }
            return false;
        }
    }
    match dot {
        None => {
            proof {
                assert(forall|k: int| 0 <= k < sub.len() ==> is_digit(#[trigger] sub[k]));
            }
            true
        },
        Some(dp) => {
            if to - from >= 2 {
                proof {
                    let i0 = dp - from;
                    assert(sub[i0] == '.');
                    assert(forall|k: int|
                        0 <= k < sub.take(i0).len() ==> is_digit(#[trigger] sub.take(i0)[k]));
                    assert(forall|k: int|
                        0 <= k < sub.skip(i0 + 1).len() ==> is_digit(
                            #[trigger] sub.skip(i0 + 1)[k],
                        ));
                }
                true
            } else {
                proof {
                    assert(sub.len() == 1);
                    assert(sub[0] == '.');
                    assert(!is_digit(sub[0]));
                    assert(!all_digits(sub));
                }
                false
            }
        },
    }
}

/// The given range is a well-formed exponent part (an optional sign, then
/// one or more digits), or not.
fn check_exponent(s: &str, from: usize, to: usize) -> (b: bool)
    requires
        from <= to <= s@.len(),
    ensures
        b == signed_token_ok(s@.subrange(from as int, to as int)),
{
    let ghost sub = s@.subrange(from as int, to as int);
    if from == to {
        return false;
    }
    let c = s.get_char(from);
    let start: usize = if c == '+' || c == '-' {
        from + 1
    } else {
        from
    };
    proof {
        assert(sub[0] == s@[from as int]);
        assert(signed_body(sub) =~= s@.subrange(start as int, to as int));
    }
    if start == to {
        return false;
    }
    check_digits(s, start, to)
}

/// The whole string is a well-formed literal, or not.
fn check_float_token(s: &str) -> (b: bool)
    ensures
        b == float_token_ok(s@),
{
    let n = s.unicode_len();
    let start: usize = if n > 0 && (s.get_char(0) == '+' || s.get_char(0) == '-') {
        1
    } else {
        0
    };
    let ghost b0 = signed_body(s@);
    proof {
        assert(b0 =~= s@.subrange(start as int, n as int));
    }
    let mut j: usize = start;
    while j < n && !exp_char(s.get_char(j))
        invariant
            start <= j <= n,
            n == s@.len(),
            forall|k: int| start <= k < j ==> !is_exp_char(#[trigger] s@[k]),
        decreases n - j,
    {
        j = j + 1;
    }
    if j == n {
        let ok = check_mantissa(s, start, n);
        proof {
            assert(b0 =~= s@.subrange(start as int, n as int));
            if !ok {
                assert forall|jj: int|
                    0 <= jj < b0.len() && is_exp_char(b0[jj]) implies !(mantissa_ok(b0.take(jj))
                    && signed_token_ok(b0.skip(jj + 1))) by {
                    assert(b0[jj] == s@[start + jj]);
                    assert(false);
                }
            }
        }
        ok
    } else {
        let m_ok = check_mantissa(s, start, j);
        let e_ok = check_exponent(s, j + 1, n);
        let ghost j0 = j - start;
        proof {
            assert(b0[j0] == s@[j as int]);
            assert(is_exp_char(b0[j0]));
            assert(b0.take(j0) =~= s@.subrange(start as int, j as int));
            assert(b0.skip(j0 + 1) =~= s@.subrange(j + 1, n as int));
            lemma_mantissa_exp_char(b0, j0);
            if m_ok && e_ok {
                assert(mantissa_ok(b0.take(j0)) && signed_token_ok(b0.skip(j0 + 1)));
                assert(float_token_ok(s@));
            } else {
                assert forall|jj: int|
                    0 <= jj < b0.len() && is_exp_char(b0[jj]) implies !(mantissa_ok(b0.take(jj))
                    && signed_token_ok(b0.skip(jj + 1))) by {
                    if jj < j0 {
                        assert(b0[jj] == s@[start + jj]);
                        assert(false);
                    } else if jj == j0 {
                    } else {
                        assert(b0.take(jj)[j0] == b0[j0]);
                        lemma_mantissa_exp_char(b0.take(jj), j0);
                    }
                }
                assert(!float_token_ok(s@));
            }
        }
        m_ok && e_ok
    }
}

fn exp_char(c: char) -> (b: bool)
    ensures
        b == is_exp_char(c),
{
    c == 'e' || c == 'E'
}

/// The floating-point readers' core: trims the line, replaces every comma
/// with a dot, and accepts exactly the lines whose normalized form is a
/// well-formed base-10 literal, returning that literal.
pub fn normalize_float_line(line: &str) -> (r: Option<String>)
    ensures
        match r {
            Some(t) => float_line_ok(line@) && t@ == float_norm(line@),
            None => !float_line_ok(line@),
        },
{
    let t = trim_str(line);
    let n = t.unicode_len();
    let mut w = String::new();
    let mut i: usize = 0;
    while i < n
        invariant
            i <= n,
            n == t@.len(),
            t@ == trim_spec(line@),
            w@ =~= swap_all(t@.subrange(0, i as int)),
        decreases n - i,
    {
        let c = t.get_char(i);
        if c == ',' {
            w.append(".");
            proof {
                reveal_strlit(".");
                assert(w@ =~= swap_all(t@.subrange(0, i + 1)));
            }
        } else {
            let piece = t.substring_char(i, i + 1);
            w.append(piece);
            proof {
                assert(w@ =~= swap_all(t@.subrange(0, i + 1)));
            }
        }
        i = i + 1;
    }
    proof {
        assert(t@.subrange(0, n as int) =~= t@);
        assert(w@ == float_norm(line@));
    }
    if check_float_token(w.as_str()) {
        Some(w)
    } else {
        None
    }
}

/// The decimal separators are interchangeable: two lines that agree
/// character by character up to the comma-for-dot substitution normalize
/// to the same literal, and are either both valid or both invalid.
pub proof fn lemma_separator_tolerance(a: Seq<char>, b: Seq<char>)
    requires
        a.len() == b.len(),
        forall|i: int| 0 <= i < a.len() ==> swap_comma(a[i]) == swap_comma(#[trigger] b[i]),
    ensures
        float_norm(a) == float_norm(b),
        float_line_ok(a) == float_line_ok(b),
{
    assert forall|i: int| 0 <= i < a.len() implies is_space(a[i]) == is_space(#[trigger] b[i]) by {
        if a[i] != b[i] {
            assert((a[i] == ',' && b[i] == '.') || (a[i] == '.' && b[i] == ','));
        }
    }
    lemma_trim_space_congruent(a, b);
    assert(float_norm(a) =~= float_norm(b));
}

} // verus!

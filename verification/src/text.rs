//! Whitespace trimming and the text and character readers' cores.
//!
//! Every reader normalizes its raw input line by trimming leading and
//! trailing whitespace first; `trim_spec` is the mathematical form of that
//! step and `trim_str` the verified implementation.  The text reader
//! returns the trimmed line itself; the character reader selects the first
//! character of the trimmed line and rejects an all-whitespace line.

use vstd::prelude::*;

use crate::chars::is_space;
use crate::chars::space_char;
use vstd::string::StrSliceExecFns;
use vstd::string::StringExecFns;

verus! {

/// The number of whitespace characters at the front of `s`.
pub open spec fn leading_spaces(s: Seq<char>) -> nat
    decreases s.len(),
{
    if s.len() == 0 || !is_space(s[0]) {
        0
    } else {
        (1 + leading_spaces(s.skip(1))) as nat
    }
}

/// The number of whitespace characters at the back of `s`.
pub open spec fn trailing_spaces(s: Seq<char>) -> nat
    decreases s.len(),
{
    if s.len() == 0 || !is_space(s[s.len() - 1]) {
        0
    } else {
        (1 + trailing_spaces(s.take(s.len() - 1))) as nat
    }
}

/// `s` with leading and trailing whitespace removed.
pub open spec fn trim_spec(s: Seq<char>) -> Seq<char> {
    let lo = leading_spaces(s) as int;
    let hi = s.len() - trailing_spaces(s);
    if lo >= hi {
        Seq::empty()
    } else {
        s.subrange(lo, hi)
    }
}

/// `leading_spaces` counts exactly the longest all-whitespace prefix.
pub proof fn lemma_leading_spaces_is(s: Seq<char>, k: int)
    requires
        0 <= k <= s.len(),
        forall|j: int| 0 <= j < k ==> is_space(s[j]),
        k < s.len() ==> !is_space(s[k]),
    ensures
        leading_spaces(s) == k,
    decreases s.len(),
{
    if k == 0 {
        assert(s.len() == 0 || !is_space(s[0]));
    } else {
        let t = s.skip(1);
        assert(forall|j: int| 0 <= j < k - 1 ==> s[j + 1] == t[j] && is_space(#[trigger] t[j]));
        assert(k - 1 < t.len() ==> t[k - 1] == s[k] && !is_space(t[k - 1]));
        lemma_leading_spaces_is(t, k - 1);
    }
}

/// `trailing_spaces` counts exactly the longest all-whitespace suffix.
pub proof fn lemma_trailing_spaces_is(s: Seq<char>, k: int)
    requires
        0 <= k <= s.len(),
        forall|j: int| s.len() - k <= j < s.len() ==> is_space(s[j]),
        k < s.len() ==> !is_space(s[s.len() - k - 1]),
    ensures
        trailing_spaces(s) == k,
    decreases s.len(),
{
    if k == 0 {
        assert(s.len() == 0 || !is_space(s[s.len() - 1]));
    } else {
        let t = s.take(s.len() - 1);
        assert(forall|j: int| t.len() - (k - 1) <= j < t.len() ==> t[j] == s[j] && is_space(
            #[trigger] t[j],
        ));
        assert(k - 1 < t.len() ==> t[t.len() - (k - 1) - 1] == s[s.len() - k - 1] && !is_space(
            t[t.len() - (k - 1) - 1],
        ));
        lemma_trailing_spaces_is(t, k - 1);
    }
}

/// Lines whose characters agree on being whitespace trim at the same
/// positions, so their trimmed forms line up character by character.
pub proof fn lemma_trim_space_congruent(a: Seq<char>, b: Seq<char>)
    requires
        a.len() == b.len(),
        forall|i: int| 0 <= i < a.len() ==> is_space(a[i]) == is_space(#[trigger] b[i]),
    ensures
        trim_spec(a).len() == trim_spec(b).len(),
        forall|i: int|
            0 <= i < trim_spec(a).len() ==> trim_spec(a)[i] == a[leading_spaces(a) + i]
                && trim_spec(b)[i] == b[leading_spaces(b) + i],
        leading_spaces(a) == leading_spaces(b),
{
    lemma_leading_spaces_congruent(a, b);
    lemma_trailing_spaces_congruent(a, b);
}

proof fn lemma_leading_spaces_congruent(a: Seq<char>, b: Seq<char>)
    requires
        a.len() == b.len(),
        forall|i: int| 0 <= i < a.len() ==> is_space(a[i]) == is_space(#[trigger] b[i]),
    ensures
        leading_spaces(a) == leading_spaces(b),
    decreases a.len(),
{
    if a.len() == 0 || !is_space(a[0]) {
    } else {
        let ta = a.skip(1);
        let tb = b.skip(1);
        assert(forall|i: int|
            0 <= i < ta.len() ==> is_space(ta[i]) == is_space(#[trigger] tb[i]) && ta[i] == a[i + 1]
                && tb[i] == b[i + 1]);
        lemma_leading_spaces_congruent(ta, tb);
    }
}

proof fn lemma_trailing_spaces_congruent(a: Seq<char>, b: Seq<char>)
    requires
        a.len() == b.len(),
        forall|i: int| 0 <= i < a.len() ==> is_space(a[i]) == is_space(#[trigger] b[i]),
    ensures
        trailing_spaces(a) == trailing_spaces(b),
    decreases a.len(),
{
    if a.len() == 0 || !is_space(a[a.len() - 1]) {
    } else {
        let ta = a.take(a.len() - 1);
        let tb = b.take(b.len() - 1);
        assert(forall|i: int|
            0 <= i < ta.len() ==> is_space(ta[i]) == is_space(#[trigger] tb[i]) && ta[i] == a[i]
                && tb[i] == b[i]);
        lemma_trailing_spaces_congruent(ta, tb);
    }
}

/// The verified trimming step: `r` is `s` with its whitespace margins removed.
pub fn trim_str<'a>(s: &'a str) -> (r: &'a str)
    ensures
        r@ == trim_spec(s@),
{
    let n = s.unicode_len();
    let mut lo: usize = 0;
    while lo < n && space_char(s.get_char(lo))
        invariant
            lo <= n,
            n == s@.len(),
            forall|j: int| 0 <= j < lo ==> is_space(s@[j]),
        decreases n - lo,
    {
        lo = lo + 1;
    }
    let mut hi: usize = n;
    while hi > lo && space_char(s.get_char(hi - 1))
        invariant
            lo <= hi <= n,
            n == s@.len(),
            forall|j: int| hi <= j < n ==> is_space(s@[j]),
        decreases hi,
    {
        hi = hi - 1;
    }
    proof {
        if lo == n {
            lemma_leading_spaces_is(s@, n as int);
            assert(trim_spec(s@) =~= s@.subrange(lo as int, hi as int));
        } else {
            lemma_leading_spaces_is(s@, lo as int);
            assert(hi > lo);
            lemma_trailing_spaces_is(s@, n - hi);
            assert(trim_spec(s@) == s@.subrange(lo as int, hi as int));
        }
    }
    s.substring_char(lo, hi)
}

/// The text reader's core: a line is always valid, and the value it denotes
/// is the trimmed line, returned as an owned string.
pub fn trimmed_line(line: &str) -> (r: String)
    ensures
        r@ == trim_spec(line@),
{
    String::from_str(trim_str(line))
}

/// A line is a valid character input when anything is left after trimming.
pub open spec fn char_line_ok(line: Seq<char>) -> bool {
    trim_spec(line).len() > 0
}

/// The character a valid line denotes: the first character after trimming.
pub open spec fn char_line_val(line: Seq<char>) -> char {
    trim_spec(line)[0]
}

/// The character reader's core: the first character of the trimmed line,
/// or nothing when the line is whitespace only.
pub fn parse_char(line: &str) -> (r: Option<char>)
    ensures
        match r {
            Some(c) => char_line_ok(line@) && c == char_line_val(line@),
            None => !char_line_ok(line@),
        },
{
    let t = trim_str(line);
    if t.unicode_len() > 0 {
        Some(t.get_char(0))
    } else {
        None
    }
}

} // verus!

//! The boolean reader's core: case-insensitive recognition of the two
//! literal tokens `true` and `false`.

use vstd::prelude::*;

use crate::chars::is_space;
use crate::chars::lower_matches;
use crate::chars::matches_lower;
use crate::text::lemma_trim_space_congruent;
use crate::text::trim_spec;
use crate::text::trim_str;
use vstd::string::StrSliceExecFns;

verus! {

/// `s` spells `true`, ignoring ASCII case.
pub open spec fn token_true(s: Seq<char>) -> bool {
    s.len() == 4 && lower_matches(s[0], 't') && lower_matches(s[1], 'r') && lower_matches(
        s[2],
        'u',
    ) && lower_matches(s[3], 'e')
}

/// `s` spells `false`, ignoring ASCII case.
pub open spec fn token_false(s: Seq<char>) -> bool {
    s.len() == 5 && lower_matches(s[0], 'f') && lower_matches(s[1], 'a') && lower_matches(
        s[2],
        'l',
    ) && lower_matches(s[3], 's') && lower_matches(s[4], 'e')
}

/// A raw line is a valid boolean input when its trimmed form spells one of
/// the two literal tokens, ignoring ASCII case.
pub open spec fn bool_line_ok(line: Seq<char>) -> bool {
    token_true(trim_spec(line)) || token_false(trim_spec(line))
}

/// The boolean a valid line denotes.
pub open spec fn bool_line_val(line: Seq<char>) -> bool {
    token_true(trim_spec(line))
}

/// The boolean reader's core: accepts exactly the lines whose trimmed form
/// spells `true` or `false` in any mix of case, and returns that value.
pub fn parse_bool(line: &str) -> (r: Option<bool>)
    ensures
        match r {
            Some(v) => bool_line_ok(line@) && v == bool_line_val(line@),
            None => !bool_line_ok(line@),
        },
{
    let t = trim_str(line);
    let n = t.unicode_len();
    if n == 4 {
        if matches_lower(t.get_char(0), 't') && matches_lower(t.get_char(1), 'r') && matches_lower(
            t.get_char(2),
            'u',
        ) && matches_lower(t.get_char(3), 'e') {
            Some(true)
        } else {
            None
        }
    } else if n == 5 {
        if matches_lower(t.get_char(0), 'f') && matches_lower(t.get_char(1), 'a') && matches_lower(
            t.get_char(2),
            'l',
        ) && matches_lower(t.get_char(3), 's') && matches_lower(t.get_char(4), 'e') {
            Some(false)
        } else {
            None
        }
    } else {
        None
    }
}

/// Two characters that are equal up to ASCII case: either the same
/// character, or an ASCII letter and its other-case form.
pub open spec fn same_letter(a: char, b: char) -> bool {
    a == b || (0x41 <= a as u32 && a as u32 <= 0x5A && a as u32 + 0x20 == b as u32) || (0x41
        <= b as u32 && b as u32 <= 0x5A && b as u32 + 0x20 == a as u32)
}

/// Characters equal up to ASCII case read as the same lower-case letter.
proof fn lemma_same_letter_matches(a: char, b: char, d: char)
    requires
        same_letter(a, b),
        0x61 <= d as u32 && d as u32 <= 0x7A,
    ensures
        lower_matches(a, d) == lower_matches(b, d),
{
}

/// Boolean reading is case-insensitive: two lines that agree character by
/// character up to ASCII case are either both valid or both invalid, and
/// valid ones denote the same boolean.
pub proof fn lemma_bool_case_insensitive(a: Seq<char>, b: Seq<char>)
    requires
        a.len() == b.len(),
        forall|i: int| 0 <= i < a.len() ==> same_letter(a[i], b[i]),
    ensures
        bool_line_ok(a) == bool_line_ok(b),
        bool_line_ok(a) ==> bool_line_val(a) == bool_line_val(b),
{
    assert(forall|i: int| 0 <= i < a.len() ==> is_space(a[i]) == is_space(#[trigger] b[i]));
    lemma_trim_space_congruent(a, b);
    let ta = trim_spec(a);
    let tb = trim_spec(b);
    assert(ta.len() == tb.len());
    assert(forall|i: int| 0 <= i < ta.len() ==> same_letter(ta[i], #[trigger] tb[i]));
    assert forall|i: int, d: char|
        0 <= i < ta.len() && 0x61 <= d as u32 && d as u32 <= 0x7A implies #[trigger] lower_matches(
        ta[i],
        d,
    ) == lower_matches(tb[i], d) by {
        lemma_same_letter_matches(ta[i], tb[i], d);
    }
}

} // verus!

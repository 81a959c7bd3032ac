//! Password strength: one point per character and one per class present,
//! out of a fixed scale.

use crate::generator::flag_count;
use crate::helpers::{
    check_includes_lowercase, check_includes_number, check_includes_symbols,
    check_includes_uppercase, has_class, has_digit, has_lowercase, has_symbol, has_uppercase,
    in_class, CharacterClass,
};
use vstd::prelude::*;
use vstd::string::StrSliceExecFns;

verus! {

/// The number of points that makes a full score; twenty characters holding
/// all four classes reach it.
pub const SCORE_SCALE: usize = 24;

/// The number of classes present in `s`.
pub open spec fn class_points(s: Seq<char>) -> nat {
    flag_count(has_digit(s)) + flag_count(has_uppercase(s)) + flag_count(has_lowercase(s))
        + flag_count(has_symbol(s))
}

/// Length plus classes present, before the cap.
pub open spec fn raw_strength(s: Seq<char>) -> nat {
    s.len() + class_points(s)
}

/// The score of `s` in points out of `SCORE_SCALE`.
pub open spec fn strength_points(s: Seq<char>) -> nat {
    if raw_strength(s) >= SCORE_SCALE {
        SCORE_SCALE as nat
    } else {
        raw_strength(s)
    }
}

/// The strength of `password` in points out of `SCORE_SCALE`: one per
/// character, one per class present, capped at the scale. As a percentage the
/// score is `points / 24 * 100`, so it always lies in `[0, 100]`.
pub fn check_strength(password: &str) -> (r: usize)
    ensures
        r == strength_points(password@),
        r <= SCORE_SCALE,
        password@.len() == 0 ==> r == 0,
{
    let len = password.unicode_len();
    if len >= SCORE_SCALE {
        return SCORE_SCALE;
    }
    let mut strength: usize = len;
    strength = strength + if check_includes_number(password) { 1 } else { 0 };
    strength = strength + if check_includes_uppercase(password) { 1 } else { 0 };
    strength = strength + if check_includes_lowercase(password) { 1 } else { 0 };
    strength = strength + if check_includes_symbols(password) { 1 } else { 0 };
    if strength > SCORE_SCALE {
        SCORE_SCALE
    } else {
        strength
    }
}

/// A class present in `s` stays present when a character is appended.
proof fn lemma_push_keeps_class(s: Seq<char>, ch: char, class: CharacterClass)
    ensures
        has_class(s, class) ==> has_class(s.push(ch), class),
{
    if has_class(s, class) {
        let i = choose|i: int| 0 <= i < s.len() && in_class(#[trigger] s[i], class);
        assert(s.push(ch)[i] == s[i]);
    }
}

/// Appending a character to a password below the full score strictly raises
/// its score, and never lowers it otherwise.
pub proof fn lemma_append_raises_strength(s: Seq<char>, ch: char)
    ensures
        strength_points(s) <= strength_points(s.push(ch)),
        strength_points(s) < SCORE_SCALE ==> strength_points(s) < strength_points(s.push(ch)),
{
    lemma_push_keeps_class(s, ch, CharacterClass::Digit);
    lemma_push_keeps_class(s, ch, CharacterClass::Uppercase);
    lemma_push_keeps_class(s, ch, CharacterClass::Lowercase);
    lemma_push_keeps_class(s, ch, CharacterClass::Symbol);
}

} // verus!

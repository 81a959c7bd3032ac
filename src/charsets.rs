//! The four fixed alphabets that passwords are drawn from.

use vstd::prelude::*;

verus! {

/// The decimal digits.
pub const NUMBERS: &'static str = "0123456789";

/// The ASCII uppercase letters.
pub const UPPERCASE_CHARSET: &'static str = "ABCDEFGHIJKLMNOPQRSTUVWXYZ";

/// The ASCII lowercase letters.
pub const LOWERCASE_CHARSET: &'static str = "abcdefghijklmnopqrstuvwxyz";

/// The symbol alphabet; it is also what counts as a symbol when a password is
/// classified.
pub const SYMBOLS: &'static str = "!@#$%^&*()-_=+[]{};:,.<>/?~|";

/// A decimal digit.
pub open spec fn is_digit(c: char) -> bool {
    '0' <= c && c <= '9'
}

/// An ASCII uppercase letter.
pub open spec fn is_upper(c: char) -> bool {
    'A' <= c && c <= 'Z'
}

/// An ASCII lowercase letter.
pub open spec fn is_lower(c: char) -> bool {
    'a' <= c && c <= 'z'
}

/// A member of the symbol alphabet.
pub open spec fn is_symbol(c: char) -> bool {
    SYMBOLS@.contains(c)
}

/// Every character of each alphabet belongs to its own class and to no other.
pub proof fn lemma_alphabets_disjoint()
    ensures
        forall|i: int| 0 <= i < NUMBERS@.len() ==> {
            let c = #[trigger] NUMBERS@[i];
            is_digit(c) && !is_upper(c) && !is_lower(c) && !is_symbol(c)
        },
        forall|i: int| 0 <= i < UPPERCASE_CHARSET@.len() ==> {
            let c = #[trigger] UPPERCASE_CHARSET@[i];
            !is_digit(c) && is_upper(c) && !is_lower(c) && !is_symbol(c)
        },
        forall|i: int| 0 <= i < LOWERCASE_CHARSET@.len() ==> {
            let c = #[trigger] LOWERCASE_CHARSET@[i];
            !is_digit(c) && !is_upper(c) && is_lower(c) && !is_symbol(c)
        },
        forall|i: int| 0 <= i < SYMBOLS@.len() ==> {
            let c = #[trigger] SYMBOLS@[i];
            !is_digit(c) && !is_upper(c) && !is_lower(c) && is_symbol(c)
        },
{
    reveal_strlit("0123456789");
    reveal_strlit("ABCDEFGHIJKLMNOPQRSTUVWXYZ");
    reveal_strlit("abcdefghijklmnopqrstuvwxyz");
    reveal_strlit("!@#$%^&*()-_=+[]{};:,.<>/?~|");
    assert forall|i: int| 0 <= i < SYMBOLS@.len() implies !is_digit(SYMBOLS@[i]) && !is_upper(
        SYMBOLS@[i],
    ) && !is_lower(SYMBOLS@[i]) && is_symbol(SYMBOLS@[i]) by {
        assert(SYMBOLS@.contains(SYMBOLS@[i]));
    }
    assert forall|i: int| 0 <= i < NUMBERS@.len() implies !is_symbol(NUMBERS@[i]) by {
        if SYMBOLS@.contains(NUMBERS@[i]) {
            let j = choose|j: int| 0 <= j < SYMBOLS@.len() && SYMBOLS@[j] == NUMBERS@[i];
        }
    }
}

} // verus!

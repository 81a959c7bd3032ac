//! Predicates that tell whether a password holds at least one character of a
//! class.

use crate::charsets::{is_digit, is_lower, is_symbol, is_upper, SYMBOLS};
use vstd::prelude::*;
use vstd::string::StrSliceExecFns;

verus! {

/// The four classes of characters a password can be asked to hold.
#[derive(Clone, Copy, Debug, PartialEq, Eq, Structural)]
pub enum CharacterClass {
    Digit,
    Uppercase,
    Lowercase,
    Symbol,
}

/// Whether `c` belongs to `class`.
pub open spec fn in_class(c: char, class: CharacterClass) -> bool {
    match class {
        CharacterClass::Digit => is_digit(c),
        CharacterClass::Uppercase => is_upper(c),
        CharacterClass::Lowercase => is_lower(c),
        CharacterClass::Symbol => is_symbol(c),
    }
}

/// Whether some character of `s` belongs to `class`.
pub open spec fn has_class(s: Seq<char>, class: CharacterClass) -> bool {
    exists|i: int| 0 <= i < s.len() && in_class(#[trigger] s[i], class)
}

pub open spec fn has_digit(s: Seq<char>) -> bool {
    has_class(s, CharacterClass::Digit)
}

pub open spec fn has_uppercase(s: Seq<char>) -> bool {
    has_class(s, CharacterClass::Uppercase)
}

pub open spec fn has_lowercase(s: Seq<char>) -> bool {
    has_class(s, CharacterClass::Lowercase)
}

pub open spec fn has_symbol(s: Seq<char>) -> bool {
    has_class(s, CharacterClass::Symbol)
}

fn is_symbol_char(c: char) -> (r: bool)
    ensures
        r == is_symbol(c),
{
    let n = SYMBOLS.unicode_len();
    let mut i: usize = 0;
    while i < n
        invariant
            n == SYMBOLS@.len(),
            i <= n,
            forall|j: int| 0 <= j < i ==> SYMBOLS@[j] != c,
        decreases n - i,
    {
        if SYMBOLS.get_char(i) == c {
            return true;
        }
        i = i + 1;
    }
    false
}

/// Whether the character `c` belongs to `class`.
pub fn char_in_class(c: char, class: CharacterClass) -> (r: bool)
    ensures
        r == in_class(c, class),
{
    match class {
        CharacterClass::Digit => '0' <= c && c <= '9',
        CharacterClass::Uppercase => 'A' <= c && c <= 'Z',
        CharacterClass::Lowercase => 'a' <= c && c <= 'z',
        CharacterClass::Symbol => is_symbol_char(c),
    }
}

/// Whether `password` holds a character of `class`; stops at the first one.
pub fn includes_class(password: &str, class: CharacterClass) -> (r: bool)
    ensures
        r == has_class(password@, class),
{
    let n = password.unicode_len();
    let mut i: usize = 0;
    while i < n
        invariant
            n == password@.len(),
            i <= n,
            forall|j: int| 0 <= j < i ==> !in_class(#[trigger] password@[j], class),
        decreases n - i,
    {
        if char_in_class(password.get_char(i), class) {
            return true;
        }
        i = i + 1;
    }
    false
}

/// Whether `password` holds a decimal digit.
pub fn check_includes_number(password: &str) -> (r: bool)
    ensures
        r == has_digit(password@),
{
    includes_class(password, CharacterClass::Digit)
}

/// Whether `password` holds an uppercase letter.
pub fn check_includes_uppercase(password: &str) -> (r: bool)
    ensures
        r == has_uppercase(password@),
{
    includes_class(password, CharacterClass::Uppercase)
}

/// Whether `password` holds a lowercase letter.
pub fn check_includes_lowercase(password: &str) -> (r: bool)
    ensures
        r == has_lowercase(password@),
{
    includes_class(password, CharacterClass::Lowercase)
}

/// Whether `password` holds a character of the symbol alphabet.
pub fn check_includes_symbols(password: &str) -> (r: bool)
    ensures
        r == has_symbol(password@),
{
    includes_class(password, CharacterClass::Symbol)
}

} // verus!

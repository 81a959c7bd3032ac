use passgen::helpers::{char_in_class, includes_class, CharacterClass};
use passgen::{
    check_includes_lowercase, check_includes_number, check_includes_symbols,
    check_includes_uppercase,
};

#[test]
fn includes_number() {
    assert!(check_includes_number("hello123"));
}

#[test]
fn not_includes_number() {
    assert!(!check_includes_number("hello"));
}

#[test]
fn includes_uppercase() {
    assert!(check_includes_uppercase("Hello"));
}

#[test]
fn not_includes_uppercase() {
    assert!(!check_includes_uppercase("hello"));
}

#[test]
fn includes_lowercase() {
    assert!(check_includes_lowercase("HELLo"));
}

#[test]
fn not_includes_lowercase() {
    assert!(!check_includes_lowercase("HELLO"));
}

#[test]
fn includes_symbols() {
    assert!(check_includes_symbols("hello!"));
}

#[test]
fn not_includes_symbols() {
    assert!(!check_includes_symbols("5ldM5hXN"));
}

#[test]
fn empty_string_has_no_class() {
    assert!(!check_includes_number(""));
    assert!(!check_includes_uppercase(""));
    assert!(!check_includes_lowercase(""));
    assert!(!check_includes_symbols(""));
}

#[test]
fn whitespace_is_not_a_symbol() {
    assert!(!check_includes_symbols("hello world"));
    assert!(check_includes_symbols("a~b"));
}

#[test]
fn classification_repeats_its_answer() {
    let s = "aB3$";
    for _ in 0..3 {
        assert!(check_includes_number(s));
        assert!(check_includes_uppercase(s));
        assert!(check_includes_lowercase(s));
        assert!(check_includes_symbols(s));
    }
    let t = "plain";
    assert_eq!(check_includes_number(t), check_includes_number(t));
    assert_eq!(check_includes_symbols(t), check_includes_symbols(t));
}

#[test]
fn class_of_single_characters() {
    assert!(char_in_class('0', CharacterClass::Digit));
    assert!(char_in_class('9', CharacterClass::Digit));
    assert!(!char_in_class('a', CharacterClass::Digit));
    assert!(char_in_class('Z', CharacterClass::Uppercase));
    assert!(!char_in_class('z', CharacterClass::Uppercase));
    assert!(char_in_class('q', CharacterClass::Lowercase));
    assert!(char_in_class('|', CharacterClass::Symbol));
    assert!(!char_in_class(' ', CharacterClass::Symbol));
    assert!(includes_class("xx7", CharacterClass::Digit));
    assert!(!includes_class("xyz", CharacterClass::Uppercase));
}

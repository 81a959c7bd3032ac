//! Random password generation under character-class requirements, and a
//! strength score for any password.

pub mod charsets;
pub mod generator;
pub mod helpers;
pub mod strength;

pub use generator::{
    create_charset, create_password, generate, validate_password, Config, GenerateError,
};
pub use helpers::{
    check_includes_lowercase, check_includes_number, check_includes_symbols,
    check_includes_uppercase,
};
pub use strength::check_strength;

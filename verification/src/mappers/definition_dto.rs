//! A definition as written, and the definition it stands for.
pub mod to_definition;
pub mod from_definition;

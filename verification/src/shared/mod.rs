//! What the languages of the compiler share.

pub mod types;

//! JankyScript: JavaScript with types.

pub mod type_checking;

//! Validation of a single commit message: a grammar that splits the raw text
//! into located fields, and configurable style rules that report violations
//! as located diagnostics.

pub mod grammar;
pub mod laws;
pub mod lint;
pub mod parser;
pub mod rules;
pub mod text;
pub mod wording;

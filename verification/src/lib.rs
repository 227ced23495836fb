//! String utilities: first-character capitalization and whitespace trimming
//! for decoded string fields.

pub mod capitalize;
pub mod trim;
pub mod unicode;

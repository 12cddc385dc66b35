//! A streaming filter that turns relaxed JSON (line comments, block comments
//! and trailing commas) into strict JSON, one byte at a time.
use vstd::prelude::*;

pub mod fixer;
pub mod laws;
pub mod machine;

pub use fixer::JsonFixer;
pub use machine::{AdvanceResult, State};

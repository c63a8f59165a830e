//! A subset of SQL: single comparisons between columns and literals.

use vstd::prelude::*;

pub mod lexeme_laws;
pub mod parser;
pub mod token;
pub mod token_laws;

verus! {

} // verus!

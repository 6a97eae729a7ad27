//! Turn planning, prompt assembly and persistence rules of an interactive
//! fiction engine, with their contracts proved by Verus.
pub mod check;
pub mod domain;
pub mod json;
pub mod order;
pub mod persistence;
pub mod planning;
pub mod prompt;
pub mod render;
pub mod text;
pub mod turn;

use vstd::prelude::*;

verus! {

} // verus!

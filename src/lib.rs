use vstd::prelude::*;

pub mod ast;
pub mod generator;
pub mod token;
pub mod grammar;
pub mod parser;
pub mod lexer;
pub mod laws;

verus! {

} // verus!

use vstd::prelude::*;
use vstd::string::StringSliceAdditionalSpecFns;

pub mod role;
pub mod text;
pub mod lexer;
pub mod ast;
pub mod parser;
pub mod types;
pub mod ir;
pub mod machine;
pub mod translator;
pub mod rc;
pub mod lower;
pub mod control;
pub mod calls;
pub mod loader;
pub mod qualify;
pub mod program;
pub mod testing;
pub mod session;
pub mod cache;
pub mod commands;
pub mod driver;

verus! {

} // verus!

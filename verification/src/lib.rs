//! Bytecode back end of the Arrow interpreter: the instruction set, the
//! compiled-function representation, the compiler from the resolved syntax
//! tree to bytecode, and the peephole optimiser that runs on the result.
use vstd::prelude::*;

pub mod annotations;
pub mod ast;
pub mod chunk;
pub mod compiler;
pub mod disasm;
pub mod names;
pub mod op;
pub mod peephole;
pub mod run;

verus! {

} // verus!

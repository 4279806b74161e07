//! Code generation back ends.
use vstd::prelude::*;
use crate::parser::Program;

pub mod ts;
pub mod zig;

verus! {

/// A code generator from a program to target source text.
pub trait Backend {
    fn generate(&mut self, program: &Program) -> String;
}

/// Zig source for `program`.
pub fn generate(program: &Program) -> (r: String)
    ensures
        r@ == zig::program::zig_program(program@),
{
    let mut b = zig::ZigBackend::new();
    b.gen_program(program)
}

} // verus!

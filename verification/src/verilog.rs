//! The back end: the Verilog tree, the lowering into it and its text.

use vstd::prelude::*;

pub mod ast;
pub mod emit;
pub mod transform;

verus! {

/// A Verilog tree that is ready to be written out.
pub struct Verilog {
    ast: ast::Ast,
}

impl Verilog {
    /// The tree that is written out.
    pub closed spec fn tree(&self) -> ast::AstView {
        self.ast@
    }

    /// Lowers a syntax tree into the Verilog tree that stands for it.
    pub fn new(ast: &crate::syntax::ast::Ast) -> (verilog: Verilog)
        ensures
            verilog.tree() == transform::lower_ast(ast@),
    {
        Verilog { ast: transform::transform_ast(ast) }
    }

    /// Writes the tree out as Verilog source text.
    pub fn build(&mut self) -> (text: String)
        ensures
            text@ == ast::ast_text(old(self).tree()),
            final(self).tree() == old(self).tree(),
    {
        self.ast.render()
    }
}

} // verus!

//! The Verilog code generator.
//!
//! The generator writes Verilog source straight from a syntax tree. What
//! it writes is the text of the Verilog tree into which the syntax tree is
//! lowered.

use crate::syntax::ast::{Ast, AstView};
use crate::verilog::ast::ast_text;
use crate::verilog::transform::lower_ast;
use vstd::prelude::*;

pub mod to_verilog;

pub use crate::codegen::to_verilog::ToVerilog;

verus! {

/// A generator for one syntax tree.
#[derive(Clone, Debug)]
pub struct CodeGen {
    ast: Ast,
}

impl CodeGen {
    /// The syntax tree that is written out.
    pub closed spec fn tree(&self) -> AstView {
        self.ast@
    }

    /// A generator for `ast`.
    pub fn new(ast: Ast) -> (codegen: CodeGen)
        ensures
            codegen.tree() == ast@,
    {
        CodeGen { ast }
    }

    /// Writes the tree out as Verilog source text.
    pub fn generate(&self) -> (text: String)
        ensures
            text@ == ast_text(lower_ast(self.tree())),
    {
        self.ast.to_verilog()
    }
}

} // verus!

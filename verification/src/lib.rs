//! A compiler from the Silica hardware description language to Verilog.
//!
//! Source text is scanned into spanned tokens, parsed into a syntax tree,
//! lowered into a Verilog tree and written out as Verilog source.

use vstd::prelude::*;

pub mod codegen;
pub mod syntax;
pub mod verilog;

verus! {

/// The Verilog text for a source text, or the error that is reported for
/// it.
pub open spec fn compiled(text: Seq<char>) -> Result<Seq<char>, syntax::error::ErrorView> {
    match syntax::parsed(text) {
        Ok(tree) => Ok(verilog::ast::ast_text(verilog::transform::lower_ast(tree))),
        Err(error) => Err(error),
    }
}

/// Compiles source text into Verilog source text: parses it, lowers the
/// tree and writes the result out. A source that does not parse gives the
/// error of its first item that does not fit.
pub fn compile(source: &str) -> (result: Result<String, syntax::Error>)
    ensures
        match result {
            Ok(text) => compiled(source@) == Ok::<Seq<char>, syntax::error::ErrorView>(text@),
            Err(error) => compiled(source@) == Err::<Seq<char>, syntax::error::ErrorView>(error@),
        },
{
    match syntax::parse_source(source) {
        Ok(tree) => Ok(verilog::Verilog::new(&tree).build()),
        Err(error) => Err(error),
    }
}

} // verus!

//! Verilog text for the nodes of a syntax tree.

use crate::syntax::ast::{Ast, BinaryOp, Dir, Expr, Mod, Port, Stmt, Type, UnaryOp};
use crate::verilog::ast::{
    ast_text, binary_op_text, dir_text, expr_text, mod_text, port_lines, port_text, stmt_lines,
    stmt_text, type_text, unary_op_text,
};
use crate::verilog::transform::{
    lower_ast, lower_binary_op, lower_dir, lower_expr, lower_mod, lower_port, lower_stmt,
    lower_type, lower_unary_op,
};
use vstd::prelude::*;
use vstd::string::*;

verus! {

/// A node that can be written out as Verilog.
pub trait ToVerilog {
    /// The Verilog text of the node.
    spec fn verilog(&self) -> Seq<char>;

    /// Writes the node out.
    fn to_verilog(&self) -> (text: String)
        ensures
            text@ == self.verilog(),
    ;
}

impl ToVerilog for Ast {
    open spec fn verilog(&self) -> Seq<char> {
        ast_text(lower_ast(self@))
    }

    fn to_verilog(&self) -> (text: String) {
        self.top.to_verilog()
    }
}

impl ToVerilog for Mod {
    open spec fn verilog(&self) -> Seq<char> {
        mod_text(lower_mod(self@))
    }

    fn to_verilog(&self) -> (text: String) {
        let ghost lowered = lower_mod(self@);
        let mut output = String::from_str("module ");
        output.append(self.name.as_str());
        output.append(" ( \n");
        let ghost head = output@;
        let port_len = self.ports.len();
        for idx in 0..port_len
            invariant
                port_len == self.ports.len(),
                lowered == lower_mod(self@),
                output@ == head + port_lines(lowered.ports, idx as int),
        {
            let ghost before = port_lines(lowered.ports, idx as int);
            let port = self.ports[idx].to_verilog();
            assert(port@ == port_text(lowered.ports[idx as int]));
            output.append("\t");
            output.append(port.as_str());
            if idx == port_len - 1 {
                output.append(" \n");
                assert(output@ =~= head + (before + "\t"@ + port@ + " \n"@));
            } else {
                output.append(", \n");
                assert(output@ =~= head + (before + "\t"@ + port@ + ", \n"@));
            }
        }
        output.append("); \n");
        let ghost middle = output@;
        for idx in 0..self.stmts.len()
            invariant
                lowered == lower_mod(self@),
                output@ == middle + stmt_lines(lowered.stmts, idx as int),
        {
            let ghost before = stmt_lines(lowered.stmts, idx as int);
            let stmt = self.stmts[idx].to_verilog();
            assert(stmt@ == stmt_text(lowered.stmts[idx as int]));
            output.append("\t");
            output.append(stmt.as_str());
            output.append(" \n");
            assert(output@ =~= middle + (before + "\t"@ + stmt@ + " \n"@));
        }
        output.append("endmodule \n");
        assert(output@ =~= mod_text(lowered));
        output
    }
}

impl ToVerilog for Port {
    open spec fn verilog(&self) -> Seq<char> {
        port_text(lower_port(self@))
    }

    fn to_verilog(&self) -> (text: String) {
        let mut text = self.dir.to_verilog();
        text.append(" ");
        text.append(self.ty.to_verilog().as_str());
        text.append(" ");
        text.append(self.name.as_str());
        text
    }
}

impl ToVerilog for Dir {
    open spec fn verilog(&self) -> Seq<char> {
        dir_text(lower_dir(*self))
    }

    fn to_verilog(&self) -> (text: String) {
        match self {
            Dir::Input => String::from_str("input"),
            Dir::Output => String::from_str("output"),
        }
    }
}

impl ToVerilog for Type {
    open spec fn verilog(&self) -> Seq<char> {
        type_text(lower_type(*self))
    }

    fn to_verilog(&self) -> (text: String) {
        String::from_str("wire")
    }
}

impl ToVerilog for Stmt {
    open spec fn verilog(&self) -> Seq<char> {
        stmt_text(lower_stmt(self@))
    }

    fn to_verilog(&self) -> (text: String) {
        match self {
            Stmt::Assign { id, ex } => {
                let mut text = String::from_str("assign ");
                text.append(id.as_str());
                text.append(" = ");
                text.append(ex.to_verilog().as_str());
                text.append(";");
                text
            },
            Stmt::Declare { id, ty } => {
                let mut text = ty.to_verilog();
                text.append(" ");
                text.append(id.as_str());
                text.append(";");
                text
            },
            Stmt::DeclareAssign { id, ty, ex } => {
                let mut text = ty.to_verilog();
                text.append(" ");
                text.append(id.as_str());
                text.append(" = ");
                text.append(ex.to_verilog().as_str());
                text.append(";");
                text
            },
        }
    }
}

impl ToVerilog for Expr {
    open spec fn verilog(&self) -> Seq<char> {
        expr_text(lower_expr(self@))
    }

    fn to_verilog(&self) -> (text: String)
        decreases self,
    {
        match self {
            Expr::Binary { lex, op, rex } => {
                let mut text = lex.to_verilog();
                text.append(" ");
                text.append(op.to_verilog().as_str());
                text.append(" ");
                text.append(rex.to_verilog().as_str());
                text
            },
            Expr::Unary { op, ex } => {
                let mut text = op.to_verilog();
                text.append(ex.to_verilog().as_str());
                text
            },
            Expr::Paren { ex } => {
                let mut text = String::from_str("( ");
                text.append(ex.to_verilog().as_str());
                text.append(" )");
                text
            },
            Expr::Ident { id } => id.clone(),
            Expr::Litrl { val } => val.clone(),
        }
    }
}

impl ToVerilog for BinaryOp {
    open spec fn verilog(&self) -> Seq<char> {
        binary_op_text(lower_binary_op(*self))
    }

    fn to_verilog(&self) -> (text: String) {
        match self {
            BinaryOp::ShiftLeft => String::from_str("<<"),
            BinaryOp::ShiftRight => String::from_str(">>"),
            BinaryOp::BitAnd => String::from_str("&"),
            BinaryOp::BitXor => String::from_str("^"),
            BinaryOp::BitOr => String::from_str("|"),
        }
    }
}

impl ToVerilog for UnaryOp {
    open spec fn verilog(&self) -> Seq<char> {
        unary_op_text(lower_unary_op(*self))
    }

    fn to_verilog(&self) -> (text: String) {
        match self {
            UnaryOp::Negate => String::from_str("~"),
            UnaryOp::ReductAnd => String::from_str("&"),
            UnaryOp::ReductXor => String::from_str("^"),
            UnaryOp::ReductOr => String::from_str("|"),
        }
    }
}

} // verus!

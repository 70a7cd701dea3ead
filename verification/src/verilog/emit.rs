//! Writing Verilog text while visiting a syntax tree.

use crate::syntax::ast::{
    Ast, BinaryOp, Dir, Expr, ExprView, Mod, ModView, Port, PortView, Stmt, StmtView,
    Type, UnaryOp,
};
use crate::syntax::visit::Visitor;
use crate::verilog::ast::{
    ast_text, binary_op_text, dir_text, expr_text, mod_text, port_lines, port_text, stmt_lines,
    stmt_text, type_text, unary_op_text,
};
use crate::verilog::transform::{
    lower_ast, lower_binary_op, lower_dir, lower_expr, lower_mod, lower_port, lower_stmt,
    lower_type, lower_unary_op,
};
use vstd::prelude::*;
use vstd::string::*;

verus! {

/// A visitor that writes what it visits: a visit of a node appends the
/// Verilog text of the node's lowering to the text written so far.
pub struct Emitter {
    verilog: String,
}

impl Emitter {
    /// The text written so far.
    pub closed spec fn text(&self) -> Seq<char> {
        self.verilog@
    }

    /// An emitter that has written nothing.
    pub fn new() -> (emitter: Emitter)
        ensures
            emitter.text() == Seq::<char>::empty(),
    {
        Emitter { verilog: String::new() }
    }

    /// Writes the tree behind what was written before, and returns all of
    /// the text.
    pub fn build(&mut self, ast: &Ast) -> (text: String)
        ensures
            final(self).text() == old(self).text() + ast_text(lower_ast(ast@)),
            text@ == final(self).text(),
    {
        self.visit_mod(&ast.top);
        self.verilog.clone()
    }
}

impl Visitor for Emitter {
    open spec fn mod_visited(&self, m: ModView, after: &Self) -> bool {
        after.text() == self.text() + mod_text(lower_mod(m))
    }

    open spec fn port_visited(&self, p: PortView, after: &Self) -> bool {
        after.text() == self.text() + port_text(lower_port(p))
    }

    open spec fn dir_visited(&self, d: Dir, after: &Self) -> bool {
        after.text() == self.text() + dir_text(lower_dir(d))
    }

    open spec fn type_visited(&self, t: Type, after: &Self) -> bool {
        after.text() == self.text() + type_text(lower_type(t))
    }

    open spec fn stmt_visited(&self, s: StmtView, after: &Self) -> bool {
        after.text() == self.text() + stmt_text(lower_stmt(s))
    }

    open spec fn expr_visited(&self, e: ExprView, after: &Self) -> bool {
        after.text() == self.text() + expr_text(lower_expr(e))
    }

    open spec fn unary_op_visited(&self, u: UnaryOp, after: &Self) -> bool {
        after.text() == self.text() + unary_op_text(lower_unary_op(u))
    }

    open spec fn binary_op_visited(&self, b: BinaryOp, after: &Self) -> bool {
        after.text() == self.text() + binary_op_text(lower_binary_op(b))
    }

    fn visit_mod(&mut self, m: &Mod) {
        let ghost start = self.verilog@;
        let ghost lowered = lower_mod(m@);
        self.verilog.append("module ");
        self.verilog.append(m.name.as_str());
        self.verilog.append(" ( \n");
        let ghost head = self.verilog@;
        let port_len = m.ports.len();
        for idx in 0..port_len
            invariant
                port_len == m.ports.len(),
                lowered == lower_mod(m@),
                self.verilog@ == head + port_lines(lowered.ports, idx as int),
        {
            let ghost before = port_lines(lowered.ports, idx as int);
            self.verilog.append("\t");
            let ghost tabbed = self.verilog@;
            self.visit_port(&m.ports[idx]);
            let ghost port = port_text(lowered.ports[idx as int]);
            assert(self.verilog@ == tabbed + port);
            if idx == port_len - 1 {
                self.verilog.append(" \n");
                assert(self.verilog@ =~= head + (before + "\t"@ + port + " \n"@));
            } else {
                self.verilog.append(", \n");
                assert(self.verilog@ =~= head + (before + "\t"@ + port + ", \n"@));
            }
        }
        self.verilog.append("); \n");
        let ghost middle = self.verilog@;
        for idx in 0..m.stmts.len()
            invariant
                lowered == lower_mod(m@),
                self.verilog@ == middle + stmt_lines(lowered.stmts, idx as int),
        {
            let ghost before = stmt_lines(lowered.stmts, idx as int);
            self.verilog.append("\t");
            let ghost tabbed = self.verilog@;
            self.visit_stmt(&m.stmts[idx]);
            let ghost stmt = stmt_text(lowered.stmts[idx as int]);
            assert(self.verilog@ == tabbed + stmt);
            self.verilog.append(" \n");
            assert(self.verilog@ =~= middle + (before + "\t"@ + stmt + " \n"@));
        }
        self.verilog.append("endmodule \n");
        assert(self.verilog@ =~= start + mod_text(lowered));
    }

    fn visit_port(&mut self, p: &Port) {
        let ghost start = self.verilog@;
        self.visit_dir(&p.dir);
        self.verilog.append(" ");
        self.visit_type(&p.ty);
        self.verilog.append(" ");
        self.verilog.append(p.name.as_str());
        assert(self.verilog@ =~= start + port_text(lower_port(p@)));
    }

    fn visit_dir(&mut self, d: &Dir) {
        match d {
            Dir::Input => {
                self.verilog.append("input");
            },
            Dir::Output => {
                self.verilog.append("output");
            },
        }
    }

    fn visit_type(&mut self, t: &Type) {
        match t {
            Type::Bit => {
                self.verilog.append("wire");
            },
            Type::BitVec { .. } => {
                self.verilog.append("wire");
            },
        }
    }

    fn visit_stmt(&mut self, s: &Stmt) {
        let ghost start = self.verilog@;
        match s {
            Stmt::Assign { id, ex } => {
                self.verilog.append("assign ");
                self.verilog.append(id.as_str());
                self.verilog.append(" = ");
                self.visit_expr(ex);
                self.verilog.append(";");
            },
            Stmt::Declare { id, ty } => {
                self.visit_type(ty);
                self.verilog.append(" ");
                self.verilog.append(id.as_str());
                self.verilog.append(";");
            },
            Stmt::DeclareAssign { id, ty, ex } => {
                self.visit_type(ty);
                self.verilog.append(" ");
                self.verilog.append(id.as_str());
                self.verilog.append(" = ");
                self.visit_expr(ex);
                self.verilog.append(";");
            },
        }
        assert(self.verilog@ =~= start + stmt_text(lower_stmt(s@)));
    }

    fn visit_expr(&mut self, e: &Expr)
        decreases e,
    {
        let ghost start = self.verilog@;
        match e {
            Expr::Binary { lex, op, rex } => {
                self.visit_expr(lex);
                self.verilog.append(" ");
                self.visit_binary_op(op);
                self.verilog.append(" ");
                self.visit_expr(rex);
            },
            Expr::Unary { op, ex } => {
                self.visit_unary_op(op);
                self.visit_expr(ex);
            },
            Expr::Paren { ex } => {
                self.verilog.append("( ");
                self.visit_expr(ex);
                self.verilog.append(" )");
            },
            Expr::Ident { id } => {
                self.verilog.append(id.as_str());
            },
            Expr::Litrl { val } => {
                self.verilog.append(val.as_str());
            },
        }
        assert(self.verilog@ =~= start + expr_text(lower_expr(e@)));
    }

    fn visit_unary_op(&mut self, u: &UnaryOp) {
        match u {
            UnaryOp::Negate => {
                self.verilog.append("~");
            },
            UnaryOp::ReductAnd => {
                self.verilog.append("&");
            },
            UnaryOp::ReductXor => {
                self.verilog.append("^");
            },
            UnaryOp::ReductOr => {
                self.verilog.append("|");
            },
        }
    }

    fn visit_binary_op(&mut self, b: &BinaryOp) {
        match b {
            BinaryOp::ShiftLeft => {
                self.verilog.append("<<");
            },
            BinaryOp::ShiftRight => {
                self.verilog.append(">>");
            },
            BinaryOp::BitAnd => {
                self.verilog.append("&");
            },
            BinaryOp::BitXor => {
                self.verilog.append("^");
            },
            BinaryOp::BitOr => {
                self.verilog.append("|");
            },
        }
    }
}

} // verus!

//! The lowering of a syntax tree into the Verilog tree.
//!
//! Every node has its counterpart. Both source types become `wire`: widths
//! are not carried over. A declaration with a value stays a declaration
//! with a value.

use crate::syntax::ast as source;
use crate::verilog::ast::{
    ports_view, stmts_view, Ast, AstView, BinaryOp, Dir, Expr, ExprView, Mod, ModView, Port,
    PortView, Stmt, StmtView, Type, UnaryOp,
};
use vstd::prelude::*;

verus! {

/// The Verilog direction for a direction.
pub open spec fn lower_dir(dir: source::Dir) -> Dir {
    match dir {
        source::Dir::Input => Dir::Input,
        source::Dir::Output => Dir::Output,
    }
}

/// The Verilog type for a type.
pub open spec fn lower_type(ty: source::Type) -> Type {
    Type::Wire
}

/// The Verilog operator for a binary operator.
pub open spec fn lower_binary_op(op: source::BinaryOp) -> BinaryOp {
    match op {
        source::BinaryOp::ShiftLeft => BinaryOp::ShiftLeft,
        source::BinaryOp::ShiftRight => BinaryOp::ShiftRight,
        source::BinaryOp::BitAnd => BinaryOp::BitAnd,
        source::BinaryOp::BitXor => BinaryOp::BitXor,
        source::BinaryOp::BitOr => BinaryOp::BitOr,
    }
}

/// The Verilog operator for a unary operator.
pub open spec fn lower_unary_op(op: source::UnaryOp) -> UnaryOp {
    match op {
        source::UnaryOp::Negate => UnaryOp::Negate,
        source::UnaryOp::ReductAnd => UnaryOp::ReductAnd,
        source::UnaryOp::ReductXor => UnaryOp::ReductXor,
        source::UnaryOp::ReductOr => UnaryOp::ReductOr,
    }
}

/// The Verilog expression for an expression: the same shape, the same
/// names and the same literal text.
pub open spec fn lower_expr(expr: source::ExprView) -> ExprView
    decreases expr,
{
    match expr {
        source::ExprView::Binary { lex, op, rex } => ExprView::Binary {
            lex: Box::new(lower_expr(*lex)),
            op: lower_binary_op(op),
            rex: Box::new(lower_expr(*rex)),
        },
        source::ExprView::Unary { op, ex } => ExprView::Unary {
            op: lower_unary_op(op),
            ex: Box::new(lower_expr(*ex)),
        },
        source::ExprView::Paren { ex } => ExprView::Paren { ex: Box::new(lower_expr(*ex)) },
        source::ExprView::Ident { id } => ExprView::Ident { id },
        source::ExprView::Litrl { val } => ExprView::Litrl { val },
    }
}

/// The Verilog statement for a statement.
pub open spec fn lower_stmt(stmt: source::StmtView) -> StmtView {
    match stmt {
        source::StmtView::Assign { id, ex } => StmtView::Assign { id, ex: lower_expr(ex) },
        source::StmtView::Declare { id, ty } => StmtView::Declare { id, ty: lower_type(ty) },
        source::StmtView::DeclareAssign { id, ty, ex } => StmtView::DeclareAssign {
            id,
            ty: lower_type(ty),
            ex: lower_expr(ex),
        },
    }
}

/// The Verilog port for a port.
pub open spec fn lower_port(port: source::PortView) -> PortView {
    PortView { dir: lower_dir(port.dir), name: port.name, ty: lower_type(port.ty) }
}

/// The Verilog module for a module: its ports and statements one for one,
/// in their order.
pub open spec fn lower_mod(module: source::ModView) -> ModView {
    ModView {
        name: module.name,
        ports: module.ports.map_values(|port: source::PortView| lower_port(port)),
        stmts: module.stmts.map_values(|stmt: source::StmtView| lower_stmt(stmt)),
    }
}

/// The Verilog tree for a syntax tree.
pub open spec fn lower_ast(ast: source::AstView) -> AstView {
    AstView { top: lower_mod(ast.top) }
}

/// No two binary operators are lowered into the same one.
pub proof fn lemma_lower_binary_op_injective(first: source::BinaryOp, second: source::BinaryOp)
    requires
        lower_binary_op(first) == lower_binary_op(second),
    ensures
        first == second,
{
}

/// No two unary operators are lowered into the same one.
pub proof fn lemma_lower_unary_op_injective(first: source::UnaryOp, second: source::UnaryOp)
    requires
        lower_unary_op(first) == lower_unary_op(second),
    ensures
        first == second,
{
}

/// Lowering an expression loses nothing: no two expressions are lowered
/// into the same one.
pub proof fn lemma_lower_expr_injective(first: source::ExprView, second: source::ExprView)
    requires
        lower_expr(first) == lower_expr(second),
    ensures
        first == second,
    decreases first,
{
    match (first, second) {
        (
            source::ExprView::Binary { lex: a, op: f, rex: b },
            source::ExprView::Binary { lex: c, op: g, rex: d },
        ) => {
            lemma_lower_expr_injective(*a, *c);
            lemma_lower_expr_injective(*b, *d);
            lemma_lower_binary_op_injective(f, g);
        },
        (source::ExprView::Unary { op: f, ex: a }, source::ExprView::Unary { op: g, ex: c }) => {
            lemma_lower_expr_injective(*a, *c);
            lemma_lower_unary_op_injective(f, g);
        },
        (source::ExprView::Paren { ex: a }, source::ExprView::Paren { ex: c }) => {
            lemma_lower_expr_injective(*a, *c);
        },
        _ => {},
    }
}

/// Lowering keeps the number and the order of ports and statements, and
/// the names of the module and of its ports.
pub proof fn lemma_lower_mod_keeps_shape(module: source::ModView)
    ensures
        lower_mod(module).name == module.name,
        lower_mod(module).ports.len() == module.ports.len(),
        lower_mod(module).stmts.len() == module.stmts.len(),
        forall|i: int|
            0 <= i < module.ports.len() ==> (#[trigger] lower_mod(module).ports[i]) == lower_port(
                module.ports[i],
            ),
        forall|i: int|
            0 <= i < module.stmts.len() ==> (#[trigger] lower_mod(module).stmts[i]) == lower_stmt(
                module.stmts[i],
            ),
{
}

/// Lowers a syntax tree.
pub fn transform_ast(a: &source::Ast) -> (lowered: Ast)
    ensures
        lowered@ == lower_ast(a@),
{
    Ast { top: transform_mod(&a.top) }
}

/// Lowers a module.
pub fn transform_mod(m: &source::Mod) -> (lowered: Mod)
    ensures
        lowered@ == lower_mod(m@),
{
    let mut ports: Vec<Port> = Vec::new();
    for idx in 0..m.ports.len()
        invariant
            ports.len() == idx,
            forall|k: int| 0 <= k < idx ==> ports@[k]@ == lower_port(m.ports@[k]@),
    {
        ports.push(transform_port(&m.ports[idx]));
    }
    let mut stmts: Vec<Stmt> = Vec::new();
    for idx in 0..m.stmts.len()
        invariant
            stmts.len() == idx,
            forall|k: int| 0 <= k < idx ==> stmts@[k]@ == lower_stmt(m.stmts@[k]@),
    {
        stmts.push(transform_stmt(&m.stmts[idx]));
    }
    assert(ports_view(ports@) =~= lower_mod(m@).ports);
    assert(stmts_view(stmts@) =~= lower_mod(m@).stmts);
    Mod { name: m.name.clone(), ports, stmts }
}

/// Lowers a port.
pub fn transform_port(p: &source::Port) -> (lowered: Port)
    ensures
        lowered@ == lower_port(p@),
{
    Port { dir: transform_dir(&p.dir), name: p.name.clone(), ty: transform_type(&p.ty) }
}

/// Lowers a direction.
pub fn transform_dir(d: &source::Dir) -> (lowered: Dir)
    ensures
        lowered == lower_dir(*d),
{
    match d {
        source::Dir::Input => Dir::Input,
        source::Dir::Output => Dir::Output,
    }
}

/// Lowers a type.
pub fn transform_type(t: &source::Type) -> (lowered: Type)
    ensures
        lowered == lower_type(*t),
{
    match t {
        source::Type::Bit => Type::Wire,
        source::Type::BitVec { .. } => Type::Wire,
    }
}

/// Lowers a statement.
pub fn transform_stmt(s: &source::Stmt) -> (lowered: Stmt)
    ensures
        lowered@ == lower_stmt(s@),
{
    match s {
        source::Stmt::Assign { id, ex } => Stmt::Assign { id: id.clone(), ex: transform_expr(ex) },
        source::Stmt::Declare { id, ty } => Stmt::Declare {
            id: id.clone(),
            ty: transform_type(ty),
        },
        source::Stmt::DeclareAssign { id, ty, ex } => Stmt::DeclareAssign {
            id: id.clone(),
            ty: transform_type(ty),
            ex: transform_expr(ex),
        },
    }
}

/// Lowers an expression.
pub fn transform_expr(e: &source::Expr) -> (lowered: Expr)
    ensures
        lowered@ == lower_expr(e@),
    decreases e,
{
    match e {
        source::Expr::Binary { lex, op, rex } => Expr::Binary {
            lex: Box::new(transform_expr(lex)),
            op: transform_binary_op(op),
            rex: Box::new(transform_expr(rex)),
        },
        source::Expr::Unary { op, ex } => Expr::Unary {
            op: transform_unary_op(op),
            ex: Box::new(transform_expr(ex)),
        },
        source::Expr::Paren { ex } => Expr::Paren { ex: Box::new(transform_expr(ex)) },
        source::Expr::Ident { id } => Expr::Ident { id: id.clone() },
        source::Expr::Litrl { val } => Expr::Litrl { val: val.clone() },
    }
}

/// Lowers a binary operator.
pub fn transform_binary_op(b: &source::BinaryOp) -> (lowered: BinaryOp)
    ensures
        lowered == lower_binary_op(*b),
{
    match b {
        source::BinaryOp::ShiftLeft => BinaryOp::ShiftLeft,
        source::BinaryOp::ShiftRight => BinaryOp::ShiftRight,
        source::BinaryOp::BitAnd => BinaryOp::BitAnd,
        source::BinaryOp::BitXor => BinaryOp::BitXor,
        source::BinaryOp::BitOr => BinaryOp::BitOr,
    }
}

/// Lowers a unary operator.
pub fn transform_unary_op(u: &source::UnaryOp) -> (lowered: UnaryOp)
    ensures
        lowered == lower_unary_op(*u),
{
    match u {
        source::UnaryOp::Negate => UnaryOp::Negate,
        source::UnaryOp::ReductAnd => UnaryOp::ReductAnd,
        source::UnaryOp::ReductXor => UnaryOp::ReductXor,
        source::UnaryOp::ReductOr => UnaryOp::ReductOr,
    }
}

} // verus!

//! Walking a syntax tree with a visitor.
//!
//! A visitor says, for each kind of node, what a visit of such a node does
//! to it. The `walk_*` functions visit the parts of a node in their order;
//! a visitor that has nothing of its own to do at a node walks it.

use crate::syntax::ast::{
    BinaryOp, Dir, Expr, ExprView, Mod, ModView, Port, PortView, Stmt, StmtView, Type, UnaryOp,
};
use vstd::prelude::*;

verus! {

/// A visitor of syntax trees. Each `*_visited` relation holds between the
/// visitor before a visit, the node, and the visitor after the visit; the
/// `visit_*` method of the same kind performs such a visit. A visitor that
/// says nothing of a relation leaves open what such a visit does.
pub trait Visitor: Sized {
    /// What a visit of a module may do.
    open spec fn mod_visited(&self, m: ModView, after: &Self) -> bool {
        true
    }

    /// What a visit of a port may do.
    open spec fn port_visited(&self, p: PortView, after: &Self) -> bool {
        true
    }

    /// What a visit of a direction may do.
    open spec fn dir_visited(&self, d: Dir, after: &Self) -> bool {
        true
    }

    /// What a visit of a type may do.
    open spec fn type_visited(&self, t: Type, after: &Self) -> bool {
        true
    }

    /// What a visit of a statement may do.
    open spec fn stmt_visited(&self, s: StmtView, after: &Self) -> bool {
        true
    }

    /// What a visit of an expression may do.
    open spec fn expr_visited(&self, e: ExprView, after: &Self) -> bool {
        true
    }

    /// What a visit of a unary operator may do.
    open spec fn unary_op_visited(&self, u: UnaryOp, after: &Self) -> bool {
        true
    }

    /// What a visit of a binary operator may do.
    open spec fn binary_op_visited(&self, b: BinaryOp, after: &Self) -> bool {
        true
    }

    /// Visits a module.
    fn visit_mod(&mut self, m: &Mod)
        ensures
            old(self).mod_visited(m@, final(self)),
    ;

    /// Visits a port.
    fn visit_port(&mut self, p: &Port)
        ensures
            old(self).port_visited(p@, final(self)),
    ;

    /// Visits a direction.
    fn visit_dir(&mut self, d: &Dir)
        ensures
            old(self).dir_visited(*d, final(self)),
    ;

    /// Visits a type.
    fn visit_type(&mut self, t: &Type)
        ensures
            old(self).type_visited(*t, final(self)),
    ;

    /// Visits a statement.
    fn visit_stmt(&mut self, s: &Stmt)
        ensures
            old(self).stmt_visited(s@, final(self)),
    ;

    /// Visits an expression.
    fn visit_expr(&mut self, e: &Expr)
        ensures
            old(self).expr_visited(e@, final(self)),
    ;

    /// Visits a unary operator.
    fn visit_unary_op(&mut self, u: &UnaryOp)
        ensures
            old(self).unary_op_visited(*u, final(self)),
    ;

    /// Visits a binary operator.
    fn visit_binary_op(&mut self, b: &BinaryOp)
        ensures
            old(self).binary_op_visited(*b, final(self)),
    ;
}

/// The first `count` ports of `ports` were visited one after the other.
pub open spec fn ports_walked<V: Visitor>(
    before: V,
    ports: Seq<PortView>,
    count: int,
    after: V,
) -> bool
    decreases count,
{
    if count <= 0 {
        after == before
    } else {
        exists|between: V|
            ports_walked(before, ports, count - 1, between) && #[trigger] between.port_visited(
                ports[count - 1],
                &after,
            )
    }
}

/// The first `count` statements of `stmts` were visited one after the
/// other.
pub open spec fn stmts_walked<V: Visitor>(
    before: V,
    stmts: Seq<StmtView>,
    count: int,
    after: V,
) -> bool
    decreases count,
{
    if count <= 0 {
        after == before
    } else {
        exists|between: V|
            stmts_walked(before, stmts, count - 1, between) && #[trigger] between.stmt_visited(
                stmts[count - 1],
                &after,
            )
    }
}

/// The ports of a module were visited in their order, and then its
/// statements in theirs.
pub open spec fn mod_walked<V: Visitor>(before: V, m: ModView, after: V) -> bool {
    exists|between: V|
        #[trigger] ports_walked(before, m.ports, m.ports.len() as int, between) && stmts_walked(
            between,
            m.stmts,
            m.stmts.len() as int,
            after,
        )
}

/// The direction of a port was visited, and then its type.
pub open spec fn port_walked<V: Visitor>(before: V, p: PortView, after: V) -> bool {
    exists|between: V|
        #[trigger] before.dir_visited(p.dir, &between) && between.type_visited(p.ty, &after)
}

/// The parts of a statement were visited: the type of a declaration, and
/// then the expression where the statement has one.
pub open spec fn stmt_walked<V: Visitor>(before: V, s: StmtView, after: V) -> bool {
    match s {
        StmtView::Assign { id, ex } => before.expr_visited(ex, &after),
        StmtView::Declare { id, ty } => before.type_visited(ty, &after),
        StmtView::DeclareAssign { id, ty, ex } => exists|between: V|
            #[trigger] before.type_visited(ty, &between) && between.expr_visited(ex, &after),
    }
}

/// The parts of an expression were visited: the left operand, the
/// operator and the right operand of a binary expression; the operator of
/// a unary expression, the operand of which is not walked into; and the
/// inside of a pair of parentheses. Names and literals have no parts.
pub open spec fn expr_walked<V: Visitor>(before: V, e: ExprView, after: V) -> bool {
    match e {
        ExprView::Binary { lex, op, rex } => exists|first: V, second: V|
            #![trigger before.expr_visited(*lex, &first), first.binary_op_visited(op, &second)]
            {
                &&& before.expr_visited(*lex, &first)
                &&& first.binary_op_visited(op, &second)
                &&& second.expr_visited(*rex, &after)
            },
        ExprView::Unary { op, ex } => before.unary_op_visited(op, &after),
        ExprView::Paren { ex } => before.expr_visited(*ex, &after),
        ExprView::Ident { id } => after == before,
        ExprView::Litrl { val } => after == before,
    }
}

/// Visits the ports of a module in their order, and then its statements.
pub fn walk_mod<V: Visitor>(visitor: &mut V, m: &Mod)
    ensures
        mod_walked(*old(visitor), m@, *final(visitor)),
{
    let ghost before = *visitor;
    for idx in 0..m.ports.len()
        invariant
            ports_walked(before, m@.ports, idx as int, *visitor),
    {
        let ghost reached = *visitor;
        visitor.visit_port(&m.ports[idx]);
        assert(m@.ports[idx as int] == m.ports@[idx as int]@);
        assert(ports_walked(before, m@.ports, idx + 1 - 1, reached) && reached.port_visited(
            m@.ports[idx + 1 - 1],
            &*visitor,
        ));
    }
    let ghost between = *visitor;
    for idx in 0..m.stmts.len()
        invariant
            stmts_walked(between, m@.stmts, idx as int, *visitor),
    {
        let ghost reached = *visitor;
        visitor.visit_stmt(&m.stmts[idx]);
        assert(m@.stmts[idx as int] == m.stmts@[idx as int]@);
        assert(stmts_walked(between, m@.stmts, idx + 1 - 1, reached) && reached.stmt_visited(
            m@.stmts[idx + 1 - 1],
            &*visitor,
        ));
    }
    assert(ports_walked(before, m@.ports, m@.ports.len() as int, between));
}

/// Visits the direction of a port, and then its type.
pub fn walk_port<V: Visitor>(visitor: &mut V, p: &Port)
    ensures
        port_walked(*old(visitor), p@, *final(visitor)),
{
    let ghost before = *visitor;
    visitor.visit_dir(&p.dir);
    let ghost between = *visitor;
    visitor.visit_type(&p.ty);
    assert(before.dir_visited(p@.dir, &between));
}

/// A direction has no parts: the visitor stays as it is.
pub fn walk_dir<V: Visitor>(visitor: &mut V, d: &Dir)
    ensures
        *final(visitor) == *old(visitor),
{
}

/// A type has no parts: the visitor stays as it is.
pub fn walk_type<V: Visitor>(visitor: &mut V, t: &Type)
    ensures
        *final(visitor) == *old(visitor),
{
}

/// Visits the parts of a statement.
pub fn walk_stmt<V: Visitor>(visitor: &mut V, s: &Stmt)
    ensures
        stmt_walked(*old(visitor), s@, *final(visitor)),
{
    let ghost before = *visitor;
    match s {
        Stmt::Assign { id, ex } => {
            visitor.visit_expr(ex);
        },
        Stmt::Declare { id, ty } => {
            visitor.visit_type(ty);
        },
        Stmt::DeclareAssign { id, ty, ex } => {
            visitor.visit_type(ty);
            let ghost between = *visitor;
            visitor.visit_expr(ex);
            assert(before.type_visited(*ty, &between));
        },
    }
}

/// Visits the parts of an expression.
pub fn walk_expr<V: Visitor>(visitor: &mut V, e: &Expr)
    ensures
        expr_walked(*old(visitor), e@, *final(visitor)),
{
    let ghost before = *visitor;
    match e {
        Expr::Binary { lex, op, rex } => {
            visitor.visit_expr(lex);
            let ghost first = *visitor;
            visitor.visit_binary_op(op);
            let ghost second = *visitor;
            visitor.visit_expr(rex);
            assert(before.expr_visited(lex@, &first) && first.binary_op_visited(*op, &second));
        },
        Expr::Unary { op, ex } => {
            visitor.visit_unary_op(op);
        },
        Expr::Paren { ex } => {
            visitor.visit_expr(ex);
        },
        Expr::Ident { id } => {},
        Expr::Litrl { val } => {},
    }
}

/// A unary operator has no parts: the visitor stays as it is.
pub fn walk_unary_op<V: Visitor>(visitor: &mut V, u: &UnaryOp)
    ensures
        *final(visitor) == *old(visitor),
{
}

/// A binary operator has no parts: the visitor stays as it is.
pub fn walk_binary_op<V: Visitor>(visitor: &mut V, b: &BinaryOp)
    ensures
        *final(visitor) == *old(visitor),
{
}

} // verus!

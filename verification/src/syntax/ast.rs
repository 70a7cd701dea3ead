//! The syntax tree that parsing produces.

use vstd::prelude::*;

verus! {

/// A compilation unit: exactly one top module.
#[derive(Clone, Debug, PartialEq)]
pub struct Ast {
    pub top: Mod,
}

/// A module: its name, its ports and its statements, in source order.
#[derive(Clone, Debug, PartialEq)]
pub struct Mod {
    pub name: String,
    pub ports: Vec<Port>,
    pub stmts: Vec<Stmt>,
}

/// A port of a module.
#[derive(Clone, Debug, PartialEq)]
pub struct Port {
    pub dir: Dir,
    pub name: String,
    pub ty: Type,
}

/// The direction of a port.
#[derive(Clone, Copy, Debug, PartialEq, Eq, Structural)]
pub enum Dir {
    Input,
    Output,
}

/// A type: one bit, or the bits from `high` down to `low`, both included.
#[derive(Clone, Copy, Debug, PartialEq, Eq, Structural)]
pub enum Type {
    Bit,
    BitVec { high: u32, low: u32 },
}

/// A statement of a module body.
#[derive(Clone, Debug, PartialEq)]
pub enum Stmt {
    Assign { id: String, ex: Expr },
    Declare { id: String, ty: Type },
    DeclareAssign { id: String, ty: Type, ex: Expr },
}

/// An expression. Literals keep their source text.
#[derive(Debug, PartialEq)]
#[allow(inconsistent_fields)]
pub enum Expr {
    Binary { lex: Box<Expr>, op: BinaryOp, rex: Box<Expr> },
    Unary { op: UnaryOp, ex: Box<Expr> },
    Paren { ex: Box<Expr> },
    Ident { id: String },
    Litrl { val: String },
}

/// The binary operators.
#[derive(Clone, Copy, Debug, PartialEq, Eq, Structural)]
pub enum BinaryOp {
    ShiftLeft,
    ShiftRight,
    BitAnd,
    BitXor,
    BitOr,
}

/// The unary operators: negation and the three reductions.
#[derive(Clone, Copy, Debug, PartialEq, Eq, Structural)]
pub enum UnaryOp {
    Negate,
    ReductAnd,
    ReductXor,
    ReductOr,
}

/// The mathematical value of an [`Ast`].
pub struct AstView {
    pub top: ModView,
}

/// The mathematical value of a [`Mod`].
pub struct ModView {
    pub name: Seq<char>,
    pub ports: Seq<PortView>,
    pub stmts: Seq<StmtView>,
}

/// The mathematical value of a [`Port`].
pub struct PortView {
    pub dir: Dir,
    pub name: Seq<char>,
    pub ty: Type,
}

/// The mathematical value of a [`Stmt`].
pub enum StmtView {
    Assign { id: Seq<char>, ex: ExprView },
    Declare { id: Seq<char>, ty: Type },
    DeclareAssign { id: Seq<char>, ty: Type, ex: ExprView },
}

/// The mathematical value of an [`Expr`].
#[allow(inconsistent_fields)]
pub enum ExprView {
    Binary { lex: Box<ExprView>, op: BinaryOp, rex: Box<ExprView> },
    Unary { op: UnaryOp, ex: Box<ExprView> },
    Paren { ex: Box<ExprView> },
    Ident { id: Seq<char> },
    Litrl { val: Seq<char> },
}

impl Type {
    /// The bounds of a bit vector are in order.
    pub open spec fn wf(self) -> bool {
        match self {
            Type::Bit => true,
            Type::BitVec { high, low } => high >= low,
        }
    }
}

/// The value of an expression.
pub open spec fn expr_view(expr: Expr) -> ExprView
    decreases expr,
{
    match expr {
        Expr::Binary { lex, op, rex } => ExprView::Binary {
            lex: Box::new(expr_view(*lex)),
            op,
            rex: Box::new(expr_view(*rex)),
        },
        Expr::Unary { op, ex } => ExprView::Unary { op, ex: Box::new(expr_view(*ex)) },
        Expr::Paren { ex } => ExprView::Paren { ex: Box::new(expr_view(*ex)) },
        Expr::Ident { id } => ExprView::Ident { id: id@ },
        Expr::Litrl { val } => ExprView::Litrl { val: val@ },
    }
}

impl View for Expr {
    type V = ExprView;

    open spec fn view(&self) -> ExprView {
        expr_view(*self)
    }
}

impl View for Stmt {
    type V = StmtView;

    open spec fn view(&self) -> StmtView {
        match self {
            Stmt::Assign { id, ex } => StmtView::Assign { id: id@, ex: ex@ },
            Stmt::Declare { id, ty } => StmtView::Declare { id: id@, ty: *ty },
            Stmt::DeclareAssign { id, ty, ex } => StmtView::DeclareAssign {
                id: id@,
                ty: *ty,
                ex: ex@,
            },
        }
    }
}

impl View for Port {
    type V = PortView;

    open spec fn view(&self) -> PortView {
        PortView { dir: self.dir, name: self.name@, ty: self.ty }
    }
}

/// The values of a sequence of ports.
pub open spec fn ports_view(ports: Seq<Port>) -> Seq<PortView> {
    ports.map_values(|port: Port| port@)
}

/// The values of a sequence of statements.
pub open spec fn stmts_view(stmts: Seq<Stmt>) -> Seq<StmtView> {
    stmts.map_values(|stmt: Stmt| stmt@)
}

impl View for Mod {
    type V = ModView;

    open spec fn view(&self) -> ModView {
        ModView {
            name: self.name@,
            ports: ports_view(self.ports@),
            stmts: stmts_view(self.stmts@),
        }
    }
}

impl View for Ast {
    type V = AstView;

    open spec fn view(&self) -> AstView {
        AstView { top: self.top@ }
    }
}

/// Copies an expression.
pub fn copy_expr(expr: &Expr) -> (copy: Expr)
    ensures
        copy@ == expr@,
    decreases expr,
{
    match expr {
        Expr::Binary { lex, op, rex } => Expr::Binary {
            lex: Box::new(copy_expr(lex)),
            op: *op,
            rex: Box::new(copy_expr(rex)),
        },
        Expr::Unary { op, ex } => Expr::Unary { op: *op, ex: Box::new(copy_expr(ex)) },
        Expr::Paren { ex } => Expr::Paren { ex: Box::new(copy_expr(ex)) },
        Expr::Ident { id } => Expr::Ident { id: id.clone() },
        Expr::Litrl { val } => Expr::Litrl { val: val.clone() },
    }
}

impl Clone for Expr {
    fn clone(&self) -> (copy: Self)
        ensures
            copy@ == self@,
    {
        copy_expr(self)
    }
}

} // verus!

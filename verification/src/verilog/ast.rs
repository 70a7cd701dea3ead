//! The Verilog tree and its text.

use vstd::prelude::*;
use vstd::string::*;

verus! {

/// A Verilog source: one module.
#[derive(Clone, Debug, PartialEq)]
pub struct Ast {
    pub top: Mod,
}

/// A Verilog module.
#[derive(Clone, Debug, PartialEq)]
pub struct Mod {
    pub name: String,
    pub ports: Vec<Port>,
    pub stmts: Vec<Stmt>,
}

/// A port of a Verilog module.
#[derive(Clone, Debug, PartialEq)]
pub struct Port {
    pub dir: Dir,
    pub name: String,
    pub ty: Type,
}

/// The direction of a port.
#[derive(Clone, Copy, Debug, PartialEq, Eq, Structural)]
pub enum Dir {
    Input,
    Output,
}

/// The type of a net. Widths are not written out.
#[derive(Clone, Copy, Debug, PartialEq, Eq, Structural)]
pub enum Type {
    Wire,
}

/// A statement of a Verilog module.
#[derive(Clone, Debug, PartialEq)]
pub enum Stmt {
    Assign { id: String, ex: Expr },
    Declare { id: String, ty: Type },
    DeclareAssign { id: String, ty: Type, ex: Expr },
}

/// A Verilog expression.
#[derive(Debug, PartialEq)]
#[allow(inconsistent_fields)]
pub enum Expr {
    Binary { lex: Box<Expr>, op: BinaryOp, rex: Box<Expr> },
    Unary { op: UnaryOp, ex: Box<Expr> },
    Paren { ex: Box<Expr> },
    Ident { id: String },
    Litrl { val: String },
}

/// The binary operators.
#[derive(Clone, Copy, Debug, PartialEq, Eq, Structural)]
pub enum BinaryOp {
    ShiftLeft,
    ShiftRight,
    BitAnd,
    BitXor,
    BitOr,
}

/// The unary operators.
#[derive(Clone, Copy, Debug, PartialEq, Eq, Structural)]
pub enum UnaryOp {
    Negate,
    ReductAnd,
    ReductXor,
    ReductOr,
}

/// The mathematical value of an [`Ast`].
pub struct AstView {
    pub top: ModView,
}

/// The mathematical value of a [`Mod`].
pub struct ModView {
    pub name: Seq<char>,
    pub ports: Seq<PortView>,
    pub stmts: Seq<StmtView>,
}

/// The mathematical value of a [`Port`].
pub struct PortView {
    pub dir: Dir,
    pub name: Seq<char>,
    pub ty: Type,
}

/// The mathematical value of a [`Stmt`].
pub enum StmtView {
    Assign { id: Seq<char>, ex: ExprView },
    Declare { id: Seq<char>, ty: Type },
    DeclareAssign { id: Seq<char>, ty: Type, ex: ExprView },
}

/// The mathematical value of an [`Expr`].
#[allow(inconsistent_fields)]
pub enum ExprView {
    Binary { lex: Box<ExprView>, op: BinaryOp, rex: Box<ExprView> },
    Unary { op: UnaryOp, ex: Box<ExprView> },
    Paren { ex: Box<ExprView> },
    Ident { id: Seq<char> },
    Litrl { val: Seq<char> },
}

/// The value of an expression.
pub open spec fn expr_view(expr: Expr) -> ExprView
    decreases expr,
{
    match expr {
        Expr::Binary { lex, op, rex } => ExprView::Binary {
            lex: Box::new(expr_view(*lex)),
            op,
            rex: Box::new(expr_view(*rex)),
        },
        Expr::Unary { op, ex } => ExprView::Unary { op, ex: Box::new(expr_view(*ex)) },
        Expr::Paren { ex } => ExprView::Paren { ex: Box::new(expr_view(*ex)) },
        Expr::Ident { id } => ExprView::Ident { id: id@ },
        Expr::Litrl { val } => ExprView::Litrl { val: val@ },
    }
}

impl View for Expr {
    type V = ExprView;

    open spec fn view(&self) -> ExprView {
        expr_view(*self)
    }
}

impl View for Stmt {
    type V = StmtView;

    open spec fn view(&self) -> StmtView {
        match self {
            Stmt::Assign { id, ex } => StmtView::Assign { id: id@, ex: ex@ },
            Stmt::Declare { id, ty } => StmtView::Declare { id: id@, ty: *ty },
            Stmt::DeclareAssign { id, ty, ex } => StmtView::DeclareAssign {
                id: id@,
                ty: *ty,
                ex: ex@,
            },
        }
    }
}

impl View for Port {
    type V = PortView;

    open spec fn view(&self) -> PortView {
        PortView { dir: self.dir, name: self.name@, ty: self.ty }
    }
}

/// The values of a sequence of ports.
pub open spec fn ports_view(ports: Seq<Port>) -> Seq<PortView> {
    ports.map_values(|port: Port| port@)
}

/// The values of a sequence of statements.
pub open spec fn stmts_view(stmts: Seq<Stmt>) -> Seq<StmtView> {
    stmts.map_values(|stmt: Stmt| stmt@)
}

impl View for Mod {
    type V = ModView;

    open spec fn view(&self) -> ModView {
        ModView {
            name: self.name@,
            ports: ports_view(self.ports@),
            stmts: stmts_view(self.stmts@),
        }
    }
}

impl View for Ast {
    type V = AstView;

    open spec fn view(&self) -> AstView {
        AstView { top: self.top@ }
    }
}

/// The text of a direction.
pub open spec fn dir_text(dir: Dir) -> Seq<char> {
    match dir {
        Dir::Input => "input"@,
        Dir::Output => "output"@,
    }
}

/// The text of a type.
pub open spec fn type_text(ty: Type) -> Seq<char> {
    match ty {
        Type::Wire => "wire"@,
    }
}

/// The text of a binary operator.
pub open spec fn binary_op_text(op: BinaryOp) -> Seq<char> {
    match op {
        BinaryOp::ShiftLeft => "<<"@,
        BinaryOp::ShiftRight => ">>"@,
        BinaryOp::BitAnd => "&"@,
        BinaryOp::BitXor => "^"@,
        BinaryOp::BitOr => "|"@,
    }
}

/// The text of a unary operator.
pub open spec fn unary_op_text(op: UnaryOp) -> Seq<char> {
    match op {
        UnaryOp::Negate => "~"@,
        UnaryOp::ReductAnd => "&"@,
        UnaryOp::ReductXor => "^"@,
        UnaryOp::ReductOr => "|"@,
    }
}

/// The text of an expression: a binary operator between single spaces, a
/// unary operator directly in front of its operand, and parentheses with a
/// space inside each.
pub open spec fn expr_text(expr: ExprView) -> Seq<char>
    decreases expr,
{
    match expr {
        ExprView::Binary { lex, op, rex } => expr_text(*lex) + " "@ + binary_op_text(op) + " "@
            + expr_text(*rex),
        ExprView::Unary { op, ex } => unary_op_text(op) + expr_text(*ex),
        ExprView::Paren { ex } => "( "@ + expr_text(*ex) + " )"@,
        ExprView::Ident { id } => id,
        ExprView::Litrl { val } => val,
    }
}

/// The text of a statement.
pub open spec fn stmt_text(stmt: StmtView) -> Seq<char> {
    match stmt {
        StmtView::Assign { id, ex } => "assign "@ + id + " = "@ + expr_text(ex) + ";"@,
        StmtView::Declare { id, ty } => type_text(ty) + " "@ + id + ";"@,
        StmtView::DeclareAssign { id, ty, ex } => type_text(ty) + " "@ + id + " = "@ + expr_text(
            ex,
        ) + ";"@,
    }
}

/// The text of a port.
pub open spec fn port_text(port: PortView) -> Seq<char> {
    dir_text(port.dir) + " "@ + type_text(port.ty) + " "@ + port.name
}

/// The lines of the first `count` ports of a list: one port on each,
/// behind a tab, with a comma behind every port but the last of the list.
pub open spec fn port_lines(ports: Seq<PortView>, count: int) -> Seq<char>
    decreases count,
{
    if count <= 0 {
        Seq::empty()
    } else {
        port_lines(ports, count - 1) + "\t"@ + port_text(ports[count - 1]) + if count
            == ports.len() {
            " \n"@
        } else {
            ", \n"@
        }
    }
}

/// The lines of the first `count` statements of a list: one statement on
/// each, behind a tab.
pub open spec fn stmt_lines(stmts: Seq<StmtView>, count: int) -> Seq<char>
    decreases count,
{
    if count <= 0 {
        Seq::empty()
    } else {
        stmt_lines(stmts, count - 1) + "\t"@ + stmt_text(stmts[count - 1]) + " \n"@
    }
}

/// The text of a module.
pub open spec fn mod_text(module: ModView) -> Seq<char> {
    "module "@ + module.name + " ( \n"@ + port_lines(module.ports, module.ports.len() as int)
        + "); \n"@ + stmt_lines(module.stmts, module.stmts.len() as int) + "endmodule \n"@
}

/// The text of a Verilog source.
pub open spec fn ast_text(ast: AstView) -> Seq<char> {
    mod_text(ast.top)
}

impl Dir {
    /// Writes the direction out.
    pub fn render(&self) -> (text: String)
        ensures
            text@ == dir_text(*self),
    {
        match self {
            Dir::Input => String::from_str("input"),
            Dir::Output => String::from_str("output"),
        }
    }
}

impl Type {
    /// Writes the type out.
    pub fn render(&self) -> (text: String)
        ensures
            text@ == type_text(*self),
    {
        match self {
            Type::Wire => String::from_str("wire"),
        }
    }
}

impl BinaryOp {
    /// Writes the operator out.
    pub fn render(&self) -> (text: String)
        ensures
            text@ == binary_op_text(*self),
    {
        match self {
            BinaryOp::ShiftLeft => String::from_str("<<"),
            BinaryOp::ShiftRight => String::from_str(">>"),
            BinaryOp::BitAnd => String::from_str("&"),
            BinaryOp::BitXor => String::from_str("^"),
            BinaryOp::BitOr => String::from_str("|"),
        }
    }
}

impl UnaryOp {
    /// Writes the operator out.
    pub fn render(&self) -> (text: String)
        ensures
            text@ == unary_op_text(*self),
    {
        match self {
            UnaryOp::Negate => String::from_str("~"),
            UnaryOp::ReductAnd => String::from_str("&"),
            UnaryOp::ReductXor => String::from_str("^"),
            UnaryOp::ReductOr => String::from_str("|"),
        }
    }
}

impl Expr {
    /// Writes the expression out.
    pub fn render(&self) -> (text: String)
        ensures
            text@ == expr_text(self@),
        decreases self,
    {
        match self {
            Expr::Binary { lex, op, rex } => {
                let mut text = lex.render();
                text.append(" ");
                text.append(op.render().as_str());
                text.append(" ");
                text.append(rex.render().as_str());
                text
            },
            Expr::Unary { op, ex } => {
                let mut text = op.render();
                text.append(ex.render().as_str());
                text
            },
            Expr::Paren { ex } => {
                let mut text = String::from_str("( ");
                text.append(ex.render().as_str());
                text.append(" )");
                text
            },
            Expr::Ident { id } => id.clone(),
            Expr::Litrl { val } => val.clone(),
        }
    }
}

impl Stmt {
    /// Writes the statement out.
    pub fn render(&self) -> (text: String)
        ensures
            text@ == stmt_text(self@),
    {
        match self {
            Stmt::Assign { id, ex } => {
                let mut text = String::from_str("assign ");
                text.append(id.as_str());
                text.append(" = ");
                text.append(ex.render().as_str());
                text.append(";");
                text
            },
            Stmt::Declare { id, ty } => {
                let mut text = ty.render();
                text.append(" ");
                text.append(id.as_str());
                text.append(";");
                text
            },
            Stmt::DeclareAssign { id, ty, ex } => {
                let mut text = ty.render();
                text.append(" ");
                text.append(id.as_str());
                text.append(" = ");
                text.append(ex.render().as_str());
                text.append(";");
                text
            },
        }
    }
}

impl Port {
    /// Writes the port out.
    pub fn render(&self) -> (text: String)
        ensures
            text@ == port_text(self@),
    {
        let mut text = self.dir.render();
        text.append(" ");
        text.append(self.ty.render().as_str());
        text.append(" ");
        text.append(self.name.as_str());
        text
    }
}

impl Mod {
    /// Writes the module out.
    pub fn render(&self) -> (text: String)
        ensures
            text@ == mod_text(self@),
    {
        let mut ports = String::new();
        let ports_len = self.ports.len();
        for idx in 0..ports_len
            invariant
                ports_len == self.ports.len(),
                ports@ == port_lines(ports_view(self.ports@), idx as int),
        {
            ports.append("\t");
            ports.append(self.ports[idx].render().as_str());
            if idx == ports_len - 1 {
                ports.append(" \n");
            } else {
                ports.append(", \n");
            }
        }
        let mut stmts = String::new();
        for idx in 0..self.stmts.len()
            invariant
                stmts@ == stmt_lines(stmts_view(self.stmts@), idx as int),
        {
            stmts.append("\t");
            stmts.append(self.stmts[idx].render().as_str());
            stmts.append(" \n");
        }
        let mut text = String::from_str("module ");
        text.append(self.name.as_str());
        text.append(" ( \n");
        text.append(ports.as_str());
        text.append("); \n");
        text.append(stmts.as_str());
        text.append("endmodule \n");
        text
    }
}

impl Ast {
    /// Writes the source out.
    pub fn render(&self) -> (text: String)
        ensures
            text@ == ast_text(self@),
    {
        self.top.render()
    }
}

/// Copies an expression.
pub fn copy_expr(expr: &Expr) -> (copy: Expr)
    ensures
        copy@ == expr@,
    decreases expr,
{
    match expr {
        Expr::Binary { lex, op, rex } => Expr::Binary {
            lex: Box::new(copy_expr(lex)),
            op: *op,
            rex: Box::new(copy_expr(rex)),
        },
        Expr::Unary { op, ex } => Expr::Unary { op: *op, ex: Box::new(copy_expr(ex)) },
        Expr::Paren { ex } => Expr::Paren { ex: Box::new(copy_expr(ex)) },
        Expr::Ident { id } => Expr::Ident { id: id.clone() },
        Expr::Litrl { val } => Expr::Litrl { val: val.clone() },
    }
}

impl Clone for Expr {
    fn clone(&self) -> (copy: Self)
        ensures
            copy@ == self@,
    {
        copy_expr(self)
    }
}

/// How often the character `c` stands in `text`.
pub open spec fn occurrences(text: Seq<char>, c: char) -> nat
    decreases text.len(),
{
    if text.len() == 0 {
        0
    } else {
        occurrences(text.drop_last(), c) + if text.last() == c {
            1nat
        } else {
            0nat
        }
    }
}

/// No name and no literal of the expression holds an assignment sign.
pub open spec fn plain(expr: ExprView) -> bool
    decreases expr,
{
    match expr {
        ExprView::Binary { lex, op, rex } => plain(*lex) && plain(*rex),
        ExprView::Unary { op, ex } => plain(*ex),
        ExprView::Paren { ex } => plain(*ex),
        ExprView::Ident { id } => occurrences(id, '=') == 0,
        ExprView::Litrl { val } => occurrences(val, '=') == 0,
    }
}

/// The occurrences in a concatenation are those in its parts.
pub proof fn lemma_occurrences_concat(first: Seq<char>, second: Seq<char>, c: char)
    ensures
        occurrences(first + second, c) == occurrences(first, c) + occurrences(second, c),
    decreases second.len(),
{
    if second.len() == 0 {
        assert(first + second =~= first);
    } else {
        assert((first + second).drop_last() =~= first + second.drop_last());
        lemma_occurrences_concat(first, second.drop_last(), c);
    }
}

/// A character that stands nowhere in a text occurs in it no times.
pub proof fn lemma_occurrences_none(text: Seq<char>, c: char)
    requires
        forall|i: int| 0 <= i < text.len() ==> text[i] != c,
    ensures
        occurrences(text, c) == 0,
    decreases text.len(),
{
    if text.len() > 0 {
        lemma_occurrences_none(text.drop_last(), c);
    }
}

/// The fixed pieces of Verilog text and their assignment signs: only the
/// piece that joins a name and its value holds one.
proof fn lemma_fixed_text_assign_signs()
    ensures
        occurrences(" "@, '=') == 0,
        occurrences(";"@, '=') == 0,
        occurrences("( "@, '=') == 0,
        occurrences(" )"@, '=') == 0,
        occurrences("assign "@, '=') == 0,
        occurrences(" = "@, '=') == 1,
        forall|ty: Type| occurrences(#[trigger] type_text(ty), '=') == 0,
        forall|op: BinaryOp| occurrences(#[trigger] binary_op_text(op), '=') == 0,
        forall|op: UnaryOp| occurrences(#[trigger] unary_op_text(op), '=') == 0,
{
    reveal_strlit(" ");
    reveal_strlit(";");
    reveal_strlit("( ");
    reveal_strlit(" )");
    reveal_strlit("assign ");
    reveal_strlit(" = ");
    reveal_strlit("wire");
    reveal_strlit("<<");
    reveal_strlit(">>");
    reveal_strlit("&");
    reveal_strlit("^");
    reveal_strlit("|");
    reveal_strlit("~");
    lemma_occurrences_none(" "@, '=');
    lemma_occurrences_none(";"@, '=');
    lemma_occurrences_none("( "@, '=');
    lemma_occurrences_none(" )"@, '=');
    lemma_occurrences_none("assign "@, '=');
    lemma_occurrences_none("wire"@, '=');
    lemma_occurrences_none("<<"@, '=');
    lemma_occurrences_none(">>"@, '=');
    lemma_occurrences_none("&"@, '=');
    lemma_occurrences_none("^"@, '=');
    lemma_occurrences_none("|"@, '=');
    lemma_occurrences_none("~"@, '=');
    assert(" = "@ =~= " "@ + seq!['='] + " "@);
    lemma_occurrences_concat(" "@ + seq!['='], " "@, '=');
    lemma_occurrences_concat(" "@, seq!['='], '=');
    assert(seq!['='].drop_last() =~= Seq::<char>::empty());
    assert(occurrences(seq!['='], '=') == 1) by {
        reveal_with_fuel(occurrences, 2);
    }
}

/// The text of an expression holds no assignment sign, unless a name or a
/// literal brings one.
pub proof fn lemma_expr_text_has_no_assign_sign(expr: ExprView)
    requires
        plain(expr),
    ensures
        occurrences(expr_text(expr), '=') == 0,
    decreases expr,
{
    lemma_fixed_text_assign_signs();
    match expr {
        ExprView::Binary { lex, op, rex } => {
            lemma_expr_text_has_no_assign_sign(*lex);
            lemma_expr_text_has_no_assign_sign(*rex);
            let a = expr_text(*lex);
            lemma_occurrences_concat(a, " "@, '=');
            lemma_occurrences_concat(a + " "@, binary_op_text(op), '=');
            lemma_occurrences_concat(a + " "@ + binary_op_text(op), " "@, '=');
            lemma_occurrences_concat(
                a + " "@ + binary_op_text(op) + " "@,
                expr_text(*rex),
                '=',
            );
        },
        ExprView::Unary { op, ex } => {
            lemma_expr_text_has_no_assign_sign(*ex);
            lemma_occurrences_concat(unary_op_text(op), expr_text(*ex), '=');
        },
        ExprView::Paren { ex } => {
            lemma_expr_text_has_no_assign_sign(*ex);
            lemma_occurrences_concat("( "@, expr_text(*ex), '=');
            lemma_occurrences_concat("( "@ + expr_text(*ex), " )"@, '=');
        },
        ExprView::Ident { id } => {},
        ExprView::Litrl { val } => {},
    }
}

/// A declaration without a value is written without an assignment sign,
/// and a declaration with a value with exactly one, in front of its
/// expression, where no name and no literal holds such a sign itself.
pub proof fn lemma_assign_signs_of_declarations(stmt: StmtView)
    requires
        match stmt {
            StmtView::Assign { id, ex } => occurrences(id, '=') == 0 && plain(ex),
            StmtView::Declare { id, ty } => occurrences(id, '=') == 0,
            StmtView::DeclareAssign { id, ty, ex } => occurrences(id, '=') == 0 && plain(ex),
        },
    ensures
        match stmt {
            StmtView::Assign { id, ex } => occurrences(stmt_text(stmt), '=') == 1,
            StmtView::Declare { id, ty } => occurrences(stmt_text(stmt), '=') == 0,
            StmtView::DeclareAssign { id, ty, ex } => {
                &&& occurrences(stmt_text(stmt), '=') == 1
                &&& stmt_text(stmt) == type_text(ty) + " "@ + id + " = "@ + expr_text(ex) + ";"@
            },
        },
{
    lemma_fixed_text_assign_signs();
    match stmt {
        StmtView::Assign { id, ex } => {
            lemma_expr_text_has_no_assign_sign(ex);
            lemma_occurrences_concat("assign "@, id, '=');
            lemma_occurrences_concat("assign "@ + id, " = "@, '=');
            lemma_occurrences_concat("assign "@ + id + " = "@, expr_text(ex), '=');
            lemma_occurrences_concat("assign "@ + id + " = "@ + expr_text(ex), ";"@, '=');
        },
        StmtView::Declare { id, ty } => {
            lemma_occurrences_concat(type_text(ty), " "@, '=');
            lemma_occurrences_concat(type_text(ty) + " "@, id, '=');
            lemma_occurrences_concat(type_text(ty) + " "@ + id, ";"@, '=');
        },
        StmtView::DeclareAssign { id, ty, ex } => {
            lemma_expr_text_has_no_assign_sign(ex);
            lemma_occurrences_concat(type_text(ty), " "@, '=');
            lemma_occurrences_concat(type_text(ty) + " "@, id, '=');
            lemma_occurrences_concat(type_text(ty) + " "@ + id, " = "@, '=');
            lemma_occurrences_concat(type_text(ty) + " "@ + id + " = "@, expr_text(ex), '=');
            lemma_occurrences_concat(
                type_text(ty) + " "@ + id + " = "@ + expr_text(ex),
                ";"@,
                '=',
            );
        },
    }
}

} // verus!

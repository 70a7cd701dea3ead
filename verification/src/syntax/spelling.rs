//! What it means for items to spell a tree, and the laws that tie parsing
//! to it: parsing yields a tree exactly for the items that spell a
//! well-grouped tree, and yields that tree.

use crate::syntax::ast::{AstView, ExprView, ModView, PortView, StmtView, Type};
use crate::syntax::error::ParseErrorView;
use crate::syntax::grammar::{
    atom_tier, binary_op, binary_token, bound_at, description, direction_at, expr_at,
    lemma_names_describe_admitted,
    expr_rest, name_at, operator_at, ports_at, remaining, source_tree, stmt_at, stmt_width,
    stmts_at, stmts_width, tier, token_at, type_at, type_width, typing_at, unary_op, unary_tier,
    unary_token, unexpected, value_at, Expect,
};
use crate::syntax::lexer::{InvalidCharacterError, ItemView};
use crate::syntax::BytePos;
use crate::syntax::token::TokenView;
use vstd::prelude::*;

verus! {

impl ExprView {
    /// The tokens that spell this expression.
    pub open spec fn tokens(self) -> Seq<TokenView>
        decreases self,
    {
        match self {
            ExprView::Binary { lex, op, rex } => lex.tokens() + seq![binary_token(op)]
                + rex.tokens(),
            ExprView::Unary { op, ex } => seq![unary_token(op)] + ex.tokens(),
            ExprView::Paren { ex } => seq![TokenView::LeftParen] + ex.tokens() + seq![
                TokenView::RightParen,
            ],
            ExprView::Ident { id } => seq![TokenView::Ident(id)],
            ExprView::Litrl { val } => seq![TokenView::Litrl(val)],
        }
    }

    /// Every operand binds as tightly as its place asks: the left operand
    /// of a binary operator at least as tightly as the operator, the right
    /// one tighter, and the operand of a unary operator as tightly as a
    /// unary operator. Looser operands stand in parentheses.
    pub open spec fn grouped(self) -> bool
        decreases self,
    {
        match self {
            ExprView::Binary { lex, op, rex } => {
                &&& lex.level() >= tier(op)
                &&& rex.level() > tier(op)
                &&& lex.grouped()
                &&& rex.grouped()
            },
            ExprView::Unary { op, ex } => ex.level() >= unary_tier() && ex.grouped(),
            ExprView::Paren { ex } => ex.grouped(),
            ExprView::Ident { id } => true,
            ExprView::Litrl { val } => true,
        }
    }
}

/// The items from `pos` on are the tokens `tokens`, one for one.
pub open spec fn spells(items: Seq<ItemView>, pos: int, tokens: Seq<TokenView>) -> bool {
    forall|i: int| 0 <= i < tokens.len() ==> token_at(items, pos + i) == Some(#[trigger] tokens[i])
}

/// No binary operator that binds tighter than `level` stands at `pos`.
pub open spec fn loose_at(items: Seq<ItemView>, level: nat, pos: int) -> bool {
    match token_at(items, pos) {
        Some(token) => match binary_op(token) {
            Some(op) => tier(op) <= level,
            None => true,
        },
        None => true,
    }
}

/// An expression has as many tokens as its width says.
pub proof fn lemma_tokens_width(expr: ExprView)
    ensures
        expr.tokens().len() == expr.width(),
        expr.width() >= 1,
    decreases expr,
{
    match expr {
        ExprView::Binary { lex, op, rex } => {
            lemma_tokens_width(*lex);
            lemma_tokens_width(*rex);
        },
        ExprView::Unary { op, ex } => {
            lemma_tokens_width(*ex);
        },
        ExprView::Paren { ex } => {
            lemma_tokens_width(*ex);
        },
        ExprView::Ident { id } => {},
        ExprView::Litrl { val } => {},
    }
}

/// Items spell a concatenation where they spell its parts one behind the
/// other.
pub proof fn lemma_spells_concat(
    items: Seq<ItemView>,
    pos: int,
    first: Seq<TokenView>,
    second: Seq<TokenView>,
)
    ensures
        spells(items, pos, first + second) <==> spells(items, pos, first) && spells(
            items,
            pos + first.len(),
            second,
        ),
{
    let whole = first + second;
    if spells(items, pos, whole) {
        assert forall|i: int| 0 <= i < first.len() implies token_at(items, pos + i) == Some(
            #[trigger] first[i],
        ) by {
            assert(whole[i] == first[i]);
        }
        assert forall|i: int| 0 <= i < second.len() implies token_at(
            items,
            pos + first.len() + i,
        ) == Some(#[trigger] second[i]) by {
            assert(whole[first.len() + i] == second[i]);
        }
    }
    if spells(items, pos, first) && spells(items, pos + first.len(), second) {
        assert forall|i: int| 0 <= i < whole.len() implies token_at(items, pos + i) == Some(
            #[trigger] whole[i],
        ) by {
            if i < first.len() {
                assert(whole[i] == first[i]);
            } else {
                assert(whole[i] == second[i - first.len()]);
                assert(pos + first.len() + (i - first.len()) == pos + i);
            }
        }
    }
}

/// Items spell a single token where that token stands.
pub proof fn lemma_spells_one(items: Seq<ItemView>, pos: int, token: TokenView)
    ensures
        spells(items, pos, seq![token]) <==> token_at(items, pos) == Some(token),
{
    let one = seq![token];
    if spells(items, pos, one) {
        assert(one[0] == token);
        assert(token_at(items, pos + 0) == Some(one[0]));
    }
}

/// How the items spell the parts of an expression.
pub proof fn lemma_spells_expr(items: Seq<ItemView>, pos: int, expr: ExprView)
    ensures
        match expr {
            ExprView::Binary { lex, op, rex } => spells(items, pos, expr.tokens()) <==> {
                &&& spells(items, pos, lex.tokens())
                &&& token_at(items, pos + lex.width()) == Some(binary_token(op))
                &&& spells(items, pos + lex.width() + 1, rex.tokens())
            },
            ExprView::Unary { op, ex } => spells(items, pos, expr.tokens()) <==> {
                &&& token_at(items, pos) == Some(unary_token(op))
                &&& spells(items, pos + 1, ex.tokens())
            },
            ExprView::Paren { ex } => spells(items, pos, expr.tokens()) <==> {
                &&& token_at(items, pos) == Some(TokenView::LeftParen)
                &&& spells(items, pos + 1, ex.tokens())
                &&& token_at(items, pos + 1 + ex.width()) == Some(TokenView::RightParen)
            },
            ExprView::Ident { id } => spells(items, pos, expr.tokens()) <==> token_at(items, pos)
                == Some(TokenView::Ident(id)),
            ExprView::Litrl { val } => spells(items, pos, expr.tokens()) <==> token_at(
                items,
                pos,
            ) == Some(TokenView::Litrl(val)),
        },
{
    match expr {
        ExprView::Binary { lex, op, rex } => {
            lemma_tokens_width(*lex);
            let head = lex.tokens() + seq![binary_token(op)];
            lemma_spells_concat(items, pos, head, rex.tokens());
            lemma_spells_concat(items, pos, lex.tokens(), seq![binary_token(op)]);
            lemma_spells_one(items, pos + lex.width(), binary_token(op));
        },
        ExprView::Unary { op, ex } => {
            lemma_spells_concat(items, pos, seq![unary_token(op)], ex.tokens());
            lemma_spells_one(items, pos, unary_token(op));
        },
        ExprView::Paren { ex } => {
            lemma_tokens_width(*ex);
            let head = seq![TokenView::LeftParen] + ex.tokens();
            lemma_spells_concat(items, pos, head, seq![TokenView::RightParen]);
            lemma_spells_concat(items, pos, seq![TokenView::LeftParen], ex.tokens());
            lemma_spells_one(items, pos, TokenView::LeftParen);
            lemma_spells_one(items, pos + 1 + ex.width(), TokenView::RightParen);
        },
        ExprView::Ident { id } => {
            lemma_spells_one(items, pos, TokenView::Ident(id));
        },
        ExprView::Litrl { val } => {
            lemma_spells_one(items, pos, TokenView::Litrl(val));
        },
    }
}

/// What parsing takes for an expression is a well-grouped expression of
/// the tier that was asked for, and the items spell it.
pub proof fn lemma_expr_at_sound(items: Seq<ItemView>, level: nat, pos: int)
    requires
        level <= atom_tier(),
        expr_at(items, level, pos) is Ok,
    ensures
        expr_at(items, level, pos)->Ok_0.grouped(),
        expr_at(items, level, pos)->Ok_0.level() >= level,
        spells(items, pos, expr_at(items, level, pos)->Ok_0.tokens()),
    decreases remaining(items, pos), 6 - level,
{
    let expr = expr_at(items, level, pos)->Ok_0;
    if level < unary_tier() {
        lemma_expr_at_sound(items, level + 1, pos);
        let first = expr_at(items, level + 1, pos)->Ok_0;
        lemma_expr_rest_sound(items, level, first, pos, pos + first.width());
    } else if level == unary_tier() {
        let token = token_at(items, pos);
        if token is Some && unary_op(token->0) is Some {
            lemma_expr_at_sound(items, level, pos + 1);
            lemma_spells_expr(items, pos, expr);
        } else {
            lemma_expr_at_sound(items, atom_tier(), pos);
        }
    } else {
        lemma_spells_expr(items, pos, expr);
        if token_at(items, pos) == Some(TokenView::LeftParen) {
            lemma_expr_at_sound(items, 0, pos + 1);
        }
    }
}

/// What parsing makes of a left operand and the operators behind it is a
/// well-grouped expression of the operators' tier, and the items spell it.
pub proof fn lemma_expr_rest_sound(
    items: Seq<ItemView>,
    level: nat,
    left: ExprView,
    start: int,
    pos: int,
)
    requires
        level < unary_tier(),
        left.grouped(),
        left.level() >= level,
        spells(items, start, left.tokens()),
        pos == start + left.width(),
        expr_rest(items, level, left, pos) is Ok,
    ensures
        expr_rest(items, level, left, pos)->Ok_0.grouped(),
        expr_rest(items, level, left, pos)->Ok_0.level() >= level,
        spells(items, start, expr_rest(items, level, left, pos)->Ok_0.tokens()),
    decreases remaining(items, pos), 0int,
{
    match operator_at(items, level, pos) {
        Some(op) => {
            lemma_expr_at_sound(items, level + 1, pos + 1);
            let right = expr_at(items, level + 1, pos + 1)->Ok_0;
            let joined = ExprView::Binary { lex: Box::new(left), op, rex: Box::new(right) };
            lemma_spells_expr(items, start, joined);
            lemma_expr_rest_sound(items, level, joined, start, pos + 1 + right.width());
        },
        None => {},
    }
}

/// Parsing finds a well-grouped expression that the items spell: at the
/// tiers of the binary operators it goes on from there with the operators
/// that follow, at the tighter tiers it yields the expression.
pub proof fn lemma_expr_at_complete(items: Seq<ItemView>, level: nat, pos: int, expr: ExprView)
    requires
        level <= atom_tier(),
        expr.grouped(),
        expr.level() >= level,
        spells(items, pos, expr.tokens()),
        loose_at(items, level, pos + expr.width()),
    ensures
        level < unary_tier() ==> expr_at(items, level, pos) == expr_rest(
            items,
            level,
            expr,
            pos + expr.width(),
        ),
        level >= unary_tier() ==> expr_at(items, level, pos) == Ok::<ExprView, ParseErrorView>(
            expr,
        ),
    decreases expr, 6 - level,
{
    lemma_spells_expr(items, pos, expr);
    lemma_tokens_width(expr);
    let end = pos + expr.width();
    if level < unary_tier() {
        if expr.level() > level {
            lemma_expr_at_complete(items, level + 1, pos, expr);
            assert(expr_at(items, level + 1, pos) == Ok::<ExprView, ParseErrorView>(expr));
        } else {
            match expr {
                ExprView::Binary { lex, op, rex } => {
                    let middle = pos + lex.width();
                    lemma_expr_at_complete(items, level, pos, *lex);
                    lemma_expr_at_complete(items, level + 1, middle + 1, *rex);
                    assert(operator_at(items, level, middle) == Some(op));
                    assert(expr_at(items, level + 1, middle + 1) == Ok::<
                        ExprView,
                        ParseErrorView,
                    >(*rex));
                },
                _ => {},
            }
        }
    } else if level == unary_tier() {
        match expr {
            ExprView::Unary { op, ex } => {
                lemma_expr_at_complete(items, level, pos + 1, *ex);
            },
            _ => {
                lemma_expr_at_complete(items, atom_tier(), pos, expr);
            },
        }
    } else {
        match expr {
            ExprView::Paren { ex } => {
                lemma_expr_at_complete(items, 0, pos + 1, *ex);
            },
            _ => {},
        }
    }
}

/// Parsing yields a well-grouped expression that the items spell where no
/// binary operator stands behind it.
pub proof fn lemma_expr_complete(items: Seq<ItemView>, pos: int, expr: ExprView)
    requires
        expr.grouped(),
        spells(items, pos, expr.tokens()),
        match token_at(items, pos + expr.width()) {
            Some(token) => binary_op(token) is None,
            None => true,
        },
    ensures
        expr_at(items, 0, pos) == Ok::<ExprView, ParseErrorView>(expr),
{
    lemma_expr_at_complete(items, 0, pos, expr);
}

impl StmtView {
    /// The expression of the statement is well grouped, and the bounds of
    /// its type are in order.
    pub open spec fn wf(self) -> bool {
        match self {
            StmtView::Assign { id, ex } => ex.grouped(),
            StmtView::Declare { id, ty } => ty.wf(),
            StmtView::DeclareAssign { id, ty, ex } => ty.wf() && ex.grouped(),
        }
    }
}

impl PortView {
    /// The bounds of the port's type are in order.
    pub open spec fn wf(self) -> bool {
        self.ty.wf()
    }
}

impl ModView {
    /// All ports and statements of the module are well formed.
    pub open spec fn wf(self) -> bool {
        &&& forall|i: int| 0 <= i < self.ports.len() ==> (#[trigger] self.ports[i]).wf()
        &&& forall|i: int| 0 <= i < self.stmts.len() ==> (#[trigger] self.stmts[i]).wf()
    }
}

impl AstView {
    /// The module of the tree is well formed.
    pub open spec fn wf(self) -> bool {
        self.top.wf()
    }
}

/// The items from `pos` on spell the type `ty`. The bounds of a bit vector
/// may be written with leading zeros.
pub open spec fn type_spelled(items: Seq<ItemView>, pos: int, ty: Type) -> bool {
    match ty {
        Type::Bit => token_at(items, pos) == Some(TokenView::Bit),
        Type::BitVec { high, low } => {
            &&& token_at(items, pos) == Some(TokenView::Bit)
            &&& token_at(items, pos + 1) == Some(TokenView::LeftSquareBrace)
            &&& bound_at(items, pos + 2) == Some(high)
            &&& token_at(items, pos + 3) == Some(TokenView::Colon)
            &&& bound_at(items, pos + 4) == Some(low)
            &&& token_at(items, pos + 5) == Some(TokenView::RightSquareBrace)
        },
    }
}

/// The number of tokens that spell a port.
pub open spec fn port_width(port: PortView) -> nat {
    3 + type_width(port.ty)
}

/// The items from `pos` on spell the port `port`.
pub open spec fn port_spelled(items: Seq<ItemView>, pos: int, port: PortView) -> bool {
    &&& direction_at(items, pos) == Some(port.dir)
    &&& token_at(items, pos + 1) == Some(TokenView::Ident(port.name))
    &&& token_at(items, pos + 2) == Some(TokenView::Colon)
    &&& type_spelled(items, pos + 3, port.ty)
}

/// The items from `pos` on spell the ports `ports` with commas between
/// them, and with a comma behind the last where `trailing` says so.
pub open spec fn ports_spelled(
    items: Seq<ItemView>,
    pos: int,
    ports: Seq<PortView>,
    trailing: bool,
) -> bool
    decreases ports.len(),
{
    if ports.len() == 0 {
        !trailing
    } else {
        let after = pos + port_width(ports[0]);
        &&& port_spelled(items, pos, ports[0])
        &&& if ports.len() == 1 {
            trailing ==> token_at(items, after) == Some(TokenView::Comma)
        } else {
            token_at(items, after) == Some(TokenView::Comma) && ports_spelled(
                items,
                after + 1,
                ports.drop_first(),
                trailing,
            )
        }
    }
}

/// The position behind a port list that starts at `pos`.
pub open spec fn ports_end(pos: int, ports: Seq<PortView>, trailing: bool) -> int
    decreases ports.len(),
{
    if ports.len() == 0 {
        pos
    } else if ports.len() == 1 {
        pos + port_width(ports[0]) + if trailing {
            1int
        } else {
            0int
        }
    } else {
        ports_end(pos + port_width(ports[0]) + 1, ports.drop_first(), trailing)
    }
}

/// The items from `pos` on spell the statement `stmt`.
pub open spec fn stmt_spelled(items: Seq<ItemView>, pos: int, stmt: StmtView) -> bool {
    match stmt {
        StmtView::Assign { id, ex } => {
            &&& token_at(items, pos) == Some(TokenView::Ident(id))
            &&& token_at(items, pos + 1) == Some(TokenView::Assign)
            &&& spells(items, pos + 2, ex.tokens())
            &&& token_at(items, pos + 2 + ex.width()) == Some(TokenView::Semicolon)
        },
        StmtView::Declare { id, ty } => {
            &&& token_at(items, pos) == Some(TokenView::Let)
            &&& token_at(items, pos + 1) == Some(TokenView::Ident(id))
            &&& token_at(items, pos + 2) == Some(TokenView::Colon)
            &&& type_spelled(items, pos + 3, ty)
            &&& token_at(items, pos + 3 + type_width(ty)) == Some(TokenView::Semicolon)
        },
        StmtView::DeclareAssign { id, ty, ex } => {
            &&& token_at(items, pos) == Some(TokenView::Let)
            &&& token_at(items, pos + 1) == Some(TokenView::Ident(id))
            &&& token_at(items, pos + 2) == Some(TokenView::Colon)
            &&& type_spelled(items, pos + 3, ty)
            &&& token_at(items, pos + 3 + type_width(ty)) == Some(TokenView::Assign)
            &&& spells(items, pos + 4 + type_width(ty), ex.tokens())
            &&& token_at(items, pos + 4 + type_width(ty) + ex.width()) == Some(
                TokenView::Semicolon,
            )
        },
    }
}

/// The items from `pos` on spell the statements `stmts`, one behind the
/// other.
pub open spec fn stmts_spelled(items: Seq<ItemView>, pos: int, stmts: Seq<StmtView>) -> bool
    decreases stmts.len(),
{
    if stmts.len() == 0 {
        true
    } else {
        stmt_spelled(items, pos, stmts[0]) && stmts_spelled(
            items,
            pos + stmt_width(stmts[0]),
            stmts.drop_first(),
        )
    }
}

/// The items spell the tree `tree`, all of them and nothing else: `top`
/// and `mod`, the name, the ports in parentheses, and the statements in
/// braces. `trailing` says whether a comma stands behind the last port.
pub open spec fn source_spelled(items: Seq<ItemView>, tree: AstView, trailing: bool) -> bool {
    let module = tree.top;
    let close = ports_end(4, module.ports, trailing);
    let end = close + 2 + stmts_width(module.stmts);
    &&& token_at(items, 0) == Some(TokenView::Top)
    &&& token_at(items, 1) == Some(TokenView::Mod)
    &&& token_at(items, 2) == Some(TokenView::Ident(module.name))
    &&& token_at(items, 3) == Some(TokenView::LeftParen)
    &&& ports_spelled(items, 4, module.ports, trailing)
    &&& token_at(items, close) == Some(TokenView::RightParen)
    &&& token_at(items, close + 1) == Some(TokenView::LeftCurlyBrace)
    &&& stmts_spelled(items, close + 2, module.stmts)
    &&& token_at(items, end) == Some(TokenView::RightCurlyBrace)
    &&& items.len() == end + 1
}

/// What parsing takes for a type is spelled by the items, and its bounds
/// are in order.
pub proof fn lemma_type_at_sound(items: Seq<ItemView>, pos: int)
    requires
        type_at(items, pos) is Ok,
    ensures
        type_spelled(items, pos, type_at(items, pos)->Ok_0),
        type_at(items, pos)->Ok_0.wf(),
        type_at(items, pos)->Ok_0 is Bit ==> token_at(items, pos + 1) != Some(
            TokenView::LeftSquareBrace,
        ),
{
}

/// Parsing yields a type that the items spell, where its bounds are in
/// order and no bracket follows a plain `bit`.
pub proof fn lemma_type_at_complete(items: Seq<ItemView>, pos: int, ty: Type)
    requires
        type_spelled(items, pos, ty),
        ty.wf(),
        ty is Bit ==> token_at(items, pos + 1) != Some(TokenView::LeftSquareBrace),
    ensures
        type_at(items, pos) == Ok::<Type, ParseErrorView>(ty),
{
}

/// What parsing takes for a statement is well formed, and the items spell
/// it.
pub proof fn lemma_stmt_at_sound(items: Seq<ItemView>, pos: int)
    requires
        stmt_at(items, pos) is Ok,
    ensures
        stmt_spelled(items, pos, stmt_at(items, pos)->Ok_0),
        stmt_at(items, pos)->Ok_0.wf(),
{
    match token_at(items, pos) {
        Some(TokenView::Ident(id)) => {
            lemma_expr_at_sound(items, 0, pos + 2);
        },
        Some(TokenView::Let) => {
            lemma_type_at_sound(items, pos + 3);
            let ty = type_at(items, pos + 3)->Ok_0;
            let after = pos + 3 + type_width(ty);
            if token_at(items, after) == Some(TokenView::Assign) {
                lemma_expr_at_sound(items, 0, after + 1);
            }
        },
        _ => {},
    }
}

/// Parsing yields a well-formed statement that the items spell.
pub proof fn lemma_stmt_at_complete(items: Seq<ItemView>, pos: int, stmt: StmtView)
    requires
        stmt_spelled(items, pos, stmt),
        stmt.wf(),
    ensures
        stmt_at(items, pos) == Ok::<StmtView, ParseErrorView>(stmt),
{
    match stmt {
        StmtView::Assign { id, ex } => {
            lemma_expr_complete(items, pos + 2, ex);
        },
        StmtView::Declare { id, ty } => {
            lemma_type_at_complete(items, pos + 3, ty);
        },
        StmtView::DeclareAssign { id, ty, ex } => {
            lemma_type_at_complete(items, pos + 3, ty);
            lemma_expr_complete(items, pos + 4 + type_width(ty), ex);
        },
    }
}

/// What parsing takes for the statements of a body are well-formed
/// statements that the items spell, up to the closing brace.
pub proof fn lemma_stmts_at_sound(items: Seq<ItemView>, pos: int)
    requires
        stmts_at(items, pos) is Ok,
    ensures
        stmts_spelled(items, pos, stmts_at(items, pos)->Ok_0),
        forall|i: int|
            0 <= i < stmts_at(items, pos)->Ok_0.len() ==> (#[trigger] stmts_at(
                items,
                pos,
            )->Ok_0[i]).wf(),
        token_at(items, pos + stmts_width(stmts_at(items, pos)->Ok_0)) == Some(
            TokenView::RightCurlyBrace,
        ),
    decreases remaining(items, pos),
{
    if token_at(items, pos) != Some(TokenView::RightCurlyBrace) {
        lemma_stmt_at_sound(items, pos);
        let stmt = stmt_at(items, pos)->Ok_0;
        let next = pos + stmt_width(stmt);
        lemma_stmts_at_sound(items, next);
        let rest = stmts_at(items, next)->Ok_0;
        let all = seq![stmt] + rest;
        assert(all.drop_first() =~= rest);
        assert(all[0] == stmt);
        assert forall|i: int| 0 <= i < all.len() implies (#[trigger] all[i]).wf() by {
            if i > 0 {
                assert(all[i] == rest[i - 1]);
            }
        }
    }
}

/// Parsing yields well-formed statements that the items spell up to a
/// closing brace.
pub proof fn lemma_stmts_at_complete(items: Seq<ItemView>, pos: int, stmts: Seq<StmtView>)
    requires
        stmts_spelled(items, pos, stmts),
        forall|i: int| 0 <= i < stmts.len() ==> (#[trigger] stmts[i]).wf(),
        token_at(items, pos + stmts_width(stmts)) == Some(TokenView::RightCurlyBrace),
    ensures
        stmts_at(items, pos) == Ok::<Seq<StmtView>, ParseErrorView>(stmts),
    decreases stmts.len(),
{
    if stmts.len() == 0 {
        assert(stmts =~= Seq::<StmtView>::empty());
    } else {
        let stmt = stmts[0];
        let rest = stmts.drop_first();
        lemma_stmt_at_complete(items, pos, stmt);
        assert forall|i: int| 0 <= i < rest.len() implies (#[trigger] rest[i]).wf() by {
            assert(rest[i] == stmts[i + 1]);
        }
        lemma_stmts_at_complete(items, pos + stmt_width(stmt), rest);
        assert(seq![stmt] + rest =~= stmts);
    }
}

/// What parsing takes for a port list are well-formed ports that the
/// items spell, up to the closing parenthesis; a comma in front of that
/// parenthesis is the trailing one.
pub proof fn lemma_ports_at_sound(items: Seq<ItemView>, pos: int)
    requires
        ports_at(items, pos) is Ok,
    ensures
        ({
            let (ports, close) = ports_at(items, pos)->Ok_0;
            let trailing = ports.len() > 0 && token_at(items, close - 1) == Some(TokenView::Comma);
            &&& ports_spelled(items, pos, ports, trailing)
            &&& close == ports_end(pos, ports, trailing)
            &&& token_at(items, close) == Some(TokenView::RightParen)
            &&& forall|i: int| 0 <= i < ports.len() ==> (#[trigger] ports[i]).wf()
        }),
    decreases remaining(items, pos),
{
    if token_at(items, pos) != Some(TokenView::RightParen) {
        let dir = direction_at(items, pos)->0;
        lemma_type_at_sound(items, pos + 3);
        let ty = type_at(items, pos + 3)->Ok_0;
        let name = name_at(items, pos + 1)->Ok_0;
        let port = PortView { dir, name, ty };
        let after = pos + 3 + type_width(ty);
        let (ports, close) = ports_at(items, pos)->Ok_0;
        let trailing = ports.len() > 0 && token_at(items, close - 1) == Some(TokenView::Comma);
        if token_at(items, after) == Some(TokenView::Comma) {
            lemma_ports_at_sound(items, after + 1);
            let (rest, end) = ports_at(items, after + 1)->Ok_0;
            assert(ports =~= seq![port] + rest);
            assert(ports.drop_first() =~= rest);
            assert(ports[0] == port);
            assert forall|i: int| 0 <= i < ports.len() implies (#[trigger] ports[i]).wf() by {
                if i > 0 {
                    assert(ports[i] == rest[i - 1]);
                }
            }
            if rest.len() == 0 {
                assert(end == after + 1);
            }
        } else {
            assert(ports =~= seq![port]);
            assert(ports[0] == port);
        }
    }
}

/// The parenthesis that closes a port list stands at or behind the start
/// of the list.
pub proof fn lemma_ports_start(items: Seq<ItemView>, pos: int)
    requires
        ports_at(items, pos) is Ok,
    ensures
        pos <= ports_at(items, pos)->Ok_0.1,
    decreases remaining(items, pos),
{
    if token_at(items, pos) != Some(TokenView::RightParen) {
        let ty = type_at(items, pos + 3)->Ok_0;
        let after = pos + 3 + type_width(ty);
        if token_at(items, after) == Some(TokenView::Comma) {
            lemma_ports_start(items, after + 1);
        }
    }
}

/// Parsing yields well-formed ports that the items spell up to a closing
/// parenthesis, with or without a trailing comma.
pub proof fn lemma_ports_at_complete(
    items: Seq<ItemView>,
    pos: int,
    ports: Seq<PortView>,
    trailing: bool,
)
    requires
        ports_spelled(items, pos, ports, trailing),
        forall|i: int| 0 <= i < ports.len() ==> (#[trigger] ports[i]).wf(),
        token_at(items, ports_end(pos, ports, trailing)) == Some(TokenView::RightParen),
    ensures
        ports_at(items, pos) == Ok::<(Seq<PortView>, int), ParseErrorView>(
            (ports, ports_end(pos, ports, trailing)),
        ),
    decreases ports.len(),
{
    if ports.len() == 0 {
        assert(ports =~= Seq::<PortView>::empty());
    } else {
        let port = ports[0];
        let rest = ports.drop_first();
        let after = pos + port_width(port);
        assert(port.wf());
        lemma_type_at_complete(items, pos + 3, port.ty);
        if ports.len() == 1 {
            assert(ports =~= seq![port]);
            if trailing {
                assert(ports_at(items, after + 1) == Ok::<(Seq<PortView>, int), ParseErrorView>(
                    (Seq::<PortView>::empty(), after + 1),
                ));
                assert(seq![port] + Seq::<PortView>::empty() =~= ports);
            }
        } else {
            assert forall|i: int| 0 <= i < rest.len() implies (#[trigger] rest[i]).wf() by {
                assert(rest[i] == ports[i + 1]);
            }
            lemma_ports_at_complete(items, after + 1, rest, trailing);
            assert(seq![port] + rest =~= ports);
        }
    }
}

/// Soundness of parsing: the tree that parsing yields is well formed, and
/// the items spell it, with a trailing comma where one stands in front of
/// the parenthesis that closes the port list.
pub proof fn lemma_source_tree_sound(items: Seq<ItemView>)
    requires
        source_tree(items) is Ok,
    ensures
        source_tree(items)->Ok_0.wf(),
        exists|trailing: bool| source_spelled(items, source_tree(items)->Ok_0, trailing),
{
    let tree = source_tree(items)->Ok_0;
    lemma_ports_at_sound(items, 4);
    let (ports, close) = ports_at(items, 4)->Ok_0;
    let trailing = ports.len() > 0 && token_at(items, close - 1) == Some(TokenView::Comma);
    lemma_stmts_at_sound(items, close + 2);
    assert(source_spelled(items, tree, trailing));
}

/// Completeness of parsing: items that spell a well-formed tree parse into
/// that tree.
pub proof fn lemma_source_tree_complete(items: Seq<ItemView>, tree: AstView, trailing: bool)
    requires
        tree.wf(),
        source_spelled(items, tree, trailing),
    ensures
        source_tree(items) == Ok::<AstView, ParseErrorView>(tree),
{
    let module = tree.top;
    let close = ports_end(4, module.ports, trailing);
    lemma_ports_at_complete(items, 4, module.ports, trailing);
    lemma_stmts_at_complete(items, close + 2, module.stmts);
}

/// A trailing comma in the port list makes no difference: items that
/// spell a well-formed tree with the comma and items that spell it without
/// parse into the same tree.
pub proof fn lemma_trailing_comma_is_immaterial(
    with_comma: Seq<ItemView>,
    without_comma: Seq<ItemView>,
    tree: AstView,
)
    requires
        tree.wf(),
        source_spelled(with_comma, tree, true),
        source_spelled(without_comma, tree, false),
    ensures
        source_tree(with_comma) == source_tree(without_comma),
        source_tree(with_comma) == Ok::<AstView, ParseErrorView>(tree),
{
    lemma_source_tree_complete(with_comma, tree, true);
    lemma_source_tree_complete(without_comma, tree, false);
}

/// Parsing decides the tree: items spell at most one well-formed tree.
pub proof fn lemma_spelled_tree_is_unique(
    items: Seq<ItemView>,
    first: AstView,
    second: AstView,
    first_trailing: bool,
    second_trailing: bool,
)
    requires
        first.wf(),
        second.wf(),
        source_spelled(items, first, first_trailing),
        source_spelled(items, second, second_trailing),
    ensures
        first == second,
{
    lemma_source_tree_complete(items, first, first_trailing);
    lemma_source_tree_complete(items, second, second_trailing);
}

/// The failure is one that the items account for: the scanner's error
/// that stands among them, or one of their tokens as extra, or one of
/// their tokens or their end as unrecognized at some place of the grammar,
/// with the names of that place as what was expected. A token is
/// unrecognized only at a place that does not admit it, but for a literal
/// that is no bound of a bit vector. The failure is never an invalid token.
pub open spec fn accounted(items: Seq<ItemView>, failure: ParseErrorView) -> bool {
    match failure {
        ParseErrorView::InvalidToken { location } => false,
        ParseErrorView::UnrecognizedToken { token: Some(spanned), expected } => {
            &&& exists|k: int|
                0 <= k < items.len() && #[trigger] items[k] == Ok::<
                    (BytePos, TokenView, BytePos),
                    InvalidCharacterError,
                >(spanned)
            &&& exists|expect: Expect|
                expected == #[trigger] expect.names() && (expect == Expect::Bound
                    || !expect.admits(spanned.1))
        },
        ParseErrorView::UnrecognizedToken { token: None, expected } => exists|expect: Expect|
            expected == #[trigger] expect.names(),
        ParseErrorView::ExtraToken { token } => exists|k: int|
            0 <= k < items.len() && #[trigger] items[k] == Ok::<
                (BytePos, TokenView, BytePos),
                InvalidCharacterError,
            >(token),
        ParseErrorView::User { error } => exists|k: int|
            0 <= k < items.len() && #[trigger] items[k] == Err::<
                (BytePos, TokenView, BytePos),
                InvalidCharacterError,
            >(error),
    }
}

/// No binary operator of tier `level` or tighter stands at `pos`.
pub open spec fn closed_at(items: Seq<ItemView>, level: nat, pos: int) -> bool {
    match token_at(items, pos) {
        Some(token) => match binary_op(token) {
            Some(op) => tier(op) < level,
            None => true,
        },
        None => true,
    }
}

/// An expression takes every operator that it can: behind what parsing
/// takes for an expression of tier `level` stands no binary operator of
/// that tier or a tighter one.
pub proof fn lemma_expr_at_takes_all(items: Seq<ItemView>, level: nat, pos: int)
    requires
        level <= atom_tier(),
        expr_at(items, level, pos) is Ok,
    ensures
        closed_at(items, level, pos + expr_at(items, level, pos)->Ok_0.width()),
    decreases remaining(items, pos), 6 - level,
{
    if level < unary_tier() {
        lemma_expr_at_takes_all(items, level + 1, pos);
        let first = expr_at(items, level + 1, pos)->Ok_0;
        lemma_expr_rest_takes_all(items, level, first, pos + first.width());
    }
}

/// The operators behind a left operand are taken as far as they go.
pub proof fn lemma_expr_rest_takes_all(items: Seq<ItemView>, level: nat, left: ExprView, pos: int)
    requires
        level < unary_tier(),
        closed_at(items, level + 1, pos),
        expr_rest(items, level, left, pos) is Ok,
    ensures
        closed_at(
            items,
            level,
            pos - left.width() + expr_rest(items, level, left, pos)->Ok_0.width(),
        ),
    decreases remaining(items, pos), 0int,
{
    match operator_at(items, level, pos) {
        Some(op) => {
            lemma_expr_at_takes_all(items, level + 1, pos + 1);
            let right = expr_at(items, level + 1, pos + 1)->Ok_0;
            lemma_expr_rest_takes_all(
                items,
                level,
                ExprView::Binary { lex: Box::new(left), op, rex: Box::new(right) },
                pos + 1 + right.width(),
            );
        },
        None => {},
    }
}

/// What is reported for an item that does not fit is accounted for.
pub proof fn lemma_unexpected_accounted(items: Seq<ItemView>, pos: int, expect: Expect)
    requires
        match token_at(items, pos) {
            Some(token) => expect == Expect::Bound || !expect.admits(token),
            None => true,
        },
    ensures
        accounted(items, unexpected(items, pos, expect)),
{
    if 0 <= pos < items.len() {
        assert(items[pos] == items[pos]);
    }
    assert(expect.names() == expect.names());
}

/// A failure to parse an expression is accounted for.
pub proof fn lemma_expr_at_failure(items: Seq<ItemView>, level: nat, pos: int)
    requires
        level <= atom_tier(),
        level == atom_tier() ==> match token_at(items, pos) {
            Some(token) => unary_op(token) is None,
            None => true,
        },
        expr_at(items, level, pos) is Err,
    ensures
        accounted(items, expr_at(items, level, pos)->Err_0),
    decreases remaining(items, pos), 6 - level,
{
    if level < unary_tier() {
        match expr_at(items, level + 1, pos) {
            Ok(first) => {
                lemma_expr_rest_failure(items, level, first, pos + first.width());
            },
            Err(error) => {
                lemma_expr_at_failure(items, level + 1, pos);
            },
        }
    } else if level == unary_tier() {
        let token = token_at(items, pos);
        if token is Some && unary_op(token->0) is Some {
            lemma_expr_at_failure(items, level, pos + 1);
        } else {
            lemma_expr_at_failure(items, atom_tier(), pos);
        }
    } else {
        if token_at(items, pos) == Some(TokenView::LeftParen) {
            match expr_at(items, 0, pos + 1) {
                Ok(ex) => {
                    lemma_expr_at_takes_all(items, 0, pos + 1);
                    lemma_unexpected_accounted(
                        items,
                        pos + 1 + ex.width(),
                        Expect::GroupOperator,
                    );
                },
                Err(error) => {
                    lemma_expr_at_failure(items, 0, pos + 1);
                },
            }
        } else {
            lemma_unexpected_accounted(items, pos, Expect::Operand);
        }
    }
}

/// A failure to parse the operators behind an operand is accounted for.
pub proof fn lemma_expr_rest_failure(items: Seq<ItemView>, level: nat, left: ExprView, pos: int)
    requires
        level < unary_tier(),
        expr_rest(items, level, left, pos) is Err,
    ensures
        accounted(items, expr_rest(items, level, left, pos)->Err_0),
    decreases remaining(items, pos), 0int,
{
    match operator_at(items, level, pos) {
        Some(op) => match expr_at(items, level + 1, pos + 1) {
            Ok(right) => {
                lemma_expr_rest_failure(
                    items,
                    level,
                    ExprView::Binary { lex: Box::new(left), op, rex: Box::new(right) },
                    pos + 1 + right.width(),
                );
            },
            Err(error) => {
                lemma_expr_at_failure(items, level + 1, pos + 1);
            },
        },
        None => {},
    }
}

/// A failure to parse a type is accounted for.
pub proof fn lemma_type_at_failure(items: Seq<ItemView>, pos: int)
    requires
        type_at(items, pos) is Err,
    ensures
        accounted(items, type_at(items, pos)->Err_0),
{
    if token_at(items, pos) != Some(TokenView::Bit) {
        lemma_unexpected_accounted(items, pos, Expect::TypeName);
    } else if bound_at(items, pos + 2) is None {
        lemma_unexpected_accounted(items, pos + 2, Expect::Bound);
    } else if token_at(items, pos + 3) != Some(TokenView::Colon) {
        lemma_unexpected_accounted(items, pos + 3, Expect::Colon);
    } else if bound_at(items, pos + 4) is None || bound_at(items, pos + 4)->0 > bound_at(
        items,
        pos + 2,
    )->0 {
        lemma_unexpected_accounted(items, pos + 4, Expect::Bound);
    } else {
        lemma_unexpected_accounted(items, pos + 5, Expect::RangeClose);
    }
}

/// A failure to parse a colon and a type is accounted for.
pub proof fn lemma_typing_at_failure(items: Seq<ItemView>, pos: int)
    requires
        typing_at(items, pos) is Err,
    ensures
        accounted(items, typing_at(items, pos)->Err_0),
{
    if token_at(items, pos) != Some(TokenView::Colon) {
        lemma_unexpected_accounted(items, pos, Expect::Colon);
    } else {
        lemma_type_at_failure(items, pos + 1);
    }
}

/// A failure to parse an expression and its semicolon is accounted for.
pub proof fn lemma_value_at_failure(items: Seq<ItemView>, pos: int)
    requires
        value_at(items, pos) is Err,
    ensures
        accounted(items, value_at(items, pos)->Err_0),
{
    match expr_at(items, 0, pos) {
        Ok(ex) => {
            lemma_expr_at_takes_all(items, 0, pos);
            lemma_unexpected_accounted(items, pos + ex.width(), Expect::StmtOperator);
        },
        Err(error) => {
            lemma_expr_at_failure(items, 0, pos);
        },
    }
}

/// A failure to parse a statement is accounted for, where no closing
/// brace stands in the statement's place.
pub proof fn lemma_stmt_at_failure(items: Seq<ItemView>, pos: int)
    requires
        token_at(items, pos) != Some(TokenView::RightCurlyBrace),
        stmt_at(items, pos) is Err,
    ensures
        accounted(items, stmt_at(items, pos)->Err_0),
{
    match token_at(items, pos) {
        Some(TokenView::Ident(id)) => {
            if token_at(items, pos + 1) != Some(TokenView::Assign) {
                lemma_unexpected_accounted(items, pos + 1, Expect::AssignOp);
            } else {
                lemma_value_at_failure(items, pos + 2);
            }
        },
        Some(TokenView::Let) => {
            if name_at(items, pos + 1) is Err {
                lemma_unexpected_accounted(items, pos + 1, Expect::Name);
            } else {
                match typing_at(items, pos + 2) {
                    Ok(ty) => {
                        lemma_type_at_sound(items, pos + 3);
                        let after = pos + 3 + type_width(ty);
                        if token_at(items, after) == Some(TokenView::Assign) {
                            lemma_value_at_failure(items, after + 1);
                        } else if ty is Bit {
                            lemma_unexpected_accounted(items, after, Expect::LetTail);
                        } else {
                            lemma_unexpected_accounted(items, after, Expect::LetInit);
                        }
                    },
                    Err(error) => {
                        lemma_typing_at_failure(items, pos + 2);
                    },
                }
            }
        },
        _ => {
            lemma_unexpected_accounted(items, pos, Expect::StmtStart);
        },
    }
}

/// A failure to parse the statements of a body is accounted for.
pub proof fn lemma_stmts_at_failure(items: Seq<ItemView>, pos: int)
    requires
        stmts_at(items, pos) is Err,
    ensures
        accounted(items, stmts_at(items, pos)->Err_0),
    decreases remaining(items, pos),
{
    match stmt_at(items, pos) {
        Ok(stmt) => {
            lemma_stmts_at_failure(items, pos + stmt_width(stmt));
        },
        Err(error) => {
            lemma_stmt_at_failure(items, pos);
        },
    }
}

/// A failure to parse a port list is accounted for.
pub proof fn lemma_ports_at_failure(items: Seq<ItemView>, pos: int)
    requires
        ports_at(items, pos) is Err,
    ensures
        accounted(items, ports_at(items, pos)->Err_0),
    decreases remaining(items, pos),
{
    if direction_at(items, pos) is None {
        lemma_unexpected_accounted(items, pos, Expect::PortStart);
    } else if name_at(items, pos + 1) is Err {
        lemma_unexpected_accounted(items, pos + 1, Expect::Name);
    } else {
        match typing_at(items, pos + 2) {
            Ok(ty) => {
                lemma_type_at_sound(items, pos + 3);
                let after = pos + 3 + type_width(ty);
                if token_at(items, after) == Some(TokenView::Comma) {
                    lemma_ports_at_failure(items, after + 1);
                } else if ty is Bit {
                    lemma_unexpected_accounted(items, after, Expect::PortTail);
                } else {
                    lemma_unexpected_accounted(items, after, Expect::PortNext);
                }
            },
            Err(error) => {
                lemma_typing_at_failure(items, pos + 2);
            },
        }
    }
}

/// Every failure of parsing is accounted for by the items: parsing
/// reports what stands among them, at a place that does not admit it, and
/// never an invalid token.
pub proof fn lemma_source_tree_failure(items: Seq<ItemView>)
    requires
        source_tree(items) is Err,
    ensures
        accounted(items, source_tree(items)->Err_0),
{
    if token_at(items, 0) != Some(TokenView::Top) {
        lemma_unexpected_accounted(items, 0, Expect::Top);
    } else if token_at(items, 1) != Some(TokenView::Mod) {
        lemma_unexpected_accounted(items, 1, Expect::Mod);
    } else if name_at(items, 2) is Err {
        lemma_unexpected_accounted(items, 2, Expect::Name);
    } else if token_at(items, 3) != Some(TokenView::LeftParen) {
        lemma_unexpected_accounted(items, 3, Expect::PortsOpen);
    } else {
        match ports_at(items, 4) {
            Ok((ports, close)) => {
                let pos = close + 1;
                if token_at(items, pos) != Some(TokenView::LeftCurlyBrace) {
                    lemma_unexpected_accounted(items, pos, Expect::BodyOpen);
                } else {
                    match stmts_at(items, pos + 1) {
                        Ok(stmts) => {
                            let end = pos + 1 + stmts_width(stmts) + 1;
                            if 0 <= end < items.len() {
                                assert(items[end] == items[end]);
                            }
                        },
                        Err(error) => {
                            lemma_stmts_at_failure(items, pos + 1);
                        },
                    }
                }
            },
            Err(error) => {
                lemma_ports_at_failure(items, 4);
            },
        }
    }
}

/// A token is never reported as unrecognized together with its own
/// description among what was expected, but for a literal that is no bound
/// of a bit vector where a bound is expected.
pub proof fn lemma_unrecognized_token_was_not_expected(items: Seq<ItemView>)
    requires
        source_tree(items) is Err,
    ensures
        match source_tree(items)->Err_0 {
            ParseErrorView::UnrecognizedToken { token: Some(spanned), expected } => {
                ||| !expected.contains(description(spanned.1))
                ||| spanned.1 is Litrl && expected == Expect::Bound.names()
            },
            _ => true,
        },
{
    lemma_source_tree_failure(items);
    match source_tree(items)->Err_0 {
        ParseErrorView::UnrecognizedToken { token: Some(spanned), expected } => {
            let expect = choose|expect: Expect|
                expected == #[trigger] expect.names() && (expect == Expect::Bound
                    || !expect.admits(spanned.1));
            lemma_names_describe_admitted(expect, spanned.1);
        },
        _ => {},
    }
}

/// The items with one more item put in front of the item at `at`.
pub open spec fn inserted(items: Seq<ItemView>, at: int, item: ItemView) -> Seq<ItemView> {
    items.take(at) + seq![item] + items.skip(at)
}

/// The two sequences hold the same tokens in front of `limit`.
pub open spec fn same_below(first: Seq<ItemView>, second: Seq<ItemView>, limit: int) -> bool {
    forall|i: int| i < limit ==> #[trigger] token_at(second, i) == token_at(first, i)
}

/// From `from` on, the second sequence holds the tokens of the first, each
/// one place further on.
pub open spec fn moved_on(first: Seq<ItemView>, second: Seq<ItemView>, from: int) -> bool {
    forall|i: int| i > from ==> #[trigger] token_at(second, i) == token_at(first, i - 1)
}

/// What an inserted item leaves in place and what it moves.
pub proof fn lemma_inserted_tokens(items: Seq<ItemView>, at: int, item: ItemView)
    requires
        0 <= at <= items.len(),
    ensures
        same_below(items, inserted(items, at, item), at),
        moved_on(items, inserted(items, at, item), at),
        inserted(items, at, item)[at] == item,
        inserted(items, at, item).len() == items.len() + 1,
{
    let longer = inserted(items, at, item);
    assert forall|i: int| i < at implies #[trigger] token_at(longer, i) == token_at(items, i) by {
        if 0 <= i {
            assert(longer[i] == items[i]);
        }
    }
    assert forall|i: int| i > at implies #[trigger] token_at(longer, i) == token_at(
        items,
        i - 1,
    ) by {
        if i < longer.len() {
            assert(longer[i] == items[i - 1]);
        }
    }
}

/// Tokens that are spelled in front of a limit are spelled by every
/// sequence that holds the same tokens there.
pub proof fn lemma_spells_same_below(
    first: Seq<ItemView>,
    second: Seq<ItemView>,
    limit: int,
    pos: int,
    tokens: Seq<TokenView>,
)
    requires
        same_below(first, second, limit),
        spells(first, pos, tokens),
        pos + tokens.len() <= limit,
    ensures
        spells(second, pos, tokens),
{
    assert forall|i: int| 0 <= i < tokens.len() implies token_at(second, pos + i) == Some(
        #[trigger] tokens[i],
    ) by {
        assert(token_at(second, pos + i) == token_at(first, pos + i));
    }
}

/// Tokens that were moved on are spelled one place further on.
pub proof fn lemma_spells_moved_on(
    first: Seq<ItemView>,
    second: Seq<ItemView>,
    from: int,
    pos: int,
    tokens: Seq<TokenView>,
)
    requires
        moved_on(first, second, from),
        spells(first, pos, tokens),
        pos >= from,
    ensures
        spells(second, pos + 1, tokens),
{
    assert forall|i: int| 0 <= i < tokens.len() implies token_at(second, pos + 1 + i) == Some(
        #[trigger] tokens[i],
    ) by {
        assert(token_at(second, pos + 1 + i) == token_at(first, pos + 1 + i - 1));
    }
}

/// Statements that were moved on are spelled one place further on.
pub proof fn lemma_stmts_moved_on(
    first: Seq<ItemView>,
    second: Seq<ItemView>,
    from: int,
    pos: int,
    stmts: Seq<StmtView>,
)
    requires
        moved_on(first, second, from),
        stmts_spelled(first, pos, stmts),
        pos >= from,
    ensures
        stmts_spelled(second, pos + 1, stmts),
    decreases stmts.len(),
{
    if stmts.len() > 0 {
        let stmt = stmts[0];
        assert forall|i: int| i >= pos implies #[trigger] token_at(second, i + 1) == token_at(
            first,
            i,
        ) by {
            assert(token_at(second, i + 1) == token_at(first, i + 1 - 1));
        }
        match stmt {
            StmtView::Assign { id, ex } => {
                lemma_spells_moved_on(first, second, from, pos + 2, ex.tokens());
                assert(token_at(second, pos + 1) == token_at(first, pos));
                assert(token_at(second, pos + 1 + 1) == token_at(first, pos + 1));
                assert(token_at(second, pos + 2 + ex.width() + 1) == token_at(
                    first,
                    pos + 2 + ex.width(),
                ));
            },
            StmtView::Declare { id, ty } => {
                lemma_type_moved_on(first, second, from, pos + 3, ty);
                assert(token_at(second, pos + 1) == token_at(first, pos));
                assert(token_at(second, pos + 1 + 1) == token_at(first, pos + 1));
                assert(token_at(second, pos + 2 + 1) == token_at(first, pos + 2));
                assert(token_at(second, pos + 3 + type_width(ty) + 1) == token_at(
                    first,
                    pos + 3 + type_width(ty),
                ));
            },
            StmtView::DeclareAssign { id, ty, ex } => {
                lemma_type_moved_on(first, second, from, pos + 3, ty);
                lemma_spells_moved_on(first, second, from, pos + 4 + type_width(ty), ex.tokens());
                assert(token_at(second, pos + 1) == token_at(first, pos));
                assert(token_at(second, pos + 1 + 1) == token_at(first, pos + 1));
                assert(token_at(second, pos + 2 + 1) == token_at(first, pos + 2));
                assert(token_at(second, pos + 3 + type_width(ty) + 1) == token_at(
                    first,
                    pos + 3 + type_width(ty),
                ));
                assert(token_at(second, pos + 4 + type_width(ty) + ex.width() + 1) == token_at(
                    first,
                    pos + 4 + type_width(ty) + ex.width(),
                ));
            },
        }
        lemma_stmts_moved_on(first, second, from, pos + stmt_width(stmt), stmts.drop_first());
    }
}

/// A type that was moved on is spelled one place further on.
pub proof fn lemma_type_moved_on(
    first: Seq<ItemView>,
    second: Seq<ItemView>,
    from: int,
    pos: int,
    ty: Type,
)
    requires
        moved_on(first, second, from),
        type_spelled(first, pos, ty),
        pos >= from,
    ensures
        type_spelled(second, pos + 1, ty),
{
    assert(token_at(second, pos + 1) == token_at(first, pos + 1 - 1));
    assert(token_at(second, pos + 1 + 1) == token_at(first, pos + 1 + 1 - 1));
    assert(token_at(second, pos + 2 + 1) == token_at(first, pos + 2 + 1 - 1));
    assert(token_at(second, pos + 3 + 1) == token_at(first, pos + 3 + 1 - 1));
    assert(token_at(second, pos + 4 + 1) == token_at(first, pos + 4 + 1 - 1));
    assert(token_at(second, pos + 5 + 1) == token_at(first, pos + 5 + 1 - 1));
}

/// Ports that are spelled without a trailing comma are spelled with one
/// by a sequence that holds the same tokens up to their end and a comma
/// there.
pub proof fn lemma_ports_with_comma(
    first: Seq<ItemView>,
    second: Seq<ItemView>,
    pos: int,
    ports: Seq<PortView>,
)
    requires
        ports.len() > 0,
        ports_spelled(first, pos, ports, false),
        same_below(first, second, ports_end(pos, ports, false)),
        token_at(second, ports_end(pos, ports, false)) == Some(TokenView::Comma),
    ensures
        ports_spelled(second, pos, ports, true),
        ports_end(pos, ports, true) == ports_end(pos, ports, false) + 1,
        ports_end(pos, ports, false) >= pos + port_width(ports[0]),
    decreases ports.len(),
{
    let port = ports[0];
    let after = pos + port_width(port);
    let close = ports_end(pos, ports, false);
    if ports.len() > 1 {
        lemma_ports_with_comma(first, second, after + 1, ports.drop_first());
    }
    assert(close >= after);
    assert(token_at(second, pos) == token_at(first, pos));
    assert(token_at(second, pos + 1) == token_at(first, pos + 1));
    assert(token_at(second, pos + 2) == token_at(first, pos + 2));
    assert(token_at(second, pos + 3) == token_at(first, pos + 3));
    if port.ty is BitVec {
        assert(token_at(second, pos + 4) == token_at(first, pos + 4));
        assert(token_at(second, pos + 5) == token_at(first, pos + 5));
        assert(token_at(second, pos + 6) == token_at(first, pos + 6));
        assert(token_at(second, pos + 7) == token_at(first, pos + 7));
        assert(token_at(second, pos + 8) == token_at(first, pos + 8));
    }
    if ports.len() > 1 {
        assert(token_at(second, after) == token_at(first, after));
    }
}

/// A comma in front of the parenthesis that closes the port list changes
/// nothing: where the items parse, and their port list is not empty and
/// has no trailing comma yet, items that hold the same tokens with such a
/// comma between them parse into the same tree.
pub proof fn lemma_trailing_comma_added(items: Seq<ItemView>, longer: Seq<ItemView>)
    requires
        source_tree(items) is Ok,
        ports_at(items, 4)->Ok_0.0.len() > 0,
        token_at(items, ports_at(items, 4)->Ok_0.1 - 1) != Some(TokenView::Comma),
        same_below(items, longer, ports_at(items, 4)->Ok_0.1),
        token_at(longer, ports_at(items, 4)->Ok_0.1) == Some(TokenView::Comma),
        moved_on(items, longer, ports_at(items, 4)->Ok_0.1),
        longer.len() == items.len() + 1,
    ensures
        source_tree(longer) == source_tree(items),
{
    let tree = source_tree(items)->Ok_0;
    let module = tree.top;
    let (ports, close) = ports_at(items, 4)->Ok_0;
    lemma_ports_at_sound(items, 4);
    lemma_stmts_at_sound(items, close + 2);
    lemma_source_tree_sound(items);
    assert(source_spelled(items, tree, false));
    lemma_ports_with_comma(items, longer, 4, ports);
    lemma_stmts_moved_on(items, longer, close, close + 2, module.stmts);
    assert(token_at(longer, 0) == token_at(items, 0));
    assert(token_at(longer, 1) == token_at(items, 1));
    assert(token_at(longer, 2) == token_at(items, 2));
    assert(token_at(longer, 3) == token_at(items, 3));
    assert(token_at(longer, close + 1) == token_at(items, close + 1 - 1));
    assert(token_at(longer, close + 2) == token_at(items, close + 2 - 1));
    let last = close + 2 + stmts_width(module.stmts);
    assert(token_at(longer, last + 1) == token_at(items, last + 1 - 1));
    assert(source_spelled(longer, tree, true));
    lemma_source_tree_complete(longer, tree, true);
}

/// A comma put in front of the parenthesis that closes the port list
/// changes nothing: where the items parse, and their port list is not
/// empty and has no trailing comma yet, the items with the comma parse
/// into the same tree.
pub proof fn lemma_trailing_comma_inserted(items: Seq<ItemView>, start: BytePos, end: BytePos)
    requires
        source_tree(items) is Ok,
        ports_at(items, 4)->Ok_0.0.len() > 0,
        token_at(items, ports_at(items, 4)->Ok_0.1 - 1) != Some(TokenView::Comma),
    ensures
        source_tree(
            inserted(
                items,
                ports_at(items, 4)->Ok_0.1,
                Ok::<(BytePos, TokenView, BytePos), InvalidCharacterError>(
                    (start, TokenView::Comma, end),
                ),
            ),
        ) == source_tree(items),
{
    let close = ports_at(items, 4)->Ok_0.1;
    let comma = Ok::<(BytePos, TokenView, BytePos), InvalidCharacterError>(
        (start, TokenView::Comma, end),
    );
    lemma_ports_at_sound(items, 4);
    lemma_inserted_tokens(items, close, comma);
    lemma_trailing_comma_added(items, inserted(items, close, comma));
}

} // verus!

//! The grammar: which tree a sequence of scanned items stands for, and how
//! parsing fails where it stands for none.
//!
//! ```text
//! source := "top" "mod" identifier "(" ports ")" "{" stmt* "}"
//! ports  := ( port ( "," port )* ","? )?
//! port   := ( "in" | "out" ) identifier ":" type
//! type   := "bit" ( "[" literal ":" literal "]" )?
//! stmt   := identifier "=" expr ";"
//!         | "let" identifier ":" type ( "=" expr )? ";"
//! ```
//!
//! Binary operators associate to the left. From loosest to tightest they
//! are `|`, `^`, `&`, and the two shifts together; unary operators bind
//! tighter than any binary one, and parentheses tightest of all.

use crate::syntax::ast::{BinaryOp, Dir, ExprView, ModView, PortView, StmtView, Type, UnaryOp, AstView};
use crate::syntax::error::ParseErrorView;
use crate::syntax::lexer::ItemView;
use crate::syntax::token::TokenView;
use vstd::prelude::*;

verus! {

/// A place in the grammar at which parsing can fail, named after what is
/// expected there.
#[derive(Clone, Copy, Debug, PartialEq, Eq, Structural)]
pub enum Expect {
    /// The keyword that opens the source.
    Top,
    /// The keyword behind `top`.
    Mod,
    /// The name of a module, a port or a declaration.
    Name,
    /// The parenthesis that opens the port list.
    PortsOpen,
    /// A port, or the end of the port list.
    PortStart,
    /// The colon in front of a type.
    Colon,
    /// A type.
    TypeName,
    /// Behind a port of type `bit`.
    PortTail,
    /// Behind a port whose type is a bit vector.
    PortNext,
    /// A bound of a bit vector: a decimal number that fits in 32 bits; the
    /// low bound is at most the high one.
    Bound,
    /// The bracket that closes a bit vector.
    RangeClose,
    /// The brace that opens the body.
    BodyOpen,
    /// A statement, or the end of the body.
    StmtStart,
    /// The assignment sign behind the target of an assignment.
    AssignOp,
    /// The start of an operand.
    Operand,
    /// Behind an operand of a statement's expression.
    StmtOperator,
    /// Behind an operand inside parentheses.
    GroupOperator,
    /// Behind a declaration of type `bit`.
    LetTail,
    /// Behind a declaration whose type is a bit vector.
    LetInit,
}

impl Expect {
    /// The descriptions of the tokens that are accepted at this place.
    pub open spec fn names(self) -> Seq<Seq<char>> {
        match self {
            Expect::Top => seq!["top"@],
            Expect::Mod => seq!["mod"@],
            Expect::Name => seq!["identifier"@],
            Expect::PortsOpen => seq!["("@],
            Expect::PortStart => seq!["in"@, "out"@, ")"@],
            Expect::Colon => seq![":"@],
            Expect::TypeName => seq!["bit"@],
            Expect::PortTail => seq!["["@, ","@, ")"@],
            Expect::PortNext => seq![","@, ")"@],
            Expect::Bound => seq!["literal"@],
            Expect::RangeClose => seq!["]"@],
            Expect::BodyOpen => seq!["{"@],
            Expect::StmtStart => seq!["identifier"@, "let"@, "}"@],
            Expect::AssignOp => seq!["="@],
            Expect::Operand => seq![
                "identifier"@,
                "literal"@,
                "("@,
                "~"@,
                "&"@,
                "^"@,
                "|"@,
            ],
            Expect::StmtOperator => seq!["&"@, "^"@, "|"@, "<<"@, ">>"@, ";"@],
            Expect::GroupOperator => seq!["&"@, "^"@, "|"@, "<<"@, ">>"@, ")"@],
            Expect::LetTail => seq!["["@, "="@, ";"@],
            Expect::LetInit => seq!["="@, ";"@],
        }
    }
}

/// How a failure names a token: identifiers and literals by their kind,
/// every other token by its text.
pub open spec fn description(token: TokenView) -> Seq<char> {
    match token {
        TokenView::Ident(text) => "identifier"@,
        TokenView::Litrl(text) => "literal"@,
        TokenView::Comma => ","@,
        TokenView::Semicolon => ";"@,
        TokenView::Colon => ":"@,
        TokenView::LeftParen => "("@,
        TokenView::RightParen => ")"@,
        TokenView::LeftCurlyBrace => "{"@,
        TokenView::RightCurlyBrace => "}"@,
        TokenView::LeftSquareBrace => "["@,
        TokenView::RightSquareBrace => "]"@,
        TokenView::Assign => "="@,
        TokenView::Negate => "~"@,
        TokenView::BitAnd => "&"@,
        TokenView::BitOr => "|"@,
        TokenView::BitXor => "^"@,
        TokenView::ShiftLeft => "<<"@,
        TokenView::ShiftRight => ">>"@,
        TokenView::Mod => "mod"@,
        TokenView::Top => "top"@,
        TokenView::In => "in"@,
        TokenView::Out => "out"@,
        TokenView::Bit => "bit"@,
        TokenView::Let => "let"@,
    }
}

impl Expect {
    /// Whether a token of the kind of `token` may stand at this place.
    pub open spec fn admits(self, token: TokenView) -> bool {
        match self {
            Expect::Top => token is Top,
            Expect::Mod => token is Mod,
            Expect::Name => token is Ident,
            Expect::PortsOpen => token is LeftParen,
            Expect::PortStart => token is In || token is Out || token is RightParen,
            Expect::Colon => token is Colon,
            Expect::TypeName => token is Bit,
            Expect::PortTail => token is LeftSquareBrace || token is Comma || token is RightParen,
            Expect::PortNext => token is Comma || token is RightParen,
            Expect::Bound => token is Litrl,
            Expect::RangeClose => token is RightSquareBrace,
            Expect::BodyOpen => token is LeftCurlyBrace,
            Expect::StmtStart => token is Ident || token is Let || token is RightCurlyBrace,
            Expect::AssignOp => token is Assign,
            Expect::Operand => token is Ident || token is Litrl || token is LeftParen
                || unary_op(token) is Some,
            Expect::StmtOperator => binary_op(token) is Some || token is Semicolon,
            Expect::GroupOperator => binary_op(token) is Some || token is RightParen,
            Expect::LetTail => token is LeftSquareBrace || token is Assign || token is Semicolon,
            Expect::LetInit => token is Assign || token is Semicolon,
        }
    }
}

/// The names of a place are the descriptions of the tokens that may stand
/// there, and of no others.
pub proof fn lemma_names_describe_admitted(expect: Expect, token: TokenView)
    ensures
        expect.admits(token) <==> expect.names().contains(description(token)),
{
    reveal_strlit("identifier");
    reveal_strlit("literal");
    reveal_strlit(",");
    reveal_strlit(";");
    reveal_strlit(":");
    reveal_strlit("(");
    reveal_strlit(")");
    reveal_strlit("{");
    reveal_strlit("}");
    reveal_strlit("[");
    reveal_strlit("]");
    reveal_strlit("=");
    reveal_strlit("~");
    reveal_strlit("&");
    reveal_strlit("|");
    reveal_strlit("^");
    reveal_strlit("<<");
    reveal_strlit(">>");
    reveal_strlit("mod");
    reveal_strlit("top");
    reveal_strlit("in");
    reveal_strlit("out");
    reveal_strlit("bit");
    reveal_strlit("let");
    let names = expect.names();
    let name = description(token);
    if expect.admits(token) {
        assert((names.len() > 0 && names[0] == name) || (names.len() > 1 && names[1] == name) || (
        names.len() > 2 && names[2] == name) || (names.len() > 3 && names[3] == name) || (
        names.len() > 4 && names[4] == name) || (names.len() > 5 && names[5] == name) || (
        names.len() > 6 && names[6] == name));
    }
    if names.contains(name) {
        let i = choose|i: int| 0 <= i < names.len() && names[i] == name;
        assert(names[i].len() == name.len());
        assert(names[i][0] == name[0]);
        assert(names[i].len() > 1 ==> names[i][1] == name[1]);
    }
}

/// The token at `pos`, where the items hold a token there.
pub open spec fn token_at(items: Seq<ItemView>, pos: int) -> Option<TokenView> {
    if 0 <= pos < items.len() {
        match items[pos] {
            Ok(spanned) => Some(spanned.1),
            Err(_) => None,
        }
    } else {
        None
    }
}

/// The failure at `pos`, where the grammar is at `expect` and what stands
/// at `pos` does not fit: the scanner's error if there is one there, else
/// the token, or the end of the input, as unrecognized.
pub open spec fn unexpected(items: Seq<ItemView>, pos: int, expect: Expect) -> ParseErrorView {
    if 0 <= pos < items.len() {
        match items[pos] {
            Ok(spanned) => ParseErrorView::UnrecognizedToken {
                token: Some(spanned),
                expected: expect.names(),
            },
            Err(error) => ParseErrorView::User { error },
        }
    } else {
        ParseErrorView::UnrecognizedToken { token: None, expected: expect.names() }
    }
}

/// The number of items from `pos` on.
pub open spec fn remaining(items: Seq<ItemView>, pos: int) -> nat {
    if pos < 0 {
        items.len()
    } else if pos <= items.len() {
        (items.len() - pos) as nat
    } else {
        0
    }
}

/// The binary operator that a token spells.
pub open spec fn binary_op(token: TokenView) -> Option<BinaryOp> {
    match token {
        TokenView::BitOr => Some(BinaryOp::BitOr),
        TokenView::BitXor => Some(BinaryOp::BitXor),
        TokenView::BitAnd => Some(BinaryOp::BitAnd),
        TokenView::ShiftLeft => Some(BinaryOp::ShiftLeft),
        TokenView::ShiftRight => Some(BinaryOp::ShiftRight),
        _ => None,
    }
}

/// The unary operator that a token spells.
pub open spec fn unary_op(token: TokenView) -> Option<UnaryOp> {
    match token {
        TokenView::Negate => Some(UnaryOp::Negate),
        TokenView::BitAnd => Some(UnaryOp::ReductAnd),
        TokenView::BitXor => Some(UnaryOp::ReductXor),
        TokenView::BitOr => Some(UnaryOp::ReductOr),
        _ => None,
    }
}

/// The token that spells a binary operator.
pub open spec fn binary_token(op: BinaryOp) -> TokenView {
    match op {
        BinaryOp::BitOr => TokenView::BitOr,
        BinaryOp::BitXor => TokenView::BitXor,
        BinaryOp::BitAnd => TokenView::BitAnd,
        BinaryOp::ShiftLeft => TokenView::ShiftLeft,
        BinaryOp::ShiftRight => TokenView::ShiftRight,
    }
}

/// The token that spells a unary operator.
pub open spec fn unary_token(op: UnaryOp) -> TokenView {
    match op {
        UnaryOp::Negate => TokenView::Negate,
        UnaryOp::ReductAnd => TokenView::BitAnd,
        UnaryOp::ReductXor => TokenView::BitXor,
        UnaryOp::ReductOr => TokenView::BitOr,
    }
}

/// How tightly a binary operator binds: 0 for the loosest.
pub open spec fn tier(op: BinaryOp) -> nat {
    match op {
        BinaryOp::BitOr => 0,
        BinaryOp::BitXor => 1,
        BinaryOp::BitAnd => 2,
        BinaryOp::ShiftLeft => 3,
        BinaryOp::ShiftRight => 3,
    }
}

/// The tier of the unary operators.
pub open spec fn unary_tier() -> nat {
    4
}

/// The tier of identifiers, literals and parenthesized expressions.
pub open spec fn atom_tier() -> nat {
    5
}

/// The binary operator of tier `level` at `pos`, if one stands there.
pub open spec fn operator_at(items: Seq<ItemView>, level: nat, pos: int) -> Option<BinaryOp> {
    match token_at(items, pos) {
        Some(token) => match binary_op(token) {
            Some(op) => if tier(op) == level {
                Some(op)
            } else {
                None
            },
            None => None,
        },
        None => None,
    }
}

impl ExprView {
    /// The number of tokens that spell this expression.
    pub open spec fn width(self) -> nat
        decreases self,
    {
        match self {
            ExprView::Binary { lex, op, rex } => lex.width() + 1 + rex.width(),
            ExprView::Unary { op, ex } => 1 + ex.width(),
            ExprView::Paren { ex } => 2 + ex.width(),
            ExprView::Ident { id } => 1,
            ExprView::Litrl { val } => 1,
        }
    }

    /// The tier of the outermost operator of this expression.
    pub open spec fn level(self) -> nat {
        match self {
            ExprView::Binary { lex, op, rex } => tier(op),
            ExprView::Unary { op, ex } => unary_tier(),
            _ => atom_tier(),
        }
    }
}

/// The value of one decimal digit.
pub open spec fn digit_value(c: char) -> Option<nat> {
    if '0' <= c <= '9' {
        Some((c as nat - '0' as nat) as nat)
    } else {
        None
    }
}

/// The number that `text` writes in decimal digits, if it writes one.
pub open spec fn decimal_value(text: Seq<char>) -> Option<nat>
    decreases text.len(),
{
    if text.len() == 0 {
        None
    } else if text.len() == 1 {
        digit_value(text[0])
    } else {
        match (decimal_value(text.drop_last()), digit_value(text.last())) {
            (Some(value), Some(digit)) => Some(10 * value + digit),
            _ => None,
        }
    }
}

/// The bound of a bit vector that `text` writes: a decimal number that
/// fits in 32 bits.
pub open spec fn bound_value(text: Seq<char>) -> Option<u32> {
    match decimal_value(text) {
        Some(value) => if value <= u32::MAX {
            Some(value as u32)
        } else {
            None
        },
        None => None,
    }
}

/// The bound of a bit vector that the token at `pos` writes.
pub open spec fn bound_at(items: Seq<ItemView>, pos: int) -> Option<u32> {
    match token_at(items, pos) {
        Some(TokenView::Litrl(text)) => bound_value(text),
        _ => None,
    }
}

/// The number of tokens that spell a type.
pub open spec fn type_width(ty: Type) -> nat {
    match ty {
        Type::Bit => 1,
        Type::BitVec { high, low } => 6,
    }
}

/// The number of tokens that spell a statement.
pub open spec fn stmt_width(stmt: StmtView) -> nat {
    match stmt {
        StmtView::Assign { id, ex } => 3 + ex.width(),
        StmtView::Declare { id, ty } => 3 + type_width(ty) + 1,
        StmtView::DeclareAssign { id, ty, ex } => 3 + type_width(ty) + 2 + ex.width(),
    }
}

/// The number of tokens that spell a sequence of statements.
pub open spec fn stmts_width(stmts: Seq<StmtView>) -> nat
    decreases stmts.len(),
{
    if stmts.len() == 0 {
        0
    } else {
        stmt_width(stmts[0]) + stmts_width(stmts.drop_first())
    }
}

/// The expression of tier `level` or tighter that starts at `pos`. On
/// success it takes up as many items as its width says.
pub open spec fn expr_at(items: Seq<ItemView>, level: nat, pos: int) -> Result<
    ExprView,
    ParseErrorView,
>
    decreases remaining(items, pos), 6 - level,
{
    if level < unary_tier() {
        match expr_at(items, level + 1, pos) {
            Ok(first) => expr_rest(items, level, first, pos + first.width()),
            Err(error) => Err(error),
        }
    } else if level == unary_tier() {
        match token_at(items, pos) {
            Some(token) => match unary_op(token) {
                Some(op) => match expr_at(items, level, pos + 1) {
                    Ok(ex) => Ok(ExprView::Unary { op, ex: Box::new(ex) }),
                    Err(error) => Err(error),
                },
                None => expr_at(items, atom_tier(), pos),
            },
            None => expr_at(items, atom_tier(), pos),
        }
    } else {
        match token_at(items, pos) {
            Some(TokenView::Ident(id)) => Ok(ExprView::Ident { id }),
            Some(TokenView::Litrl(val)) => Ok(ExprView::Litrl { val }),
            Some(TokenView::LeftParen) => match expr_at(items, 0, pos + 1) {
                Ok(ex) => if token_at(items, pos + 1 + ex.width()) == Some(
                    TokenView::RightParen,
                ) {
                    Ok(ExprView::Paren { ex: Box::new(ex) })
                } else {
                    Err(unexpected(items, pos + 1 + ex.width(), Expect::GroupOperator))
                },
                Err(error) => Err(error),
            },
            _ => Err(unexpected(items, pos, Expect::Operand)),
        }
    }
}

/// The expression of tier `level` whose left operand, `left`, ends in front
/// of `pos`: `left` itself unless an operator of that tier stands at `pos`.
pub open spec fn expr_rest(items: Seq<ItemView>, level: nat, left: ExprView, pos: int) -> Result<
    ExprView,
    ParseErrorView,
>
    decreases remaining(items, pos), 0int,
{
    match operator_at(items, level, pos) {
        Some(op) => match expr_at(items, level + 1, pos + 1) {
            Ok(right) => expr_rest(
                items,
                level,
                ExprView::Binary { lex: Box::new(left), op, rex: Box::new(right) },
                pos + 1 + right.width(),
            ),
            Err(error) => Err(error),
        },
        None => Ok(left),
    }
}

/// The type that starts at `pos`.
pub open spec fn type_at(items: Seq<ItemView>, pos: int) -> Result<Type, ParseErrorView> {
    if token_at(items, pos) != Some(TokenView::Bit) {
        Err(unexpected(items, pos, Expect::TypeName))
    } else if token_at(items, pos + 1) != Some(TokenView::LeftSquareBrace) {
        Ok(Type::Bit)
    } else if bound_at(items, pos + 2) is None {
        Err(unexpected(items, pos + 2, Expect::Bound))
    } else if token_at(items, pos + 3) != Some(TokenView::Colon) {
        Err(unexpected(items, pos + 3, Expect::Colon))
    } else if bound_at(items, pos + 4) is None || bound_at(items, pos + 4)->0 > bound_at(
        items,
        pos + 2,
    )->0 {
        Err(unexpected(items, pos + 4, Expect::Bound))
    } else if token_at(items, pos + 5) != Some(TokenView::RightSquareBrace) {
        Err(unexpected(items, pos + 5, Expect::RangeClose))
    } else {
        Ok(Type::BitVec { high: bound_at(items, pos + 2)->0, low: bound_at(items, pos + 4)->0 })
    }
}

/// The name at `pos`.
pub open spec fn name_at(items: Seq<ItemView>, pos: int) -> Result<Seq<char>, ParseErrorView> {
    match token_at(items, pos) {
        Some(TokenView::Ident(name)) => Ok(name),
        _ => Err(unexpected(items, pos, Expect::Name)),
    }
}

/// A colon and a type, with the colon at `pos`.
pub open spec fn typing_at(items: Seq<ItemView>, pos: int) -> Result<Type, ParseErrorView> {
    if token_at(items, pos) != Some(TokenView::Colon) {
        Err(unexpected(items, pos, Expect::Colon))
    } else {
        type_at(items, pos + 1)
    }
}

/// An expression and the semicolon behind it, with the expression at `pos`.
pub open spec fn value_at(items: Seq<ItemView>, pos: int) -> Result<ExprView, ParseErrorView> {
    match expr_at(items, 0, pos) {
        Ok(ex) => if token_at(items, pos + ex.width()) == Some(TokenView::Semicolon) {
            Ok(ex)
        } else {
            Err(unexpected(items, pos + ex.width(), Expect::StmtOperator))
        },
        Err(error) => Err(error),
    }
}

/// The statement that starts at `pos`.
pub open spec fn stmt_at(items: Seq<ItemView>, pos: int) -> Result<StmtView, ParseErrorView> {
    match token_at(items, pos) {
        Some(TokenView::Ident(id)) => if token_at(items, pos + 1) != Some(TokenView::Assign) {
            Err(unexpected(items, pos + 1, Expect::AssignOp))
        } else {
            match value_at(items, pos + 2) {
                Ok(ex) => Ok(StmtView::Assign { id, ex }),
                Err(error) => Err(error),
            }
        },
        Some(TokenView::Let) => match name_at(items, pos + 1) {
            Ok(id) => match typing_at(items, pos + 2) {
                Ok(ty) => {
                    let after = pos + 3 + type_width(ty);
                    match token_at(items, after) {
                        Some(TokenView::Semicolon) => Ok(StmtView::Declare { id, ty }),
                        Some(TokenView::Assign) => match value_at(items, after + 1) {
                            Ok(ex) => Ok(StmtView::DeclareAssign { id, ty, ex }),
                            Err(error) => Err(error),
                        },
                        _ => Err(
                            unexpected(
                                items,
                                after,
                                if ty is Bit {
                                    Expect::LetTail
                                } else {
                                    Expect::LetInit
                                },
                            ),
                        ),
                    }
                },
                Err(error) => Err(error),
            },
            Err(error) => Err(error),
        },
        _ => Err(unexpected(items, pos, Expect::StmtStart)),
    }
}

/// The statements from `pos` up to the brace that closes the body.
pub open spec fn stmts_at(items: Seq<ItemView>, pos: int) -> Result<Seq<StmtView>, ParseErrorView>
    decreases remaining(items, pos),
{
    if token_at(items, pos) == Some(TokenView::RightCurlyBrace) {
        Ok(Seq::empty())
    } else {
        match stmt_at(items, pos) {
            Ok(stmt) => match stmts_at(items, pos + stmt_width(stmt)) {
                Ok(rest) => Ok(seq![stmt] + rest),
                Err(error) => Err(error),
            },
            Err(error) => Err(error),
        }
    }
}

/// The direction that a token spells.
pub open spec fn direction(token: TokenView) -> Option<Dir> {
    match token {
        TokenView::In => Some(Dir::Input),
        TokenView::Out => Some(Dir::Output),
        _ => None,
    }
}

/// The direction at `pos`, if one stands there.
pub open spec fn direction_at(items: Seq<ItemView>, pos: int) -> Option<Dir> {
    match token_at(items, pos) {
        Some(token) => direction(token),
        None => None,
    }
}

/// The ports from `pos` up to the parenthesis that closes the list, with
/// the position of that parenthesis.
pub open spec fn ports_at(items: Seq<ItemView>, pos: int) -> Result<
    (Seq<PortView>, int),
    ParseErrorView,
>
    decreases remaining(items, pos),
{
    if token_at(items, pos) == Some(TokenView::RightParen) {
        Ok((Seq::empty(), pos))
    } else {
        match direction_at(items, pos) {
            Some(dir) => match name_at(items, pos + 1) {
                Ok(name) => match typing_at(items, pos + 2) {
                    Ok(ty) => {
                        let port = PortView { dir, name, ty };
                        let after = pos + 3 + type_width(ty);
                        match token_at(items, after) {
                            Some(TokenView::Comma) => match ports_at(items, after + 1) {
                                Ok((rest, close)) => Ok((seq![port] + rest, close)),
                                Err(error) => Err(error),
                            },
                            Some(TokenView::RightParen) => Ok((seq![port], after)),
                            _ => Err(
                                unexpected(
                                    items,
                                    after,
                                    if ty is Bit {
                                        Expect::PortTail
                                    } else {
                                        Expect::PortNext
                                    },
                                ),
                            ),
                        }
                    },
                    Err(error) => Err(error),
                },
                Err(error) => Err(error),
            },
            None => Err(unexpected(items, pos, Expect::PortStart)),
        }
    }
}

/// What may stand behind the module: nothing.
pub open spec fn end_at(items: Seq<ItemView>, pos: int) -> Option<ParseErrorView> {
    if 0 <= pos < items.len() {
        match items[pos] {
            Ok(spanned) => Some(ParseErrorView::ExtraToken { token: spanned }),
            Err(error) => Some(ParseErrorView::User { error }),
        }
    } else {
        None
    }
}

/// The body that starts at `pos`, behind the parenthesis that closes the
/// port list: the statements between braces, and nothing behind them.
pub open spec fn body_at(items: Seq<ItemView>, pos: int) -> Result<Seq<StmtView>, ParseErrorView> {
    if token_at(items, pos) != Some(TokenView::LeftCurlyBrace) {
        Err(unexpected(items, pos, Expect::BodyOpen))
    } else {
        match stmts_at(items, pos + 1) {
            Ok(stmts) => match end_at(items, pos + 1 + stmts_width(stmts) + 1) {
                Some(error) => Err(error),
                None => Ok(stmts),
            },
            Err(error) => Err(error),
        }
    }
}

/// The tree that the items stand for, or the failure at the first item
/// that does not fit.
pub open spec fn source_tree(items: Seq<ItemView>) -> Result<AstView, ParseErrorView> {
    if token_at(items, 0) != Some(TokenView::Top) {
        Err(unexpected(items, 0, Expect::Top))
    } else if token_at(items, 1) != Some(TokenView::Mod) {
        Err(unexpected(items, 1, Expect::Mod))
    } else {
        match name_at(items, 2) {
            Ok(name) => if token_at(items, 3) != Some(TokenView::LeftParen) {
                Err(unexpected(items, 3, Expect::PortsOpen))
            } else {
                match ports_at(items, 4) {
                    Ok((ports, close)) => match body_at(items, close + 1) {
                        Ok(stmts) => Ok(AstView { top: ModView { name, ports, stmts } }),
                        Err(error) => Err(error),
                    },
                    Err(error) => Err(error),
                }
            },
            Err(error) => Err(error),
        }
    }
}

} // verus!

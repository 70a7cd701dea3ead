//! The parser: from scanned items to the syntax tree.

use crate::syntax::ast::{
    ports_view, stmts_view, Ast, AstView, BinaryOp, Dir, Expr, ExprView, Mod, Port, PortView, Stmt,
    StmtView, Type, UnaryOp,
};
use crate::syntax::error::{strings_view, ParseError, ParseErrorView};
use crate::syntax::grammar::{
    body_at, bound_at, bound_value, decimal_value, digit_value, direction_at, expr_at, expr_rest,
    name_at, operator_at, ports_at, source_tree, stmt_at, stmt_width, stmts_at, stmts_width, tier,
    token_at, type_at, type_width, typing_at, unary_op, unexpected, value_at, Expect,
};
use crate::syntax::lexer::{items_view, LexerItem};
use crate::syntax::spelling::{
    accounted, lemma_source_tree_complete, lemma_source_tree_failure, lemma_source_tree_sound,
    source_spelled,
};
use crate::syntax::token::Token;
use vstd::prelude::*;
use vstd::string::*;

verus! {

/// The value of what parsing returns.
pub open spec fn parsed_view(result: Result<Ast, ParseError>) -> Result<AstView, ParseErrorView> {
    match result {
        Ok(ast) => Ok(ast@),
        Err(error) => Err(error@),
    }
}

/// The widths of statements add up.
pub proof fn lemma_stmts_width_push(stmts: Seq<StmtView>, stmt: StmtView)
    ensures
        stmts_width(stmts.push(stmt)) == stmts_width(stmts) + stmt_width(stmt),
    decreases stmts.len(),
{
    if stmts.len() == 0 {
        assert(stmts.push(stmt).drop_first() =~= stmts);
        assert(stmts_width(stmts.push(stmt).drop_first()) == 0);
    } else {
        assert(stmts.push(stmt).drop_first() =~= stmts.drop_first().push(stmt));
        lemma_stmts_width_push(stmts.drop_first(), stmt);
    }
}

/// The token at `pos`, where the items hold a token there.
fn peek(items: &Vec<LexerItem>, pos: usize) -> (token: Option<&Token>)
    ensures
        match token {
            Some(token) => token_at(items_view(items@), pos as int) == Some(token@),
            None => token_at(items_view(items@), pos as int) is None,
        },
{
    if pos < items.len() {
        match &items[pos] {
            Ok(spanned) => Some(&spanned.1),
            Err(_) => None,
        }
    } else {
        None
    }
}

/// The strings of a list of string slices.
fn listed(names: Vec<&str>) -> (list: Vec<String>)
    ensures
        list.len() == names.len(),
        forall|i: int| 0 <= i < names.len() ==> list@[i]@ == names@[i]@,
{
    let mut list: Vec<String> = Vec::new();
    for i in 0..names.len()
        invariant
            list.len() == i,
            forall|k: int| 0 <= k < i ==> list@[k]@ == names@[k]@,
    {
        list.push(String::from_str(names[i]));
    }
    list
}

/// The descriptions of the tokens that are accepted at `expect`.
fn expected_names(expect: Expect) -> (names: Vec<String>)
    ensures
        strings_view(names@) == expect.names(),
{
    let names = match expect {
        Expect::Top => listed(vec!["top"]),
        Expect::Mod => listed(vec!["mod"]),
        Expect::Name => listed(vec!["identifier"]),
        Expect::PortsOpen => listed(vec!["("]),
        Expect::PortStart => listed(vec!["in", "out", ")"]),
        Expect::Colon => listed(vec![":"]),
        Expect::TypeName => listed(vec!["bit"]),
        Expect::PortTail => listed(vec!["[", ",", ")"]),
        Expect::PortNext => listed(vec![",", ")"]),
        Expect::Bound => listed(vec!["literal"]),
        Expect::RangeClose => listed(vec!["]"]),
        Expect::BodyOpen => listed(vec!["{"]),
        Expect::StmtStart => listed(vec!["identifier", "let", "}"]),
        Expect::AssignOp => listed(vec!["="]),
        Expect::Operand => listed(vec!["identifier", "literal", "(", "~", "&", "^", "|"]),
        Expect::StmtOperator => listed(vec!["&", "^", "|", "<<", ">>", ";"]),
        Expect::GroupOperator => listed(vec!["&", "^", "|", "<<", ">>", ")"]),
        Expect::LetTail => listed(vec!["[", "=", ";"]),
        Expect::LetInit => listed(vec!["=", ";"]),
    };
    assert(strings_view(names@) =~= expect.names());
    names
}

/// The failure at `pos`, where the grammar is at `expect`.
fn reject(items: &Vec<LexerItem>, pos: usize, expect: Expect) -> (error: ParseError)
    ensures
        error@ == unexpected(items_view(items@), pos as int, expect),
{
    if pos < items.len() {
        match &items[pos] {
            Ok(spanned) => ParseError::UnrecognizedToken {
                token: Some((spanned.0, spanned.1.clone(), spanned.2)),
                expected: expected_names(expect),
            },
            Err(error) => ParseError::User { error: *error },
        }
    } else {
        ParseError::UnrecognizedToken { token: None, expected: expected_names(expect) }
    }
}

/// How tightly a binary operator binds.
fn tier_of(op: BinaryOp) -> (level: u8)
    ensures
        level == tier(op),
{
    match op {
        BinaryOp::BitOr => 0,
        BinaryOp::BitXor => 1,
        BinaryOp::BitAnd => 2,
        BinaryOp::ShiftLeft => 3,
        BinaryOp::ShiftRight => 3,
    }
}

/// The binary operator of tier `level` at `pos`, if one stands there.
fn read_operator(items: &Vec<LexerItem>, level: u8, pos: usize) -> (found: Option<BinaryOp>)
    ensures
        found == operator_at(items_view(items@), level as nat, pos as int),
{
    let op = match peek(items, pos) {
        Some(Token::BitOr) => BinaryOp::BitOr,
        Some(Token::BitXor) => BinaryOp::BitXor,
        Some(Token::BitAnd) => BinaryOp::BitAnd,
        Some(Token::ShiftLeft) => BinaryOp::ShiftLeft,
        Some(Token::ShiftRight) => BinaryOp::ShiftRight,
        _ => {
            return None;
        },
    };
    if tier_of(op) == level {
        Some(op)
    } else {
        None
    }
}

/// The unary operator at `pos`, if one stands there.
fn read_unary(items: &Vec<LexerItem>, pos: usize) -> (found: Option<UnaryOp>)
    ensures
        found == match token_at(items_view(items@), pos as int) {
            Some(token) => unary_op(token),
            None => None,
        },
{
    match peek(items, pos) {
        Some(Token::Negate) => Some(UnaryOp::Negate),
        Some(Token::BitAnd) => Some(UnaryOp::ReductAnd),
        Some(Token::BitXor) => Some(UnaryOp::ReductXor),
        Some(Token::BitOr) => Some(UnaryOp::ReductOr),
        _ => None,
    }
}

/// Parses the expression of tier `level` or tighter that starts at `pos`,
/// and returns it with the position behind it.
fn parse_expr(items: &Vec<LexerItem>, level: u8, pos: usize) -> (result: Result<
    (Expr, usize),
    ParseError,
>)
    requires
        level <= 5,
        pos <= items.len(),
    ensures
        match result {
            Ok((ex, next)) => {
                &&& expr_at(items_view(items@), level as nat, pos as int) == Ok::<
                    ExprView,
                    ParseErrorView,
                >(ex@)
                &&& next == pos + ex@.width()
                &&& next <= items.len()
            },
            Err(error) => expr_at(items_view(items@), level as nat, pos as int) == Err::<
                ExprView,
                ParseErrorView,
            >(error@),
        },
    decreases items.len() - pos, 6 - level,
{
    let ghost view = items_view(items@);
    if level < 4 {
        let (first, after) = match parse_expr(items, level + 1, pos) {
            Ok(parsed) => parsed,
            Err(error) => {
                return Err(error);
            },
        };
        let mut left = first;
        let mut at = after;
        loop
            invariant
                level < 4,
                view == items_view(items@),
                at <= items.len(),
                at == pos + left@.width(),
                expr_at(view, level as nat, pos as int) == expr_rest(
                    view,
                    level as nat,
                    left@,
                    at as int,
                ),
            decreases items.len() - at,
        {
            match read_operator(items, level, at) {
                Some(op) => {
                    match parse_expr(items, level + 1, at + 1) {
                        Ok((right, next)) => {
                            left = Expr::Binary { lex: Box::new(left), op, rex: Box::new(right) };
                            at = next;
                        },
                        Err(error) => {
                            return Err(error);
                        },
                    }
                },
                None => {
                    return Ok((left, at));
                },
            }
        }
    } else if level == 4 {
        match read_unary(items, pos) {
            Some(op) => match parse_expr(items, level, pos + 1) {
                Ok((ex, next)) => Ok((Expr::Unary { op, ex: Box::new(ex) }, next)),
                Err(error) => Err(error),
            },
            None => parse_expr(items, 5, pos),
        }
    } else {
        match peek(items, pos) {
            Some(Token::Ident(id)) => Ok((Expr::Ident { id: id.clone() }, pos + 1)),
            Some(Token::Litrl(val)) => Ok((Expr::Litrl { val: val.clone() }, pos + 1)),
            Some(Token::LeftParen) => match parse_expr(items, 0, pos + 1) {
                Ok((ex, next)) => match peek(items, next) {
                    Some(Token::RightParen) => Ok((Expr::Paren { ex: Box::new(ex) }, next + 1)),
                    _ => Err(reject(items, next, Expect::GroupOperator)),
                },
                Err(error) => Err(error),
            },
            _ => Err(reject(items, pos, Expect::Operand)),
        }
    }
}

/// Appending a digit to a number that is no bound gives no bound.
proof fn lemma_bound_stays_none(text: Seq<char>, c: char)
    requires
        text.len() > 0,
        bound_value(text) is None,
    ensures
        bound_value(text.push(c)) is None,
{
    assert(text.push(c).drop_last() =~= text);
}

/// The bound of a bit vector that `text` writes.
fn read_bound(text: &String) -> (bound: Option<u32>)
    ensures
        bound == bound_value(text@),
{
    let mut value: u32 = 0;
    let mut valid: bool = true;
    for c in it: text.as_str().chars()
        invariant
            it.seq() == text@,
            valid && it.index() == 0 ==> value == 0,
            valid && it.index() > 0 ==> decimal_value(text@.take(it.index())) == Some(
                value as nat,
            ),
            !valid ==> it.index() > 0 && bound_value(text@.take(it.index())) is None,
    {
        let ghost before = text@.take(it.index());
        let ghost after = before.push(c);
        assert(text@.take(it.index() + 1) =~= after);
        assert(after.drop_last() =~= before);
        assert(after.last() == c);
        assert(after[0] == if it.index() == 0 { c } else { before[0] });
        if valid && '0' <= c && c <= '9' {
            let digit: u32 = c as u32 - '0' as u32;
            assert(digit_value(c) == Some(digit as nat));
            if value <= 429496729 && (value < 429496729 || digit <= 5) {
                value = value * 10 + digit;
                assert(decimal_value(after) == Some(value as nat));
            } else {
                assert(decimal_value(after) == Some((10 * value + digit) as nat));
                valid = false;
            }
        } else {
            proof {
                if !valid {
                    lemma_bound_stays_none(before, c);
                } else {
                    assert(digit_value(c) is None);
                    assert(decimal_value(after) is None);
                }
            }
            valid = false;
        }
    }
    assert(text@.take(text@.len() as int) =~= text@);
    if valid && text.as_str().unicode_len() > 0 {
        assert(decimal_value(text@) == Some(value as nat));
        Some(value)
    } else {
        None
    }
}

/// The bound of a bit vector that the token at `pos` writes.
fn parse_bound(items: &Vec<LexerItem>, pos: usize) -> (bound: Option<u32>)
    ensures
        bound == bound_at(items_view(items@), pos as int),
{
    match peek(items, pos) {
        Some(Token::Litrl(text)) => read_bound(text),
        _ => None,
    }
}

/// Parses the type that starts at `pos`, and returns it with the position
/// behind it.
fn parse_type(items: &Vec<LexerItem>, pos: usize) -> (result: Result<(Type, usize), ParseError>)
    requires
        pos <= items.len(),
    ensures
        match result {
            Ok((ty, next)) => {
                &&& type_at(items_view(items@), pos as int) == Ok::<Type, ParseErrorView>(ty)
                &&& next == pos + type_width(ty)
                &&& next <= items.len()
            },
            Err(error) => type_at(items_view(items@), pos as int) == Err::<Type, ParseErrorView>(
                error@,
            ),
        },
{
    match peek(items, pos) {
        Some(Token::Bit) => {},
        _ => {
            return Err(reject(items, pos, Expect::TypeName));
        },
    }
    match peek(items, pos + 1) {
        Some(Token::LeftSquareBrace) => {},
        _ => {
            return Ok((Type::Bit, pos + 1));
        },
    }
    let high = match parse_bound(items, pos + 2) {
        Some(high) => high,
        None => {
            return Err(reject(items, pos + 2, Expect::Bound));
        },
    };
    match peek(items, pos + 3) {
        Some(Token::Colon) => {},
        _ => {
            return Err(reject(items, pos + 3, Expect::Colon));
        },
    }
    let low = match parse_bound(items, pos + 4) {
        Some(low) => low,
        None => {
            return Err(reject(items, pos + 4, Expect::Bound));
        },
    };
    if low > high {
        return Err(reject(items, pos + 4, Expect::Bound));
    }
    match peek(items, pos + 5) {
        Some(Token::RightSquareBrace) => Ok((Type::BitVec { high, low }, pos + 6)),
        _ => Err(reject(items, pos + 5, Expect::RangeClose)),
    }
}

/// Parses the name at `pos`.
fn parse_name(items: &Vec<LexerItem>, pos: usize) -> (result: Result<String, ParseError>)
    ensures
        match result {
            Ok(name) => name_at(items_view(items@), pos as int) == Ok::<Seq<char>, ParseErrorView>(
                name@,
            ) && pos < items.len(),
            Err(error) => name_at(items_view(items@), pos as int) == Err::<
                Seq<char>,
                ParseErrorView,
            >(error@),
        },
{
    match peek(items, pos) {
        Some(Token::Ident(name)) => Ok(name.clone()),
        _ => Err(reject(items, pos, Expect::Name)),
    }
}

/// Parses a colon and a type, with the colon at `pos`, and returns the type
/// with the position behind it.
fn parse_typing(items: &Vec<LexerItem>, pos: usize) -> (result: Result<(Type, usize), ParseError>)
    requires
        pos <= items.len(),
    ensures
        match result {
            Ok((ty, next)) => {
                &&& typing_at(items_view(items@), pos as int) == Ok::<Type, ParseErrorView>(ty)
                &&& next == pos + 1 + type_width(ty)
                &&& next <= items.len()
            },
            Err(error) => typing_at(items_view(items@), pos as int) == Err::<Type, ParseErrorView>(
                error@,
            ),
        },
{
    match peek(items, pos) {
        Some(Token::Colon) => parse_type(items, pos + 1),
        _ => Err(reject(items, pos, Expect::Colon)),
    }
}

/// Parses an expression and the semicolon behind it, with the expression
/// at `pos`, and returns the expression with the position behind the
/// semicolon.
fn parse_value(items: &Vec<LexerItem>, pos: usize) -> (result: Result<(Expr, usize), ParseError>)
    requires
        pos <= items.len(),
    ensures
        match result {
            Ok((ex, next)) => {
                &&& value_at(items_view(items@), pos as int) == Ok::<ExprView, ParseErrorView>(ex@)
                &&& next == pos + ex@.width() + 1
                &&& next <= items.len()
            },
            Err(error) => value_at(items_view(items@), pos as int) == Err::<
                ExprView,
                ParseErrorView,
            >(error@),
        },
{
    match parse_expr(items, 0, pos) {
        Ok((ex, next)) => match peek(items, next) {
            Some(Token::Semicolon) => Ok((ex, next + 1)),
            _ => Err(reject(items, next, Expect::StmtOperator)),
        },
        Err(error) => Err(error),
    }
}

/// Parses the statement that starts at `pos`, and returns it with the
/// position behind it.
fn parse_stmt(items: &Vec<LexerItem>, pos: usize) -> (result: Result<(Stmt, usize), ParseError>)
    requires
        pos <= items.len(),
    ensures
        match result {
            Ok((stmt, next)) => {
                &&& stmt_at(items_view(items@), pos as int) == Ok::<
                    StmtView,
                    ParseErrorView,
                >(stmt@)
                &&& next == pos + stmt_width(stmt@)
                &&& next <= items.len()
            },
            Err(error) => stmt_at(items_view(items@), pos as int) == Err::<
                StmtView,
                ParseErrorView,
            >(error@),
        },
{
    match peek(items, pos) {
        Some(Token::Ident(id)) => {
            match peek(items, pos + 1) {
                Some(Token::Assign) => {},
                _ => {
                    return Err(reject(items, pos + 1, Expect::AssignOp));
                },
            }
            match parse_value(items, pos + 2) {
                Ok((ex, next)) => Ok((Stmt::Assign { id: id.clone(), ex }, next)),
                Err(error) => Err(error),
            }
        },
        Some(Token::Let) => {
            let id = match parse_name(items, pos + 1) {
                Ok(id) => id,
                Err(error) => {
                    return Err(error);
                },
            };
            let (ty, after) = match parse_typing(items, pos + 2) {
                Ok(typed) => typed,
                Err(error) => {
                    return Err(error);
                },
            };
            match peek(items, after) {
                Some(Token::Semicolon) => Ok((Stmt::Declare { id, ty }, after + 1)),
                Some(Token::Assign) => match parse_value(items, after + 1) {
                    Ok((ex, next)) => Ok((Stmt::DeclareAssign { id, ty, ex }, next)),
                    Err(error) => Err(error),
                },
                _ => {
                    let expect = match ty {
                        Type::Bit => Expect::LetTail,
                        Type::BitVec { .. } => Expect::LetInit,
                    };
                    Err(reject(items, after, expect))
                },
            }
        },
        _ => Err(reject(items, pos, Expect::StmtStart)),
    }
}

/// Parses the statements from `pos` up to the brace that closes the body,
/// and returns them with the position of that brace.
fn parse_stmts(items: &Vec<LexerItem>, pos: usize) -> (result: Result<
    (Vec<Stmt>, usize),
    ParseError,
>)
    requires
        pos <= items.len(),
    ensures
        match result {
            Ok((stmts, close)) => {
                &&& stmts_at(items_view(items@), pos as int) == Ok::<
                    Seq<StmtView>,
                    ParseErrorView,
                >(stmts_view(stmts@))
                &&& close == pos + stmts_width(stmts_view(stmts@))
                &&& close < items.len()
            },
            Err(error) => stmts_at(items_view(items@), pos as int) == Err::<
                Seq<StmtView>,
                ParseErrorView,
            >(error@),
        },
{
    let ghost view = items_view(items@);
    let mut stmts: Vec<Stmt> = Vec::new();
    let mut at = pos;
    loop
        invariant
            view == items_view(items@),
            pos <= at <= items.len(),
            at == pos + stmts_width(stmts_view(stmts@)),
            stmts_at(view, pos as int) == match stmts_at(view, at as int) {
                Ok(rest) => Ok::<Seq<StmtView>, ParseErrorView>(
                    stmts_view(stmts@) + rest,
                ),
                Err(error) => Err(error),
            },
        decreases items.len() - at,
    {
        match peek(items, at) {
            Some(Token::RightCurlyBrace) => {
                assert(stmts_view(stmts@) + Seq::<StmtView>::empty()
                    =~= stmts_view(stmts@));
                return Ok((stmts, at));
            },
            _ => {},
        }
        match parse_stmt(items, at) {
            Ok((stmt, next)) => {
                proof {
                    lemma_stmts_width_push(stmts_view(stmts@), stmt@);
                    assert(stmts_view(stmts@.push(stmt)) =~= stmts_view(stmts@).push(stmt@));
                    assert forall|rest: Seq<StmtView>|
                        stmts_view(stmts@) + (seq![stmt@] + rest) == #[trigger] (stmts_view(
                            stmts@,
                        ).push(stmt@) + rest) by {
                        assert(stmts_view(stmts@) + (seq![stmt@] + rest) =~= stmts_view(
                            stmts@,
                        ).push(stmt@) + rest);
                    }
                }
                stmts.push(stmt);
                at = next;
            },
            Err(error) => {
                return Err(error);
            },
        }
    }
}

/// The direction at `pos`, if one stands there.
fn read_direction(items: &Vec<LexerItem>, pos: usize) -> (found: Option<Dir>)
    ensures
        found == direction_at(items_view(items@), pos as int),
        found is Some ==> pos < items.len(),
{
    match peek(items, pos) {
        Some(Token::In) => Some(Dir::Input),
        Some(Token::Out) => Some(Dir::Output),
        _ => None,
    }
}

/// Parses the ports from `pos` up to the parenthesis that closes the list,
/// and returns them with the position of that parenthesis.
fn parse_ports(items: &Vec<LexerItem>, pos: usize) -> (result: Result<
    (Vec<Port>, usize),
    ParseError,
>)
    requires
        pos <= items.len(),
    ensures
        match result {
            Ok((ports, close)) => {
                &&& ports_at(items_view(items@), pos as int) == Ok::<
                    (Seq<PortView>, int),
                    ParseErrorView,
                >((ports_view(ports@), close as int))
                &&& close < items.len()
            },
            Err(error) => ports_at(items_view(items@), pos as int) == Err::<
                (Seq<PortView>, int),
                ParseErrorView,
            >(error@),
        },
{
    let ghost view = items_view(items@);
    let mut ports: Vec<Port> = Vec::new();
    let mut at = pos;
    loop
        invariant
            view == items_view(items@),
            pos <= at <= items.len(),
            ports_at(view, pos as int) == match ports_at(view, at as int) {
                Ok((rest, close)) => Ok::<(Seq<PortView>, int), ParseErrorView>(
                    (ports_view(ports@) + rest, close),
                ),
                Err(error) => Err(error),
            },
        decreases items.len() - at,
    {
        match peek(items, at) {
            Some(Token::RightParen) => {
                assert(ports_view(ports@) + Seq::<PortView>::empty()
                    =~= ports_view(ports@));
                return Ok((ports, at));
            },
            _ => {},
        }
        let dir = match read_direction(items, at) {
            Some(dir) => dir,
            None => {
                return Err(reject(items, at, Expect::PortStart));
            },
        };
        let name = match parse_name(items, at + 1) {
            Ok(name) => name,
            Err(error) => {
                return Err(error);
            },
        };
        let (ty, after) = match parse_typing(items, at + 2) {
            Ok(typed) => typed,
            Err(error) => {
                return Err(error);
            },
        };
        let port = Port { dir, name, ty };
        proof {
            assert(ports_view(ports@.push(port)) =~= ports_view(ports@).push(port@));
            assert(ports_view(ports@) + seq![port@] =~= ports_view(ports@).push(port@));
            assert forall|rest: Seq<PortView>|
                ports_view(ports@) + (seq![port@] + rest) == #[trigger] (ports_view(ports@).push(
                    port@,
                ) + rest) by {
                assert(ports_view(ports@) + (seq![port@] + rest) =~= ports_view(ports@).push(
                    port@,
                ) + rest);
            }
        }
        match peek(items, after) {
            Some(Token::Comma) => {
                ports.push(port);
                at = after + 1;
            },
            Some(Token::RightParen) => {
                ports.push(port);
                return Ok((ports, after));
            },
            _ => {
                let expect = match ty {
                    Type::Bit => Expect::PortTail,
                    Type::BitVec { .. } => Expect::PortNext,
                };
                return Err(reject(items, after, expect));
            },
        }
    }
}

/// Parses the body that starts at `pos`: the statements between braces,
/// and nothing behind them.
fn parse_body(items: &Vec<LexerItem>, pos: usize) -> (result: Result<Vec<Stmt>, ParseError>)
    requires
        pos <= items.len(),
    ensures
        match result {
            Ok(stmts) => body_at(items_view(items@), pos as int) == Ok::<
                Seq<StmtView>,
                ParseErrorView,
            >(stmts_view(stmts@)),
            Err(error) => body_at(items_view(items@), pos as int) == Err::<
                Seq<StmtView>,
                ParseErrorView,
            >(error@),
        },
{
    match peek(items, pos) {
        Some(Token::LeftCurlyBrace) => {},
        _ => {
            return Err(reject(items, pos, Expect::BodyOpen));
        },
    }
    let (stmts, close) = match parse_stmts(items, pos + 1) {
        Ok(parsed) => parsed,
        Err(error) => {
            return Err(error);
        },
    };
    let end = close + 1;
    if end < items.len() {
        match &items[end] {
            Ok(spanned) => Err(
                ParseError::ExtraToken { token: (spanned.0, spanned.1.clone(), spanned.2) },
            ),
            Err(error) => Err(ParseError::User { error: *error }),
        }
    } else {
        Ok(stmts)
    }
}

/// Parses the whole source: `top`, `mod`, the name, the ports and the
/// body.
fn parse_module(items: &Vec<LexerItem>) -> (result: Result<Ast, ParseError>)
    ensures
        parsed_view(result) == source_tree(items_view(items@)),
{
    match peek(items, 0) {
        Some(Token::Top) => {},
        _ => {
            return Err(reject(items, 0, Expect::Top));
        },
    }
    match peek(items, 1) {
        Some(Token::Mod) => {},
        _ => {
            return Err(reject(items, 1, Expect::Mod));
        },
    }
    let name = match parse_name(items, 2) {
        Ok(name) => name,
        Err(error) => {
            return Err(error);
        },
    };
    match peek(items, 3) {
        Some(Token::LeftParen) => {},
        _ => {
            return Err(reject(items, 3, Expect::PortsOpen));
        },
    }
    let (ports, close) = match parse_ports(items, 4) {
        Ok(parsed) => parsed,
        Err(error) => {
            return Err(error);
        },
    };
    match parse_body(items, close + 1) {
        Ok(stmts) => Ok(Ast { top: Mod { name, ports, stmts } }),
        Err(error) => Err(error),
    }
}

/// Parses scanned items into the syntax tree that they stand for.
///
/// The items parse exactly where they spell a well-formed tree, and then
/// into that tree. Where they spell none, the failure is that of the first
/// item that does not fit: an error of the scanner as it is, a token as
/// unrecognized, with what was expected in its place, or as an extra token
/// behind the module.
pub fn parse_tokens(items: &Vec<LexerItem>) -> (result: Result<Ast, ParseError>)
    ensures
        parsed_view(result) == source_tree(items_view(items@)),
        match result {
            Ok(tree) => {
                &&& tree@.wf()
                &&& exists|trailing: bool| source_spelled(items_view(items@), tree@, trailing)
            },
            Err(error) => {
                &&& accounted(items_view(items@), error@)
                &&& forall|tree: AstView, trailing: bool|
                    tree.wf() ==> !#[trigger] source_spelled(items_view(items@), tree, trailing)
            },
        },
{
    let result = parse_module(items);
    proof {
        let view = items_view(items@);
        if result is Ok {
            lemma_source_tree_sound(view);
        } else {
            lemma_source_tree_failure(view);
            assert forall|tree: AstView, trailing: bool| tree.wf() implies !#[trigger] source_spelled(
                view,
                tree,
                trailing,
            ) by {
                if source_spelled(view, tree, trailing) {
                    lemma_source_tree_complete(view, tree, trailing);
                }
            }
        }
    }
    result
}

} // verus!

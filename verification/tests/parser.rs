use silica::syntax::ast::{Ast, BinaryOp, Dir, Expr, Mod, Port, Stmt, Type, UnaryOp};
use silica::syntax::parse_source;

fn assert_expr(source: &str, expected: &Expr) {
    let module = format!("top mod a ( out y: bit ) {{ y = {}; }}", source);

    let ast = parse_source(&module).unwrap();
    let expr = match ast.top.stmts[0] {
        Stmt::Assign { id: _, ref ex } => ex,
        _ => panic!(),
    };

    assert_eq!(expr, expected);
}

fn assert_stmt(source: &str, expected: &Stmt) {
    let module = format!("top mod a ( out y: bit ) {{ {} }}", source);

    let ast = parse_source(&module).unwrap();
    let stmt = &ast.top.stmts[0];

    assert_eq!(stmt, expected);
}

fn litrl(val: &str) -> Box<Expr> {
    Box::new(Expr::Litrl { val: val.to_string() })
}

#[test]
fn test_assign_stmt() {
    assert_stmt(
        "y = 5;",
        &Stmt::Assign { id: "y".to_string(), ex: Expr::Litrl { val: "5".to_string() } },
    );
}

#[test]
fn test_declare_stmt() {
    assert_stmt("let y: bit;", &Stmt::Declare { id: "y".to_string(), ty: Type::Bit });
}

#[test]
fn test_declare_assign_stmt() {
    assert_stmt(
        "let y: bit = 1;",
        &Stmt::DeclareAssign {
            id: "y".to_string(),
            ty: Type::Bit,
            ex: Expr::Litrl { val: "1".to_string() },
        },
    );
}

#[test]
fn vector_declare_stmt() {
    assert_stmt(
        "let y: bit[3:0] = 1;",
        &Stmt::DeclareAssign {
            id: "y".to_string(),
            ty: Type::BitVec { high: 3, low: 0 },
            ex: Expr::Litrl { val: "1".to_string() },
        },
    );
}

#[test]
fn test_precedence() {
    assert_expr(
        "1 | 2 ^ 3 & & 4 << 5",
        &Expr::Binary {
            lex: litrl("1"),
            op: BinaryOp::BitOr,
            rex: Box::new(Expr::Binary {
                lex: litrl("2"),
                op: BinaryOp::BitXor,
                rex: Box::new(Expr::Binary {
                    lex: litrl("3"),
                    op: BinaryOp::BitAnd,
                    rex: Box::new(Expr::Binary {
                        lex: Box::new(Expr::Unary { op: UnaryOp::ReductAnd, ex: litrl("4") }),
                        op: BinaryOp::ShiftLeft,
                        rex: litrl("5"),
                    }),
                }),
            }),
        },
    );
}

#[test]
fn test_paren_grouping() {
    assert_expr(
        "1 << ( 2 | 3 ) >> 1",
        &Expr::Binary {
            lex: Box::new(Expr::Binary {
                lex: litrl("1"),
                op: BinaryOp::ShiftLeft,
                rex: Box::new(Expr::Paren {
                    ex: Box::new(Expr::Binary {
                        lex: litrl("2"),
                        op: BinaryOp::BitOr,
                        rex: litrl("3"),
                    }),
                }),
            }),
            op: BinaryOp::ShiftRight,
            rex: litrl("1"),
        },
    );
}

#[test]
fn test_trailing_comma() {
    let no_comma = "top mod a (
            in x: bit,
            out y: bit
        ) {
            y = x;
        }";

    let comma = "top mod a (
            in x: bit,
            out y: bit,
        ) {
            y = x;
        }";

    let ast_no_comma = parse_source(no_comma).unwrap();
    let ast_comma = parse_source(comma).unwrap();

    assert_eq!(ast_comma, ast_no_comma);
}

#[test]
fn test_module() {
    let source = "top mod a (\r\n            out y: bit\r\n        ) {\r\n            y = 1;\r\n        }";

    let ast = parse_source(source).unwrap();

    let expected = Ast {
        top: Mod {
            name: "a".to_string(),
            ports: vec![Port { dir: Dir::Output, name: "y".to_string(), ty: Type::Bit }],
            stmts: vec![Stmt::Assign {
                id: "y".to_string(),
                ex: Expr::Litrl { val: "1".to_string() },
            }],
        },
    };

    assert_eq!(ast, expected);
}

fn ident(id: &str) -> Box<Expr> {
    Box::new(Expr::Ident { id: id.to_string() })
}

fn binary(lex: Box<Expr>, op: BinaryOp, rex: Box<Expr>) -> Box<Expr> {
    Box::new(Expr::Binary { lex, op, rex })
}

fn unary(op: UnaryOp, ex: Box<Expr>) -> Box<Expr> {
    Box::new(Expr::Unary { op, ex })
}

#[test]
fn operators_bind_from_or_to_shift_and_unary_tightest() {
    assert_expr(
        "1 | 2 ^ 3 & &4 << 5",
        &binary(
            litrl("1"),
            BinaryOp::BitOr,
            binary(
                litrl("2"),
                BinaryOp::BitXor,
                binary(
                    litrl("3"),
                    BinaryOp::BitAnd,
                    binary(unary(UnaryOp::ReductAnd, litrl("4")), BinaryOp::ShiftLeft, litrl("5")),
                ),
            ),
        ),
    );
    assert_expr(
        "a << 1 & b | c ^ d",
        &binary(
            binary(binary(ident("a"), BinaryOp::ShiftLeft, litrl("1")), BinaryOp::BitAnd, ident("b")),
            BinaryOp::BitOr,
            binary(ident("c"), BinaryOp::BitXor, ident("d")),
        ),
    );
}

#[test]
fn binary_operators_associate_to_the_left() {
    assert_expr(
        "a | b | c",
        &binary(binary(ident("a"), BinaryOp::BitOr, ident("b")), BinaryOp::BitOr, ident("c")),
    );
    assert_expr(
        "a >> 1 << 2 >> 3",
        &binary(
            binary(
                binary(ident("a"), BinaryOp::ShiftRight, litrl("1")),
                BinaryOp::ShiftLeft,
                litrl("2"),
            ),
            BinaryOp::ShiftRight,
            litrl("3"),
        ),
    );
    assert_expr(
        "a ^ b & c & d ^ e",
        &binary(
            binary(
                ident("a"),
                BinaryOp::BitXor,
                binary(binary(ident("b"), BinaryOp::BitAnd, ident("c")), BinaryOp::BitAnd, ident("d")),
            ),
            BinaryOp::BitXor,
            ident("e"),
        ),
    );
}

#[test]
fn unary_operators_nest_and_take_parenthesized_operands() {
    assert_expr(
        "~ ~ | ^ a",
        &unary(
            UnaryOp::Negate,
            unary(UnaryOp::Negate, unary(UnaryOp::ReductOr, unary(UnaryOp::ReductXor, ident("a")))),
        ),
    );
    assert_expr(
        "~( ( a ) | b ) & c",
        &binary(
            unary(
                UnaryOp::Negate,
                Box::new(Expr::Paren {
                    ex: binary(Box::new(Expr::Paren { ex: ident("a") }), BinaryOp::BitOr, ident("b")),
                }),
            ),
            BinaryOp::BitAnd,
            ident("c"),
        ),
    );
}

#[test]
fn ports_and_statements_keep_their_order() {
    let tree = parse_source(
        "top mod m ( in a: bit[7:0], in b: bit, out y: bit[15:8], ) { let t: bit[0:0]; t = a; let u: bit[2:1] = b; y = u; }",
    )
    .unwrap();
    let expected = Ast {
        top: Mod {
            name: "m".to_string(),
            ports: vec![
                Port { dir: Dir::Input, name: "a".to_string(), ty: Type::BitVec { high: 7, low: 0 } },
                Port { dir: Dir::Input, name: "b".to_string(), ty: Type::Bit },
                Port { dir: Dir::Output, name: "y".to_string(), ty: Type::BitVec { high: 15, low: 8 } },
            ],
            stmts: vec![
                Stmt::Declare { id: "t".to_string(), ty: Type::BitVec { high: 0, low: 0 } },
                Stmt::Assign { id: "t".to_string(), ex: *ident("a") },
                Stmt::DeclareAssign {
                    id: "u".to_string(),
                    ty: Type::BitVec { high: 2, low: 1 },
                    ex: *ident("b"),
                },
                Stmt::Assign { id: "y".to_string(), ex: *ident("u") },
            ],
        },
    };
    assert_eq!(tree, expected);
    assert_eq!(tree.clone(), expected);
}

#[test]
fn module_may_have_no_ports_and_no_statements() {
    let tree = parse_source("top mod empty ( ) { }").unwrap();
    assert_eq!(
        tree,
        Ast { top: Mod { name: "empty".to_string(), ports: vec![], stmts: vec![] } }
    );
}

#[test]
fn trailing_comma_behind_any_port_list_changes_nothing() {
    for ports in ["in x: bit", "in x: bit[3:0]", "in x: bit, out y: bit[1:0], in z: bit"] {
        let without = format!("top mod a ( {} ) {{ y = x; }}", ports);
        let with = format!("top mod a ( {}, ) {{ y = x; }}", ports);
        let tree = parse_source(&without).unwrap();
        assert_eq!(parse_source(&with).unwrap(), tree);
    }
}

#[test]
fn copies_of_expressions_are_equal() {
    let expr = binary(unary(UnaryOp::Negate, ident("a")), BinaryOp::ShiftLeft, litrl("3"));
    assert_eq!(silica::syntax::ast::copy_expr(&expr), *expr);
    assert_eq!(expr.clone(), expr);
}

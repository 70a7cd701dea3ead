use silica::syntax::ast::{Ast, BinaryOp, Dir, Expr, Mod, Port, Stmt, Type, UnaryOp};

fn assert_expr(source: &str, expected: &Expr) {
    let module = format!("top mod a ( out y: bit ) {{ y = {}; }}", source);

    let ast = Ast::new(&module).unwrap();
    let expr = match ast.top.stmts[0] {
        Stmt::Assign { id: _, ref ex } => ex,
        _ => panic!(),
    };

    assert_eq!(expr, expected);
}

fn assert_stmt(source: &str, expected: &Stmt) {
    let module = format!("top mod a ( out y: bit ) {{ {} }}", source);

    let ast = Ast::new(&module).unwrap();
    let stmt = &ast.top.stmts[0];

    assert_eq!(stmt, expected);
}

fn litrl(val: &str) -> Box<Expr> {
    Box::new(Expr::Litrl { val: val.to_string() })
}

#[test]
fn lib_assign_stmt() {
    assert_stmt(
        "y = 5;",
        &Stmt::Assign { id: "y".to_string(), ex: Expr::Litrl { val: "5".to_string() } },
    );
}

#[test]
fn lib_declare_stmt() {
    assert_stmt("let y: bit;", &Stmt::Declare { id: "y".to_string(), ty: Type::Bit });
}

#[test]
fn lib_declare_assign_stmt() {
    assert_stmt(
        "let y: bit = 1;",
        &Stmt::DeclareAssign {
            id: "y".to_string(),
            ty: Type::Bit,
            ex: Expr::Litrl { val: "1".to_string() },
        },
    );
}

#[test]
fn lib_precedence() {
    assert_expr(
        "1 | 2 ^ 3 & & 4 << 5",
        &Expr::Binary {
            lex: litrl("1"),
            op: BinaryOp::BitOr,
            rex: Box::new(Expr::Binary {
                lex: litrl("2"),
                op: BinaryOp::BitXor,
                rex: Box::new(Expr::Binary {
                    lex: litrl("3"),
                    op: BinaryOp::BitAnd,
                    rex: Box::new(Expr::Binary {
                        lex: Box::new(Expr::Unary { op: UnaryOp::ReductAnd, ex: litrl("4") }),
                        op: BinaryOp::ShiftLeft,
                        rex: litrl("5"),
                    }),
                }),
            }),
        },
    );
}

#[test]
fn lib_paren_grouping() {
    assert_expr(
        "1 << ( 2 | 3 ) >> 1",
        &Expr::Binary {
            lex: Box::new(Expr::Binary {
                lex: litrl("1"),
                op: BinaryOp::ShiftLeft,
                rex: Box::new(Expr::Paren {
                    ex: Box::new(Expr::Binary {
                        lex: litrl("2"),
                        op: BinaryOp::BitOr,
                        rex: litrl("3"),
                    }),
                }),
            }),
            op: BinaryOp::ShiftRight,
            rex: litrl("1"),
        },
    );
}

#[test]
fn lib_trailing_comma() {
    let no_comma = "top mod a (
	            in x: bit,
	            out y: bit
	        ) {
	            y = x;
	        }";

    let comma = "top mod a (
	            in x: bit,
	            out y: bit,
	        ) {
	            y = x;
	        }";

    let ast_no_comma = Ast::new(no_comma).unwrap();
    let ast_comma = Ast::new(comma).unwrap();

    assert_eq!(ast_comma, ast_no_comma);
}

#[test]
fn lib_module() {
    let source = "top mod a (
	            out y: bit
	        ) {
	            y = 1;
	        }";

    let ast = Ast::new(source).unwrap();

    let expected = Ast {
        top: Mod {
            name: "a".to_string(),
            ports: vec![Port { dir: Dir::Output, name: "y".to_string(), ty: Type::Bit }],
            stmts: vec![Stmt::Assign {
                id: "y".to_string(),
                ex: Expr::Litrl { val: "1".to_string() },
            }],
        },
    };

    assert_eq!(ast, expected);
}

#[test]
// Tests that trailing commas (wherever they are allowed) do not affect the
// AST that is generated.
//
// Currently port lists are the only places where trailing commas are allowed.
fn integration_trailing_comma() {
    let no_comma = "top mod a (
            in a: bit,
            out b: bit
        ) {
            b = a;
        }";

    let comma = "top mod a (
            in a: bit,
            out b: bit,
        ) {
            b = a;
        }";

    let ast_no_comma = Ast::new(no_comma).unwrap();
    let ast_comma = Ast::new(comma).unwrap();

    assert_eq!(ast_comma, ast_no_comma);
}

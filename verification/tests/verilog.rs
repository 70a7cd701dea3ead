use silica::codegen::{CodeGen, ToVerilog};
use silica::compile;
use silica::syntax::ast as source;
use silica::syntax::parse_source;
use silica::verilog::ast::{Ast, BinaryOp, Dir, Expr, Mod, Port, Stmt, Type, UnaryOp};
use silica::verilog::transform::transform_ast;
use silica::verilog::Verilog;

#[test]
fn simple_mod() {
    let generated = compile("top mod a ( out y: bit ) { y = 1; }").unwrap();
    assert_eq!(generated, "module a ( \n\toutput wire y \n); \n\tassign y = 1; \nendmodule \n");
}

#[test]
fn simple_fail() {
    assert!(compile("top mod a ( out y: bit ) { y = ; }").is_err());
    assert!(compile("mod a ( ) { }").is_err());
}

#[test]
fn ports_are_joined_by_commas_and_the_last_has_none() {
    let generated = compile("top mod m ( in a: bit, in b: bit[7:0], out y: bit, ) { }").unwrap();
    assert_eq!(
        generated,
        "module m ( \n\tinput wire a, \n\tinput wire b, \n\toutput wire y \n); \nendmodule \n"
    );
}

#[test]
fn module_without_ports_or_statements() {
    assert_eq!(compile("top mod m ( ) { }").unwrap(), "module m ( \n); \nendmodule \n");
}

#[test]
fn statements_and_expressions_are_written_out() {
    let generated = compile(
        "top mod m ( in a: bit, out y: bit ) { let t: bit[3:0]; let u: bit = ~a; y = ( a | t ) << 2 ^ &u; }",
    )
    .unwrap();
    assert_eq!(
        generated,
        "module m ( \n\tinput wire a, \n\toutput wire y \n); \n\twire t; \n\twire u = ~a; \n\tassign y = ( a | t ) << 2 ^ &u; \nendmodule \n"
    );
}

#[test]
fn declare_has_no_assignment_sign_and_declare_assign_has_one() {
    let declare = Stmt::Declare { id: "t".to_string(), ty: Type::Wire };
    assert_eq!(declare.render(), "wire t;");
    assert_eq!(declare.render().matches('=').count(), 0);
    let declare_assign = Stmt::DeclareAssign {
        id: "t".to_string(),
        ty: Type::Wire,
        ex: Expr::Unary { op: UnaryOp::ReductXor, ex: Box::new(Expr::Ident { id: "a".to_string() }) },
    };
    assert_eq!(declare_assign.render(), "wire t = ^a;");
    assert_eq!(declare_assign.render().matches('=').count(), 1);
}

#[test]
fn operators_and_directions_have_their_verilog_text() {
    assert_eq!(BinaryOp::ShiftLeft.render(), "<<");
    assert_eq!(BinaryOp::ShiftRight.render(), ">>");
    assert_eq!(BinaryOp::BitAnd.render(), "&");
    assert_eq!(BinaryOp::BitXor.render(), "^");
    assert_eq!(BinaryOp::BitOr.render(), "|");
    assert_eq!(UnaryOp::Negate.render(), "~");
    assert_eq!(UnaryOp::ReductAnd.render(), "&");
    assert_eq!(UnaryOp::ReductXor.render(), "^");
    assert_eq!(UnaryOp::ReductOr.render(), "|");
    assert_eq!(Dir::Input.render(), "input");
    assert_eq!(Dir::Output.render(), "output");
    assert_eq!(Type::Wire.render(), "wire");
}

#[test]
fn lowering_keeps_shape_names_and_literals() {
    let tree = parse_source("top mod m ( in a: bit[3:1] ) { let t: bit[1:0] = a >> 01; }").unwrap();
    let expected = Ast {
        top: Mod {
            name: "m".to_string(),
            ports: vec![Port { dir: Dir::Input, name: "a".to_string(), ty: Type::Wire }],
            stmts: vec![Stmt::DeclareAssign {
                id: "t".to_string(),
                ty: Type::Wire,
                ex: Expr::Binary {
                    lex: Box::new(Expr::Ident { id: "a".to_string() }),
                    op: BinaryOp::ShiftRight,
                    rex: Box::new(Expr::Litrl { val: "01".to_string() }),
                },
            }],
        },
    };
    assert_eq!(transform_ast(&tree), expected);
    assert_eq!(expected.render(), Verilog::new(&tree).build());
}

#[test]
fn generator_writes_what_the_lowered_tree_reads() {
    let source = "top mod m ( in a: bit, out y: bit[1:0], ) { let t: bit; t = ~a & ( a ^ 1 ); y = t << 1 | |a; }";
    let tree = parse_source(source).unwrap();
    let direct = CodeGen::new(tree.clone()).generate();
    assert_eq!(direct, Verilog::new(&tree).build());
    assert_eq!(direct, tree.to_verilog());
    assert_eq!(source::Type::BitVec { high: 1, low: 0 }.to_verilog(), "wire");
    assert_eq!(source::Dir::Output.to_verilog(), "output");
}

#[test]
fn minimal_module_round_trip() {
    let tree = parse_source("top mod a ( out y: bit ) { y = 1; }").unwrap();
    let text = Verilog::new(&tree).build();
    assert_eq!(text, "module a ( \n\toutput wire y \n); \n\tassign y = 1; \nendmodule \n");
}

#[test]
fn parentheses_have_a_space_inside_each() {
    let expr = Expr::Paren {
        ex: Box::new(Expr::Binary {
            lex: Box::new(Expr::Litrl { val: "2".to_string() }),
            op: BinaryOp::BitOr,
            rex: Box::new(Expr::Unary {
                op: UnaryOp::Negate,
                ex: Box::new(Expr::Ident { id: "x".to_string() }),
            }),
        }),
    };
    assert_eq!(expr.render(), "( 2 | ~x )");
    assert_eq!(expr.clone(), expr);
    assert_eq!(silica::verilog::ast::copy_expr(&expr).render(), "( 2 | ~x )");
    let port = Port { dir: Dir::Input, name: "clk".to_string(), ty: Type::Wire };
    assert_eq!(port.render(), "input wire clk");
    let assign = Stmt::Assign { id: "y".to_string(), ex: expr };
    assert_eq!(assign.render(), "assign y = ( 2 | ~x );");
}

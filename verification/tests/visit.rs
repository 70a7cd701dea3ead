use silica::syntax::ast::{BinaryOp, Dir, Expr, Mod, Port, Stmt, Type, UnaryOp};
use silica::syntax::parse_source;
use silica::syntax::visit::{
    walk_binary_op, walk_dir, walk_expr, walk_mod, walk_port, walk_stmt, walk_type, walk_unary_op,
    Visitor,
};
use silica::verilog::emit::Emitter;
use silica::verilog::Verilog;

#[derive(Default)]
struct Trace {
    seen: Vec<String>,
}

impl Visitor for Trace {
    fn visit_mod(&mut self, m: &Mod) {
        self.seen.push(format!("mod {}", m.name));
        walk_mod(self, m);
    }

    fn visit_port(&mut self, p: &Port) {
        self.seen.push(format!("port {}", p.name));
        walk_port(self, p);
    }

    fn visit_dir(&mut self, d: &Dir) {
        self.seen.push(format!("{:?}", d));
        walk_dir(self, d);
    }

    fn visit_type(&mut self, t: &Type) {
        self.seen.push(format!("{:?}", t));
        walk_type(self, t);
    }

    fn visit_stmt(&mut self, s: &Stmt) {
        self.seen.push("stmt".to_string());
        walk_stmt(self, s);
    }

    fn visit_expr(&mut self, e: &Expr) {
        self.seen.push("expr".to_string());
        walk_expr(self, e);
    }

    fn visit_unary_op(&mut self, u: &UnaryOp) {
        self.seen.push(format!("{:?}", u));
        walk_unary_op(self, u);
    }

    fn visit_binary_op(&mut self, b: &BinaryOp) {
        self.seen.push(format!("{:?}", b));
        walk_binary_op(self, b);
    }
}

#[test]
fn walking_visits_the_parts_in_their_order() {
    let tree = parse_source(
        "top mod m ( in a: bit, out y: bit[1:0] ) { let t: bit; y = ( a ) & ~t; let u: bit = 1; }",
    )
    .unwrap();
    let mut trace = Trace::default();
    trace.visit_mod(&tree.top);
    assert_eq!(
        trace.seen,
        vec![
            "mod m",
            "port a",
            "Input",
            "Bit",
            "port y",
            "Output",
            "BitVec { high: 1, low: 0 }",
            "stmt",
            "Bit",
            "stmt",
            "expr",
            "expr",
            "expr",
            "BitAnd",
            "expr",
            "Negate",
            "stmt",
            "Bit",
            "expr",
        ]
    );
}

#[test]
fn emitter_writes_what_the_lowered_tree_reads() {
    let tree = parse_source(
        "top mod m ( in a: bit, out y: bit[1:0], ) { let t: bit; y = ( a ) & ~t << 1; let u: bit = ^a; }",
    )
    .unwrap();
    let mut emitter = Emitter::new();
    let text = emitter.build(&tree);
    assert_eq!(text, Verilog::new(&tree).build());
    assert_eq!(
        text,
        "module m ( \n\tinput wire a, \n\toutput wire y \n); \n\twire t; \n\tassign y = ( a ) & ~t << 1; \n\twire u = ^a; \nendmodule \n"
    );
    let twice = emitter.build(&tree);
    assert_eq!(twice, format!("{}{}", text, text));
}

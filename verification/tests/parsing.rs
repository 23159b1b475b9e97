use redditlang::ast::{BinOp, ExprKind, Program, StmtKind};
use redditlang::errors::Rule;
use redditlang::parser::parse_file;
use redditlang::pretty::print_program;

fn text(v: &[char]) -> String {
    v.iter().collect()
}

#[test]
fn parses_simple_program() {
    let p = parse_file("fn main() { return 0; }").unwrap();
    assert_eq!(p.decls.len(), 1);
    assert_eq!(text(&p.decls[0].name), "main");
    assert_eq!(p.decls[0].params.len(), 0);
    assert_eq!(p.decls[0].body.len(), 1);
    assert!(matches!(p.decls[0].body[0].kind, StmtKind::Return(Some(_))));
}

#[test]
fn top_level_count_matches_grammar() {
    let src = "fn a() { return 1; } fn b() { return 2; } fn main() { }";
    let p = parse_file(src).unwrap();
    assert_eq!(p.decls.len(), 3);
    assert_eq!(text(&p.decls[0].name), "a");
    assert_eq!(text(&p.decls[1].name), "b");
    assert_eq!(text(&p.decls[2].name), "main");
}

#[test]
fn empty_source_is_an_empty_program() {
    let p = parse_file("").unwrap();
    assert_eq!(p.decls.len(), 0);
}

#[test]
fn error_carries_position_and_rule() {
    let e = parse_file("fn main( {").unwrap_err();
    assert_eq!(e.pos, 0);
    assert_eq!(e.expected, vec![Rule::FunctionDecl]);
}

#[test]
fn error_after_good_declaration() {
    let e = parse_file("fn main() { } fn").unwrap_err();
    assert_eq!(e.pos, 14);
    assert_eq!(e.expected, vec![Rule::FunctionDecl]);
}

#[test]
fn largest_int_literal_parses() {
    let p = parse_file("fn main() { return 2147483647; }").unwrap();
    match &p.decls[0].body[0].kind {
        StmtKind::Return(Some(e)) => match e.kind {
            ExprKind::Int(n) => assert_eq!(n, 2147483647),
            _ => panic!("expected an integer literal"),
        },
        _ => panic!("expected a return statement"),
    }
}

#[test]
fn oversized_int_literal_is_rejected() {
    assert!(parse_file("fn main() { return 2147483648; }").is_err());
}

#[test]
fn leading_zeros_do_not_overflow() {
    let p = parse_file("fn main() { return 0000000000042; }").unwrap();
    match &p.decls[0].body[0].kind {
        StmtKind::Return(Some(e)) => assert!(matches!(e.kind, ExprKind::Int(42))),
        _ => panic!("expected a return statement"),
    }
}

#[test]
fn precedence_binds_product_tighter() {
    let p = parse_file("fn main() { return 1 + 2 * 3; }").unwrap();
    match &p.decls[0].body[0].kind {
        StmtKind::Return(Some(e)) => match &e.kind {
            ExprKind::Binary(BinOp::Add, a, b) => {
                assert!(matches!(a.kind, ExprKind::Int(1)));
                match &b.kind {
                    ExprKind::Binary(BinOp::Mul, x, y) => {
                        assert!(matches!(x.kind, ExprKind::Int(2)));
                        assert!(matches!(y.kind, ExprKind::Int(3)));
                    },
                    _ => panic!("expected a product on the right"),
                }
            },
            _ => panic!("expected a sum at the top"),
        },
        _ => panic!("expected a return statement"),
    }
}

#[test]
fn operators_associate_left() {
    let p = parse_file("fn main() { return 8 - 3 - 2; }").unwrap();
    match &p.decls[0].body[0].kind {
        StmtKind::Return(Some(e)) => match &e.kind {
            ExprKind::Binary(BinOp::Sub, a, _) => {
                assert!(matches!(a.kind, ExprKind::Binary(BinOp::Sub, _, _)));
            },
            _ => panic!("expected a difference at the top"),
        },
        _ => panic!("expected a return statement"),
    }
}

#[test]
fn unterminated_string_is_rejected() {
    assert!(parse_file("fn main() { print(\"abc); }").is_err());
}

#[test]
fn keyword_is_no_identifier() {
    assert!(parse_file("fn while() { }").is_err());
}

#[test]
fn parenthesized_expressions_regroup() {
    let p = parse_file("fn main() { return (1 + 2) * 3; }").unwrap();
    match &p.decls[0].body[0].kind {
        StmtKind::Return(Some(e)) => {
            assert!(matches!(e.kind, ExprKind::Binary(BinOp::Mul, _, _)));
        },
        _ => panic!("expected a return statement"),
    }
}

fn reparse(p: &Program) -> Program {
    let printed: String = print_program(p).iter().collect();
    parse_file(&printed).expect("printed program must parse again")
}

#[test]
fn roundtrip_keeps_simple_structure() {
    let p = parse_file("fn main() { let x = 1 + 2; return x; }").unwrap();
    let q = reparse(&p);
    assert_eq!(q.decls.len(), 1);
    assert_eq!(text(&q.decls[0].name), "main");
    assert_eq!(q.decls[0].body.len(), 2);
    match &q.decls[0].body[0].kind {
        StmtKind::VarDecl(n, e) => {
            assert_eq!(text(n), "x");
            assert!(matches!(e.kind, ExprKind::Binary(BinOp::Add, _, _)));
        },
        _ => panic!("expected a variable declaration"),
    }
    assert!(matches!(q.decls[0].body[1].kind, StmtKind::Return(Some(_))));
    // printing the reparsed tree gives the same text again
    assert_eq!(text(&print_program(&p)), text(&print_program(&q)));
}

#[test]
fn roundtrip_keeps_control_flow() {
    let src = "fn f(a, b) { if a < b { return a; } else { return b; } } \
               fn main() { let i = 0; while i < 3 { f(i, 2 * i); } print(\"done\"); }";
    let p = parse_file(src).unwrap();
    let q = reparse(&p);
    assert_eq!(q.decls.len(), 2);
    assert_eq!(text(&q.decls[0].name), "f");
    assert_eq!(q.decls[0].params.len(), 2);
    assert!(matches!(q.decls[0].body[0].kind, StmtKind::If(_, _, Some(_))));
    assert!(matches!(q.decls[1].body[1].kind, StmtKind::While(_, _)));
    assert_eq!(text(&print_program(&p)), text(&print_program(&q)));
}

#[test]
fn roundtrip_is_stable_after_one_print() {
    let p = parse_file("fn main() { if 1 == 1 { print(\"a\"); } }").unwrap();
    let once: String = print_program(&p).iter().collect();
    let q = parse_file(&once).unwrap();
    let twice: String = print_program(&q).iter().collect();
    assert_eq!(once, twice);
}

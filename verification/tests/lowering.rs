use redditlang::codegen::{compile, compile_program};
use redditlang::diag::render;
use redditlang::errors::{CompileError, ModuleVerificationError, SemanticError};
use redditlang::ir::{Block, Callee, Func, Inst, Module, Term, Ty, verify_module};
use redditlang::parser::parse_file;

fn text(v: &[char]) -> String {
    v.iter().collect()
}

fn chars(s: &str) -> Vec<char> {
    s.chars().collect()
}

#[test]
fn hello_world_module_shape() {
    // a `main` that calls the print routine with a string literal
    let m = compile("fn main() { print(\"hello\"); }").unwrap();
    // one externally declared print routine: byte pointer in, nothing out
    assert_eq!(m.externs.len(), 1);
    assert_eq!(text(&m.externs[0].name), "print");
    assert_eq!(m.externs[0].params, vec![Ty::I8Ptr]);
    assert_eq!(m.externs[0].ret, Ty::Void);
    // a single global constant holding the string bytes
    assert_eq!(m.globals.len(), 1);
    assert_eq!(text(&m.globals[0]), "hello");
    // one entry function
    assert_eq!(m.funcs.len(), 1);
    assert_eq!(text(&m.funcs[0].name), "main");
    assert!(m.funcs[0].blocks.len() >= 1);
    let entry = &m.funcs[0].blocks[0];
    // exactly one call instruction, aimed at the extern print routine,
    // with one argument that is the address of the global constant
    let calls: Vec<&Inst> = entry
        .insts
        .iter()
        .filter(|i| matches!(i, Inst::Call { .. }))
        .collect();
    assert_eq!(calls.len(), 1);
    match calls[0] {
        Inst::Call { callee, args, .. } => {
            assert_eq!(*callee, Callee::Ext(0));
            assert_eq!(args.len(), 1);
            let addr = args[0];
            assert!(entry.insts.iter().any(
                |i| matches!(i, Inst::GlobalAddr { dest, gid } if *dest == addr && *gid == 0)
            ));
        },
        _ => unreachable!(),
    }
    // the entry point returns zero implicitly
    match entry.term {
        Some(Term::Ret(Some(v))) => {
            assert!(entry
                .insts
                .iter()
                .any(|i| matches!(i, Inst::ConstI32 { dest, val: 0 } if *dest == v)));
        },
        _ => panic!("entry block must end in a return"),
    }
}

#[test]
fn every_block_of_a_compiled_module_is_terminated() {
    let src = "fn f(a, b) { if a < b { return a; } else { return b; } } \
               fn main() { let i = 0; while i < 3 { let j = f(i, 7); print(\"x\"); i; } }";
    let m = compile(src).unwrap();
    assert_eq!(m.funcs.len(), 2);
    for f in &m.funcs {
        assert!(f.blocks.len() >= 1);
        for b in &f.blocks {
            assert!(b.term.is_some());
        }
    }
    assert!(verify_module(&m).is_ok());
}

#[test]
fn if_returning_on_both_branches_compiles() {
    let src = "fn f() { if 1 < 2 { return 1; } else { return 2; } } fn main() { }";
    assert!(compile(src).is_ok());
}

#[test]
fn if_returning_on_one_branch_is_missing_return() {
    let src = "fn f() { if 1 < 2 { return 1; } } fn main() { }";
    match compile(src).unwrap_err() {
        CompileError::Semantic(SemanticError::MissingReturn { name, .. }) => {
            assert_eq!(text(&name), "f");
        },
        _ => panic!("expected a missing-return error"),
    }
}

#[test]
fn undeclared_function_cites_the_call_site() {
    let src = "fn main() { foo(1); }";
    match compile(src).unwrap_err() {
        CompileError::Semantic(SemanticError::UndefinedFunction { name, span }) => {
            assert_eq!(text(&name), "foo");
            assert_eq!(span.lo, 12);
        },
        _ => panic!("expected an undefined-function error"),
    }
}

#[test]
fn unbound_identifier_cites_its_span() {
    let src = "fn main() { return x; }";
    match compile(src).unwrap_err() {
        CompileError::Semantic(SemanticError::UndefinedSymbol { name, span }) => {
            assert_eq!(text(&name), "x");
            assert_eq!(span.lo, 19);
            assert_eq!(span.hi, 20);
        },
        _ => panic!("expected an undefined-symbol error"),
    }
}

#[test]
fn names_leave_scope_with_their_block() {
    let src = "fn main() { if 1 < 2 { let y = 2; y; } y; }";
    match compile(src).unwrap_err() {
        CompileError::Semantic(SemanticError::UndefinedSymbol { name, .. }) => {
            assert_eq!(text(&name), "y");
        },
        _ => panic!("expected an undefined-symbol error"),
    }
}

#[test]
fn parameters_are_bound_in_the_body() {
    let src = "fn add(a, b) { return a + b; } fn main() { add(1, 2); }";
    assert!(compile(src).is_ok());
}

#[test]
fn calls_resolve_regardless_of_declaration_order() {
    let src = "fn main() { later(); } fn later() { return 1; }";
    assert!(compile(src).is_ok());
}

#[test]
fn syntax_error_reaches_the_driver() {
    match compile("fn main( {").unwrap_err() {
        CompileError::Syntax(e) => assert_eq!(e.pos, 0),
        _ => panic!("expected a syntax error"),
    }
}

#[test]
fn unterminated_block_is_rejected_by_verification() {
    // a deliberately constructed module whose single block lacks a terminator
    let m = Module {
        externs: vec![],
        globals: vec![],
        funcs: vec![Func {
            name: chars("f"),
            nparams: 0,
            blocks: vec![Block { insts: vec![], term: None }],
        }],
    };
    match verify_module(&m).unwrap_err() {
        ModuleVerificationError::UnterminatedBlock { fun, block } => {
            assert_eq!(fun, 0);
            assert_eq!(block, 0);
        },
        _ => panic!("expected an unterminated-block error"),
    }
}

#[test]
fn function_without_blocks_has_no_entry() {
    let m = Module {
        externs: vec![],
        globals: vec![],
        funcs: vec![Func { name: chars("f"), nparams: 0, blocks: vec![] }],
    };
    assert!(matches!(
        verify_module(&m),
        Err(ModuleVerificationError::NoEntryBlock { fun: 0 })
    ));
}

#[test]
fn dangling_branch_target_is_rejected() {
    let m = Module {
        externs: vec![],
        globals: vec![],
        funcs: vec![Func {
            name: chars("f"),
            nparams: 0,
            blocks: vec![Block { insts: vec![], term: Some(Term::Br(7)) }],
        }],
    };
    assert!(matches!(
        verify_module(&m),
        Err(ModuleVerificationError::DanglingReference { fun: 0, block: 0 })
    ));
}

#[test]
fn well_formed_module_passes_verification() {
    let m = Module {
        externs: vec![],
        globals: vec![],
        funcs: vec![Func {
            name: chars("f"),
            nparams: 0,
            blocks: vec![Block { insts: vec![], term: Some(Term::Ret(None)) }],
        }],
    };
    assert!(verify_module(&m).is_ok());
}

#[test]
fn non_entry_function_with_plain_return_compiles() {
    let p = parse_file("fn f() { return; } fn main() { f(); }").unwrap();
    assert!(compile_program(&p).is_ok());
}

#[test]
fn diagnostics_render_positions_and_names() {
    let e = compile("fn main() { return x; }").unwrap_err();
    assert_eq!(text(&render(&e)), "undefined symbol `x` at 19..20");
    let e = compile("fn main( {").unwrap_err();
    assert_eq!(
        text(&render(&e)),
        "syntax error at 0: expected a function declaration"
    );
    let e = compile("fn f() { } fn main() { }").unwrap_err();
    assert_eq!(text(&render(&e)), "missing return in function `f` at 0..11");
    let m = Module {
        externs: vec![],
        globals: vec![],
        funcs: vec![Func {
            name: chars("f"),
            nparams: 0,
            blocks: vec![Block { insts: vec![], term: None }],
        }],
    };
    let e = CompileError::Verification(verify_module(&m).unwrap_err());
    assert_eq!(
        text(&render(&e)),
        "verification failed: block 0 of function 0 lacks a terminator"
    );
}

//! The pretty printer: renders an AST back to source text. The output is
//! specified exactly, as a function of the tree's span-less structure, so two
//! structurally identical trees print to the same text. Expressions are
//! printed fully parenthesized and every token is followed by a space, so
//! the output parses again under the same grammar.

use vstd::prelude::*;
use crate::ast::{
    BinOp, Expr, ExprKind, ExprV, FunctionDecl, Program, Stmt, StmtKind, StmtV, exprs_v,
    lemma_exprs_v, lemma_stmts_v, names_v, stmts_v, decls_v,
};
use crate::parser::{digit_val, is_digit, sp_digits_end, sp_digits_val, sp_int, sp_skip};

verus! {

/// The digit character of `d`.
pub open spec fn digit_ch(d: int) -> char {
    ((d + 48) as u8) as char
}

/// The decimal digits of `n`, most significant first; anything not positive
/// prints as `0` (the grammar has no negative literals).
pub open spec fn dec_digits(n: int) -> Seq<char>
    decreases n,
{
    if n <= 0 {
        seq!['0']
    } else if n < 10 {
        seq![digit_ch(n)]
    } else {
        dec_digits(n / 10).push(digit_ch(n % 10))
    }
}

/// The rendering of a binary operator, with its surrounding spaces.
pub open spec fn pp_op(op: BinOp) -> Seq<char> {
    match op {
        BinOp::Eq => seq![' ', '=', '=', ' '],
        BinOp::Lt => seq![' ', '<', ' '],
        BinOp::Add => seq![' ', '+', ' '],
        BinOp::Sub => seq![' ', '-', ' '],
        BinOp::Mul => seq![' ', '*', ' '],
        BinOp::Div => seq![' ', '/', ' '],
    }
}

/// The rendering of one expression, fully parenthesized.
pub open spec fn pp_expr(e: ExprV) -> Seq<char>
    decreases e, 0int,
{
    match e {
        ExprV::Int(n) => dec_digits(n),
        ExprV::Str(w) => seq!['"'] + w + seq!['"'],
        ExprV::Ident(n) => n,
        ExprV::Call(f, args) => f + seq!['('] + pp_args(args, args.len() as int) + seq![')'],
        ExprV::Binary(op, a, b) => seq!['('] + pp_expr(*a) + pp_op(op) + pp_expr(*b) + seq![')'],
    }
}

/// The renderings of the first `k` arguments, comma-separated.
pub open spec fn pp_args(args: Seq<ExprV>, k: int) -> Seq<char>
    decreases args, k,
{
    if k <= 0 || k > args.len() {
        Seq::empty()
    } else if k == 1 {
        pp_expr(args[0])
    } else {
        pp_args(args, k - 1) + seq![',', ' '] + pp_expr(args[k - 1])
    }
}

/// The rendering of one statement, ending in a space.
pub open spec fn pp_stmt(st: StmtV) -> Seq<char>
    decreases st, 0int,
{
    match st {
        StmtV::VarDecl(n, e) => seq!['l', 'e', 't', ' '] + n + seq![' ', '=', ' '] + pp_expr(e)
            + seq![';', ' '],
        StmtV::Return(r) => match r {
            Some(e) => seq!['r', 'e', 't', 'u', 'r', 'n', ' '] + pp_expr(e) + seq![';', ' '],
            None => seq!['r', 'e', 't', 'u', 'r', 'n', ';', ' '],
        },
        StmtV::If(c, t, els) => {
            let head = seq!['i', 'f', ' '] + pp_expr(c) + seq![' ', '{', ' '] + pp_stmts(t, 0)
                + seq!['}', ' '];
            match els {
                Some(es) => head + seq!['e', 'l', 's', 'e', ' ', '{', ' '] + pp_stmts(es, 0)
                    + seq!['}', ' '],
                None => head,
            }
        },
        StmtV::While(c, b) => seq!['w', 'h', 'i', 'l', 'e', ' '] + pp_expr(c) + seq![' ', '{', ' ']
            + pp_stmts(b, 0) + seq!['}', ' '],
        StmtV::ExprStmt(e) => pp_expr(e) + seq![';', ' '],
    }
}

/// The renderings of the statements `ss[i..]`, in order.
pub open spec fn pp_stmts(ss: Seq<StmtV>, i: int) -> Seq<char>
    decreases ss, ss.len() - i,
{
    if i < 0 || i >= ss.len() {
        Seq::empty()
    } else {
        pp_stmt(ss[i]) + pp_stmts(ss, i + 1)
    }
}

/// The renderings of the first `k` parameter names, comma-separated.
pub open spec fn pp_params(ps: Seq<Seq<char>>, k: int) -> Seq<char>
    decreases k,
{
    if k <= 0 || k > ps.len() {
        Seq::empty()
    } else if k == 1 {
        ps[0]
    } else {
        pp_params(ps, k - 1) + seq![',', ' '] + ps[k - 1]
    }
}

/// The rendering of one function declaration.
pub open spec fn pp_fn(name: Seq<char>, params: Seq<Seq<char>>, body: Seq<StmtV>) -> Seq<char> {
    seq!['f', 'n', ' '] + name + seq!['('] + pp_params(params, params.len() as int) + seq![
        ')',
        ' ',
        '{',
        ' ',
    ] + pp_stmts(body, 0) + seq!['}', ' ']
}

/// The rendering of a whole program: what `print_program` returns.
pub open spec fn pp_program(decls: Seq<crate::ast::FunctionDeclV>, i: int) -> Seq<char>
    decreases decls.len() - i,
{
    if i < 0 || i >= decls.len() {
        Seq::empty()
    } else {
        pp_fn(decls[i].name, decls[i].params, decls[i].body) + pp_program(decls, i + 1)
    }
}

// ---------------------------------------------------------------------------
// The executable printer: appends to an accumulator, mirroring the
// specification functions clause for clause.
// ---------------------------------------------------------------------------

fn app_chars(out: &mut Vec<char>, s: &Vec<char>)
    ensures
        final(out)@ == old(out)@ + s@,
{
    let mut i: usize = 0;
    while i < s.len()
        invariant
            i <= s@.len(),
            out@ == old(out)@ + s@.subrange(0, i as int),
        decreases s@.len() - i,
    {
        out.push(s[i]);
        proof {
            assert(out@ =~= old(out)@ + s@.subrange(0, i + 1));
        }
        i += 1;
    }
    proof {
        assert(s@.subrange(0, s@.len() as int) =~= s@);
        assert(out@ =~= old(out)@ + s@);
    }
}

fn app_int(out: &mut Vec<char>, n: u32)
    ensures
        final(out)@ == old(out)@ + dec_digits(n as int),
    decreases n,
{
    if n == 0 {
        out.push('0');
        proof {
            assert(out@ =~= old(out)@ + dec_digits(0));
        }
    } else if n < 10 {
        out.push((n as u8 + 48) as char);
        proof {
            assert(out@ =~= old(out)@ + dec_digits(n as int));
        }
    } else {
        app_int(out, n / 10);
        out.push(((n % 10) as u8 + 48) as char);
        proof {
            assert(out@ =~= old(out)@ + dec_digits(n as int));
        }
    }
}

fn app_op(out: &mut Vec<char>, op: &BinOp)
    ensures
        final(out)@ == old(out)@ + pp_op(*op),
{
    out.push(' ');
    match op {
        BinOp::Eq => {
            out.push('=');
            out.push('=');
        },
        BinOp::Lt => out.push('<'),
        BinOp::Add => out.push('+'),
        BinOp::Sub => out.push('-'),
        BinOp::Mul => out.push('*'),
        BinOp::Div => out.push('/'),
    }
    out.push(' ');
    proof {
        assert(out@ =~= old(out)@ + pp_op(*op));
    }
}

fn app_expr(out: &mut Vec<char>, e: &Expr)
    ensures
        final(out)@ == old(out)@ + pp_expr(e.v()),
    decreases *e, 0int,
{
    match &e.kind {
        ExprKind::Int(n) => {
            let v: u32 = if *n >= 0 {
                *n as u32
            } else {
                0
            };
            app_int(out, v);
            proof {
                assert(out@ =~= old(out)@ + pp_expr(e.v()));
            }
        },
        ExprKind::Str(w) => {
            out.push('"');
            app_chars(out, w);
            out.push('"');
            proof {
                assert(out@ =~= old(out)@ + pp_expr(e.v()));
            }
        },
        ExprKind::Ident(n) => {
            app_chars(out, n);
            proof {
                assert(out@ =~= old(out)@ + pp_expr(e.v()));
            }
        },
        ExprKind::Call(f, args) => {
            app_chars(out, f);
            out.push('(');
            let ghost argsv = exprs_v(args@);
            proof {
                lemma_exprs_v(args@);
            }
            let mut k: usize = 0;
            #[verifier::loop_isolation(false)]
            while k < args.len()
                invariant
                    k <= args@.len(),
                    out@ == old(out)@ + e.v()->Call_0 + seq!['('] + pp_args(argsv, k as int),
                decreases args@.len() - k,
            {
                proof {
                    assert(decreases_to!(*e => e.kind));
                    assert(e.kind->Call_1 == *args);
                    assert(decreases_to!(e.kind => e.kind->Call_1));
                    assert(decreases_to!(*args => args@));
                    assert(decreases_to!(args@ => args@[k as int]));
                }
                if k > 0 {
                    out.push(',');
                    out.push(' ');
                }
                app_expr(out, &args[k]);
                proof {
                    assert(argsv[k as int] == args@[k as int].v());
                    assert(out@ =~= old(out)@ + e.v()->Call_0 + seq!['('] + pp_args(
                        argsv,
                        k + 1,
                    ));
                }
                k += 1;
            }
            out.push(')');
            proof {
                assert(out@ =~= old(out)@ + pp_expr(e.v()));
            }
        },
        ExprKind::Binary(op, a, b) => {
            out.push('(');
            app_expr(out, &**a);
            app_op(out, op);
            app_expr(out, &**b);
            out.push(')');
            proof {
                assert(out@ =~= old(out)@ + pp_expr(e.v()));
            }
        },
    }
}

#[verifier::rlimit(60)]
fn app_stmt(out: &mut Vec<char>, st: &Stmt)
    ensures
        final(out)@ == old(out)@ + pp_stmt(st.v()),
    decreases *st, 0int,
{
    match &st.kind {
        StmtKind::VarDecl(n, e) => {
            out.push('l');
            out.push('e');
            out.push('t');
            out.push(' ');
            app_chars(out, n);
            out.push(' ');
            out.push('=');
            out.push(' ');
            app_expr(out, e);
            out.push(';');
            out.push(' ');
            proof {
                assert(out@ =~= old(out)@ + pp_stmt(st.v()));
            }
        },
        StmtKind::Return(rv) => {
            out.push('r');
            out.push('e');
            out.push('t');
            out.push('u');
            out.push('r');
            out.push('n');
            match rv {
                Some(e) => {
                    out.push(' ');
                    app_expr(out, e);
                },
                None => {},
            }
            out.push(';');
            out.push(' ');
            proof {
                assert(out@ =~= old(out)@ + pp_stmt(st.v()));
            }
        },
        StmtKind::ExprStmt(e) => {
            app_expr(out, e);
            out.push(';');
            out.push(' ');
            proof {
                assert(out@ =~= old(out)@ + pp_stmt(st.v()));
            }
        },
        StmtKind::If(c, t, els) => {
            proof {
                assert(decreases_to!(*st => st.kind));
                assert(st.kind->If_1 == *t);
                assert(decreases_to!(st.kind => st.kind->If_1));
                assert(decreases_to!(*t => t@));
            }
            out.push('i');
            out.push('f');
            out.push(' ');
            app_expr(out, c);
            out.push(' ');
            out.push('{');
            out.push(' ');
            app_stmts(out, t, 0);
            out.push('}');
            out.push(' ');
            match els {
                Some(ev) => {
                    proof {
                        assert(st.kind->If_2 == *els);
                        assert(decreases_to!(st.kind => st.kind->If_2));
                        assert(decreases_to!(*els => *ev));
                        assert(decreases_to!(*ev => ev@));
                    }
                    out.push('e');
                    out.push('l');
                    out.push('s');
                    out.push('e');
                    out.push(' ');
                    out.push('{');
                    out.push(' ');
                    app_stmts(out, ev, 0);
                    out.push('}');
                    out.push(' ');
                },
                None => {},
            }
            proof {
                assert(out@ =~= old(out)@ + pp_stmt(st.v()));
            }
        },
        StmtKind::While(c, b) => {
            proof {
                assert(decreases_to!(*st => st.kind));
                assert(st.kind->While_1 == *b);
                assert(decreases_to!(st.kind => st.kind->While_1));
                assert(decreases_to!(*b => b@));
            }
            out.push('w');
            out.push('h');
            out.push('i');
            out.push('l');
            out.push('e');
            out.push(' ');
            app_expr(out, c);
            out.push(' ');
            out.push('{');
            out.push(' ');
            app_stmts(out, b, 0);
            out.push('}');
            out.push(' ');
            proof {
                assert(out@ =~= old(out)@ + pp_stmt(st.v()));
            }
        },
    }
}

fn app_stmts(out: &mut Vec<char>, ss: &Vec<Stmt>, i: usize)
    requires
        i <= ss@.len(),
    ensures
        final(out)@ == old(out)@ + pp_stmts(stmts_v(ss@), i as int),
    decreases ss@, ss@.len() - i,
{
    proof {
        lemma_stmts_v(ss@);
    }
    if i < ss.len() {
        proof {
            assert(decreases_to!(ss@ => ss@[i as int]));
        }
        app_stmt(out, &ss[i]);
        app_stmts(out, ss, i + 1);
        proof {
            assert(stmts_v(ss@)[i as int] == ss@[i as int].v());
            assert(out@ =~= old(out)@ + pp_stmts(stmts_v(ss@), i as int));
        }
    } else {
        proof {
            assert(out@ =~= old(out)@ + pp_stmts(stmts_v(ss@), i as int));
        }
    }
}

fn app_fn(out: &mut Vec<char>, fd: &FunctionDecl)
    ensures
        final(out)@ == old(out)@ + pp_fn(fd.name@, names_v(fd.params@), stmts_v(fd.body@)),
{
    out.push('f');
    out.push('n');
    out.push(' ');
    app_chars(out, &fd.name);
    out.push('(');
    let ghost ps = names_v(fd.params@);
    let mut k: usize = 0;
    #[verifier::loop_isolation(false)]
    while k < fd.params.len()
        invariant
            k <= fd.params@.len(),
            out@ == old(out)@ + seq!['f', 'n', ' '] + fd.name@ + seq!['('] + pp_params(
                ps,
                k as int,
            ),
        decreases fd.params@.len() - k,
    {
        if k > 0 {
            out.push(',');
            out.push(' ');
        }
        app_chars(out, &fd.params[k]);
        proof {
            assert(ps[k as int] == fd.params@[k as int]@);
            assert(out@ =~= old(out)@ + seq!['f', 'n', ' '] + fd.name@ + seq!['('] + pp_params(
                ps,
                k + 1,
            ));
        }
        k += 1;
    }
    out.push(')');
    out.push(' ');
    out.push('{');
    out.push(' ');
    app_stmts(out, &fd.body, 0);
    out.push('}');
    out.push(' ');
    proof {
        assert(out@ =~= old(out)@ + pp_fn(fd.name@, names_v(fd.params@), stmts_v(fd.body@)));
    }
}

fn app_decls(out: &mut Vec<char>, ds: &Vec<FunctionDecl>, i: usize)
    requires
        i <= ds@.len(),
    ensures
        final(out)@ == old(out)@ + pp_program(decls_v(ds@), i as int),
    decreases ds@.len() - i,
{
    if i < ds.len() {
        app_fn(out, &ds[i]);
        app_decls(out, ds, i + 1);
        proof {
            assert(decls_v(ds@)[i as int] == ds@[i as int].v());
            assert(out@ =~= old(out)@ + pp_program(decls_v(ds@), i as int));
        }
    } else {
        proof {
            assert(out@ =~= old(out)@ + pp_program(decls_v(ds@), i as int));
        }
    }
}

/// Every character of a rendered integer is a digit, and there is at least
/// one of them.
proof fn lemma_dec_digits_shape(n: int)
    ensures
        dec_digits(n).len() >= 1,
        forall|i: int| 0 <= i < dec_digits(n).len() ==> is_digit(#[trigger] dec_digits(n)[i]),
    decreases n,
{
    if n > 9 {
        lemma_dec_digits_shape(n / 10);
    }
}

/// Scanning from `p` over exactly `m` digits stops right behind them.
proof fn lemma_digits_scan(s: Seq<char>, p: int, m: int)
    requires
        0 <= p,
        0 <= m,
        p + m <= s.len(),
        forall|i: int| p <= i < p + m ==> is_digit(#[trigger] s[i]),
        p + m == s.len() || !is_digit(s[p + m]),
    ensures
        sp_digits_end(s, p) == p + m,
    decreases m,
{
    if m > 0 {
        lemma_digits_scan(s, p + 1, m - 1);
    }
}

/// Reading back the digit characters of `n` recovers `n`.
proof fn lemma_digits_val_of_dec(s: Seq<char>, p: int, n: int)
    requires
        0 <= n,
        0 <= p,
        p + dec_digits(n).len() <= s.len(),
        forall|i: int| 0 <= i < dec_digits(n).len() ==> s[p + i] == #[trigger] dec_digits(n)[i],
    ensures
        sp_digits_val(s, p, p + dec_digits(n).len()) == n,
    decreases n,
{
    let d = dec_digits(n);
    if n <= 9 {
        assert(dec_digits(n)[0] == digit_ch(n));
        assert(s[p] == digit_ch(n));
        assert(sp_digits_val(s, p, p + 1) == sp_digits_val(s, p, p) * 10 + digit_val(s[p]));
        assert(digit_val(digit_ch(n)) == n);
    } else {
        let dq = dec_digits(n / 10);
        assert(d == dq.push(digit_ch(n % 10)));
        assert forall|i: int| 0 <= i < dq.len() implies s[p + i] == #[trigger] dq[i] by {
            assert(d[i] == dq[i]);
        }
        lemma_digits_val_of_dec(s, p, n / 10);
        assert(s[p + d.len() - 1] == d[d.len() - 1]);
        assert(d[d.len() - 1] == digit_ch(n % 10));
        assert(digit_val(digit_ch(n % 10)) == n % 10);
        assert(sp_digits_val(s, p, p + d.len()) == sp_digits_val(s, p, p + d.len() - 1) * 10
            + digit_val(s[p + d.len() - 1]));
        assert(sp_digits_val(s, p, p + d.len()) == (n / 10) * 10 + n % 10);
    }
}

/// A rendered integer literal, followed by anything that does not begin with
/// a further digit, parses back to exactly the value it was rendered from:
/// the literal piece of the print-then-parse round trip.
pub proof fn lemma_int_literal_roundtrip(n: int, rest: Seq<char>)
    requires
        0 <= n < 0x8000_0000,
        rest.len() > 0 ==> !is_digit(rest[0]),
    ensures
        sp_int(dec_digits(n) + rest, 0) == Some(
            (n, sp_skip(dec_digits(n) + rest, dec_digits(n).len() as int)),
        ),
{
    let d = dec_digits(n);
    let s = d + rest;
    lemma_dec_digits_shape(n);
    assert forall|i: int| 0 <= i < d.len() implies is_digit(#[trigger] s[i]) by {
        assert(s[i] == d[i]);
    }
    if rest.len() > 0 {
        assert(s[d.len() as int] == rest[0]);
    }
    lemma_digits_scan(s, 0, d.len() as int);
    assert forall|i: int| 0 <= i < d.len() implies s[0 + i] == #[trigger] d[i] by {}
    lemma_digits_val_of_dec(s, 0, n);
    assert(is_digit(s[0]));
}

/// Scanning from `p` over `m` characters that are no quote stops at the
/// quote right behind them.
proof fn lemma_str_scan(s: Seq<char>, p: int, m: int)
    requires
        0 <= p,
        0 <= m,
        p + m < s.len(),
        forall|i: int| p <= i < p + m ==> #[trigger] s[i] != '"',
        s[p + m] == '"',
    ensures
        crate::parser::sp_str_end(s, p) == p + m,
    decreases m,
{
    if m > 0 {
        lemma_str_scan(s, p + 1, m - 1);
    }
}

/// A rendered string literal — quote, body, quote — parses back to exactly
/// the body it was rendered from: the string piece of the print-then-parse
/// round trip.
pub proof fn lemma_str_literal_roundtrip(w: Seq<char>, rest: Seq<char>)
    requires
        forall|i: int| 0 <= i < w.len() ==> #[trigger] w[i] != '"',
    ensures
        crate::parser::sp_string(seq!['"'] + w + seq!['"'] + rest, 0) == Some(
            (w, sp_skip(seq!['"'] + w + seq!['"'] + rest, w.len() as int + 2)),
        ),
{
    let s = seq!['"'] + w + seq!['"'] + rest;
    assert(s[0] == '"');
    assert forall|i: int| 1 <= i < 1 + w.len() as int implies #[trigger] s[i] != '"' by {
        assert(s[i] == w[i - 1]);
    }
    assert(s[1 + w.len() as int] == '"');
    lemma_str_scan(s, 1, w.len() as int);
    assert(s.subrange(1, 1 + w.len() as int) =~= w);
}

/// Scanning from `p` over `m` identifier characters stops right behind them.
proof fn lemma_id_scan(s: Seq<char>, p: int, m: int)
    requires
        0 <= p,
        0 <= m,
        p + m <= s.len(),
        forall|i: int| p <= i < p + m ==> crate::parser::is_id_char(#[trigger] s[i]),
        p + m == s.len() || !crate::parser::is_id_char(s[p + m]),
    ensures
        crate::parser::sp_ident_end(s, p) == p + m,
    decreases m,
{
    if m > 0 {
        lemma_id_scan(s, p + 1, m - 1);
    }
}

/// A rendered identifier, followed by anything that does not begin with a
/// further identifier character, parses back to exactly the name it was
/// rendered from: the identifier piece of the print-then-parse round trip.
pub proof fn lemma_ident_roundtrip(n: Seq<char>, rest: Seq<char>)
    requires
        n.len() >= 1,
        crate::parser::is_id_start(n[0]),
        forall|i: int| 0 <= i < n.len() ==> crate::parser::is_id_char(#[trigger] n[i]),
        !crate::parser::is_keyword(n),
        rest.len() > 0 ==> !crate::parser::is_id_char(rest[0]),
    ensures
        crate::parser::sp_ident(n + rest, 0) == Some((n, sp_skip(n + rest, n.len() as int))),
{
    let s = n + rest;
    assert(s[0] == n[0]);
    assert forall|i: int| 1 <= i < n.len() implies crate::parser::is_id_char(#[trigger] s[i]) by {
        assert(s[i] == n[i]);
    }
    if rest.len() > 0 {
        assert(s[n.len() as int] == rest[0]);
    }
    lemma_id_scan(s, 1, n.len() - 1);
    assert(s.subrange(0, n.len() as int) =~= n);
}

/// Renders a whole program back to source text, exactly as the rendering
/// functions of this module specify it.
pub fn print_program(p: &Program) -> (out: Vec<char>)
    ensures
        out@ == pp_program(p.v().decls, 0),
{
    let mut out: Vec<char> = Vec::new();
    app_decls(&mut out, &p.decls, 0);
    proof {
        assert(out@ =~= pp_program(decls_v(p.decls@), 0));
    }
    out
}

} // verus!

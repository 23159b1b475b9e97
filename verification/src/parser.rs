//! The grammar and the parser. The grammar is stated as ordered-choice
//! specification functions over the character sequence: each rule tries its
//! alternatives in declaration order and commits to the first that matches,
//! and backtracking is local to a rule. The executable recursive-descent
//! parser is proved to return exactly what the grammar functions denote, so
//! parsing succeeds precisely on the syntactically valid programs.
//!
//! The surface is a minimal structured-imperative language:
//!
//! ```text
//! program  = ws fndecl* EOF
//! fndecl   = "fn" ident "(" [ident ("," ident)*] ")" block
//! block    = "{" stmt* "}"
//! stmt     = "let" ident "=" expr ";" | "return" [expr] ";"
//!          | "if" expr block ["else" block] | "while" expr block | expr ";"
//! expr     = cmp ; cmp = add (("==" | "<") add)* ; add = mul (("+" | "-") mul)*
//! mul      = atom (("*" | "/") atom)*
//! atom     = int | string | ident "(" [expr ("," expr)*] ")" | ident | "(" expr ")"
//! ```
//!
//! Whitespace is skipped implicitly after every token. Integer literals must
//! fit in 32 signed bits; string literals run to the next `"` with no escapes.

use vstd::prelude::*;
use crate::ast::{
    BinOp, Expr, ExprKind, ExprV, FunctionDecl, FunctionDeclV, Program, ProgramV, Span, Stmt,
    StmtKind, StmtV, decls_v, exprs_v, names_v, stmts_v,
};
use crate::errors::{Rule, SyntaxError};

verus! {

// ---------------------------------------------------------------------------
// Character classes
// ---------------------------------------------------------------------------

pub open spec fn is_ws_char(c: char) -> bool {
    c == ' ' || c == '\n' || c == '\t' || c == '\r'
}

pub open spec fn is_digit(c: char) -> bool {
    48 <= c as u32 <= 57
}

pub open spec fn is_id_start(c: char) -> bool {
    (97 <= c as u32 <= 122) || (65 <= c as u32 <= 90) || c == '_'
}

pub open spec fn is_id_char(c: char) -> bool {
    is_id_start(c) || is_digit(c)
}

/// The reserved words, which no identifier may be.
pub open spec fn is_keyword(w: Seq<char>) -> bool {
    w == seq!['f', 'n'] || w == seq!['l', 'e', 't'] || w == seq!['r', 'e', 't', 'u', 'r', 'n']
        || w == seq!['i', 'f'] || w == seq!['e', 'l', 's', 'e'] || w == seq![
        'w',
        'h',
        'i',
        'l',
        'e',
    ]
}

fn c_is_ws(c: char) -> (r: bool)
    ensures
        r == is_ws_char(c),
{
    c == ' ' || c == '\n' || c == '\t' || c == '\r'
}

fn c_is_digit(c: char) -> (r: bool)
    ensures
        r == is_digit(c),
{
    let u = c as u32;
    48 <= u && u <= 57
}

fn c_is_id_start(c: char) -> (r: bool)
    ensures
        r == is_id_start(c),
{
    let u = c as u32;
    (97 <= u && u <= 122) || (65 <= u && u <= 90) || c == '_'
}

fn c_is_id_char(c: char) -> (r: bool)
    ensures
        r == is_id_char(c),
{
    c_is_id_start(c) || c_is_digit(c)
}

// ---------------------------------------------------------------------------
// Whitespace skipping and scanning
// ---------------------------------------------------------------------------

/// The first position at or after `pos` that holds no whitespace.
pub open spec fn sp_skip(s: Seq<char>, pos: int) -> int
    decreases s.len() - pos,
{
    if 0 <= pos < s.len() && is_ws_char(s[pos]) {
        sp_skip(s, pos + 1)
    } else {
        pos
    }
}

fn p_skip(src: &Vec<char>, pos: usize) -> (r: usize)
    requires
        pos <= src.len(),
    ensures
        r as int == sp_skip(src@, pos as int),
        pos <= r <= src.len(),
    decreases src.len() - pos,
{
    if pos < src.len() && c_is_ws(src[pos]) {
        p_skip(src, pos + 1)
    } else {
        pos
    }
}

/// The end of the run of identifier characters that starts at `pos`.
pub open spec fn sp_ident_end(s: Seq<char>, pos: int) -> int
    decreases s.len() - pos,
{
    if 0 <= pos < s.len() && is_id_char(s[pos]) {
        sp_ident_end(s, pos + 1)
    } else {
        pos
    }
}

fn p_ident_end(src: &Vec<char>, pos: usize) -> (r: usize)
    requires
        pos <= src.len(),
    ensures
        r as int == sp_ident_end(src@, pos as int),
        pos <= r <= src.len(),
    decreases src.len() - pos,
{
    if pos < src.len() && c_is_id_char(src[pos]) {
        p_ident_end(src, pos + 1)
    } else {
        pos
    }
}

/// The end of the run of digits that starts at `pos`.
pub open spec fn sp_digits_end(s: Seq<char>, pos: int) -> int
    decreases s.len() - pos,
{
    if 0 <= pos < s.len() && is_digit(s[pos]) {
        sp_digits_end(s, pos + 1)
    } else {
        pos
    }
}

pub proof fn lemma_digits_end_bounds(s: Seq<char>, pos: int)
    requires
        0 <= pos <= s.len(),
    ensures
        pos <= sp_digits_end(s, pos) <= s.len(),
        forall|j: int| pos <= j < sp_digits_end(s, pos) ==> is_digit(s[j]),
    decreases s.len() - pos,
{
    if pos < s.len() && is_digit(s[pos]) {
        lemma_digits_end_bounds(s, pos + 1);
    }
}

fn p_digits_end(src: &Vec<char>, pos: usize) -> (r: usize)
    requires
        pos <= src.len(),
    ensures
        r as int == sp_digits_end(src@, pos as int),
        pos <= r <= src.len(),
    decreases src.len() - pos,
{
    if pos < src.len() && c_is_digit(src[pos]) {
        p_digits_end(src, pos + 1)
    } else {
        pos
    }
}

/// The position of the first `"` at or after `pos`, or the end of the input.
pub open spec fn sp_str_end(s: Seq<char>, pos: int) -> int
    decreases s.len() - pos,
{
    if 0 <= pos < s.len() {
        if s[pos] == '"' {
            pos
        } else {
            sp_str_end(s, pos + 1)
        }
    } else {
        pos
    }
}

fn p_str_end(src: &Vec<char>, pos: usize) -> (r: usize)
    requires
        pos <= src.len(),
    ensures
        r as int == sp_str_end(src@, pos as int),
        pos <= r <= src.len(),
    decreases src.len() - pos,
{
    if pos < src.len() {
        if src[pos] == '"' {
            pos
        } else {
            p_str_end(src, pos + 1)
        }
    } else {
        pos
    }
}

/// A copy of the characters `lo..hi`.
fn copy_range(src: &Vec<char>, lo: usize, hi: usize) -> (r: Vec<char>)
    requires
        lo <= hi <= src.len(),
    ensures
        r@ == src@.subrange(lo as int, hi as int),
{
    let mut r: Vec<char> = Vec::new();
    let mut i: usize = lo;
    while i < hi
        invariant
            lo <= i <= hi <= src.len(),
            r@ == src@.subrange(lo as int, i as int),
        decreases hi - i,
    {
        r.push(src[i]);
        proof {
            assert(r@ =~= src@.subrange(lo as int, i + 1));
        }
        i += 1;
    }
    r
}

// ---------------------------------------------------------------------------
// Tokens: words, identifiers, integers, strings, punctuation
// ---------------------------------------------------------------------------

/// A maximal run of identifier characters starting with a letter or `_`,
/// keyword or not, with trailing whitespace skipped.
pub open spec fn sp_word(s: Seq<char>, pos: int) -> Option<(Seq<char>, int)> {
    if 0 <= pos < s.len() && is_id_start(s[pos]) {
        let end = sp_ident_end(s, pos + 1);
        Some((s.subrange(pos, end), sp_skip(s, end)))
    } else {
        None
    }
}

fn p_word(src: &Vec<char>, pos: usize) -> (r: Option<(Vec<char>, usize)>)
    requires
        pos <= src.len(),
    ensures
        match r {
            Some(t) => sp_word(src@, pos as int) == Some((t.0@, t.1 as int)) && pos < t.1
                <= src.len(),
            None => sp_word(src@, pos as int) is None,
        },
{
    if pos < src.len() && c_is_id_start(src[pos]) {
        let end = p_ident_end(src, pos + 1);
        let w = copy_range(src, pos, end);
        let p = p_skip(src, end);
        Some((w, p))
    } else {
        None
    }
}

/// An identifier: a word that is not a keyword.
pub open spec fn sp_ident(s: Seq<char>, pos: int) -> Option<(Seq<char>, int)> {
    match sp_word(s, pos) {
        Some(t) => if is_keyword(t.0) {
            None
        } else {
            Some(t)
        },
        None => None,
    }
}

fn is_kw(w: &Vec<char>) -> (r: bool)
    ensures
        r == is_keyword(w@),
{
    let n = w.len();
    let r = (n == 2 && w[0] == 'f' && w[1] == 'n') || (n == 3 && w[0] == 'l' && w[1] == 'e' && w[2]
        == 't') || (n == 6 && w[0] == 'r' && w[1] == 'e' && w[2] == 't' && w[3] == 'u' && w[4]
        == 'r' && w[5] == 'n') || (n == 2 && w[0] == 'i' && w[1] == 'f') || (n == 4 && w[0] == 'e'
        && w[1] == 'l' && w[2] == 's' && w[3] == 'e') || (n == 5 && w[0] == 'w' && w[1] == 'h'
        && w[2] == 'i' && w[3] == 'l' && w[4] == 'e');
    proof {
        if w@.len() == 2 && w@[0] == 'f' && w@[1] == 'n' {
            assert(w@ =~= seq!['f', 'n']);
        }
        if w@.len() == 3 && w@[0] == 'l' && w@[1] == 'e' && w@[2] == 't' {
            assert(w@ =~= seq!['l', 'e', 't']);
        }
        if w@.len() == 6 && w@[0] == 'r' && w@[1] == 'e' && w@[2] == 't' && w@[3] == 'u' && w@[4]
            == 'r' && w@[5] == 'n' {
            assert(w@ =~= seq!['r', 'e', 't', 'u', 'r', 'n']);
        }
        if w@.len() == 2 && w@[0] == 'i' && w@[1] == 'f' {
            assert(w@ =~= seq!['i', 'f']);
        }
        if w@.len() == 4 && w@[0] == 'e' && w@[1] == 'l' && w@[2] == 's' && w@[3] == 'e' {
            assert(w@ =~= seq!['e', 'l', 's', 'e']);
        }
        if w@.len() == 5 && w@[0] == 'w' && w@[1] == 'h' && w@[2] == 'i' && w@[3] == 'l' && w@[4]
            == 'e' {
            assert(w@ =~= seq!['w', 'h', 'i', 'l', 'e']);
        }
    }
    r
}

fn p_ident(src: &Vec<char>, pos: usize) -> (r: Option<(Vec<char>, usize)>)
    requires
        pos <= src.len(),
    ensures
        match r {
            Some(t) => sp_ident(src@, pos as int) == Some((t.0@, t.1 as int)) && pos < t.1
                <= src.len(),
            None => sp_ident(src@, pos as int) is None,
        },
{
    match p_word(src, pos) {
        Some((w, p)) => {
            if is_kw(&w) {
                None
            } else {
                Some((w, p))
            }
        },
        None => None,
    }
}

/// The numeric value of the digit character `c`.
pub open spec fn digit_val(c: char) -> int {
    c as u32 - 48
}

/// The value of the decimal digits `pos..end`, most significant first.
pub open spec fn sp_digits_val(s: Seq<char>, pos: int, end: int) -> int
    decreases end - pos,
{
    if pos >= end {
        0
    } else {
        sp_digits_val(s, pos, end - 1) * 10 + digit_val(s[end - 1])
    }
}

pub proof fn lemma_dv_nonneg(s: Seq<char>, pos: int, end: int)
    requires
        forall|j: int| pos <= j < end ==> is_digit(s[j]),
    ensures
        sp_digits_val(s, pos, end) >= 0,
    decreases end - pos,
{
    if pos < end {
        lemma_dv_nonneg(s, pos, end - 1);
    }
}

pub proof fn lemma_dv_mono(s: Seq<char>, pos: int, i: int, end: int)
    requires
        pos <= i <= end,
        forall|j: int| pos <= j < end ==> is_digit(s[j]),
    ensures
        sp_digits_val(s, pos, i) <= sp_digits_val(s, pos, end),
    decreases end - i,
{
    if i < end {
        lemma_dv_mono(s, pos, i, end - 1);
        lemma_dv_nonneg(s, pos, end - 1);
    }
}

/// An integer literal: digits whose value fits in 32 signed bits, with
/// trailing whitespace skipped. Larger values match no rule.
pub open spec fn sp_int(s: Seq<char>, pos: int) -> Option<(int, int)> {
    if 0 <= pos < s.len() && is_digit(s[pos]) {
        let end = sp_digits_end(s, pos);
        let v = sp_digits_val(s, pos, end);
        if v < 0x8000_0000 {
            Some((v, sp_skip(s, end)))
        } else {
            None
        }
    } else {
        None
    }
}

fn p_int(src: &Vec<char>, pos: usize) -> (r: Option<(i32, usize)>)
    requires
        pos <= src.len(),
    ensures
        match r {
            Some(t) => sp_int(src@, pos as int) == Some((t.0 as int, t.1 as int)) && pos < t.1
                <= src.len() && t.0 >= 0,
            None => sp_int(src@, pos as int) is None,
        },
{
    if !(pos < src.len() && c_is_digit(src[pos])) {
        return None;
    }
    let end = p_digits_end(src, pos);
    proof {
        lemma_digits_end_bounds(src@, pos as int);
        lemma_digits_end_bounds(src@, pos + 1);
        assert(sp_digits_end(src@, pos as int) == sp_digits_end(src@, pos + 1));
        assert(end > pos);
    }
    let ghost s = src@;
    let mut acc: u64 = 0;
    let mut i: usize = pos;
    while i < end
        invariant
            pos <= i <= end <= src.len(),
            end as int == sp_digits_end(s, pos as int),
            forall|j: int| pos <= j < end ==> is_digit(s[j]),
            s == src@,
            acc as int == sp_digits_val(s, pos as int, i as int),
            acc <= 0x7fff_ffff,
        decreases end - i,
    {
        let c = src[i];
        let d: u32 = c as u32 - 48;
        let acc2: u64 = acc * 10 + d as u64;
        if acc2 > 0x7fff_ffff {
            proof {
                lemma_dv_mono(s, pos as int, i + 1, end as int);
                assert(sp_digits_val(s, pos as int, end as int) >= acc2 as int);
            }
            return None;
        }
        acc = acc2;
        i += 1;
    }
    let n: i32 = acc as i32;
    let p = p_skip(src, end);
    Some((n, p))
}

/// A string literal: `"` up to the next `"`, with no escapes; the quotes are
/// not part of the value. An unterminated literal matches no rule.
pub open spec fn sp_string(s: Seq<char>, pos: int) -> Option<(Seq<char>, int)> {
    if 0 <= pos < s.len() && s[pos] == '"' {
        let e = sp_str_end(s, pos + 1);
        if e < s.len() {
            Some((s.subrange(pos + 1, e), sp_skip(s, e + 1)))
        } else {
            None
        }
    } else {
        None
    }
}

fn p_string(src: &Vec<char>, pos: usize) -> (r: Option<(Vec<char>, usize)>)
    requires
        pos <= src.len(),
    ensures
        match r {
            Some(t) => sp_string(src@, pos as int) == Some((t.0@, t.1 as int)) && pos < t.1
                <= src.len(),
            None => sp_string(src@, pos as int) is None,
        },
{
    if !(pos < src.len() && src[pos] == '"') {
        return None;
    }
    let e = p_str_end(src, pos + 1);
    if e < src.len() {
        let w = copy_range(src, pos + 1, e);
        let p = p_skip(src, e + 1);
        Some((w, p))
    } else {
        None
    }
}

/// The single punctuation character `c`, with trailing whitespace skipped.
pub open spec fn sp_ch(s: Seq<char>, pos: int, c: char) -> Option<int> {
    if 0 <= pos < s.len() && s[pos] == c {
        Some(sp_skip(s, pos + 1))
    } else {
        None
    }
}

fn p_ch(src: &Vec<char>, pos: usize, c: char) -> (r: Option<usize>)
    requires
        pos <= src.len(),
    ensures
        match r {
            Some(p) => sp_ch(src@, pos as int, c) == Some(p as int) && pos < p <= src.len(),
            None => sp_ch(src@, pos as int, c) is None,
        },
{
    if pos < src.len() && src[pos] == c {
        Some(p_skip(src, pos + 1))
    } else {
        None
    }
}

/// The two-character token `c1 c2`, with trailing whitespace skipped.
pub open spec fn sp_ch2(s: Seq<char>, pos: int, c1: char, c2: char) -> Option<int> {
    if 0 <= pos && pos + 1 < s.len() && s[pos] == c1 && s[pos + 1] == c2 {
        Some(sp_skip(s, pos + 2))
    } else {
        None
    }
}

fn p_ch2(src: &Vec<char>, pos: usize, c1: char, c2: char) -> (r: Option<usize>)
    requires
        pos <= src.len(),
    ensures
        match r {
            Some(p) => sp_ch2(src@, pos as int, c1, c2) == Some(p as int) && pos < p <= src.len(),
            None => sp_ch2(src@, pos as int, c1, c2) is None,
        },
{
    if pos < src.len() && pos + 1 < src.len() && src[pos] == c1 && src[pos + 1] == c2 {
        Some(p_skip(src, pos + 2))
    } else {
        None
    }
}

/// The operators of precedence tier `lvl`, tried in declaration order:
/// tier 3 is `==` then `<`, tier 2 is `+` then `-`, tier 1 is `*` then `/`.
pub open spec fn sp_op(s: Seq<char>, pos: int, lvl: int) -> Option<(BinOp, int)> {
    if lvl == 3 {
        match sp_ch2(s, pos, '=', '=') {
            Some(p) => Some((BinOp::Eq, p)),
            None => match sp_ch(s, pos, '<') {
                Some(p) => Some((BinOp::Lt, p)),
                None => None,
            },
        }
    } else if lvl == 2 {
        match sp_ch(s, pos, '+') {
            Some(p) => Some((BinOp::Add, p)),
            None => match sp_ch(s, pos, '-') {
                Some(p) => Some((BinOp::Sub, p)),
                None => None,
            },
        }
    } else {
        match sp_ch(s, pos, '*') {
            Some(p) => Some((BinOp::Mul, p)),
            None => match sp_ch(s, pos, '/') {
                Some(p) => Some((BinOp::Div, p)),
                None => None,
            },
        }
    }
}

fn p_op(src: &Vec<char>, pos: usize, lvl: usize) -> (r: Option<(BinOp, usize)>)
    requires
        pos <= src.len(),
    ensures
        match r {
            Some(t) => sp_op(src@, pos as int, lvl as int) == Some((t.0, t.1 as int)) && pos < t.1
                <= src.len(),
            None => sp_op(src@, pos as int, lvl as int) is None,
        },
{
    if lvl == 3 {
        match p_ch2(src, pos, '=', '=') {
            Some(p) => Some((BinOp::Eq, p)),
            None => match p_ch(src, pos, '<') {
                Some(p) => Some((BinOp::Lt, p)),
                None => None,
            },
        }
    } else if lvl == 2 {
        match p_ch(src, pos, '+') {
            Some(p) => Some((BinOp::Add, p)),
            None => match p_ch(src, pos, '-') {
                Some(p) => Some((BinOp::Sub, p)),
                None => None,
            },
        }
    } else {
        match p_ch(src, pos, '*') {
            Some(p) => Some((BinOp::Mul, p)),
            None => match p_ch(src, pos, '/') {
                Some(p) => Some((BinOp::Div, p)),
                None => None,
            },
        }
    }
}

// ---------------------------------------------------------------------------
// Expressions: ordered choice over atoms, with three tiers of left-associative
// binary operators. The position guards on recursive calls witness that every
// committed sub-rule consumed input; the executable parser proves each guard.
// ---------------------------------------------------------------------------

/// An atom: an integer literal, a string literal, a call, an identifier or a
/// parenthesized expression, tried in that order.
pub open spec fn sp_atom(s: Seq<char>, pos: int) -> Option<(ExprV, int)>
    decreases s.len() - pos, 0int, 0int,
{
    match sp_int(s, pos) {
        Some((n, p)) => Some((ExprV::Int(n), p)),
        None => match sp_string(s, pos) {
            Some((w, p)) => Some((ExprV::Str(w), p)),
            None => match sp_ident(s, pos) {
                Some((w, p)) => if pos < p <= s.len() {
                    match sp_ch(s, p, '(') {
                        Some(p1) => if p < p1 <= s.len() {
                            match sp_args(s, p1) {
                                Some((args, p2)) => Some((ExprV::Call(w, args), p2)),
                                None => None,
                            }
                        } else {
                            None
                        },
                        None => Some((ExprV::Ident(w), p)),
                    }
                } else {
                    None
                },
                None => match sp_ch(s, pos, '(') {
                    Some(p1) => if pos < p1 <= s.len() {
                        match sp_bin(s, p1, 3) {
                            Some((e, p2)) => match sp_ch(s, p2, ')') {
                                Some(p3) => Some((e, p3)),
                                None => None,
                            },
                            None => None,
                        }
                    } else {
                        None
                    },
                    None => None,
                },
            },
        },
    }
}

/// A tier-`lvl` expression: a tier-`lvl - 1` operand followed by any number
/// of tier-`lvl` operators, each with another such operand; tier 0 is an atom.
pub open spec fn sp_bin(s: Seq<char>, pos: int, lvl: nat) -> Option<(ExprV, int)>
    decreases s.len() - pos, lvl, 1int,
{
    if lvl == 0 {
        sp_atom(s, pos)
    } else {
        match sp_bin(s, pos, (lvl - 1) as nat) {
            Some((e, p)) => if pos < p <= s.len() {
                sp_bin_tail(s, p, lvl, e)
            } else {
                Some((e, p))
            },
            None => None,
        }
    }
}

/// The left-associative operator chain of tier `lvl` that follows `acc`.
pub open spec fn sp_bin_tail(s: Seq<char>, pos: int, lvl: nat, acc: ExprV) -> Option<(ExprV, int)>
    decreases s.len() - pos, lvl, 2int,
{
    match sp_op(s, pos, lvl as int) {
        Some((op, p1)) => if pos < p1 <= s.len() {
            match sp_bin(s, p1, (lvl - 1) as nat) {
                Some((rhs, p2)) => if p1 < p2 <= s.len() {
                    sp_bin_tail(s, p2, lvl, ExprV::Binary(op, Box::new(acc), Box::new(rhs)))
                } else {
                    None
                },
                None => None,
            }
        } else {
            None
        },
        None => Some((acc, pos)),
    }
}

/// A full expression: the loosest operator tier.
pub open spec fn sp_expr(s: Seq<char>, pos: int) -> Option<(ExprV, int)> {
    sp_bin(s, pos, 3)
}

/// A call's argument list, entered just after the `(`; consumes the `)`.
pub open spec fn sp_args(s: Seq<char>, pos: int) -> Option<(Seq<ExprV>, int)>
    decreases s.len() - pos, 4int, 0int,
{
    match sp_ch(s, pos, ')') {
        Some(p) => Some((Seq::empty(), p)),
        None => match sp_bin(s, pos, 3) {
            Some((e, p1)) => if pos < p1 <= s.len() {
                sp_args_tail(s, p1, seq![e])
            } else {
                None
            },
            None => None,
        },
    }
}

/// The rest of an argument list: `,`-separated expressions up to the `)`.
pub open spec fn sp_args_tail(s: Seq<char>, pos: int, acc: Seq<ExprV>) -> Option<
    (Seq<ExprV>, int),
>
    decreases s.len() - pos, 4int, 1int,
{
    match sp_ch(s, pos, ',') {
        Some(p1) => if pos < p1 <= s.len() {
            match sp_bin(s, p1, 3) {
                Some((e, p2)) => if p1 < p2 <= s.len() {
                    sp_args_tail(s, p2, acc.push(e))
                } else {
                    None
                },
                None => None,
            }
        } else {
            None
        },
        None => match sp_ch(s, pos, ')') {
            Some(p) => Some((acc, p)),
            None => None,
        },
    }
}

fn p_atom(src: &Vec<char>, pos: usize) -> (r: Option<(Expr, usize)>)
    requires
        pos <= src.len(),
    ensures
        match r {
            Some(t) => sp_atom(src@, pos as int) == Some((t.0.v(), t.1 as int)) && pos < t.1
                <= src.len(),
            None => sp_atom(src@, pos as int) is None,
        },
    decreases src@.len() - pos, 0int, 0int,
{
    match p_int(src, pos) {
        Some((n, p)) => Some((Expr { kind: ExprKind::Int(n), span: Span { lo: pos, hi: p } }, p)),
        None => match p_string(src, pos) {
            Some((w, p)) => Some(
                (Expr { kind: ExprKind::Str(w), span: Span { lo: pos, hi: p } }, p),
            ),
            None => match p_ident(src, pos) {
                Some((w, p)) => match p_ch(src, p, '(') {
                    Some(p1) => match p_args(src, p1) {
                        Some((args, p2)) => Some(
                            (
                                Expr {
                                    kind: ExprKind::Call(w, args),
                                    span: Span { lo: pos, hi: p2 },
                                },
                                p2,
                            ),
                        ),
                        None => None,
                    },
                    None => Some(
                        (Expr { kind: ExprKind::Ident(w), span: Span { lo: pos, hi: p } }, p),
                    ),
                },
                None => match p_ch(src, pos, '(') {
                    Some(p1) => match p_bin(src, p1, 3) {
                        Some((e, p2)) => match p_ch(src, p2, ')') {
                            Some(p3) => Some((e, p3)),
                            None => None,
                        },
                        None => None,
                    },
                    None => None,
                },
            },
        },
    }
}

fn p_bin(src: &Vec<char>, pos: usize, lvl: usize) -> (r: Option<(Expr, usize)>)
    requires
        pos <= src.len(),
        lvl <= 3,
    ensures
        match r {
            Some(t) => sp_bin(src@, pos as int, lvl as nat) == Some((t.0.v(), t.1 as int)) && pos
                < t.1 <= src.len(),
            None => sp_bin(src@, pos as int, lvl as nat) is None,
        },
    decreases src@.len() - pos, lvl, 1int,
{
    if lvl == 0 {
        p_atom(src, pos)
    } else {
        match p_bin(src, pos, lvl - 1) {
            Some((e, p)) => p_bin_tail(src, p, lvl, e),
            None => None,
        }
    }
}

fn p_bin_tail(src: &Vec<char>, pos: usize, lvl: usize, acc: Expr) -> (r: Option<(Expr, usize)>)
    requires
        pos <= src.len(),
        1 <= lvl <= 3,
    ensures
        match r {
            Some(t) => sp_bin_tail(src@, pos as int, lvl as nat, acc.v()) == Some(
                (t.0.v(), t.1 as int),
            ) && pos <= t.1 <= src.len(),
            None => sp_bin_tail(src@, pos as int, lvl as nat, acc.v()) is None,
        },
    decreases src@.len() - pos, lvl, 2int,
{
    match p_op(src, pos, lvl) {
        Some((op, p1)) => match p_bin(src, p1, lvl - 1) {
            Some((rhs, p2)) => {
                let lo = acc.span.lo;
                let hi = rhs.span.hi;
                let joined = Expr {
                    kind: ExprKind::Binary(op, Box::new(acc), Box::new(rhs)),
                    span: Span { lo, hi },
                };
                p_bin_tail(src, p2, lvl, joined)
            },
            None => None,
        },
        None => Some((acc, pos)),
    }
}

fn p_expr(src: &Vec<char>, pos: usize) -> (r: Option<(Expr, usize)>)
    requires
        pos <= src.len(),
    ensures
        match r {
            Some(t) => sp_expr(src@, pos as int) == Some((t.0.v(), t.1 as int)) && pos < t.1
                <= src.len(),
            None => sp_expr(src@, pos as int) is None,
        },
{
    p_bin(src, pos, 3)
}

fn p_args(src: &Vec<char>, pos: usize) -> (r: Option<(Vec<Expr>, usize)>)
    requires
        pos <= src.len(),
    ensures
        match r {
            Some(t) => sp_args(src@, pos as int) == Some((exprs_v(t.0@), t.1 as int)) && pos < t.1
                <= src.len(),
            None => sp_args(src@, pos as int) is None,
        },
    decreases src@.len() - pos, 4int, 0int,
{
    match p_ch(src, pos, ')') {
        Some(p) => {
            let empty: Vec<Expr> = Vec::new();
            Some((empty, p))
        },
        None => match p_bin(src, pos, 3) {
            Some((e, p1)) => {
                let mut acc: Vec<Expr> = Vec::new();
                proof {
                    assert(exprs_v(acc@) =~= Seq::<ExprV>::empty());
                }
                let ghost ev = e.v();
                acc.push(e);
                proof {
                    assert(acc@.drop_last() =~= Seq::<Expr>::empty());
                    assert(exprs_v(acc@) =~= seq![ev]);
                }
                p_args_tail(src, p1, acc)
            },
            None => None,
        },
    }
}

fn p_args_tail(src: &Vec<char>, pos: usize, acc: Vec<Expr>) -> (r: Option<(Vec<Expr>, usize)>)
    requires
        pos <= src.len(),
    ensures
        match r {
            Some(t) => sp_args_tail(src@, pos as int, exprs_v(acc@)) == Some(
                (exprs_v(t.0@), t.1 as int),
            ) && pos < t.1 <= src.len(),
            None => sp_args_tail(src@, pos as int, exprs_v(acc@)) is None,
        },
    decreases src@.len() - pos, 4int, 1int,
{
    match p_ch(src, pos, ',') {
        Some(p1) => match p_bin(src, p1, 3) {
            Some((e, p2)) => {
                let ghost a0 = acc@;
                let ghost ev = e.v();
                let mut acc2 = acc;
                acc2.push(e);
                proof {
                    assert(acc2@.drop_last() =~= a0);
                    assert(exprs_v(acc2@) =~= exprs_v(a0).push(ev));
                }
                p_args_tail(src, p2, acc2)
            },
            None => None,
        },
        None => match p_ch(src, pos, ')') {
            Some(p) => Some((acc, p)),
            None => None,
        },
    }
}

// ---------------------------------------------------------------------------
// Statements and blocks: keyword-directed ordered choice. A statement list
// stops before the first position where no statement matches; the block rule
// then demands the closing brace there.
// ---------------------------------------------------------------------------

/// An expression statement: `expr ;`.
pub open spec fn sp_expr_stmt(s: Seq<char>, pos: int) -> Option<(StmtV, int)> {
    match sp_expr(s, pos) {
        Some((e, p1)) => match sp_ch(s, p1, ';') {
            Some(p2) => Some((StmtV::ExprStmt(e), p2)),
            None => None,
        },
        None => None,
    }
}

/// A statement, dispatched on a leading keyword; anything else is tried as
/// an expression statement.
pub open spec fn sp_stmt(s: Seq<char>, pos: int) -> Option<(StmtV, int)>
    decreases s.len() - pos, 2int,
{
    match sp_word(s, pos) {
        Some((w, p)) => if w == seq!['l', 'e', 't'] {
            match sp_ident(s, p) {
                Some((n, p1)) => match sp_ch(s, p1, '=') {
                    Some(p2) => match sp_expr(s, p2) {
                        Some((e, p3)) => match sp_ch(s, p3, ';') {
                            Some(p4) => Some((StmtV::VarDecl(n, e), p4)),
                            None => None,
                        },
                        None => None,
                    },
                    None => None,
                },
                None => None,
            }
        } else if w == seq!['r', 'e', 't', 'u', 'r', 'n'] {
            match sp_ch(s, p, ';') {
                Some(p1) => Some((StmtV::Return(None), p1)),
                None => match sp_expr(s, p) {
                    Some((e, p1)) => match sp_ch(s, p1, ';') {
                        Some(p2) => Some((StmtV::Return(Some(e)), p2)),
                        None => None,
                    },
                    None => None,
                },
            }
        } else if w == seq!['i', 'f'] {
            match sp_expr(s, p) {
                Some((c, p1)) => if pos < p1 <= s.len() {
                    match sp_block(s, p1) {
                        Some((t, p2)) => if pos < p2 <= s.len() {
                            match sp_word(s, p2) {
                                Some((w2, p3)) => if w2 == seq!['e', 'l', 's', 'e'] {
                                    if p2 < p3 <= s.len() {
                                        match sp_block(s, p3) {
                                            Some((els, p4)) => Some(
                                                (StmtV::If(c, t, Some(els)), p4),
                                            ),
                                            None => None,
                                        }
                                    } else {
                                        None
                                    }
                                } else {
                                    Some((StmtV::If(c, t, None), p2))
                                },
                                None => Some((StmtV::If(c, t, None), p2)),
                            }
                        } else {
                            None
                        },
                        None => None,
                    }
                } else {
                    None
                },
                None => None,
            }
        } else if w == seq!['w', 'h', 'i', 'l', 'e'] {
            match sp_expr(s, p) {
                Some((c, p1)) => if pos < p1 <= s.len() {
                    match sp_block(s, p1) {
                        Some((b, p2)) => Some((StmtV::While(c, b), p2)),
                        None => None,
                    }
                } else {
                    None
                },
                None => None,
            }
        } else {
            sp_expr_stmt(s, pos)
        },
        None => sp_expr_stmt(s, pos),
    }
}

/// Statements appended to `acc` until no statement matches; never fails.
pub open spec fn sp_stmts(s: Seq<char>, pos: int, acc: Seq<StmtV>) -> (Seq<StmtV>, int)
    decreases s.len() - pos, 3int,
{
    match sp_stmt(s, pos) {
        Some((st, p)) => if pos < p <= s.len() {
            sp_stmts(s, p, acc.push(st))
        } else {
            (acc, pos)
        },
        None => (acc, pos),
    }
}

/// A block: `{ stmt* }`.
pub open spec fn sp_block(s: Seq<char>, pos: int) -> Option<(Seq<StmtV>, int)>
    decreases s.len() - pos, 1int,
{
    match sp_ch(s, pos, '{') {
        Some(p1) => if pos < p1 <= s.len() {
            let (ss, p2) = sp_stmts(s, p1, Seq::empty());
            match sp_ch(s, p2, '}') {
                Some(p3) => Some((ss, p3)),
                None => None,
            }
        } else {
            None
        },
        None => None,
    }
}

fn is_w_let(w: &Vec<char>) -> (r: bool)
    ensures
        r == (w@ == seq!['l', 'e', 't']),
{
    let r = w.len() == 3 && w[0] == 'l' && w[1] == 'e' && w[2] == 't';
    proof {
        if r {
            assert(w@ =~= seq!['l', 'e', 't']);
        }
    }
    r
}

fn is_w_return(w: &Vec<char>) -> (r: bool)
    ensures
        r == (w@ == seq!['r', 'e', 't', 'u', 'r', 'n']),
{
    let r = w.len() == 6 && w[0] == 'r' && w[1] == 'e' && w[2] == 't' && w[3] == 'u' && w[4] == 'r'
        && w[5] == 'n';
    proof {
        if r {
            assert(w@ =~= seq!['r', 'e', 't', 'u', 'r', 'n']);
        }
    }
    r
}

fn is_w_if(w: &Vec<char>) -> (r: bool)
    ensures
        r == (w@ == seq!['i', 'f']),
{
    let r = w.len() == 2 && w[0] == 'i' && w[1] == 'f';
    proof {
        if r {
            assert(w@ =~= seq!['i', 'f']);
        }
    }
    r
}

fn is_w_else(w: &Vec<char>) -> (r: bool)
    ensures
        r == (w@ == seq!['e', 'l', 's', 'e']),
{
    let r = w.len() == 4 && w[0] == 'e' && w[1] == 'l' && w[2] == 's' && w[3] == 'e';
    proof {
        if r {
            assert(w@ =~= seq!['e', 'l', 's', 'e']);
        }
    }
    r
}

fn is_w_while(w: &Vec<char>) -> (r: bool)
    ensures
        r == (w@ == seq!['w', 'h', 'i', 'l', 'e']),
{
    let r = w.len() == 5 && w[0] == 'w' && w[1] == 'h' && w[2] == 'i' && w[3] == 'l' && w[4] == 'e';
    proof {
        if r {
            assert(w@ =~= seq!['w', 'h', 'i', 'l', 'e']);
        }
    }
    r
}

fn is_w_fn(w: &Vec<char>) -> (r: bool)
    ensures
        r == (w@ == seq!['f', 'n']),
{
    let r = w.len() == 2 && w[0] == 'f' && w[1] == 'n';
    proof {
        if r {
            assert(w@ =~= seq!['f', 'n']);
        }
    }
    r
}

fn p_expr_stmt(src: &Vec<char>, pos: usize) -> (r: Option<(Stmt, usize)>)
    requires
        pos <= src.len(),
    ensures
        match r {
            Some(t) => sp_expr_stmt(src@, pos as int) == Some((t.0.v(), t.1 as int)) && pos < t.1
                <= src.len(),
            None => sp_expr_stmt(src@, pos as int) is None,
        },
{
    match p_expr(src, pos) {
        Some((e, p1)) => match p_ch(src, p1, ';') {
            Some(p2) => Some(
                (Stmt { kind: StmtKind::ExprStmt(e), span: Span { lo: pos, hi: p2 } }, p2),
            ),
            None => None,
        },
        None => None,
    }
}

fn p_stmt(src: &Vec<char>, pos: usize) -> (r: Option<(Stmt, usize)>)
    requires
        pos <= src.len(),
    ensures
        match r {
            Some(t) => sp_stmt(src@, pos as int) == Some((t.0.v(), t.1 as int)) && pos < t.1
                <= src.len(),
            None => sp_stmt(src@, pos as int) is None,
        },
    decreases src@.len() - pos, 2int,
{
    match p_word(src, pos) {
        Some((w, p)) => {
            if is_w_let(&w) {
                match p_ident(src, p) {
                    Some((n, p1)) => match p_ch(src, p1, '=') {
                        Some(p2) => match p_expr(src, p2) {
                            Some((e, p3)) => match p_ch(src, p3, ';') {
                                Some(p4) => Some(
                                    (
                                        Stmt {
                                            kind: StmtKind::VarDecl(n, e),
                                            span: Span { lo: pos, hi: p4 },
                                        },
                                        p4,
                                    ),
                                ),
                                None => None,
                            },
                            None => None,
                        },
                        None => None,
                    },
                    None => None,
                }
            } else if is_w_return(&w) {
                match p_ch(src, p, ';') {
                    Some(p1) => Some(
                        (Stmt { kind: StmtKind::Return(None), span: Span { lo: pos, hi: p1 } }, p1),
                    ),
                    None => match p_expr(src, p) {
                        Some((e, p1)) => match p_ch(src, p1, ';') {
                            Some(p2) => Some(
                                (
                                    Stmt {
                                        kind: StmtKind::Return(Some(e)),
                                        span: Span { lo: pos, hi: p2 },
                                    },
                                    p2,
                                ),
                            ),
                            None => None,
                        },
                        None => None,
                    },
                }
            } else if is_w_if(&w) {
                match p_expr(src, p) {
                    Some((c, p1)) => match p_block(src, p1) {
                        Some((t, p2)) => match p_word(src, p2) {
                            Some((w2, p3)) => {
                                if is_w_else(&w2) {
                                    match p_block(src, p3) {
                                        Some((els, p4)) => Some(
                                            (
                                                Stmt {
                                                    kind: StmtKind::If(c, t, Some(els)),
                                                    span: Span { lo: pos, hi: p4 },
                                                },
                                                p4,
                                            ),
                                        ),
                                        None => None,
                                    }
                                } else {
                                    Some(
                                        (
                                            Stmt {
                                                kind: StmtKind::If(c, t, None),
                                                span: Span { lo: pos, hi: p2 },
                                            },
                                            p2,
                                        ),
                                    )
                                }
                            },
                            None => Some(
                                (
                                    Stmt {
                                        kind: StmtKind::If(c, t, None),
                                        span: Span { lo: pos, hi: p2 },
                                    },
                                    p2,
                                ),
                            ),
                        },
                        None => None,
                    },
                    None => None,
                }
            } else if is_w_while(&w) {
                match p_expr(src, p) {
                    Some((c, p1)) => match p_block(src, p1) {
                        Some((b, p2)) => Some(
                            (
                                Stmt {
                                    kind: StmtKind::While(c, b),
                                    span: Span { lo: pos, hi: p2 },
                                },
                                p2,
                            ),
                        ),
                        None => None,
                    },
                    None => None,
                }
            } else {
                p_expr_stmt(src, pos)
            }
        },
        None => p_expr_stmt(src, pos),
    }
}

fn p_stmts(src: &Vec<char>, pos: usize, acc: Vec<Stmt>) -> (r: (Vec<Stmt>, usize))
    requires
        pos <= src.len(),
    ensures
        sp_stmts(src@, pos as int, stmts_v(acc@)).0 == stmts_v(r.0@),
        sp_stmts(src@, pos as int, stmts_v(acc@)).1 == r.1 as int,
        pos <= r.1 <= src.len(),
    decreases src@.len() - pos, 3int,
{
    match p_stmt(src, pos) {
        Some((st, p)) => {
            let ghost a0 = acc@;
            let ghost stv = st.v();
            let mut acc2 = acc;
            acc2.push(st);
            proof {
                assert(acc2@.drop_last() =~= a0);
                assert(stmts_v(acc2@) =~= stmts_v(a0).push(stv));
            }
            p_stmts(src, p, acc2)
        },
        None => (acc, pos),
    }
}

fn p_block(src: &Vec<char>, pos: usize) -> (r: Option<(Vec<Stmt>, usize)>)
    requires
        pos <= src.len(),
    ensures
        match r {
            Some(t) => sp_block(src@, pos as int) == Some((stmts_v(t.0@), t.1 as int)) && pos < t.1
                <= src.len(),
            None => sp_block(src@, pos as int) is None,
        },
    decreases src@.len() - pos, 1int,
{
    match p_ch(src, pos, '{') {
        Some(p1) => {
            let empty: Vec<Stmt> = Vec::new();
            proof {
                assert(stmts_v(empty@) =~= Seq::<StmtV>::empty());
            }
            let (ss, p2) = p_stmts(src, p1, empty);
            match p_ch(src, p2, '}') {
                Some(p3) => Some((ss, p3)),
                None => None,
            }
        },
        None => None,
    }
}

// ---------------------------------------------------------------------------
// Declarations and the whole program
// ---------------------------------------------------------------------------

/// A parameter list, entered just after the `(`; consumes the `)`.
pub open spec fn sp_params(s: Seq<char>, pos: int) -> Option<(Seq<Seq<char>>, int)> {
    match sp_ch(s, pos, ')') {
        Some(p) => Some((Seq::empty(), p)),
        None => match sp_ident(s, pos) {
            Some((n, p1)) => sp_params_tail(s, p1, seq![n]),
            None => None,
        },
    }
}

/// The rest of a parameter list: `,`-separated identifiers up to the `)`.
pub open spec fn sp_params_tail(s: Seq<char>, pos: int, acc: Seq<Seq<char>>) -> Option<
    (Seq<Seq<char>>, int),
>
    decreases s.len() - pos,
{
    match sp_ch(s, pos, ',') {
        Some(p1) => if pos < p1 <= s.len() {
            match sp_ident(s, p1) {
                Some((n, p2)) => if p1 < p2 <= s.len() {
                    sp_params_tail(s, p2, acc.push(n))
                } else {
                    None
                },
                None => None,
            }
        } else {
            None
        },
        None => match sp_ch(s, pos, ')') {
            Some(p) => Some((acc, p)),
            None => None,
        },
    }
}

/// A function declaration: `fn ident ( params ) block`.
pub open spec fn sp_fndecl(s: Seq<char>, pos: int) -> Option<(FunctionDeclV, int)> {
    match sp_word(s, pos) {
        Some((w, p)) => if w == seq!['f', 'n'] {
            match sp_ident(s, p) {
                Some((name, p1)) => match sp_ch(s, p1, '(') {
                    Some(p2) => match sp_params(s, p2) {
                        Some((ps, p3)) => match sp_block(s, p3) {
                            Some((body, p4)) => Some(
                                (FunctionDeclV { name, params: ps, body }, p4),
                            ),
                            None => None,
                        },
                        None => None,
                    },
                    None => None,
                },
                None => None,
            }
        } else {
            None
        },
        None => None,
    }
}

/// Declarations appended to `acc` until no declaration matches; never fails.
pub open spec fn sp_fndecls(s: Seq<char>, pos: int, acc: Seq<FunctionDeclV>) -> (
    Seq<FunctionDeclV>,
    int,
)
    decreases s.len() - pos,
{
    match sp_fndecl(s, pos) {
        Some((f, p)) => if pos < p <= s.len() {
            sp_fndecls(s, p, acc.push(f))
        } else {
            (acc, pos)
        },
        None => (acc, pos),
    }
}

/// The whole program: leading whitespace, declarations, end of input. This is
/// the grammar the parser is proved against: a source text is syntactically
/// valid exactly when this function returns a value.
pub open spec fn sp_program(s: Seq<char>) -> Option<ProgramV> {
    let (ds, p) = sp_fndecls(s, sp_skip(s, 0), Seq::empty());
    if p == s.len() {
        Some(ProgramV { decls: ds })
    } else {
        None
    }
}

/// The position where declaration matching stops; on a failed parse this is
/// the offending position the syntax error reports.
pub open spec fn sp_program_end(s: Seq<char>) -> int {
    sp_fndecls(s, sp_skip(s, 0), Seq::empty()).1
}

fn p_params(src: &Vec<char>, pos: usize) -> (r: Option<(Vec<Vec<char>>, usize)>)
    requires
        pos <= src.len(),
    ensures
        match r {
            Some(t) => sp_params(src@, pos as int) == Some((names_v(t.0@), t.1 as int)) && pos
                < t.1 <= src.len(),
            None => sp_params(src@, pos as int) is None,
        },
{
    match p_ch(src, pos, ')') {
        Some(p) => {
            let empty: Vec<Vec<char>> = Vec::new();
            proof {
                assert(names_v(empty@) =~= Seq::<Seq<char>>::empty());
            }
            Some((empty, p))
        },
        None => match p_ident(src, pos) {
            Some((n, p1)) => {
                let ghost nv = n@;
                let mut acc: Vec<Vec<char>> = Vec::new();
                acc.push(n);
                proof {
                    assert(names_v(acc@) =~= seq![nv]);
                }
                p_params_tail(src, p1, acc)
            },
            None => None,
        },
    }
}

fn p_params_tail(src: &Vec<char>, pos: usize, acc: Vec<Vec<char>>) -> (r: Option<
    (Vec<Vec<char>>, usize),
>)
    requires
        pos <= src.len(),
    ensures
        match r {
            Some(t) => sp_params_tail(src@, pos as int, names_v(acc@)) == Some(
                (names_v(t.0@), t.1 as int),
            ) && pos < t.1 <= src.len(),
            None => sp_params_tail(src@, pos as int, names_v(acc@)) is None,
        },
    decreases src@.len() - pos,
{
    match p_ch(src, pos, ',') {
        Some(p1) => match p_ident(src, p1) {
            Some((n, p2)) => {
                let ghost a0 = acc@;
                let ghost nv = n@;
                let mut acc2 = acc;
                acc2.push(n);
                proof {
                    assert(names_v(acc2@) =~= names_v(a0).push(nv));
                }
                p_params_tail(src, p2, acc2)
            },
            None => None,
        },
        None => match p_ch(src, pos, ')') {
            Some(p) => Some((acc, p)),
            None => None,
        },
    }
}

fn p_fndecl(src: &Vec<char>, pos: usize) -> (r: Option<(FunctionDecl, usize)>)
    requires
        pos <= src.len(),
    ensures
        match r {
            Some(t) => sp_fndecl(src@, pos as int) == Some((t.0.v(), t.1 as int)) && pos < t.1
                <= src.len(),
            None => sp_fndecl(src@, pos as int) is None,
        },
{
    match p_word(src, pos) {
        Some((w, p)) => {
            if is_w_fn(&w) {
                match p_ident(src, p) {
                    Some((name, p1)) => match p_ch(src, p1, '(') {
                        Some(p2) => match p_params(src, p2) {
                            Some((ps, p3)) => match p_block(src, p3) {
                                Some((body, p4)) => Some(
                                    (
                                        FunctionDecl {
                                            name,
                                            params: ps,
                                            body,
                                            span: Span { lo: pos, hi: p4 },
                                        },
                                        p4,
                                    ),
                                ),
                                None => None,
                            },
                            None => None,
                        },
                        None => None,
                    },
                    None => None,
                }
            } else {
                None
            }
        },
        None => None,
    }
}

fn p_fndecls(src: &Vec<char>, pos: usize, acc: Vec<FunctionDecl>) -> (r: (Vec<FunctionDecl>, usize))
    requires
        pos <= src.len(),
    ensures
        sp_fndecls(src@, pos as int, decls_v(acc@)).0 == decls_v(r.0@),
        sp_fndecls(src@, pos as int, decls_v(acc@)).1 == r.1 as int,
        pos <= r.1 <= src.len(),
    decreases src@.len() - pos,
{
    match p_fndecl(src, pos) {
        Some((f, p)) => {
            let ghost a0 = acc@;
            let ghost fv = f.v();
            let mut acc2 = acc;
            acc2.push(f);
            proof {
                assert(decls_v(acc2@) =~= decls_v(a0).push(fv));
            }
            p_fndecls(src, p, acc2)
        },
        None => (acc, pos),
    }
}

/// On every syntactically valid source text the parse yields a value, and
/// the AST's top-level declarations are exactly the declarations the program
/// rule matched: same count, same order, same structure.
pub proof fn lemma_program_decls(s: Seq<char>)
    ensures
        sp_program(s) matches Some(pv) ==> pv.decls == sp_fndecls(
            s,
            sp_skip(s, 0),
            Seq::empty(),
        ).0,
{
}

/// Parses one source file against the program rule: the abstract syntax tree
/// of a syntactically valid text, or the syntax error for any other, with the
/// position where matching stopped and the rule attempted there.
pub fn parse_file(file: &str) -> (r: Result<Program, SyntaxError>)
    ensures
        match r {
            Ok(prog) => sp_program(file@) == Some(prog.v()),
            Err(e) => sp_program(file@) is None && e.pos as int == sp_program_end(file@)
                && e.expected@ == seq![Rule::FunctionDecl],
        },
{
    let n = file.unicode_len();
    let mut src: Vec<char> = Vec::new();
    let mut i: usize = 0;
    while i < n
        invariant
            i <= n,
            n as nat == file@.len(),
            src@ == file@.subrange(0, i as int),
        decreases n - i,
    {
        src.push(file.get_char(i));
        proof {
            assert(src@ =~= file@.subrange(0, i + 1));
        }
        i += 1;
    }
    proof {
        assert(src@ =~= file@);
    }
    let p0 = p_skip(&src, 0);
    let empty: Vec<FunctionDecl> = Vec::new();
    proof {
        assert(decls_v(empty@) =~= Seq::<FunctionDeclV>::empty());
    }
    let (ds, p) = p_fndecls(&src, p0, empty);
    if p == src.len() {
        Ok(Program { decls: ds })
    } else {
        let mut expected: Vec<Rule> = Vec::new();
        expected.push(Rule::FunctionDecl);
        proof {
            assert(expected@ =~= seq![Rule::FunctionDecl]);
        }
        Err(SyntaxError { pos: p, expected })
    }
}

} // verus!

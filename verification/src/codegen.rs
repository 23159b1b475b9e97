//! Lowering of the AST into the intermediate representation: one depth-first
//! traversal that manages a scoped symbol table, the current basic-block
//! cursor and external-routine linkage. The outcome is pinned by a
//! specification-level semantic check: lowering returns a module exactly when
//! the check finds no fault, and otherwise returns precisely the first fault
//! the traversal meets — an unbound identifier, a call to an undeclared
//! function, or a missing return. A returned module is structurally well
//! formed: entry block present and every block terminated.

use vstd::prelude::*;
use crate::ast::{Expr, ExprKind, FunctionDecl, Program, Stmt, StmtKind, names_v};
use crate::errors::{CompileError, SemanticError, SemanticErrorV};
use crate::ir::{
    Block, Callee, ExternSig, Func, Inst, Module, Term, Ty, block_wf, inst_wf, module_wf, term_wf,
};
use crate::ir::verify_module;

verus! {

/// The name of the program entry point.
pub open spec fn main_name() -> Seq<char> {
    seq!['m', 'a', 'i', 'n']
}

/// The name of the externally linked print routine: one byte-pointer
/// argument, no result.
pub open spec fn print_name() -> Seq<char> {
    seq!['p', 'r', 'i', 'n', 't']
}

/// The names of a sequence of extern declarations, elementwise.
pub open spec fn ext_names(es: Seq<ExternSig>) -> Seq<Seq<char>> {
    Seq::new(es.len(), |i: int| es[i].name@)
}

/// The names of a sequence of declarations, elementwise.
pub open spec fn decl_names(ds: Seq<FunctionDecl>) -> Seq<Seq<char>> {
    Seq::new(ds.len(), |i: int| ds[i].name@)
}

/// The names bound by one lexical scope, in declaration order.
pub open spec fn scope_names(entries: Seq<(Vec<char>, usize)>) -> Seq<Seq<char>> {
    Seq::new(entries.len(), |i: int| entries[i].0@)
}

/// All names bound in a scope chain, outermost scope first.
pub open spec fn flat_names(sc: Seq<Vec<(Vec<char>, usize)>>) -> Seq<Seq<char>>
    decreases sc.len(),
{
    if sc.len() == 0 {
        Seq::empty()
    } else {
        flat_names(sc.drop_last()) + scope_names(sc.last()@)
    }
}

// ---------------------------------------------------------------------------
// The semantic check: a specification of exactly which error, if any, the
// depth-first lowering traversal reports, in traversal order.
// ---------------------------------------------------------------------------

/// The first fault in an expression: the leftmost unbound identifier or
/// unresolvable callee. `fns` are the callable names, `vars` the bound ones.
pub open spec fn ck_expr(e: Expr, fns: Seq<Seq<char>>, vars: Seq<Seq<char>>) -> Option<
    SemanticErrorV,
>
    decreases e, 0int,
{
    match e.kind {
        ExprKind::Int(n) => None,
        ExprKind::Str(w) => None,
        ExprKind::Ident(n) => if vars.contains(n@) {
            None
        } else {
            Some(SemanticErrorV::UndefinedSymbol(n@, e.span))
        },
        ExprKind::Call(f, args) => if !fns.contains(f@) {
            Some(SemanticErrorV::UndefinedFunction(f@, e.span))
        } else {
            ck_exprs(args@, 0, fns, vars)
        },
        ExprKind::Binary(op, a, b) => match ck_expr(*a, fns, vars) {
            Some(er) => Some(er),
            None => ck_expr(*b, fns, vars),
        },
    }
}

/// The first fault among the expressions `es[i..]`, left to right.
pub open spec fn ck_exprs(es: Seq<Expr>, i: int, fns: Seq<Seq<char>>, vars: Seq<Seq<char>>) -> Option<
    SemanticErrorV,
>
    decreases es, es.len() - i,
{
    if i < 0 || i >= es.len() {
        None
    } else {
        match ck_expr(es[i], fns, vars) {
            Some(er) => Some(er),
            None => ck_exprs(es, i + 1, fns, vars),
        }
    }
}

/// Whether the statement surely returns on every path through it.
pub open spec fn st_returns(st: Stmt) -> bool
    decreases st, 0int,
{
    match st.kind {
        StmtKind::Return(r) => true,
        StmtKind::If(c, t, e) => match e {
            Some(els) => block_returns(t@, 0) && block_returns(els@, 0),
            None => false,
        },
        _ => false,
    }
}

/// Whether some statement of `ss[i..]` surely returns.
pub open spec fn block_returns(ss: Seq<Stmt>, i: int) -> bool
    decreases ss, ss.len() - i,
{
    if i < 0 || i >= ss.len() {
        false
    } else {
        st_returns(ss[i]) || block_returns(ss, i + 1)
    }
}

/// The names visible after the statement, in the same scope.
pub open spec fn vars_after(st: Stmt, vars: Seq<Seq<char>>) -> Seq<Seq<char>> {
    match st.kind {
        StmtKind::VarDecl(n, e) => vars.push(n@),
        _ => vars,
    }
}

/// The first fault in one statement. Branch and loop bodies open their own
/// scope, so names they declare do not escape.
pub open spec fn ck_stmt(st: Stmt, fns: Seq<Seq<char>>, vars: Seq<Seq<char>>) -> Option<
    SemanticErrorV,
>
    decreases st, 0int,
{
    match st.kind {
        StmtKind::VarDecl(n, e) => ck_expr(e, fns, vars),
        StmtKind::Return(r) => match r {
            Some(e) => ck_expr(e, fns, vars),
            None => None,
        },
        StmtKind::If(c, t, e) => match ck_expr(c, fns, vars) {
            Some(er) => Some(er),
            None => match ck_stmts(t@, 0, fns, vars) {
                Some(er) => Some(er),
                None => match e {
                    Some(els) => ck_stmts(els@, 0, fns, vars),
                    None => None,
                },
            },
        },
        StmtKind::While(c, b) => match ck_expr(c, fns, vars) {
            Some(er) => Some(er),
            None => ck_stmts(b@, 0, fns, vars),
        },
        StmtKind::ExprStmt(e) => ck_expr(e, fns, vars),
    }
}

/// The first fault among the statements `ss[i..]`. A statement that surely
/// returns ends the traversal: what follows it is never lowered, so it is
/// not checked either.
pub open spec fn ck_stmts(ss: Seq<Stmt>, i: int, fns: Seq<Seq<char>>, vars: Seq<Seq<char>>) -> Option<
    SemanticErrorV,
>
    decreases ss, ss.len() - i,
{
    if i < 0 || i >= ss.len() {
        None
    } else {
        match ck_stmt(ss[i], fns, vars) {
            Some(er) => Some(er),
            None => if st_returns(ss[i]) {
                None
            } else {
                ck_stmts(ss, i + 1, fns, vars_after(ss[i], vars))
            },
        }
    }
}

/// The first fault in a function: its body, checked with the parameters
/// bound; then, unless it is the entry point or its body surely returns,
/// the missing return.
pub open spec fn ck_fun(fd: FunctionDecl, fns: Seq<Seq<char>>) -> Option<SemanticErrorV> {
    match ck_stmts(fd.body@, 0, fns, names_v(fd.params@)) {
        Some(er) => Some(er),
        None => if !block_returns(fd.body@, 0) && fd.name@ != main_name() {
            Some(SemanticErrorV::MissingReturn(fd.name@, fd.span))
        } else {
            None
        },
    }
}

/// The first fault among the declarations `ds[i..]`.
pub open spec fn ck_decls(ds: Seq<FunctionDecl>, i: int, fns: Seq<Seq<char>>) -> Option<
    SemanticErrorV,
>
    decreases ds.len() - i,
{
    if i < 0 || i >= ds.len() {
        None
    } else {
        match ck_fun(ds[i], fns) {
            Some(er) => Some(er),
            None => ck_decls(ds, i + 1, fns),
        }
    }
}

/// The callable names of a program: the externally declared routines, then
/// every declared function — declared before any body is lowered, so calls
/// resolve regardless of declaration order.
pub open spec fn prog_fns(p: Program) -> Seq<Seq<char>> {
    seq![print_name()] + decl_names(p.decls@)
}

/// The first fault of the whole program, in traversal order; the program
/// lowers to a module exactly when there is none.
pub open spec fn ck_program(p: Program) -> Option<SemanticErrorV> {
    ck_decls(p.decls@, 0, prog_fns(p))
}

// ---------------------------------------------------------------------------
// The code-generation context
// ---------------------------------------------------------------------------

/// The mutable state of one lowering traversal: the module parts built so
/// far, the function under construction with its block cursor, the scope
/// chain, and the SSA value counter.
pub struct Gen {
    /// The externally declared routines, fixed before lowering.
    pub externs: Vec<ExternSig>,
    /// The global string constants, appended as literals are met.
    pub globals: Vec<Vec<char>>,
    /// The finished functions, in declaration order.
    pub done: Vec<Func>,
    /// Every declared function name, fixed before lowering any body.
    pub fnames: Vec<Vec<char>>,
    /// The blocks of the function under construction.
    pub blocks: Vec<Block>,
    /// The cursor: the block instructions are being appended to.
    pub cur_b: usize,
    /// The scope chain, outermost first; lookups walk it backwards.
    pub scopes: Vec<Vec<(Vec<char>, usize)>>,
    /// The next fresh SSA value id.
    pub next_val: usize,
    /// Whether the cursor block has been ended by a terminator.
    pub terminated: bool,
}

impl Gen {
    /// The callable names, extern routines first.
    pub open spec fn fn_ctx(self) -> Seq<Seq<char>> {
        ext_names(self.externs@) + names_v(self.fnames@)
    }

    /// The bound variable names.
    pub open spec fn var_ctx(self) -> Seq<Seq<char>> {
        flat_names(self.scopes@)
    }

    /// The construction invariant: the cursor is a real block, a scope is
    /// open, every terminator written so far branches to a real block, every
    /// instruction reference resolves, and a set `terminated` flag means the
    /// cursor block really is terminated.
    pub open spec fn inv(self) -> bool {
        &&& self.cur_b < self.blocks@.len()
        &&& self.scopes@.len() >= 1
        &&& forall|j: int|
            0 <= j < self.blocks@.len() ==> pblock_wf(
                #[trigger] self.blocks@[j],
                self.blocks@.len() as int,
                self.externs@.len() as int,
                self.fnames@.len() as int,
                self.globals@.len() as int,
            )
        &&& self.terminated ==> self.blocks@[self.cur_b as int].term is Some
    }
}

/// Well-formedness of a block still under construction: as `block_wf`, but
/// the terminator slot may still be empty.
pub open spec fn pblock_wf(b: Block, nb: int, ne: int, nf: int, ng: int) -> bool {
    &&& match b.term {
        Some(t) => term_wf(t, nb),
        None => true,
    }
    &&& forall|k: int| 0 <= k < b.insts@.len() ==> inst_wf(#[trigger] b.insts@[k], ne, nf, ng)
}

/// The frame every lowering step preserves: the callable context is fixed,
/// globals and blocks only grow, terminators once written stay, enclosing
/// scopes are untouched, and any block left without a terminator is either
/// the new cursor or was already an open non-cursor block before.
pub open spec fn gen_frame(g0: Gen, g1: Gen) -> bool {
    &&& g1.externs == g0.externs
    &&& g1.fnames == g0.fnames
    &&& g1.globals@.len() >= g0.globals@.len()
    &&& g1.blocks@.len() >= g0.blocks@.len()
    &&& forall|j: int|
        0 <= j < g0.blocks@.len() && (#[trigger] g0.blocks@[j].term) is Some ==> g1.blocks@[j].term
            == g0.blocks@[j].term
    &&& g1.scopes@.len() == g0.scopes@.len()
    &&& forall|i: int| 0 <= i < g0.scopes@.len() - 1 ==> #[trigger] g1.scopes@[i] == g0.scopes@[i]
    &&& forall|j: int|
        0 <= j < g1.blocks@.len() && (#[trigger] g1.blocks@[j].term) is None ==> (j == g1.cur_b || (
        j < g0.blocks@.len() && g0.blocks@[j].term is None && j != g0.cur_b))
    &&& forall|j: int|
        0 <= j < g0.blocks@.len() && j != g0.cur_b && (#[trigger] g0.blocks@[j].term) is None
            ==> g1.blocks@[j].term is None
    &&& (g1.cur_b == g0.cur_b || g1.cur_b >= g0.blocks@.len())
}

/// `gen_frame` composes across consecutive lowering steps.
pub proof fn lemma_frame_trans(g0: Gen, g1: Gen, g2: Gen)
    requires
        gen_frame(g0, g1),
        gen_frame(g1, g2),
    ensures
        gen_frame(g0, g2),
{
}

// ---------------------------------------------------------------------------
// Small executable helpers
// ---------------------------------------------------------------------------

/// A fresh copy of a name.
fn clone_name(n: &Vec<char>) -> (r: Vec<char>)
    ensures
        r@ == n@,
{
    let mut r: Vec<char> = Vec::new();
    let mut i: usize = 0;
    while i < n.len()
        invariant
            i <= n.len(),
            r@ == n@.subrange(0, i as int),
        decreases n.len() - i,
    {
        r.push(n[i]);
        proof {
            assert(r@ =~= n@.subrange(0, i + 1));
        }
        i += 1;
    }
    proof {
        assert(r@ =~= n@);
    }
    r
}

/// Character-wise name equality.
fn chars_eq(a: &Vec<char>, b: &Vec<char>) -> (r: bool)
    ensures
        r == (a@ == b@),
{
    if a.len() != b.len() {
        return false;
    }
    let mut i: usize = 0;
    while i < a.len()
        invariant
            i <= a.len(),
            a@.len() == b@.len(),
            forall|j: int| 0 <= j < i ==> a@[j] == b@[j],
        decreases a.len() - i,
    {
        if a[i] != b[i] {
            return false;
        }
        i += 1;
    }
    proof {
        assert(a@ =~= b@);
    }
    true
}

/// The first index of `n` among `names`, if any.
fn find_fname(names: &Vec<Vec<char>>, n: &Vec<char>) -> (r: Option<usize>)
    ensures
        match r {
            Some(i) => i < names@.len() && names@[i as int]@ == n@ && names_v(names@).contains(n@),
            None => !names_v(names@).contains(n@),
        },
{
    let mut i: usize = 0;
    while i < names.len()
        invariant
            i <= names@.len(),
            forall|j: int| 0 <= j < i ==> names@[j]@ != n@,
        decreases names.len() - i,
    {
        if chars_eq(&names[i], n) {
            proof {
                assert(names_v(names@)[i as int] == n@);
            }
            return Some(i);
        }
        i += 1;
    }
    proof {
        if names_v(names@).contains(n@) {
            let k = choose|k: int| 0 <= k < names_v(names@).len() && names_v(names@)[k] == n@;
            assert(names@[k]@ == n@);
        }
    }
    None
}

/// The first extern routine named `n`, if any.
fn find_ext(es: &Vec<ExternSig>, n: &Vec<char>) -> (r: Option<usize>)
    ensures
        match r {
            Some(i) => i < es@.len() && es@[i as int].name@ == n@ && ext_names(es@).contains(n@),
            None => !ext_names(es@).contains(n@),
        },
{
    let mut i: usize = 0;
    while i < es.len()
        invariant
            i <= es@.len(),
            forall|j: int| 0 <= j < i ==> es@[j].name@ != n@,
        decreases es.len() - i,
    {
        if chars_eq(&es[i].name, n) {
            proof {
                assert(ext_names(es@)[i as int] == n@);
            }
            return Some(i);
        }
        i += 1;
    }
    proof {
        if ext_names(es@).contains(n@) {
            let k = choose|k: int| 0 <= k < ext_names(es@).len() && ext_names(es@)[k] == n@;
            assert(es@[k].name@ == n@);
        }
    }
    None
}

/// A name bound in some scope is in the flattened chain.
pub proof fn lemma_flat_contains_at(sc: Seq<Vec<(Vec<char>, usize)>>, i: int, j: int)
    requires
        0 <= i < sc.len(),
        0 <= j < sc[i]@.len(),
    ensures
        flat_names(sc).contains(sc[i]@[j].0@),
    decreases sc.len(),
{
    let a = flat_names(sc.drop_last());
    let b = scope_names(sc.last()@);
    let x = sc[i]@[j].0@;
    if i == sc.len() - 1 {
        assert(b[j] == x);
        assert((a + b)[a.len() + j] == x);
        assert(flat_names(sc).contains(x));
    } else {
        lemma_flat_contains_at(sc.drop_last(), i, j);
        let ka = choose|ka: int| 0 <= ka < a.len() && a[ka] == x;
        assert((a + b)[ka] == x);
        assert(flat_names(sc).contains(x));
    }
}

/// Membership in the flattened scope chain is membership in some scope.
pub proof fn lemma_flat_contains(sc: Seq<Vec<(Vec<char>, usize)>>, x: Seq<char>)
    ensures
        flat_names(sc).contains(x) <==> exists|i: int, j: int|
            0 <= i < sc.len() && 0 <= j < sc[i]@.len() && sc[i]@[j].0@ == x,
    decreases sc.len(),
{
    if sc.len() == 0 {
    } else {
        lemma_flat_contains(sc.drop_last(), x);
        let a = flat_names(sc.drop_last());
        let b = scope_names(sc.last()@);
        if (a + b).contains(x) {
            let k = choose|k: int| 0 <= k < (a + b).len() && (a + b)[k] == x;
            if k < a.len() {
                assert(a[k] == x);
                assert(a.contains(x));
                let (i, j) = choose|i: int, j: int|
                    0 <= i < sc.drop_last().len() && 0 <= j < sc.drop_last()[i]@.len()
                        && sc.drop_last()[i]@[j].0@ == x;
                assert(sc[i]@[j].0@ == x);
            } else {
                assert(b[k - a.len()] == x);
                assert(sc[sc.len() - 1]@[k - a.len()].0@ == x);
            }
        }
        if exists|i: int, j: int| 0 <= i < sc.len() && 0 <= j < sc[i]@.len() && sc[i]@[j].0@ == x {
            let (i, j) = choose|i: int, j: int|
                0 <= i < sc.len() && 0 <= j < sc[i]@.len() && sc[i]@[j].0@ == x;
            if i < sc.len() - 1 {
                assert(sc.drop_last()[i]@[j].0@ == x);
                assert(a.contains(x));
                let ka = choose|ka: int| 0 <= ka < a.len() && a[ka] == x;
                assert((a + b)[ka] == x);
                assert((a + b).contains(x));
            } else {
                assert(b[j] == x);
                assert((a + b)[a.len() + j] == x);
                assert((a + b).contains(x));
            }
        }
    }
}

impl Gen {
    /// A fresh SSA value id.
    fn fresh(&mut self) -> (v: usize)
        ensures
            final(self).externs == old(self).externs,
            final(self).globals == old(self).globals,
            final(self).done == old(self).done,
            final(self).fnames == old(self).fnames,
            final(self).blocks == old(self).blocks,
            final(self).cur_b == old(self).cur_b,
            final(self).scopes == old(self).scopes,
            final(self).terminated == old(self).terminated,
    {
        let v = self.next_val;
        if self.next_val < usize::MAX {
            self.next_val = self.next_val + 1;
        }
        v
    }

    /// Appends one instruction to the cursor block.
    fn emit(&mut self, inst: Inst)
        requires
            old(self).inv(),
            inst_wf(
                inst,
                old(self).externs@.len() as int,
                old(self).fnames@.len() as int,
                old(self).globals@.len() as int,
            ),
        ensures
            final(self).inv(),
            final(self).externs == old(self).externs,
            final(self).globals == old(self).globals,
            final(self).done == old(self).done,
            final(self).fnames == old(self).fnames,
            final(self).cur_b == old(self).cur_b,
            final(self).scopes == old(self).scopes,
            final(self).terminated == old(self).terminated,
            final(self).next_val == old(self).next_val,
            final(self).blocks@.len() == old(self).blocks@.len(),
            forall|j: int|
                0 <= j < old(self).blocks@.len() && j != old(self).cur_b
                    ==> #[trigger] final(self).blocks@[j] == old(self).blocks@[j],
            final(self).blocks@[old(self).cur_b as int].term == old(self).blocks@[old(
                self,
            ).cur_b as int].term,
            final(self).blocks@[old(self).cur_b as int].insts@ == old(self).blocks@[old(
                self,
            ).cur_b as int].insts@.push(inst),
    {
        let cur = self.cur_b;
        self.blocks[cur].insts.push(inst);
    }

    /// Writes the terminator of block `bid`.
    fn set_term(&mut self, bid: usize, t: Term)
        requires
            old(self).inv(),
            bid < old(self).blocks@.len(),
            term_wf(t, old(self).blocks@.len() as int),
            old(self).blocks@[bid as int].term is None,
        ensures
            final(self).inv(),
            final(self).externs == old(self).externs,
            final(self).globals == old(self).globals,
            final(self).done == old(self).done,
            final(self).fnames == old(self).fnames,
            final(self).cur_b == old(self).cur_b,
            final(self).scopes == old(self).scopes,
            final(self).terminated == old(self).terminated,
            final(self).next_val == old(self).next_val,
            final(self).blocks@.len() == old(self).blocks@.len(),
            forall|j: int|
                0 <= j < old(self).blocks@.len() && j != bid ==> #[trigger] final(self).blocks@[j]
                    == old(self).blocks@[j],
            final(self).blocks@[bid as int].insts == old(self).blocks@[bid as int].insts,
            final(self).blocks@[bid as int].term == Some(t),
    {
        let mut blk = Block { insts: Vec::new(), term: Some(t) };
        core::mem::swap(&mut self.blocks[bid], &mut blk);
        let insts = blk.insts;
        self.blocks[bid].insts = insts;
    }

    /// Appends a fresh, empty, unterminated block; returns its id.
    fn add_block(&mut self) -> (r: usize)
        requires
            old(self).inv(),
        ensures
            final(self).inv(),
            final(self).externs == old(self).externs,
            final(self).globals == old(self).globals,
            final(self).done == old(self).done,
            final(self).fnames == old(self).fnames,
            final(self).cur_b == old(self).cur_b,
            final(self).scopes == old(self).scopes,
            final(self).terminated == old(self).terminated,
            final(self).next_val == old(self).next_val,
            r == old(self).blocks@.len(),
            final(self).blocks@.len() == old(self).blocks@.len() + 1,
            forall|j: int|
                0 <= j < old(self).blocks@.len() ==> #[trigger] final(self).blocks@[j] == old(
                    self,
                ).blocks@[j],
            final(self).blocks@[r as int].term is None,
            final(self).blocks@[r as int].insts@.len() == 0,
    {
        let r = self.blocks.len();
        self.blocks.push(Block { insts: Vec::new(), term: None });
        proof {
            let g1 = *final(self);
            let nb = g1.blocks@.len() as int;
            assert forall|j: int| 0 <= j < nb implies pblock_wf(
                #[trigger] g1.blocks@[j],
                nb,
                g1.externs@.len() as int,
                g1.fnames@.len() as int,
                g1.globals@.len() as int,
            ) by {
                if j < nb - 1 {
                    assert(pblock_wf(
                        old(self).blocks@[j],
                        nb - 1,
                        g1.externs@.len() as int,
                        g1.fnames@.len() as int,
                        g1.globals@.len() as int,
                    ));
                }
            }
        }
        r
    }

    /// Opens a nested scope.
    fn push_scope(&mut self)
        requires
            old(self).inv(),
        ensures
            final(self).inv(),
            final(self).externs == old(self).externs,
            final(self).globals == old(self).globals,
            final(self).done == old(self).done,
            final(self).fnames == old(self).fnames,
            final(self).blocks == old(self).blocks,
            final(self).cur_b == old(self).cur_b,
            final(self).terminated == old(self).terminated,
            final(self).next_val == old(self).next_val,
            final(self).scopes@.len() == old(self).scopes@.len() + 1,
            forall|i: int|
                0 <= i < old(self).scopes@.len() ==> #[trigger] final(self).scopes@[i] == old(
                    self,
                ).scopes@[i],
            final(self).var_ctx() == old(self).var_ctx(),
            final(self).scopes@.last()@.len() == 0,
    {
        let fresh_scope: Vec<(Vec<char>, usize)> = Vec::new();
        self.scopes.push(fresh_scope);
        proof {
            let sc1 = final(self).scopes@;
            assert(sc1.drop_last() =~= old(self).scopes@);
            assert(scope_names(sc1.last()@) =~= Seq::<Seq<char>>::empty());
            assert(flat_names(sc1) =~= flat_names(old(self).scopes@));
        }
    }

    /// Closes the innermost scope; outer bindings are restored.
    fn pop_scope(&mut self)
        requires
            old(self).inv(),
            old(self).scopes@.len() >= 2,
        ensures
            final(self).inv(),
            final(self).externs == old(self).externs,
            final(self).globals == old(self).globals,
            final(self).done == old(self).done,
            final(self).fnames == old(self).fnames,
            final(self).blocks == old(self).blocks,
            final(self).cur_b == old(self).cur_b,
            final(self).terminated == old(self).terminated,
            final(self).next_val == old(self).next_val,
            final(self).scopes@ == old(self).scopes@.drop_last(),
    {
        let n = self.scopes.len();
        let popped = self.scopes.pop();
        proof {
            assert(final(self).scopes@ =~= old(self).scopes@.drop_last());
        }
    }

    /// Binds `n` to storage slot `slot` in the innermost scope.
    fn declare(&mut self, n: Vec<char>, slot: usize)
        requires
            old(self).inv(),
        ensures
            final(self).inv(),
            final(self).externs == old(self).externs,
            final(self).globals == old(self).globals,
            final(self).done == old(self).done,
            final(self).fnames == old(self).fnames,
            final(self).blocks == old(self).blocks,
            final(self).cur_b == old(self).cur_b,
            final(self).terminated == old(self).terminated,
            final(self).next_val == old(self).next_val,
            final(self).scopes@.len() == old(self).scopes@.len(),
            forall|i: int|
                0 <= i < old(self).scopes@.len() - 1 ==> #[trigger] final(self).scopes@[i] == old(
                    self,
                ).scopes@[i],
            final(self).var_ctx() == old(self).var_ctx().push(n@),
    {
        let ghost nv = n@;
        let last = self.scopes.len() - 1;
        self.scopes[last].push((n, slot));
        proof {
            let sc0 = old(self).scopes@;
            let sc1 = final(self).scopes@;
            assert(sc1.drop_last() =~= sc0.drop_last());
            assert(sc1.last()@ =~= sc0.last()@.push((sc1.last()@.last().0, slot)));
            assert(scope_names(sc1.last()@) =~= scope_names(sc0.last()@).push(nv));
            assert(flat_names(sc1) == flat_names(sc1.drop_last()) + scope_names(sc1.last()@));
            assert(flat_names(sc1) =~= flat_names(sc0).push(nv));
        }
    }

    /// Looks `n` up through the scope chain, innermost scope first; the
    /// storage slot of the nearest binding, or nothing if `n` is unbound.
    fn lookup(&self, n: &Vec<char>) -> (r: Option<usize>)
        ensures
            (r is Some) == self.var_ctx().contains(n@),
    {
        proof {
            lemma_flat_contains(self.scopes@, n@);
        }
        let mut i: usize = self.scopes.len();
        while i > 0
            invariant
                i <= self.scopes@.len(),
                forall|a: int, b: int|
                    i <= a < self.scopes@.len() && 0 <= b < self.scopes@[a]@.len()
                        ==> #[trigger] self.scopes@[a]@[b].0@ != n@,
            decreases i,
        {
            i = i - 1;
            let scope = &self.scopes[i];
            let mut j: usize = scope.len();
            while j > 0
                invariant
                    j <= scope@.len(),
                    scope == &self.scopes@[i as int],
                    i < self.scopes@.len(),
                    forall|b: int| j <= b < scope@.len() ==> #[trigger] scope@[b].0@ != n@,
                decreases j,
            {
                j = j - 1;
                if chars_eq(&scope[j].0, n) {
                    proof {
                        assert(self.scopes@[i as int]@[j as int].0@ == n@);
                        lemma_flat_contains_at(self.scopes@, i as int, j as int);
                    }
                    return Some(scope[j].1);
                }
            }
        }
        None
    }
}

/// `block_wf` keeps holding when the module's global count grows.
pub proof fn lemma_block_wf_mono(b: Block, nb: int, ne: int, nf: int, ng: int, ng2: int)
    requires
        block_wf(b, nb, ne, nf, ng),
        ng <= ng2,
    ensures
        block_wf(b, nb, ne, nf, ng2),
{
    assert forall|k: int| 0 <= k < b.insts@.len() implies inst_wf(
        #[trigger] b.insts@[k],
        ne,
        nf,
        ng2,
    ) by {
        assert(inst_wf(b.insts@[k], ne, nf, ng));
    }
}

fn is_main_name(n: &Vec<char>) -> (r: bool)
    ensures
        r == (n@ == main_name()),
{
    let r = n.len() == 4 && n[0] == 'm' && n[1] == 'a' && n[2] == 'i' && n[3] == 'n';
    proof {
        if r {
            assert(n@ =~= main_name());
        }
    }
    r
}

impl Gen {
    /// Appends a global string constant; returns its id.
    fn add_global(&mut self, w: Vec<char>) -> (gid: usize)
        requires
            old(self).inv(),
        ensures
            final(self).inv(),
            final(self).externs == old(self).externs,
            final(self).done == old(self).done,
            final(self).fnames == old(self).fnames,
            final(self).blocks == old(self).blocks,
            final(self).cur_b == old(self).cur_b,
            final(self).scopes == old(self).scopes,
            final(self).terminated == old(self).terminated,
            final(self).next_val == old(self).next_val,
            gid == old(self).globals@.len(),
            final(self).globals@.len() == old(self).globals@.len() + 1,
    {
        let gid = self.globals.len();
        self.globals.push(w);
        proof {
            let g1 = *final(self);
            let nb = g1.blocks@.len() as int;
            let ne = g1.externs@.len() as int;
            let nf = g1.fnames@.len() as int;
            let ng = g1.globals@.len() as int;
            assert forall|j: int| 0 <= j < nb implies pblock_wf(
                #[trigger] g1.blocks@[j],
                nb,
                ne,
                nf,
                ng,
            ) by {
                assert(pblock_wf(g1.blocks@[j], nb, ne, nf, ng - 1));
                assert forall|k: int| 0 <= k < g1.blocks@[j].insts@.len() implies inst_wf(
                    #[trigger] g1.blocks@[j].insts@[k],
                    ne,
                    nf,
                    ng,
                ) by {
                    assert(inst_wf(g1.blocks@[j].insts@[k], ne, nf, ng - 1));
                }
            }
        }
        gid
    }
}

// ---------------------------------------------------------------------------
// Lowering
// ---------------------------------------------------------------------------

/// Lowers one expression into the cursor block; the id of the value it
/// produces, or the first fault in the expression. Adds no blocks, moves no
/// cursor, and leaves every scope as it was.
fn lower_expr(g: &mut Gen, e: &Expr) -> (r: Result<usize, SemanticError>)
    requires
        old(g).inv(),
    ensures
        final(g).inv(),
        final(g).externs == old(g).externs,
        final(g).fnames == old(g).fnames,
        final(g).done == old(g).done,
        final(g).globals@.len() >= old(g).globals@.len(),
        final(g).blocks@.len() == old(g).blocks@.len(),
        forall|j: int|
            0 <= j < old(g).blocks@.len() ==> #[trigger] final(g).blocks@[j].term == old(
                g,
            ).blocks@[j].term,
        final(g).cur_b == old(g).cur_b,
        final(g).terminated == old(g).terminated,
        final(g).scopes == old(g).scopes,
        match r {
            Ok(v) => ck_expr(*e, old(g).fn_ctx(), old(g).var_ctx()) is None,
            Err(er) => ck_expr(*e, old(g).fn_ctx(), old(g).var_ctx()) == Some(er.v()),
        },
    decreases *e, 0int,
{
    match &e.kind {
        ExprKind::Int(n) => {
            let d = g.fresh();
            g.emit(Inst::ConstI32 { dest: d, val: *n });
            Ok(d)
        },
        ExprKind::Str(w) => {
            let wc = clone_name(w);
            let gid = g.add_global(wc);
            let d = g.fresh();
            g.emit(Inst::GlobalAddr { dest: d, gid });
            Ok(d)
        },
        ExprKind::Ident(n) => match g.lookup(n) {
            Some(slot) => {
                let d = g.fresh();
                g.emit(Inst::Load { dest: d, slot });
                Ok(d)
            },
            None => Err(SemanticError::UndefinedSymbol { name: clone_name(n), span: e.span }),
        },
        ExprKind::Call(f, args) => {
            let callee = match find_ext(&g.externs, f) {
                Some(k) => {
                    proof {
                        let fns = old(g).fn_ctx();
                        let ka = choose|ka: int|
                            0 <= ka < ext_names(g.externs@).len() && ext_names(g.externs@)[ka]
                                == f@;
                        assert(fns[ka] == f@);
                        assert(fns.contains(f@));
                    }
                    Callee::Ext(k)
                },
                None => match find_fname(&g.fnames, f) {
                    Some(k) => {
                        proof {
                            let fns = old(g).fn_ctx();
                            let kb = choose|kb: int|
                                0 <= kb < names_v(g.fnames@).len() && names_v(g.fnames@)[kb]
                                    == f@;
                            assert(fns[ext_names(g.externs@).len() + kb] == f@);
                            assert(fns.contains(f@));
                        }
                        Callee::Fun(k)
                    },
                    None => {
                        proof {
                            let fns = old(g).fn_ctx();
                            if fns.contains(f@) {
                                let kc = choose|kc: int| 0 <= kc < fns.len() && fns[kc] == f@;
                                if kc < ext_names(g.externs@).len() {
                                    assert(ext_names(g.externs@)[kc] == f@);
                                } else {
                                    assert(names_v(g.fnames@)[kc - ext_names(
                                        g.externs@,
                                    ).len()] == f@);
                                }
                            }
                        }
                        return Err(
                            SemanticError::UndefinedFunction {
                                name: clone_name(f),
                                span: e.span,
                            },
                        );
                    },
                },
            };
            let mut vals: Vec<usize> = Vec::new();
            let mut k: usize = 0;
            #[verifier::loop_isolation(false)]
            while k < args.len()
                invariant
                    k <= args@.len(),
                    g.inv(),
                    g.externs == old(g).externs,
                    g.fnames == old(g).fnames,
                    g.done == old(g).done,
                    g.globals@.len() >= old(g).globals@.len(),
                    g.blocks@.len() == old(g).blocks@.len(),
                    forall|j: int|
                        0 <= j < old(g).blocks@.len() ==> #[trigger] g.blocks@[j].term == old(
                            g,
                        ).blocks@[j].term,
                    g.cur_b == old(g).cur_b,
                    g.terminated == old(g).terminated,
                    g.scopes == old(g).scopes,
                    match callee {
                        Callee::Ext(c) => c < g.externs@.len(),
                        Callee::Fun(c) => c < g.fnames@.len(),
                    },
                    ck_exprs(args@, 0, old(g).fn_ctx(), old(g).var_ctx()) == ck_exprs(
                        args@,
                        k as int,
                        old(g).fn_ctx(),
                        old(g).var_ctx(),
                    ),
                decreases args@.len() - k,
            {
                proof {
                    assert(decreases_to!(*e => e.kind));
                    assert(e.kind->Call_1 == *args);
                    assert(decreases_to!(e.kind => e.kind->Call_1));
                    assert(decreases_to!(*args => args@));
                    assert(decreases_to!(args@ => args@[k as int]));
                }
                match lower_expr(g, &args[k]) {
                    Ok(v) => {
                        vals.push(v);
                    },
                    Err(er) => {
                        proof {
                            assert(ck_exprs(args@, k as int, old(g).fn_ctx(), old(g).var_ctx())
                                == Some(er.v()));
                            assert(ck_expr(*e, old(g).fn_ctx(), old(g).var_ctx()) == Some(
                                er.v(),
                            ));
                        }
                        return Err(er);
                    },
                }
                k += 1;
            }
            let d = g.fresh();
            g.emit(Inst::Call { dest: d, callee, args: vals });
            Ok(d)
        },
        ExprKind::Binary(op, a, b) => {
            let va = match lower_expr(g, &**a) {
                Ok(v) => v,
                Err(er) => {
                    return Err(er);
                },
            };
            let vb = match lower_expr(g, &**b) {
                Ok(v) => v,
                Err(er) => {
                    return Err(er);
                },
            };
            let d = g.fresh();
            g.emit(Inst::Bin { dest: d, op: *op, a: va, b: vb });
            Ok(d)
        },
    }
}

/// Lowers one statement at the cursor. On success the `terminated` flag says
/// exactly whether the statement surely returns, the visible names are the
/// old ones plus what the statement declares, and the cursor either stayed or
/// moved to a block created here.
fn lower_stmt(g: &mut Gen, st: &Stmt) -> (r: Result<(), SemanticError>)
    requires
        old(g).inv(),
        !old(g).terminated,
        old(g).blocks@[old(g).cur_b as int].term is None,
    ensures
        match r {
            Ok(()) => {
                &&& final(g).inv()
                &&& gen_frame(*old(g), *final(g))
                &&& final(g).done == old(g).done
                &&& ck_stmt(*st, old(g).fn_ctx(), old(g).var_ctx()) is None
                &&& final(g).terminated == st_returns(*st)
                &&& final(g).var_ctx() == vars_after(*st, old(g).var_ctx())
                &&& (!final(g).terminated ==> final(g).blocks@[final(g).cur_b as int].term is None)
            },
            Err(er) => {
                &&& ck_stmt(*st, old(g).fn_ctx(), old(g).var_ctx()) == Some(er.v())
                &&& final(g).done == old(g).done
                &&& final(g).externs == old(g).externs
                &&& final(g).fnames == old(g).fnames
                &&& final(g).globals@.len() >= old(g).globals@.len()
            },
        },
    decreases *st, 0int,
{
    match &st.kind {
        StmtKind::VarDecl(n, e) => {
            let v = match lower_expr(g, e) {
                Ok(v) => v,
                Err(er) => {
                    return Err(er);
                },
            };
            let slot = g.fresh();
            g.emit(Inst::Alloca { dest: slot });
            g.emit(Inst::Store { slot, src: v });
            g.declare(clone_name(n), slot);
            Ok(())
        },
        StmtKind::Return(rv) => {
            match rv {
                Some(e) => {
                    let v = match lower_expr(g, e) {
                        Ok(v) => v,
                        Err(er) => {
                            return Err(er);
                        },
                    };
                    let cur = g.cur_b;
                    g.set_term(cur, Term::Ret(Some(v)));
                },
                None => {
                    let cur = g.cur_b;
                    g.set_term(cur, Term::Ret(None));
                },
            }
            g.terminated = true;
            Ok(())
        },
        StmtKind::ExprStmt(e) => {
            match lower_expr(g, e) {
                Ok(v) => Ok(()),
                Err(er) => Err(er),
            }
        },
        StmtKind::While(c, body) => {
            proof {
                assert(decreases_to!(*st => st.kind));
                assert(st.kind->While_1 == *body);
                assert(decreases_to!(st.kind => st.kind->While_1));
                assert(decreases_to!(*body => body@));
            }
            let h_id = g.add_block();
            let c0 = g.cur_b;
            g.set_term(c0, Term::Br(h_id));
            g.cur_b = h_id;
            let vc = match lower_expr(g, c) {
                Ok(v) => v,
                Err(er) => {
                    return Err(er);
                },
            };
            let b_id = g.add_block();
            let x_id = g.add_block();
            g.set_term(h_id, Term::CondBr { cond: vc, t: b_id, f: x_id });
            g.cur_b = b_id;
            let ghost g_pre = *g;
            g.push_scope();
            let ghost g_in = *g;
            match lower_stmts(g, body, 0) {
                Ok(()) => {},
                Err(er) => {
                    return Err(er);
                },
            }
            g.pop_scope();
            proof {
                assert(g.scopes@ =~= g_pre.scopes@);
                assert(g_in.blocks@[x_id as int].term is None);
                assert(x_id != g_in.cur_b);
                assert(g.blocks@[x_id as int].term is None);
                assert(g.cur_b == g_in.cur_b || g.cur_b >= g_in.blocks@.len());
            }
            if !g.terminated {
                let cur = g.cur_b;
                g.set_term(cur, Term::Br(h_id));
            }
            proof {
                assert(g.blocks@[x_id as int].term is None);
                assert forall|j: int|
                    0 <= j < old(g).blocks@.len() && j != old(g).cur_b && (#[trigger] old(
                        g,
                    ).blocks@[j].term) is None implies g.blocks@[j].term is None by {
                    assert(g_pre.blocks@[j].term is None);
                }
            }
            g.cur_b = x_id;
            g.terminated = false;
            Ok(())
        },
        StmtKind::If(c, t, els) => {
            proof {
                assert(decreases_to!(*st => st.kind));
                assert(st.kind->If_1 == *t);
                assert(decreases_to!(st.kind => st.kind->If_1));
                assert(decreases_to!(*t => t@));
            }
            let vc = match lower_expr(g, c) {
                Ok(v) => v,
                Err(er) => {
                    return Err(er);
                },
            };
            let t_id = g.add_block();
            let e_id = g.add_block();
            let c0 = g.cur_b;
            g.set_term(c0, Term::CondBr { cond: vc, t: t_id, f: e_id });
            g.cur_b = t_id;
            let ghost g_then_pre = *g;
            g.push_scope();
            match lower_stmts(g, t, 0) {
                Ok(()) => {},
                Err(er) => {
                    return Err(er);
                },
            }
            g.pop_scope();
            proof {
                assert(g.scopes@ =~= g_then_pre.scopes@);
            }
            let t_end = g.cur_b;
            let t_done = g.terminated;
            proof {
                assert(t_id != e_id);
                assert(g.blocks@[e_id as int].term is None);
                assert(t_end == t_id || t_end >= g_then_pre.blocks@.len());
            }
            g.cur_b = e_id;
            g.terminated = false;
            let ghost g_else_pre = *g;
            match els {
                Some(ev) => {
                    proof {
                        assert(decreases_to!(*st => st.kind));
                        assert(st.kind->If_2 == *els);
                        assert(decreases_to!(st.kind => st.kind->If_2));
                        assert(decreases_to!(*els => *ev));
                        assert(decreases_to!(*ev => ev@));
                    }
                    g.push_scope();
                    match lower_stmts(g, ev, 0) {
                        Ok(()) => {},
                        Err(er) => {
                            return Err(er);
                        },
                    }
                    g.pop_scope();
                    proof {
                        assert(g.scopes@ =~= g_else_pre.scopes@);
                    }
                },
                None => {},
            }
            let e_end = g.cur_b;
            let e_done = g.terminated;
            if t_done && e_done {
                proof {
                    assert forall|j: int|
                        0 <= j < old(g).blocks@.len() && j != old(g).cur_b && (#[trigger] old(
                            g,
                        ).blocks@[j].term) is None implies g.blocks@[j].term is None by {
                        assert(g_then_pre.blocks@[j].term is None);
                        assert(g_else_pre.blocks@[j].term is None);
                    }
                }
                Ok(())
            } else {
                proof {
                    assert(e_end == e_id || e_end >= g_else_pre.blocks@.len());
                    assert(t_end != e_end);
                    assert(!t_done ==> g.blocks@[t_end as int].term is None);
                    assert(!e_done ==> g.blocks@[e_end as int].term is None);
                }
                let m_id = g.add_block();
                if !t_done {
                    g.set_term(t_end, Term::Br(m_id));
                }
                if !e_done {
                    g.set_term(e_end, Term::Br(m_id));
                }
                proof {
                    assert(g.blocks@[m_id as int].term is None);
                    assert forall|j: int|
                        0 <= j < old(g).blocks@.len() && j != old(g).cur_b && (#[trigger] old(
                            g,
                        ).blocks@[j].term) is None implies g.blocks@[j].term is None by {
                        assert(g_then_pre.blocks@[j].term is None);
                        assert(g_else_pre.blocks@[j].term is None);
                    }
                }
                g.cur_b = m_id;
                g.terminated = false;
                Ok(())
            }
        },
    }
}

/// Lowers the statements `ss[i..]` in order. Lowering stops silently after a
/// statement that surely returns: the statements behind it can never run, so
/// they are neither lowered nor checked.
fn lower_stmts(g: &mut Gen, ss: &Vec<Stmt>, i: usize) -> (r: Result<(), SemanticError>)
    requires
        old(g).inv(),
        !old(g).terminated,
        old(g).blocks@[old(g).cur_b as int].term is None,
        i <= ss@.len(),
    ensures
        match r {
            Ok(()) => {
                &&& final(g).inv()
                &&& gen_frame(*old(g), *final(g))
                &&& final(g).done == old(g).done
                &&& ck_stmts(ss@, i as int, old(g).fn_ctx(), old(g).var_ctx()) is None
                &&& final(g).terminated == block_returns(ss@, i as int)
                &&& (!final(g).terminated ==> final(g).blocks@[final(g).cur_b as int].term is None)
            },
            Err(er) => {
                &&& ck_stmts(ss@, i as int, old(g).fn_ctx(), old(g).var_ctx()) == Some(er.v())
                &&& final(g).done == old(g).done
                &&& final(g).externs == old(g).externs
                &&& final(g).fnames == old(g).fnames
                &&& final(g).globals@.len() >= old(g).globals@.len()
            },
        },
    decreases ss@, ss@.len() - i,
{
    if i >= ss.len() {
        return Ok(());
    }
    proof {
        assert(decreases_to!(ss@ => ss@[i as int]));
    }
    let ghost g0 = *old(g);
    match lower_stmt(g, &ss[i]) {
        Ok(()) => {},
        Err(er) => {
            return Err(er);
        },
    }
    if g.terminated {
        return Ok(());
    }
    let ghost g1 = *g;
    match lower_stmts(g, ss, i + 1) {
        Ok(()) => {
            proof {
                lemma_frame_trans(g0, g1, *final(g));
            }
            Ok(())
        },
        Err(er) => Err(er),
    }
}

/// Lowers one function declaration: creates the function with its one entry
/// block, binds the parameters to storage slots in a fresh scope, lowers the
/// body, and seals the final block — the entry point gets an implicit
/// return of zero, any other function must have returned on every path.
/// On success exactly one finished, fully terminated function is appended.
fn compile_fn(g: &mut Gen, fd: &FunctionDecl) -> (r: Result<(), SemanticError>)
    ensures
        final(g).externs == old(g).externs,
        final(g).fnames == old(g).fnames,
        final(g).globals@.len() >= old(g).globals@.len(),
        match r {
            Ok(()) => {
                &&& ck_fun(*fd, old(g).fn_ctx()) is None
                &&& final(g).done@.len() == old(g).done@.len() + 1
                &&& forall|i: int|
                    0 <= i < old(g).done@.len() ==> #[trigger] final(g).done@[i] == old(
                        g,
                    ).done@[i]
                &&& final(g).done@[old(g).done@.len() as int].name@ == fd.name@
                &&& final(g).done@[old(g).done@.len() as int].nparams == fd.params@.len()
                &&& final(g).done@[old(g).done@.len() as int].blocks@.len() >= 1
                &&& forall|j: int|
                    0 <= j < final(g).done@[old(g).done@.len() as int].blocks@.len()
                        ==> block_wf(
                        #[trigger] final(g).done@[old(g).done@.len() as int].blocks@[j],
                        final(g).done@[old(g).done@.len() as int].blocks@.len() as int,
                        final(g).externs@.len() as int,
                        final(g).fnames@.len() as int,
                        final(g).globals@.len() as int,
                    )
            },
            Err(er) => {
                &&& ck_fun(*fd, old(g).fn_ctx()) == Some(er.v())
                &&& final(g).done == old(g).done
            },
        },
{
    g.blocks = Vec::new();
    g.blocks.push(Block { insts: Vec::new(), term: None });
    g.cur_b = 0;
    g.terminated = false;
    g.scopes = Vec::new();
    let entry_scope: Vec<(Vec<char>, usize)> = Vec::new();
    g.scopes.push(entry_scope);
    proof {
        assert(g.scopes@.last()@ =~= Seq::<(Vec<char>, usize)>::empty());
        assert(g.scopes@.drop_last() =~= Seq::<Vec<(Vec<char>, usize)>>::empty());
        assert(scope_names(g.scopes@.last()@) =~= Seq::<Seq<char>>::empty());
        assert(flat_names(g.scopes@.drop_last()) =~= Seq::<Seq<char>>::empty());
        assert(g.var_ctx() =~= Seq::<Seq<char>>::empty());
        assert(g.blocks@.len() == 1);
        assert forall|j: int| 0 <= j < g.blocks@.len() implies pblock_wf(
            #[trigger] g.blocks@[j],
            g.blocks@.len() as int,
            g.externs@.len() as int,
            g.fnames@.len() as int,
            g.globals@.len() as int,
        ) by {
            assert(g.blocks@[j].insts@.len() == 0);
            assert(g.blocks@[j].term is None);
        }
        assert(g.inv());
    }
    let ghost gi = *g;
    let mut i: usize = 0;
    while i < fd.params.len()
        invariant
            i <= fd.params@.len(),
            g.inv(),
            g.externs == gi.externs,
            g.fnames == gi.fnames,
            g.globals == gi.globals,
            g.done == gi.done,
            g.blocks@.len() == 1,
            g.cur_b == 0,
            g.terminated == false,
            g.blocks@[0].term is None,
            g.scopes@.len() == 1,
            g.var_ctx() == names_v(fd.params@.subrange(0, i as int)),
        decreases fd.params@.len() - i,
    {
        let pv = g.fresh();
        let slot = g.fresh();
        g.emit(Inst::Alloca { dest: slot });
        g.emit(Inst::Store { slot, src: pv });
        g.declare(clone_name(&fd.params[i]), slot);
        proof {
            assert(names_v(fd.params@.subrange(0, i + 1)) =~= names_v(
                fd.params@.subrange(0, i as int),
            ).push(fd.params@[i as int]@));
        }
        i += 1;
    }
    proof {
        assert(fd.params@.subrange(0, fd.params@.len() as int) =~= fd.params@);
        assert(g.var_ctx() == names_v(fd.params@));
    }
    let ghost gb = *g;
    match lower_stmts(g, &fd.body, 0) {
        Ok(()) => {},
        Err(er) => {
            return Err(er);
        },
    }
    if !g.terminated {
        if is_main_name(&fd.name) {
            let d = g.fresh();
            g.emit(Inst::ConstI32 { dest: d, val: 0 });
            let cur = g.cur_b;
            g.set_term(cur, Term::Ret(Some(d)));
            g.terminated = true;
        } else {
            return Err(SemanticError::MissingReturn { name: clone_name(&fd.name), span: fd.span });
        }
    }
    proof {
        assert forall|j: int| 0 <= j < g.blocks@.len() implies (#[trigger] g.blocks@[j].term)
            is Some by {
            if j != g.cur_b {
                assert(gb.blocks@.len() == 1 && gb.cur_b == 0);
            }
        }
    }
    let mut blks: Vec<Block> = Vec::new();
    core::mem::swap(&mut g.blocks, &mut blks);
    proof {
        assert forall|j: int| 0 <= j < blks@.len() implies block_wf(
            #[trigger] blks@[j],
            blks@.len() as int,
            g.externs@.len() as int,
            g.fnames@.len() as int,
            g.globals@.len() as int,
        ) by {
            assert(blks@[j].term is Some);
        }
    }
    let f = Func { name: clone_name(&fd.name), nparams: fd.params.len(), blocks: blks };
    g.done.push(f);
    Ok(())
}

/// Lowers a whole program to a finalized, structurally verified module. The
/// print routine and every declared function are declared first, so calls
/// resolve regardless of declaration order; then each body is lowered in
/// turn, and the finished module is verified. The result is a well-formed
/// module exactly when the semantic check finds no fault in the program, and
/// otherwise precisely the first fault in traversal order.
pub fn compile_program(p: &Program) -> (r: Result<Module, CompileError>)
    ensures
        match r {
            Ok(m) => {
                &&& ck_program(*p) is None
                &&& module_wf(m)
                &&& m.funcs@.len() == p.decls@.len()
                &&& forall|i: int|
                    0 <= i < m.funcs@.len() ==> #[trigger] m.funcs@[i].name@ == p.decls@[i].name@
                        && m.funcs@[i].blocks@.len() >= 1
                &&& m.externs@.len() == 1
                &&& m.externs@[0].name@ == print_name()
                &&& m.externs@[0].params@ == seq![Ty::I8Ptr]
                &&& m.externs@[0].ret == Ty::Void
            },
            Err(e) => match e {
                CompileError::Semantic(se) => ck_program(*p) == Some(se.v()),
                _ => false,
            },
        },
{
    let mut pname: Vec<char> = Vec::new();
    pname.push('p');
    pname.push('r');
    pname.push('i');
    pname.push('n');
    pname.push('t');
    proof {
        assert(pname@ =~= print_name());
    }
    let mut pparams: Vec<Ty> = Vec::new();
    pparams.push(Ty::I8Ptr);
    proof {
        assert(pparams@ =~= seq![Ty::I8Ptr]);
    }
    let mut externs: Vec<ExternSig> = Vec::new();
    externs.push(ExternSig { name: pname, params: pparams, ret: Ty::Void });
    let mut fnames: Vec<Vec<char>> = Vec::new();
    let mut i: usize = 0;
    while i < p.decls.len()
        invariant
            i <= p.decls@.len(),
            fnames@.len() == i,
            forall|j: int| 0 <= j < i ==> #[trigger] fnames@[j]@ == p.decls@[j].name@,
        decreases p.decls@.len() - i,
    {
        fnames.push(clone_name(&p.decls[i].name));
        i += 1;
    }
    let mut g = Gen {
        externs,
        globals: Vec::new(),
        done: Vec::new(),
        fnames,
        blocks: Vec::new(),
        cur_b: 0,
        scopes: Vec::new(),
        next_val: 0,
        terminated: false,
    };
    proof {
        assert(names_v(g.fnames@) =~= decl_names(p.decls@));
        assert(ext_names(g.externs@) =~= seq![print_name()]);
        assert(g.fn_ctx() =~= prog_fns(*p));
    }
    let ghost fns = g.fn_ctx();
    let ghost g0 = g;
    let mut k: usize = 0;
    while k < p.decls.len()
        invariant
            k <= p.decls@.len(),
            g.externs == g0.externs,
            g.fnames == g0.fnames,
            g.fn_ctx() == fns,
            fns == prog_fns(*p),
            g.fnames@.len() == p.decls@.len(),
            g.externs@.len() == 1,
            g.externs@[0].name@ == print_name(),
            g.externs@[0].params@ == seq![Ty::I8Ptr],
            g.externs@[0].ret == Ty::Void,
            ck_decls(p.decls@, 0, fns) == ck_decls(p.decls@, k as int, fns),
            g.done@.len() == k,
            forall|j: int|
                0 <= j < k ==> #[trigger] g.done@[j].name@ == p.decls@[j].name@
                    && g.done@[j].blocks@.len() >= 1,
            forall|j: int, b: int|
                0 <= j < k && 0 <= b < g.done@[j].blocks@.len() ==> block_wf(
                    #[trigger] g.done@[j].blocks@[b],
                    g.done@[j].blocks@.len() as int,
                    g.externs@.len() as int,
                    g.fnames@.len() as int,
                    g.globals@.len() as int,
                ),
        decreases p.decls@.len() - k,
    {
        let ghost g_before = g;
        match compile_fn(&mut g, &p.decls[k]) {
            Ok(()) => {},
            Err(se) => {
                proof {
                    assert(ck_decls(p.decls@, k as int, fns) == Some(se.v()));
                }
                return Err(CompileError::Semantic(se));
            },
        }
        proof {
            assert(g.done@[k as int].name@ == p.decls@[k as int].name@);
            assert(g.done@[k as int].blocks@.len() >= 1);
            assert forall|j: int| 0 <= j < k + 1 implies #[trigger] g.done@[j].name@
                == p.decls@[j].name@ && g.done@[j].blocks@.len() >= 1 by {
                if j < k {
                    assert(g.done@[j] == g_before.done@[j]);
                    assert(g_before.done@[j].name@ == p.decls@[j].name@);
                }
            }
            assert(ck_decls(p.decls@, k as int, fns) == ck_decls(p.decls@, k + 1, fns));
            assert forall|j: int, b: int|
                0 <= j < k + 1 && 0 <= b < g.done@[j].blocks@.len() implies block_wf(
                #[trigger] g.done@[j].blocks@[b],
                g.done@[j].blocks@.len() as int,
                g.externs@.len() as int,
                g.fnames@.len() as int,
                g.globals@.len() as int,
            ) by {
                if j < k {
                    assert(g.done@[j] == g_before.done@[j]);
                    assert(block_wf(
                        g.done@[j].blocks@[b],
                        g.done@[j].blocks@.len() as int,
                        g_before.externs@.len() as int,
                        g_before.fnames@.len() as int,
                        g_before.globals@.len() as int,
                    ));
                    lemma_block_wf_mono(
                        g.done@[j].blocks@[b],
                        g.done@[j].blocks@.len() as int,
                        g.externs@.len() as int,
                        g.fnames@.len() as int,
                        g_before.globals@.len() as int,
                        g.globals@.len() as int,
                    );
                }
            }
        }
        k += 1;
    }
    proof {
        assert forall|j: int| 0 <= j < g.done@.len() implies (#[trigger] g.done@[j]).blocks@.len()
            >= 1 by {
            assert(g.done@[j].name@ == p.decls@[j].name@);
        }
    }
    let m = Module { externs: g.externs, globals: g.globals, funcs: g.done };
    proof {
        assert forall|i2: int| 0 <= i2 < m.funcs@.len() implies crate::ir::func_wf(
            #[trigger] m.funcs@[i2],
            m.externs@.len() as int,
            m.funcs@.len() as int,
            m.globals@.len() as int,
        ) by {
            assert(m.funcs@[i2].blocks@.len() >= 1);
            assert forall|b: int| 0 <= b < m.funcs@[i2].blocks@.len() implies block_wf(
                #[trigger] m.funcs@[i2].blocks@[b],
                m.funcs@[i2].blocks@.len() as int,
                m.externs@.len() as int,
                m.funcs@.len() as int,
                m.globals@.len() as int,
            ) by {
                assert(block_wf(
                    m.funcs@[i2].blocks@[b],
                    m.funcs@[i2].blocks@.len() as int,
                    1,
                    p.decls@.len() as int,
                    m.globals@.len() as int,
                ));
            }
        }
        assert(module_wf(m));
    }
    match verify_module(&m) {
        Ok(()) => Ok(m),
        Err(ve) => Err(CompileError::Verification(ve)),
    }
}

/// Runs the whole pipeline on one source text: parse, lower, verify. The
/// result is a verified module for a program that is syntactically and
/// semantically valid, and the precise first error otherwise.
pub fn compile(src: &str) -> (r: Result<Module, CompileError>)
    ensures
        match r {
            Ok(m) => {
                &&& crate::parser::sp_program(src@) is Some
                &&& exists|prog: Program|
                    crate::parser::sp_program(src@) == Some(#[trigger] prog.v()) && ck_program(
                        prog,
                    ) is None
                &&& module_wf(m)
            },
            Err(e) => match e {
                CompileError::Syntax(se) => crate::parser::sp_program(src@) is None,
                CompileError::Semantic(se) => exists|prog: Program|
                    crate::parser::sp_program(src@) == Some(#[trigger] prog.v()) && ck_program(
                        prog,
                    ) == Some(se.v()),
                _ => false,
            },
        },
{
    let prog = match crate::parser::parse_file(src) {
        Ok(prog) => prog,
        Err(se) => {
            return Err(CompileError::Syntax(se));
        },
    };
    match compile_program(&prog) {
        Ok(m) => Ok(m),
        Err(e) => Err(e),
    }
}

} // verus!

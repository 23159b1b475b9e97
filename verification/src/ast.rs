//! The abstract syntax tree: a tagged node per grammar rule application, each
//! node keeping the source span it was matched from, together with the
//! span-less structural views that the contracts of the parser, the pretty
//! printer and the code generator are stated over.

use vstd::prelude::*;

verus! {

/// A half-open region `lo..hi` of the source text, in character offsets.
#[derive(Clone, Copy, Debug)]
pub struct Span {
    pub lo: usize,
    pub hi: usize,
}

/// The binary operators, in their three precedence tiers: `==` and `<` bind
/// loosest, then `+` and `-`, then `*` and `/`.
#[derive(Clone, Copy, Debug, PartialEq, Eq, Structural)]
pub enum BinOp {
    Eq,
    Lt,
    Add,
    Sub,
    Mul,
    Div,
}

/// An expression node with its originating source span.
#[derive(Debug)]
pub struct Expr {
    pub kind: ExprKind,
    pub span: Span,
}

#[derive(Debug)]
pub enum ExprKind {
    /// A decimal integer literal; the language's integers are 32-bit signed.
    Int(i32),
    /// A string literal, stored without its quotes.
    Str(Vec<char>),
    /// A reference to a variable.
    Ident(Vec<char>),
    /// A call of a named function with its argument expressions.
    Call(Vec<char>, Vec<Expr>),
    /// A binary operation on two sub-expressions.
    Binary(BinOp, Box<Expr>, Box<Expr>),
}

/// A statement node with its originating source span.
#[derive(Debug)]
pub struct Stmt {
    pub kind: StmtKind,
    pub span: Span,
}

#[derive(Debug)]
pub enum StmtKind {
    /// `let name = init;` — declares `name` in the current scope.
    VarDecl(Vec<char>, Expr),
    /// `return;` or `return e;`
    Return(Option<Expr>),
    /// `if c { .. }` with an optional `else { .. }`.
    If(Expr, Vec<Stmt>, Option<Vec<Stmt>>),
    /// `while c { .. }`
    While(Expr, Vec<Stmt>),
    /// An expression evaluated for effect, `e;`.
    ExprStmt(Expr),
}

/// `fn name(p1, p2, ..) { body }`
#[derive(Debug)]
pub struct FunctionDecl {
    pub name: Vec<char>,
    pub params: Vec<Vec<char>>,
    pub body: Vec<Stmt>,
    pub span: Span,
}

/// A whole source file: its function declarations in order.
#[derive(Debug)]
pub struct Program {
    pub decls: Vec<FunctionDecl>,
}

// ---------------------------------------------------------------------------
// Structural views: the same tree over `Seq` and `int`, without spans. Two
// ASTs are structurally identical exactly when their views are equal.
// ---------------------------------------------------------------------------

pub enum ExprV {
    Int(int),
    Str(Seq<char>),
    Ident(Seq<char>),
    Call(Seq<char>, Seq<ExprV>),
    Binary(BinOp, Box<ExprV>, Box<ExprV>),
}

pub enum StmtV {
    VarDecl(Seq<char>, ExprV),
    Return(Option<ExprV>),
    If(ExprV, Seq<StmtV>, Option<Seq<StmtV>>),
    While(ExprV, Seq<StmtV>),
    ExprStmt(ExprV),
}

pub struct FunctionDeclV {
    pub name: Seq<char>,
    pub params: Seq<Seq<char>>,
    pub body: Seq<StmtV>,
}

pub struct ProgramV {
    pub decls: Seq<FunctionDeclV>,
}

impl Expr {
    /// The span-less structure of this expression.
    pub open spec fn v(self) -> ExprV
        decreases self,
    {
        match self.kind {
            ExprKind::Int(n) => ExprV::Int(n as int),
            ExprKind::Str(s) => ExprV::Str(s@),
            ExprKind::Ident(s) => ExprV::Ident(s@),
            ExprKind::Call(f, args) => ExprV::Call(f@, exprs_v(args@)),
            ExprKind::Binary(op, a, b) => ExprV::Binary(op, Box::new(a.v()), Box::new(b.v())),
        }
    }
}

/// The views of a sequence of expressions, elementwise.
pub open spec fn exprs_v(s: Seq<Expr>) -> Seq<ExprV>
    decreases s,
{
    if s.len() == 0 {
        Seq::empty()
    } else {
        exprs_v(s.drop_last()).push(s.last().v())
    }
}

impl Stmt {
    /// The span-less structure of this statement.
    pub open spec fn v(self) -> StmtV
        decreases self,
    {
        match self.kind {
            StmtKind::VarDecl(n, e) => StmtV::VarDecl(n@, e.v()),
            StmtKind::Return(r) => StmtV::Return(match r {
                Some(e) => Some(e.v()),
                None => None,
            }),
            StmtKind::If(c, t, e) => StmtV::If(
                c.v(),
                stmts_v(t@),
                match e {
                    Some(es) => Some(stmts_v(es@)),
                    None => None,
                },
            ),
            StmtKind::While(c, b) => StmtV::While(c.v(), stmts_v(b@)),
            StmtKind::ExprStmt(e) => StmtV::ExprStmt(e.v()),
        }
    }
}

/// The views of a sequence of statements, elementwise.
pub open spec fn stmts_v(s: Seq<Stmt>) -> Seq<StmtV>
    decreases s,
{
    if s.len() == 0 {
        Seq::empty()
    } else {
        stmts_v(s.drop_last()).push(s.last().v())
    }
}

/// The views of a sequence of names, elementwise.
pub open spec fn names_v(s: Seq<Vec<char>>) -> Seq<Seq<char>> {
    Seq::new(s.len(), |i: int| s[i]@)
}

impl FunctionDecl {
    /// The span-less structure of this declaration.
    pub open spec fn v(self) -> FunctionDeclV {
        FunctionDeclV { name: self.name@, params: names_v(self.params@), body: stmts_v(self.body@) }
    }
}

/// The views of a sequence of declarations, elementwise.
pub open spec fn decls_v(s: Seq<FunctionDecl>) -> Seq<FunctionDeclV> {
    Seq::new(s.len(), |i: int| s[i].v())
}

impl Program {
    /// The span-less structure of the whole program.
    pub open spec fn v(self) -> ProgramV {
        ProgramV { decls: decls_v(self.decls@) }
    }
}

/// `exprs_v` maps elementwise: it keeps the length and views each element.
pub proof fn lemma_exprs_v(s: Seq<Expr>)
    ensures
        exprs_v(s).len() == s.len(),
        forall|i: int| 0 <= i < s.len() ==> #[trigger] exprs_v(s)[i] == s[i].v(),
    decreases s.len(),
{
    if s.len() > 0 {
        lemma_exprs_v(s.drop_last());
    }
}

/// `stmts_v` maps elementwise: it keeps the length and views each element.
pub proof fn lemma_stmts_v(s: Seq<Stmt>)
    ensures
        stmts_v(s).len() == s.len(),
        forall|i: int| 0 <= i < s.len() ==> #[trigger] stmts_v(s)[i] == s[i].v(),
    decreases s.len(),
{
    if s.len() > 0 {
        lemma_stmts_v(s.drop_last());
    }
}

} // verus!

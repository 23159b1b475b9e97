//! The error taxonomy: grammar failures, semantic failures found while
//! lowering, and structural failures found when the finished module is
//! verified. Every error is fatal to the compilation that raised it; the
//! driver renders it through the diagnostics module and stops.

use vstd::prelude::*;
use crate::ast::Span;

verus! {

/// The grammar rules a failed parse can report as attempted.
#[derive(Clone, Copy, Debug, PartialEq, Eq, Structural)]
pub enum Rule {
    Program,
    FunctionDecl,
    Stmt,
    Expr,
}

/// A grammar mismatch: the position where matching stopped and the rules
/// that were attempted there.
#[derive(Debug)]
pub struct SyntaxError {
    pub pos: usize,
    pub expected: Vec<Rule>,
}

/// A failure of the lowering pass: a name that resolves to nothing, or a
/// function body that can run off its end.
#[derive(Debug)]
pub enum SemanticError {
    /// An identifier was read but is bound in no enclosing scope.
    UndefinedSymbol { name: Vec<char>, span: Span },
    /// A call names a function that is neither declared in the program nor
    /// an externally declared routine.
    UndefinedFunction { name: Vec<char>, span: Span },
    /// A function other than the entry point reaches the end of its body
    /// without returning.
    MissingReturn { name: Vec<char>, span: Span },
}

/// The structural view of a `SemanticError`, over `Seq`.
pub enum SemanticErrorV {
    UndefinedSymbol(Seq<char>, Span),
    UndefinedFunction(Seq<char>, Span),
    MissingReturn(Seq<char>, Span),
}

impl SemanticError {
    pub open spec fn v(self) -> SemanticErrorV {
        match self {
            SemanticError::UndefinedSymbol { name, span } => SemanticErrorV::UndefinedSymbol(
                name@,
                span,
            ),
            SemanticError::UndefinedFunction { name, span } => SemanticErrorV::UndefinedFunction(
                name@,
                span,
            ),
            SemanticError::MissingReturn { name, span } => SemanticErrorV::MissingReturn(
                name@,
                span,
            ),
        }
    }
}

/// A structural invariant of the finished module does not hold.
#[derive(Clone, Copy, Debug, PartialEq, Eq, Structural)]
pub enum ModuleVerificationError {
    /// The function has no basic block at all, so no entry block.
    NoEntryBlock { fun: usize },
    /// The block does not end in a terminator.
    UnterminatedBlock { fun: usize, block: usize },
    /// An instruction or terminator refers to a block, global or callee
    /// that the module does not hold.
    DanglingReference { fun: usize, block: usize },
}

/// Any way a compilation can fail, for the top-level driver.
#[derive(Debug)]
pub enum CompileError {
    Syntax(SyntaxError),
    Semantic(SemanticError),
    Verification(ModuleVerificationError),
}

} // verus!

//! Diagnostics: renders every compilation failure as one positioned,
//! human-readable message. The exact text of each message is specified as a
//! function of the error value; the driver that receives it is expected to
//! show it and stop, since no error of this compiler is recoverable.

use vstd::prelude::*;
use crate::errors::{CompileError, ModuleVerificationError, SemanticErrorV};
use crate::pretty::dec_digits;

verus! {

/// The message for a grammar mismatch.
pub open spec fn msg_syntax(pos: int) -> Seq<char> {
    "syntax error at "@ + dec_digits(pos) + ": expected a function declaration"@
}

/// The message for a lowering fault, with the offending source span.
pub open spec fn msg_semantic(e: SemanticErrorV) -> Seq<char> {
    match e {
        SemanticErrorV::UndefinedSymbol(n, sp) => "undefined symbol `"@ + n + "` at "@
            + dec_digits(sp.lo as int) + ".."@ + dec_digits(sp.hi as int),
        SemanticErrorV::UndefinedFunction(n, sp) => "undefined function `"@ + n + "` at "@
            + dec_digits(sp.lo as int) + ".."@ + dec_digits(sp.hi as int),
        SemanticErrorV::MissingReturn(n, sp) => "missing return in function `"@ + n + "` at "@
            + dec_digits(sp.lo as int) + ".."@ + dec_digits(sp.hi as int),
    }
}

/// The message for a structural fault of the finished module.
pub open spec fn msg_verify(e: ModuleVerificationError) -> Seq<char> {
    match e {
        ModuleVerificationError::NoEntryBlock { fun } => "verification failed: function "@
            + dec_digits(fun as int) + " has no entry block"@,
        ModuleVerificationError::UnterminatedBlock { fun, block } => "verification failed: block "@
            + dec_digits(block as int) + " of function "@ + dec_digits(fun as int)
            + " lacks a terminator"@,
        ModuleVerificationError::DanglingReference { fun, block } => "verification failed: block "@
            + dec_digits(block as int) + " of function "@ + dec_digits(fun as int)
            + " holds a dangling reference"@,
    }
}

/// The message for any compilation failure.
pub open spec fn msg_compile(e: CompileError) -> Seq<char> {
    match e {
        CompileError::Syntax(se) => msg_syntax(se.pos as int),
        CompileError::Semantic(se) => msg_semantic(se.v()),
        CompileError::Verification(ve) => msg_verify(ve),
    }
}

fn app_lit(out: &mut Vec<char>, s: &str)
    ensures
        final(out)@ == old(out)@ + s@,
{
    let n = s.unicode_len();
    let mut i: usize = 0;
    while i < n
        invariant
            i <= n,
            n as nat == s@.len(),
            out@ == old(out)@ + s@.subrange(0, i as int),
        decreases n - i,
    {
        out.push(s.get_char(i));
        proof {
            assert(out@ =~= old(out)@ + s@.subrange(0, i + 1));
        }
        i += 1;
    }
    proof {
        assert(s@.subrange(0, s@.len() as int) =~= s@);
        assert(out@ =~= old(out)@ + s@);
    }
}

fn app_usize(out: &mut Vec<char>, n: usize)
    ensures
        final(out)@ == old(out)@ + dec_digits(n as int),
    decreases n,
{
    if n < 10 {
        out.push((n as u8 + 48) as char);
        proof {
            assert(out@ =~= old(out)@ + dec_digits(n as int));
        }
    } else {
        app_usize(out, n / 10);
        out.push(((n % 10) as u8 + 48) as char);
        proof {
            assert(out@ =~= old(out)@ + dec_digits(n as int));
        }
    }
}

fn app_name(out: &mut Vec<char>, s: &Vec<char>)
    ensures
        final(out)@ == old(out)@ + s@,
{
    let mut i: usize = 0;
    while i < s.len()
        invariant
            i <= s@.len(),
            out@ == old(out)@ + s@.subrange(0, i as int),
        decreases s@.len() - i,
    {
        out.push(s[i]);
        proof {
            assert(out@ =~= old(out)@ + s@.subrange(0, i + 1));
        }
        i += 1;
    }
    proof {
        assert(s@.subrange(0, s@.len() as int) =~= s@);
        assert(out@ =~= old(out)@ + s@);
    }
}

/// Renders a compilation failure as its user-facing message, character for
/// character as the message functions specify it.
pub fn render(e: &CompileError) -> (out: Vec<char>)
    ensures
        out@ == msg_compile(*e),
{
    let mut out: Vec<char> = Vec::new();
    match e {
        CompileError::Syntax(se) => {
            app_lit(&mut out, "syntax error at ");
            app_usize(&mut out, se.pos);
            app_lit(&mut out, ": expected a function declaration");
        },
        CompileError::Semantic(se) => {
            match se {
                crate::errors::SemanticError::UndefinedSymbol { name, span } => {
                    app_lit(&mut out, "undefined symbol `");
                    app_name(&mut out, name);
                    app_lit(&mut out, "` at ");
                    app_usize(&mut out, span.lo);
                    app_lit(&mut out, "..");
                    app_usize(&mut out, span.hi);
                },
                crate::errors::SemanticError::UndefinedFunction { name, span } => {
                    app_lit(&mut out, "undefined function `");
                    app_name(&mut out, name);
                    app_lit(&mut out, "` at ");
                    app_usize(&mut out, span.lo);
                    app_lit(&mut out, "..");
                    app_usize(&mut out, span.hi);
                },
                crate::errors::SemanticError::MissingReturn { name, span } => {
                    app_lit(&mut out, "missing return in function `");
                    app_name(&mut out, name);
                    app_lit(&mut out, "` at ");
                    app_usize(&mut out, span.lo);
                    app_lit(&mut out, "..");
                    app_usize(&mut out, span.hi);
                },
            }
        },
        CompileError::Verification(ve) => {
            match ve {
                ModuleVerificationError::NoEntryBlock { fun } => {
                    app_lit(&mut out, "verification failed: function ");
                    app_usize(&mut out, *fun);
                    app_lit(&mut out, " has no entry block");
                },
                ModuleVerificationError::UnterminatedBlock { fun, block } => {
                    app_lit(&mut out, "verification failed: block ");
                    app_usize(&mut out, *block);
                    app_lit(&mut out, " of function ");
                    app_usize(&mut out, *fun);
                    app_lit(&mut out, " lacks a terminator");
                },
                ModuleVerificationError::DanglingReference { fun, block } => {
                    app_lit(&mut out, "verification failed: block ");
                    app_usize(&mut out, *block);
                    app_lit(&mut out, " of function ");
                    app_usize(&mut out, *fun);
                    app_lit(&mut out, " holds a dangling reference");
                },
            }
        },
    }
    proof {
        assert(out@ =~= msg_compile(*e));
    }
    out
}

} // verus!

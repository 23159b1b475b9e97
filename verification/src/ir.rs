//! The intermediate representation: a module of externally declared
//! routines, global string constants, and functions made of basic blocks in
//! SSA style. Block 0 of a function is its entry block. A block is a
//! straight-line instruction sequence with at most one terminator slot; a
//! finished module is structurally verified: every block must end in exactly
//! one terminator and every reference must resolve inside the module.

use vstd::prelude::*;
use crate::ast::BinOp;
use crate::errors::ModuleVerificationError;

verus! {

/// The value types of the language: 32-bit signed integers, pointers to
/// 8-bit byte data, and no value at all.
#[derive(Clone, Copy, Debug, PartialEq, Eq, Structural)]
pub enum Ty {
    I32,
    I8Ptr,
    Void,
}

/// The signature of an externally linked routine; it must match the
/// link-time object exactly, name and types.
#[derive(Debug)]
pub struct ExternSig {
    pub name: Vec<char>,
    pub params: Vec<Ty>,
    pub ret: Ty,
}

/// A call target: an externally declared routine or a function of the module.
#[derive(Clone, Copy, Debug, PartialEq, Eq, Structural)]
pub enum Callee {
    Ext(usize),
    Fun(usize),
}

/// One instruction; `dest` names the SSA value the instruction produces.
#[derive(Debug)]
pub enum Inst {
    /// A 32-bit integer constant.
    ConstI32 { dest: usize, val: i32 },
    /// The address of the global constant `gid`.
    GlobalAddr { dest: usize, gid: usize },
    /// A fresh storage slot; `dest` names the slot.
    Alloca { dest: usize },
    /// Reads the slot `slot`.
    Load { dest: usize, slot: usize },
    /// Writes the value `src` to the slot `slot`.
    Store { slot: usize, src: usize },
    /// A binary arithmetic or comparison instruction.
    Bin { dest: usize, op: BinOp, a: usize, b: usize },
    /// A call with already-lowered argument values.
    Call { dest: usize, callee: Callee, args: Vec<usize> },
}

/// A terminator: the single instruction that ends a basic block.
#[derive(Clone, Copy, Debug, PartialEq, Eq, Structural)]
pub enum Term {
    /// Return, with the function's result value if it has one.
    Ret(Option<usize>),
    /// An unconditional branch to a block of the same function.
    Br(usize),
    /// A conditional branch on `cond`.
    CondBr { cond: usize, t: usize, f: usize },
}

/// A basic block: instructions and the terminator slot. The slot is `None`
/// only while the block is under construction; a verified module has one
/// terminator in every block.
#[derive(Debug)]
pub struct Block {
    pub insts: Vec<Inst>,
    pub term: Option<Term>,
}

/// A function: its name, parameter count and basic blocks; block 0 is the
/// one entry block.
#[derive(Debug)]
pub struct Func {
    pub name: Vec<char>,
    pub nparams: usize,
    pub blocks: Vec<Block>,
}

/// A whole module.
#[derive(Debug)]
pub struct Module {
    pub externs: Vec<ExternSig>,
    pub globals: Vec<Vec<char>>,
    pub funcs: Vec<Func>,
}

// ---------------------------------------------------------------------------
// Structural well-formedness
// ---------------------------------------------------------------------------

/// Every module index an instruction mentions resolves: callees exist and
/// global references exist.
pub open spec fn inst_wf(i: Inst, ne: int, nf: int, ng: int) -> bool {
    match i {
        Inst::GlobalAddr { dest, gid } => gid < ng,
        Inst::Call { dest, callee, args } => match callee {
            Callee::Ext(k) => k < ne,
            Callee::Fun(k) => k < nf,
        },
        _ => true,
    }
}

/// Every block a terminator branches to exists in the same function.
pub open spec fn term_wf(t: Term, nb: int) -> bool {
    match t {
        Term::Ret(_) => true,
        Term::Br(b) => b < nb,
        Term::CondBr { cond, t, f } => t < nb && f < nb,
    }
}

/// The block ends in exactly one terminator and all its references resolve.
pub open spec fn block_wf(b: Block, nb: int, ne: int, nf: int, ng: int) -> bool {
    &&& match b.term {
        Some(t) => term_wf(t, nb),
        None => false,
    }
    &&& forall|k: int| 0 <= k < b.insts.len() ==> inst_wf(#[trigger] b.insts@[k], ne, nf, ng)
}

/// The function has exactly one entry block — block 0 exists — and every
/// block of it is well formed.
pub open spec fn func_wf(f: Func, ne: int, nf: int, ng: int) -> bool {
    &&& f.blocks.len() >= 1
    &&& forall|j: int|
        0 <= j < f.blocks.len() ==> block_wf(
            #[trigger] f.blocks@[j],
            f.blocks.len() as int,
            ne,
            nf,
            ng,
        )
}

/// The structural invariant of a finished module: every function well
/// formed, every block terminated, every reference resolved.
pub open spec fn module_wf(m: Module) -> bool {
    forall|i: int|
        0 <= i < m.funcs.len() ==> func_wf(
            #[trigger] m.funcs@[i],
            m.externs.len() as int,
            m.funcs.len() as int,
            m.globals.len() as int,
        )
}

// ---------------------------------------------------------------------------
// The executable verifier
// ---------------------------------------------------------------------------

fn check_inst(i: &Inst, ne: usize, nf: usize, ng: usize) -> (r: bool)
    ensures
        r == inst_wf(*i, ne as int, nf as int, ng as int),
{
    match i {
        Inst::GlobalAddr { dest, gid } => *gid < ng,
        Inst::Call { dest, callee, args } => match callee {
            Callee::Ext(k) => *k < ne,
            Callee::Fun(k) => *k < nf,
        },
        _ => true,
    }
}

fn check_term(t: &Term, nb: usize) -> (r: bool)
    ensures
        r == term_wf(*t, nb as int),
{
    match t {
        Term::Ret(v) => true,
        Term::Br(b) => *b < nb,
        Term::CondBr { cond, t, f } => *t < nb && *f < nb,
    }
}

fn check_block(b: &Block, nb: usize, ne: usize, nf: usize, ng: usize) -> (r: Result<
    (),
    bool,
>)// Err(true): unterminated; Err(false): dangling reference
    ensures
        r is Ok <==> block_wf(*b, nb as int, ne as int, nf as int, ng as int),
        r == Err::<(), bool>(true) ==> b.term is None,
{
    match &b.term {
        None => Err(true),
        Some(t) => {
            if !check_term(t, nb) {
                return Err(false);
            }
            let mut k: usize = 0;
            while k < b.insts.len()
                invariant
                    k <= b.insts.len(),
                    match b.term {
                        Some(t) => term_wf(t, nb as int),
                        None => false,
                    },
                    forall|j: int|
                        0 <= j < k ==> inst_wf(#[trigger] b.insts@[j], ne as int, nf as int,
                        ng as int),
                decreases b.insts.len() - k,
            {
                if !check_inst(&b.insts[k], ne, nf, ng) {
                    return Err(false);
                }
                k += 1;
            }
            Ok(())
        },
    }
}

/// Structurally verifies a finished module: returns nothing on a well-formed
/// module, and the first violation otherwise — a function with no entry
/// block, a block without a terminator, or a reference that resolves to
/// nothing. Exactly the well-formed modules pass.
pub fn verify_module(m: &Module) -> (r: Result<(), ModuleVerificationError>)
    ensures
        r is Ok <==> module_wf(*m),
        match r {
            Ok(()) => true,
            Err(e) => match e {
                ModuleVerificationError::NoEntryBlock { fun } => fun < m.funcs.len()
                    && m.funcs@[fun as int].blocks.len() == 0,
                ModuleVerificationError::UnterminatedBlock { fun, block } => fun < m.funcs.len()
                    && block < m.funcs@[fun as int].blocks.len() && m.funcs@[
                    fun as int
                ].blocks@[block as int].term is None,
                ModuleVerificationError::DanglingReference { fun, block } => fun < m.funcs.len()
                    && block < m.funcs@[fun as int].blocks.len(),
            },
        },
{
    let ne = m.externs.len();
    let nf = m.funcs.len();
    let ng = m.globals.len();
    let mut i: usize = 0;
    while i < nf
        invariant
            i <= nf,
            ne == m.externs.len(),
            nf == m.funcs.len(),
            ng == m.globals.len(),
            forall|a: int|
                0 <= a < i ==> func_wf(#[trigger] m.funcs@[a], ne as int, nf as int, ng as int),
        decreases nf - i,
    {
        let f = &m.funcs[i];
        let nb = f.blocks.len();
        if nb == 0 {
            return Err(ModuleVerificationError::NoEntryBlock { fun: i });
        }
        let mut j: usize = 0;
        while j < nb
            invariant
                j <= nb,
                i < nf,
                nb == m.funcs@[i as int].blocks.len(),
                f == &m.funcs@[i as int],
                ne == m.externs.len(),
                nf == m.funcs.len(),
                ng == m.globals.len(),
                forall|b: int|
                    0 <= b < j ==> block_wf(#[trigger] f.blocks@[b], nb as int, ne as int,
                    nf as int, ng as int),
            decreases nb - j,
        {
            match check_block(&f.blocks[j], nb, ne, nf, ng) {
                Ok(()) => {},
                Err(true) => {
                    return Err(ModuleVerificationError::UnterminatedBlock { fun: i, block: j });
                },
                Err(false) => {
                    return Err(ModuleVerificationError::DanglingReference { fun: i, block: j });
                },
            }
            j += 1;
        }
        i += 1;
    }
    Ok(())
}

} // verus!

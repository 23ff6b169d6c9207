//! The executable form of one compiled function body.
use std::collections::HashMap;
use std::rc::Rc;

use vstd::prelude::*;

use crate::annotations::AstAnnotations;
use crate::ast::{Param, Span, Stmt, TupleTarget};
use crate::op::{DeclKind, Op};

verus! {

/// A literal value in the constant pool.
#[derive(Debug, Clone, PartialEq)]
pub enum Value {
    Int(i64),
    /// IEEE-754 bit pattern of a float.
    Float(u64),
    Bool(bool),
    Str(String),
    /// Bit patterns of the real and the imaginary part.
    Complex(u64, u64),
    Undefined,
}

/// Run-time cache of a global lookup (`LoadGlobal` / `StoreGlobal`); filled by the VM.
#[derive(Debug, Clone, Copy)]
pub struct SlotCache {
    pub epoch: u64,
    pub index: u32,
}

impl SlotCache {
    /// A cache that has not seen a lookup yet.
    pub fn empty() -> (r: SlotCache)
        ensures
            r.epoch == 0 && r.index == 0,
    {
        SlotCache { epoch: 0, index: 0 }
    }
}

/// Run-time inline cache of an attribute access; filled by the VM.
#[derive(Debug, Clone, Copy)]
pub struct AttrCache {
    pub class_id: u64,
    pub field: u32,
}

impl AttrCache {
    /// A cache that has not seen an access yet.
    pub fn empty() -> (r: AttrCache)
        ensures
            r.class_id == 0 && r.field == 0,
    {
        AttrCache { class_id: 0, field: 0 }
    }
}

/// `target <- async->T: body` (`Op::AsyncSubmit`): the task body and the
/// enclosing-frame slots it reads, as `(name, slot, is_mutable)`.
pub struct AsyncBlock {
    pub body: Vec<Stmt>,
    pub captures: Vec<(String, u16, bool)>,
}

/// Compiled body of one closure definition site, shared by every closure
/// made from it. `None` means "not compiled yet"; a stored `None` chunk means
/// "this body cannot be compiled" (so it is not tried again).
pub struct SharedFnChunk {
    pub cached: Option<CachedFnChunk>,
}

/// What `SharedFnChunk` remembers: the annotation table the body was compiled
/// against, and the result.
pub struct CachedFnChunk {
    pub annot: Rc<AstAnnotations>,
    pub chunk: Option<Rc<Chunk>>,
}

/// A second handle to the shared value behind `r`.
///
/// Trusted: `<Rc<T> as Clone>::clone` (std). Its documentation says that the
/// new pointer points to the same allocation, so the value it shows is the
/// value `r` shows.
#[verifier::external_body]
fn rc_clone<T>(r: &Rc<T>) -> (res: Rc<T>)
    ensures
        res == *r,
{
    r.clone()
}

/// Whether `a` and `b` are handles to one allocation.
///
/// Trusted: `Rc::ptr_eq` (std). Its documentation says it is true when the two
/// pointers point to the same allocation; then they show the same value. The
/// answer depends on addresses, so nothing is said of it when it is `false`:
/// two tables that hold the same facts may still be different allocations.
#[verifier::external_body]
fn rc_ptr_eq<T>(a: &Rc<T>, b: &Rc<T>) -> (r: bool)
    ensures
        r ==> *a == *b,
{
    Rc::ptr_eq(a, b)
}

impl SharedFnChunk {
    /// What the cache answers once it is known whether the stored table is the
    /// very table handle asked about (`same_table`): the stored result for that
    /// table, and nothing for any other table (even one that holds the same
    /// facts) or when nothing is stored.
    pub open spec fn answer_spec(&self, same_table: bool) -> Option<Option<Rc<Chunk>>> {
        match self.cached {
            Some(c) => if same_table {
                Some(c.chunk)
            } else {
                None
            },
            None => None,
        }
    }

    /// The cache's answer, given whether the stored table is the table handle
    /// asked about.
    pub fn answer(&self, same_table: bool) -> (r: Option<Option<Rc<Chunk>>>)
        ensures
            r == self.answer_spec(same_table),
    {
        match &self.cached {
            Some(c) => if same_table {
                Some(
                    match &c.chunk {
                        Some(ch) => Some(rc_clone(ch)),
                        None => None,
                    },
                )
            } else {
                None
            },
            None => None,
        }
    }

    /// An empty cache.
    pub fn new() -> (r: SharedFnChunk)
        ensures
            r.cached is None,
    {
        SharedFnChunk { cached: None }
    }

    /// Looks the cache up. `None` = not compiled yet, or compiled against
    /// another annotation table (a replaced table never hits, whatever facts it
    /// holds: the stored table is compared by identity). `Some(inner)` carries
    /// the stored result.
    pub fn lookup(&self, annot: &Rc<AstAnnotations>) -> (r: Option<Option<Rc<Chunk>>>)
        ensures
            r == self.answer_spec(true) || r == self.answer_spec(false),
            r is Some ==> (self.cached matches Some(c) && r == Some(c.chunk) && *c.annot == **annot),
            self.cached is None ==> r is None,
    {
        match &self.cached {
            Some(c) => {
                let same = rc_ptr_eq(&c.annot, annot);
                self.answer(same)
            },
            None => None,
        }
    }

    /// How the cache shows in debug output: `SharedFnChunk(uncompiled)`,
    /// `SharedFnChunk(compiled)` or, for a body known not to compile,
    /// `SharedFnChunk(ineligible)`.
    pub fn debug_text(&self) -> (r: &'static str)
        ensures
            r@ == (match self.cached {
                None => "SharedFnChunk(uncompiled)"@,
                Some(c) => if c.chunk is Some {
                    "SharedFnChunk(compiled)"@
                } else {
                    "SharedFnChunk(ineligible)"@
                },
            }),
    {
        match &self.cached {
            None => "SharedFnChunk(uncompiled)",
            Some(c) => if c.chunk.is_some() {
                "SharedFnChunk(compiled)"
            } else {
                "SharedFnChunk(ineligible)"
            },
        }
    }

    /// Remembers a compilation result (an unsupported body is remembered too);
    /// an earlier entry is replaced.
    pub fn store(&mut self, annot: Rc<AstAnnotations>, chunk: Option<Rc<Chunk>>)
        ensures
            final(self).cached == Some(CachedFnChunk { annot, chunk }),
    {
        self.cached = Some(CachedFnChunk { annot, chunk });
    }
}

/// A cache that was just made finds nothing, for any table.
pub proof fn law_new_cache_is_empty(s: SharedFnChunk, same_table: bool)
    requires
        s.cached is None,
    ensures
        s.answer_spec(same_table) is None,
{
}

/// After `store(a, c)`, asking with the stored table handle gives back `c`
/// (an unsupported body included, as `Some(None)`), and asking with any other
/// table handle finds nothing, even when that table holds the same facts.
pub proof fn law_lookup_after_store(s: SharedFnChunk, a: Rc<AstAnnotations>, c: Option<Rc<Chunk>>)
    requires
        s.cached == Some(CachedFnChunk { annot: a, chunk: c }),
    ensures
        s.answer_spec(true) == Some(c),
        s.answer_spec(false) is None,
{
}

/// One nested `fn` definition (`Op::MakeFn`).
pub struct ChunkFnDef {
    pub name: String,
    pub params: Vec<Param>,
    pub body: Vec<Stmt>,
    pub return_type: Option<String>,
    /// Slot that receives the function value.
    pub slot: u16,
    /// Immutable captures `(name, outer slot)`, copied when the closure is made.
    pub captures: Vec<(String, u16)>,
    /// Mutable captures `(name, outer cell index)`, shared with the outer frame.
    pub cell_captures: Vec<(String, u16)>,
    /// `static mut` captures `(name, span index of the declaration)`.
    pub static_captures: Vec<(String, u32)>,
    /// Compiled body shared by every closure made from this definition.
    pub compiled: SharedFnChunk,
}

impl ChunkFnDef {
    /// The definition's slots, cells and spans lie in a frame of `n_locals`
    /// slots and `n_cells` cells and a pool of `n_spans` spans.
    pub open spec fn wf(&self, n_locals: nat, n_cells: nat, n_spans: nat) -> bool {
        &&& self.slot < n_locals
        &&& forall|j: int| 0 <= j < self.captures@.len() ==> (#[trigger] self.captures@[j]).1 < n_locals
        &&& forall|j: int| 0 <= j < self.cell_captures@.len() ==> (#[trigger] self.cell_captures@[j]).1 < n_cells
        &&& forall|j: int| 0 <= j < self.static_captures@.len() ==> (#[trigger] self.static_captures@[j]).1 < n_spans
    }
}

/// `let a, b = t` (`Op::LetTuple`).
pub struct TupleDecl {
    pub targets: Vec<TupleTarget>,
    /// Slot of each target; empty for a top-level declaration (globals).
    pub slots: Vec<Option<u16>>,
}

/// A call with keyword or variadic arguments (`CallKw` and friends).
pub struct KwCall {
    pub argc: u16,
    pub mut_mask: u32,
    pub name_idx: u32,
    pub span_idx: u32,
    pub node_id: u32,
    /// `None` = positional, `Some(name)` = keyword, `Some("...")` = variadic.
    pub arg_names: Vec<Option<String>>,
}

/// Line-table sentinel: this instruction does not start a statement.
pub const NOT_STMT: u32 = 0xffff_ffff;

/// Line-table sentinel: a statement starts here but carries no position.
pub const STMT_NO_SPAN: u32 = 0xffff_fffe;

/// One compiled function body.
pub struct Chunk {
    pub code: Vec<Op>,
    pub consts: Vec<Value>,
    pub names: Vec<String>,
    pub attr_caches: Vec<AttrCache>,
    pub spans: Vec<Span>,
    /// Statement-boundary line table, one entry per instruction:
    /// `NOT_STMT`, `STMT_NO_SPAN` or an index into `spans`.
    pub stmt_spans: Vec<u32>,
    /// Slot → variable name (debugger).
    pub local_names: Vec<String>,
    pub n_locals: usize,
    pub n_params: usize,
    pub async_blocks: Vec<AsyncBlock>,
    pub global_caches: Vec<SlotCache>,
    /// node id → (display name index, span index) for foreign-call checks.
    pub ffi_call_info: HashMap<u32, (u32, u32)>,
    pub fn_defs: Vec<ChunkFnDef>,
    pub type_arg_lists: Vec<Vec<String>>,
    pub tuple_decls: Vec<TupleDecl>,
    pub kw_calls: Vec<KwCall>,
    pub n_cells: usize,
    /// Mutable captures `(name, cell index)`.
    pub captured_cells: Vec<(String, u16)>,
    /// Immutable captures `(name, slot)`.
    pub captured_slots: Vec<(String, u16)>,
}

/// Sizes of the pools that instruction operands index into.
pub struct Pools {
    pub code: nat,
    pub consts: nat,
    pub names: nat,
    pub spans: nat,
    pub locals: nat,
    pub cells: nat,
    pub caches: nat,
    pub kw_calls: nat,
    pub fn_defs: nat,
    pub type_args: nat,
    pub tuple_decls: nat,
    pub async_blocks: nat,
}

/// The code index an instruction may transfer control to, if it has one.
pub open spec fn code_target(op: Op) -> Option<u32> {
    match op {
        Op::Jump(t) => Some(t),
        Op::JumpIfFalse(t) => Some(t),
        Op::JumpIfFalseOrPop(t) => Some(t),
        Op::JumpIfTrueOrPop(t) => Some(t),
        Op::SetupTry(t) => Some(t),
        Op::StaticInit(_, t) => Some(t),
        Op::ForIter(_, _, t) => Some(t),
        _ => None,
    }
}

/// The instruction assigns a name in a scope, or declares a global (rather
/// than writing a slot, a cell or a `static`).
pub open spec fn assigns_scope(op: Op) -> bool {
    ||| op is StoreGlobal
    ||| op is StoreName
    ||| op is DeclareGlobal
}

/// The instruction assigns or declares a name in a scope.
pub open spec fn writes_scope(op: Op) -> bool {
    assigns_scope(op) || op is DeclareName
}

/// The instruction with its code target replaced by `t` (others unchanged).
pub open spec fn with_target(op: Op, t: u32) -> Op {
    match op {
        Op::Jump(_) => Op::Jump(t),
        Op::JumpIfFalse(_) => Op::JumpIfFalse(t),
        Op::JumpIfFalseOrPop(_) => Op::JumpIfFalseOrPop(t),
        Op::JumpIfTrueOrPop(_) => Op::JumpIfTrueOrPop(t),
        Op::SetupTry(_) => Op::SetupTry(t),
        Op::StaticInit(s, _) => Op::StaticInit(s, t),
        Op::ForIter(a, b, _) => Op::ForIter(a, b, t),
        _ => op,
    }
}

/// Every operand of `op` indexes inside its pool; a code target may also be
/// the end of the code.
pub open spec fn op_wf(op: Op, p: Pools) -> bool {
    match op {
        Op::Const(i) => i < p.consts,
        Op::LoadLocal(s) => s < p.locals,
        Op::LoadGlobal(n, c) => n < p.names && c < p.caches,
        Op::StoreGlobal(n, c) => n < p.names && c < p.caches,
        Op::StoreName(n) => n < p.names,
        Op::StoreLocal(s) => s < p.locals,
        Op::StoreLocalDeepCopy(s) => s < p.locals,
        Op::StoreLocalCopyFreeze(s) => s < p.locals,
        Op::StoreLocalFreezeInstance(s) => s < p.locals,
        Op::StoreLocalFromIdent(s, n) => s < p.locals && n < p.names,
        Op::CallBuiltinKw(k) => k < p.kw_calls,
        Op::CallMethodKw(k) => k < p.kw_calls,
        Op::StaticInit(s, t) => s < p.spans && t <= p.code,
        Op::StaticStore(s) => s < p.spans,
        Op::LoadStatic(s) => s < p.spans,
        Op::StoreStatic(s) => s < p.spans,
        Op::LoadCell(i) => i < p.cells,
        Op::StoreCell(i) => i < p.cells,
        Op::StoreCellDeepCopy(i) => i < p.cells,
        Op::BinLocalLocal(a, b, _) => a < p.locals && b < p.locals,
        Op::BinLocalConst(a, c, _) => a < p.locals && c < p.consts,
        Op::IntBinLL(a, b, _) => a < p.locals && b < p.locals,
        Op::IntBinLC(a, c, _) => a < p.locals && c < p.consts,
        Op::FloatBinLL(a, b, _) => a < p.locals && b < p.locals,
        Op::FloatBinLC(a, c, _) => a < p.locals && c < p.consts,
        Op::GetAttr(n, c) => n < p.names && c < p.names,
        Op::SetAttr(n) => n < p.names,
        Op::CallMethodLocal(s, n, _, _, _) => s < p.locals && n < p.names,
        Op::GetAttrLocal(s, n, c) => s < p.locals && n < p.names && c < p.names,
        Op::IsType(n) => n < p.names,
        Op::MustBe(t, s) => t < p.names && s < p.spans,
        Op::Cast(n) => n < p.names,
        Op::CallBuiltin(n, _) => n < p.names,
        Op::ForIter(it, tg, t) => it < p.locals && tg < p.locals && t <= p.code,
        Op::Jump(t) => t <= p.code,
        Op::JumpIfFalse(t) => t <= p.code,
        Op::JumpIfFalseOrPop(t) => t <= p.code,
        Op::JumpIfTrueOrPop(t) => t <= p.code,
        Op::Call(_, _, n, s, _) => n < p.names && s < p.spans,
        Op::CallMethod(n, _, _, _) => n < p.names,
        Op::SetupTry(t) => t <= p.code,
        Op::Raise(s) => s < p.spans,
        Op::ExcMatch(n) => n < p.names,
        Op::Fail(n) => n < p.names,
        Op::ListAppendLocal(s) => s < p.locals,
        Op::CheckBlockReturn(n) => n < p.names,
        Op::CheckLoopYield(n) => n < p.names,
        Op::LoadName(n) => n < p.names,
        Op::DeclareName(n) => n < p.names,
        Op::MakeFn(i) => i < p.fn_defs,
        Op::UnpackTuple(s, _) => s < p.locals,
        Op::LetTuple(i) => i < p.tuple_decls,
        Op::FreezeVar(n, s) => n < p.names && s < p.spans,
        Op::CallKw(k) => k < p.kw_calls,
        Op::CallTemplate(i, _, _) => i < p.type_args,
        Op::DeclareGlobal(n, k) => n < p.names && (match k {
            DeclKind::LetFromIdent(m) => m < p.names,
            _ => true,
        }),
        Op::GetTraitAttr(t, a) => t < p.names && a < p.names,
        Op::SetTraitAttr(t, a) => t < p.names && a < p.names,
        Op::BreakPoint(s) => s < p.spans,
        Op::AsyncSubmit(i) => i < p.async_blocks,
        _ => true,
    }
}

/// A line-table entry is a sentinel or a span index.
pub open spec fn stmt_span_wf(s: u32, n_spans: nat) -> bool {
    s == NOT_STMT || s == STMT_NO_SPAN || s < n_spans
}

/// Every instruction of `code` is well formed against `p`.
pub open spec fn code_wf(code: Seq<Op>, p: Pools) -> bool {
    forall|i: int| 0 <= i < code.len() ==> #[trigger] op_wf(code[i], p)
}

impl Chunk {
    /// Pool sizes of this chunk.
    pub open spec fn pools(&self) -> Pools {
        Pools {
            code: self.code@.len(),
            consts: self.consts@.len(),
            names: self.names@.len(),
            spans: self.spans@.len(),
            locals: self.n_locals as nat,
            cells: self.n_cells as nat,
            caches: self.global_caches@.len(),
            kw_calls: self.kw_calls@.len(),
            fn_defs: self.fn_defs@.len(),
            type_args: self.type_arg_lists@.len(),
            tuple_decls: self.tuple_decls@.len(),
            async_blocks: self.async_blocks@.len(),
        }
    }

    /// Control cannot run off the end of the code: the last instruction is a
    /// return.
    pub open spec fn ends_with_return(&self) -> bool {
        &&& self.code@.len() > 0
        &&& (self.code@.last() is Return || self.code@.last() is ReturnNil)
    }

    /// The chunk is safe to run: every index the VM reads is inside its table.
    pub open spec fn wf(&self) -> bool {
        &&& code_wf(self.code@, self.pools())
        &&& self.stmt_spans@.len() == self.code@.len()
        &&& forall|i: int| 0 <= i < self.stmt_spans@.len() ==> stmt_span_wf(#[trigger] self.stmt_spans@[i], self.spans@.len())
        &&& self.attr_caches@.len() == self.names@.len()
        &&& self.n_params <= self.n_locals
        &&& self.local_names@.len() <= self.n_locals
        &&& forall|i: int| 0 <= i < self.kw_calls@.len() ==> (#[trigger] self.kw_calls@[i]).name_idx < self.names@.len()
            && self.kw_calls@[i].arg_names@.len() == self.kw_calls@[i].argc
        &&& forall|k: u32| #[trigger] self.ffi_call_info@.contains_key(k) ==> self.ffi_call_info@[k].0 < self.names@.len()
            && self.ffi_call_info@[k].1 < self.spans@.len()
        &&& forall|i: int| 0 <= i < self.fn_defs@.len() ==> (#[trigger] self.fn_defs@[i]).wf(self.n_locals as nat, self.n_cells as nat, self.spans@.len())
        &&& forall|i: int, j: int| 0 <= i < self.async_blocks@.len() && 0 <= j < self.async_blocks@[i].captures@.len()
            ==> (#[trigger] self.async_blocks@[i].captures@[j]).1 < self.n_locals
        &&& forall|i: int, j: int| 0 <= i < self.tuple_decls@.len() && 0 <= j < self.tuple_decls@[i].slots@.len()
            ==> (#[trigger] self.tuple_decls@[i].slots@[j] matches Some(s) ==> s < self.n_locals)
        &&& forall|i: int| 0 <= i < self.captured_slots@.len() ==> (#[trigger] self.captured_slots@[i]).1 < self.n_locals
        &&& forall|i: int| 0 <= i < self.captured_cells@.len() ==> (#[trigger] self.captured_cells@[i]).1 < self.n_cells
    }
}

} // verus!

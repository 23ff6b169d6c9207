//! Compiler from the resolved syntax tree to `Chunk`s.
//!
//! Everything but definition statements (fn/class/gen/trait/protocol/newtype/
//! enum/import) can be compiled. A construct the compiler cannot handle makes
//! it return `None` ("not supported yet"); definitions are executed by the
//! tree walker.
//!
//! | module | role |
//! |---|---|
//! | `entry` | the public entry points |
//! | `diag` | names of builtins the VM calls directly |
//! | `decls` | slot numbering and the syntax walks it needs |
//! | `emit` | emission primitives, store targets, type specialisation |
//! | `calls` | calls, nested functions, async submission |
//! | `control` | `try`/`finally`/`match` and unwinding on early exits |
//! | `stmt` | statements |
//! | `stmt_assign` | attribute, subscript, `static` and tuple assignments |
//! | `expr` | expressions |
//! | `block_expr` | the five block expressions |
use std::collections::HashMap;
use std::rc::Rc;

use vstd::prelude::*;

use crate::annotations::AstAnnotations;
use crate::ast::{Span, Stmt};
use crate::chunk::{assigns_scope, code_target, stmt_span_wf, writes_scope, Chunk, NOT_STMT};
use crate::names::{values_below, NameMap};
use crate::op::Op;

pub mod block_expr;
pub mod calls;
pub mod control;
pub mod decl_order;
pub mod decls;
pub mod diag;
pub mod emit;
pub mod entry;
pub mod expr;
pub mod stmt;
pub mod stmt_assign;

verus! {

/// Upper bound on the size of every table the compiler fills (code, constants,
/// names, spans, ...), so that indices fit in a `u32` below the line-table
/// sentinels.
pub const POOL_LIMIT: usize = 0xffff_0000;

/// How many `finally` copies may be nested (each exit path gets its own copy).
pub const MAX_FINALLY_NEST: usize = 4;

/// Which entry point a compilation serves; every mode-dependent decision is
/// derived from it.
#[derive(Clone, Copy, PartialEq, Eq, Debug)]
pub enum CompileMode {
    /// A function body (`compile_fn`).
    Function,
    /// One top-level statement (`compile_toplevel_stmt`).
    Toplevel,
    /// One statement of an imported module's body (`compile_module_stmt`).
    Module,
    /// An expression inside a definition (`compile_definition_expr`).
    DefinitionExpr,
    /// An async block body (`compile_async_body`).
    AsyncBody,
    /// One statement typed at the debugger prompt (`compile_debug`).
    DebugRepl,
}

impl CompileMode {
    /// Assignments go through the scope chain (`StoreName`).
    pub open spec fn module_body(self) -> bool {
        self == CompileMode::Module
    }

    /// Free identifiers are looked up by name at run time (`LoadName`).
    pub open spec fn name_lookup(self) -> bool {
        self == CompileMode::DefinitionExpr || self == CompileMode::DebugRepl
    }

    /// The debugger prompt.
    pub open spec fn debug_repl(self) -> bool {
        self == CompileMode::DebugRepl
    }

    /// Assignments go through the scope chain (`StoreName`).
    pub fn is_module_body(self) -> (r: bool)
        ensures
            r == self.module_body(),
    {
        matches!(self, CompileMode::Module)
    }

    /// Free identifiers are looked up by name at run time (`LoadName`).
    pub fn uses_name_lookup(self) -> (r: bool)
        ensures
            r == self.name_lookup(),
    {
        matches!(self, CompileMode::DefinitionExpr | CompileMode::DebugRepl)
    }

    /// The debugger prompt: variables by name, no fusion, no foreign-call info.
    pub fn is_debug_repl(self) -> (r: bool)
        ensures
            r == self.debug_repl(),
    {
        matches!(self, CompileMode::DebugRepl)
    }
}

/// The debugger prompt reads every free name by name (which is why it is no
/// separate flag beside name lookup), and a module body, which assigns
/// through the scope chain, does not.
pub proof fn law_debug_repl_implies_name_lookup(m: CompileMode)
    ensures
        m.debug_repl() ==> m.name_lookup(),
        m.module_body() ==> !m.name_lookup() && !m.debug_repl(),
{
}

/// The part of a `Chunk` that differs between entry points.
pub(crate) struct ChunkMeta {
    pub(crate) local_names: Vec<String>,
    pub(crate) n_params: usize,
    pub(crate) captured_slots: Vec<(String, u16)>,
    pub(crate) captured_cells: Vec<(String, u16)>,
}

impl ChunkMeta {
    /// No names, no parameters, no captures.
    pub(crate) fn empty() -> (r: ChunkMeta)
        ensures
            r.local_names@.len() == 0,
            r.n_params == 0,
            r.captured_slots@.len() == 0,
            r.captured_cells@.len() == 0,
    {
        ChunkMeta { local_names: Vec::new(), n_params: 0, captured_slots: Vec::new(), captured_cells: Vec::new() }
    }

    /// The metadata fits a frame of `n_locals` slots and `n_cells` cells.
    pub(crate) open spec fn fits(&self, n_locals: nat, n_cells: nat) -> bool {
        &&& self.n_params <= n_locals
        &&& self.local_names@.len() <= n_locals
        &&& forall|i: int| 0 <= i < self.captured_slots@.len() ==> (#[trigger] self.captured_slots@[i]).1 < n_locals
        &&& forall|i: int| 0 <= i < self.captured_cells@.len() ==> (#[trigger] self.captured_cells@[i]).1 < n_cells
    }
}

/// Where an assignment writes.
pub(crate) enum StoreTarget {
    /// A frame slot (`StoreLocal`).
    Local(u16),
    /// A global in `scopes[0]` (`StoreGlobal`): name index, cache index.
    Global(u32, u32),
    /// A `static mut` cell (`StoreStatic`): span index of the declaration.
    Static(u32),
    /// A cell variable (`StoreCell`).
    Cell(u16),
    /// By name through the scope chain (`StoreName`, module bodies).
    Name(u32),
}

/// Jump targets of one enclosing loop.
pub(crate) struct LoopCtx {
    /// Where `continue` goes.
    pub(crate) continue_target: u32,
    /// `Jump`s emitted by `break`, patched to the loop end.
    pub(crate) break_jumps: Vec<usize>,
    /// Depth of the `try` stack when the loop was entered.
    pub(crate) try_len: usize,
    /// Code length when the loop's body was entered (its `break`s come later).
    pub(crate) start: Ghost<int>,
}

/// State of one enclosing block expression.
pub(crate) struct BlockCtx {
    /// Slot that receives the `block_return` value.
    pub(crate) result_slot: u16,
    /// `Jump`s emitted by `block_return`, patched to the block's exit.
    pub(crate) end_jumps: Vec<usize>,
    /// List slot collecting `loop_yield` values (`None` = transparent).
    pub(crate) yield_slot: Option<u16>,
    /// Depth of the `try` stack when the block was entered.
    pub(crate) try_len: usize,
    /// Operand depth when the block was entered.
    pub(crate) entry_depth: Option<u16>,
    /// Name index of the `->T` annotation, checked at run time.
    pub(crate) return_type: Option<u32>,
    /// Code length when the block was entered (its `Jump`s come later).
    pub(crate) start: Ghost<int>,
}

/// Compiler state for one chunk.
pub(crate) struct Compiler {
    /// The chunk being built.
    pub(crate) chunk: Chunk,
    /// The next emitted instruction starts a statement (line-table entry).
    pub(crate) pending_stmt: Option<u32>,
    pub(crate) annotations: Rc<AstAnnotations>,
    /// Name → slot.
    pub(crate) slots: NameMap<u16>,
    /// Slot → declared mutable.
    pub(crate) slot_mut: Vec<bool>,
    /// Slot → type annotation.
    pub(crate) slot_type: Vec<Option<String>>,
    /// Slot of `self` when compiling a method body.
    pub(crate) self_slot: Option<u16>,
    pub(crate) loops: Vec<LoopCtx>,
    pub(crate) block_ctxs: Vec<BlockCtx>,
    /// Operand depth at the current statement boundary (`None` = unknown).
    pub(crate) stmt_base: Option<u16>,
    /// Operand depth at which the next expression starts (taken by `compile_expr`).
    pub(crate) pending: Option<u16>,
    /// Open `try`s, innermost last; `Some(finally body)` for `try/finally`.
    pub(crate) try_stack: Vec<Option<Vec<Stmt>>>,
    /// How many `finally` copies are being compiled.
    pub(crate) in_finally: usize,
    pub(crate) mode: CompileMode,
    /// Named slots (parameters and declarations); temporaries sit above.
    pub(crate) named_locals: u16,
    pub(crate) temps_in_use: u16,
    /// Names that are known to be top-level declarations (top-level modes).
    pub(crate) toplevel_globals: Vec<String>,
    /// `for` variables that shadow another binding.
    pub(crate) shadowed_for_targets: Vec<String>,
    /// `static mut` name → declaration position.
    pub(crate) statics: NameMap<Span>,
    /// Cell variable name → cell index.
    pub(crate) cells: NameMap<u16>,
    /// Slot → cell index, for slots moved to cells.
    pub(crate) cell_by_slot: Vec<(u16, u16)>,
}

/// Every table of the chunk is below `POOL_LIMIT`.
pub(crate) open spec fn pools_bounded(c: Chunk) -> bool {
    &&& c.code@.len() <= POOL_LIMIT
    &&& c.consts@.len() <= POOL_LIMIT
    &&& c.names@.len() <= POOL_LIMIT
    &&& c.spans@.len() <= POOL_LIMIT
    &&& c.global_caches@.len() <= POOL_LIMIT
    &&& c.kw_calls@.len() <= POOL_LIMIT
    &&& c.fn_defs@.len() <= POOL_LIMIT
    &&& c.type_arg_lists@.len() <= POOL_LIMIT
    &&& c.tuple_decls@.len() <= POOL_LIMIT
    &&& c.async_blocks@.len() <= POOL_LIMIT
    &&& c.n_locals <= 0x20000
    &&& c.n_cells <= 0x10000
}

/// One of the tables the compiler fills has reached its limit.
pub open spec fn chunk_full(c: Chunk) -> bool {
    ||| c.code@.len() >= POOL_LIMIT
    ||| c.consts@.len() >= POOL_LIMIT
    ||| c.names@.len() >= POOL_LIMIT
    ||| c.spans@.len() >= POOL_LIMIT
    ||| c.global_caches@.len() >= POOL_LIMIT
}

/// Every table that `chunk_full` watches grew by at most `k` entries from `a` to `b`.
pub open spec fn grew_within(a: Chunk, b: Chunk, k: nat) -> bool {
    &&& b.code@.len() <= a.code@.len() + k
    &&& b.consts@.len() <= a.consts@.len() + k
    &&& b.names@.len() <= a.names@.len() + k
    &&& b.spans@.len() <= a.spans@.len() + k
    &&& b.global_caches@.len() <= a.global_caches@.len() + k
}

/// Every table that `chunk_full` watches has room for `k` more entries.
pub open spec fn has_room(c: Chunk, k: nat) -> bool {
    &&& c.code@.len() + k < POOL_LIMIT
    &&& c.consts@.len() + k < POOL_LIMIT
    &&& c.names@.len() + k < POOL_LIMIT
    &&& c.spans@.len() + k < POOL_LIMIT
    &&& c.global_caches@.len() + k < POOL_LIMIT
}

/// The line-table entries of `a` are still those of `b`.
pub open spec fn spans_kept(a: Chunk, b: Chunk) -> bool {
    &&& a.stmt_spans@.len() <= b.stmt_spans@.len()
    &&& forall|i: int| 0 <= i < a.stmt_spans@.len() ==> #[trigger] b.stmt_spans@[i] == a.stmt_spans@[i]
}

/// Every recorded jump position holds an unconditional `Jump`.
pub(crate) open spec fn jumps_ok(code: Seq<Op>, js: Seq<usize>) -> bool {
    forall|j: int| 0 <= j < js.len() ==> (#[trigger] js[j]) < code.len() && code[js[j] as int] is Jump
}

impl Compiler {
    /// The state the emission primitives rely on.
    pub(crate) open spec fn inv(&self) -> bool {
        &&& self.chunk.wf()
        &&& pools_bounded(self.chunk)
        &&& self.chunk.n_params == 0
        &&& self.chunk.local_names@.len() == 0
        &&& self.chunk.captured_slots@.len() == 0
        &&& self.chunk.captured_cells@.len() == 0
        &&& (self.pending_stmt matches Some(s) ==> stmt_span_wf(s, self.chunk.spans@.len()))
        &&& values_below(self.slots.entries@, self.chunk.n_locals as int)
        &&& values_below(self.cells.entries@, self.chunk.n_cells as int)
        &&& forall|i: int| 0 <= i < self.cell_by_slot@.len() ==> (#[trigger] self.cell_by_slot@[i]).1 < self.chunk.n_cells
        &&& self.named_locals + self.temps_in_use <= self.chunk.n_locals
        &&& self.in_finally <= MAX_FINALLY_NEST
        &&& forall|i: int| 0 <= i < self.loops@.len() ==> (#[trigger] self.loops@[i]).continue_target <= self.chunk.code@.len()
            && jumps_ok(self.chunk.code@, self.loops@[i].break_jumps@)
            && 0 <= self.loops@[i].start@ <= self.chunk.code@.len()
            && crate::compiler::control::all_from(self.loops@[i].break_jumps@, self.loops@[i].start@ as nat)
        &&& (self.mode == CompileMode::Module ==> forall|k: int| 0 <= k < self.chunk.code@.len() ==> !(#[trigger] self.chunk.code@[k] is StoreGlobal))
        &&& (self.mode != CompileMode::Module ==> forall|k: int| 0 <= k < self.chunk.code@.len() ==> !(#[trigger] self.chunk.code@[k] is StoreName))
        &&& (self.mode == CompileMode::DebugRepl ==> {
            &&& self.toplevel_globals@.len() == 0
            &&& self.pending_stmt is None
            &&& forall|k: int| 0 <= k < self.chunk.stmt_spans@.len() ==> #[trigger] self.chunk.stmt_spans@[k] == NOT_STMT
            &&& forall|k: int| 0 <= k < self.chunk.code@.len() ==> !assigns_scope(#[trigger] self.chunk.code@[k])
        })
        &&& (self.mode == CompileMode::DefinitionExpr ==> {
            &&& self.toplevel_globals@.len() == 0
            &&& forall|k: int| 0 <= k < self.chunk.code@.len() ==> !writes_scope(#[trigger] self.chunk.code@[k])
        })
        &&& forall|i: int| 0 <= i < self.block_ctxs@.len() ==> {
            let b = #[trigger] self.block_ctxs@[i];
            &&& b.result_slot < self.chunk.n_locals
            &&& (b.yield_slot matches Some(s) ==> s < self.chunk.n_locals)
            &&& (b.return_type matches Some(n) ==> n < self.chunk.names@.len())
            &&& jumps_ok(self.chunk.code@, b.end_jumps@)
            &&& 0 <= b.start@ <= self.chunk.code@.len()
            &&& crate::compiler::control::all_from(b.end_jumps@, b.start@ as nat)
        }
    }

    /// An empty compiler for `mode`.
    pub(crate) fn base(mode: CompileMode, annotations: Rc<AstAnnotations>) -> (c: Compiler)
        ensures
            c.inv(),
            c.mode == mode,
            c.chunk.code@.len() == 0,
            c.chunk.n_locals == 0,
            c.chunk.n_cells == 0,
            c.named_locals == 0,
            c.temps_in_use == 0,
            c.in_finally == 0,
            c.stmt_base == Some(0u16),
            c.pending is None,
            c.loops@.len() == 0,
            c.block_ctxs@.len() == 0,
            c.try_stack@.len() == 0,
            c.slots.entries@.len() == 0,
            c.cells.entries@.len() == 0,
            c.statics.entries@.len() == 0,
            c.toplevel_globals@.len() == 0,
            c.shadowed_for_targets@.len() == 0,
            c.self_slot is None,
            c.annotations == annotations,
            c.chunk.names@.len() == 0,
            c.chunk.consts@.len() == 0,
            c.chunk.spans@.len() == 0,
            c.chunk.global_caches@.len() == 0,
            c.chunk.stmt_spans@.len() == 0,
            c.pending_stmt is None,
            c.cell_by_slot@.len() == 0,
    {
        let chunk = Chunk {
            code: Vec::new(),
            consts: Vec::new(),
            names: Vec::new(),
            attr_caches: Vec::new(),
            spans: Vec::new(),
            stmt_spans: Vec::new(),
            local_names: Vec::new(),
            n_locals: 0,
            n_params: 0,
            async_blocks: Vec::new(),
            global_caches: Vec::new(),
            ffi_call_info: HashMap::new(),
            fn_defs: Vec::new(),
            type_arg_lists: Vec::new(),
            tuple_decls: Vec::new(),
            kw_calls: Vec::new(),
            n_cells: 0,
            captured_cells: Vec::new(),
            captured_slots: Vec::new(),
        };
        let c = Compiler {
            chunk,
            pending_stmt: None,
            annotations,
            slots: NameMap::new(),
            slot_mut: Vec::new(),
            slot_type: Vec::new(),
            self_slot: None,
            loops: Vec::new(),
            block_ctxs: Vec::new(),
            // A statement starts with a balanced operand stack.
            stmt_base: Some(0),
            pending: None,
            try_stack: Vec::new(),
            in_finally: 0,
            mode,
            named_locals: 0,
            temps_in_use: 0,
            toplevel_globals: Vec::new(),
            shadowed_for_targets: Vec::new(),
            statics: NameMap::new(),
            cells: NameMap::new(),
            cell_by_slot: Vec::new(),
        };
        assert(c.chunk.ffi_call_info@ == Map::<u32, (u32, u32)>::empty());
        c
    }

    /// Hands the chunk over without optimising it (the debugger prompt).
    pub(crate) fn into_chunk(self, meta: ChunkMeta) -> (c: Chunk)
        requires
            self.inv(),
            meta.fits(self.chunk.n_locals as nat, self.chunk.n_cells as nat),
        ensures
            c.wf(),
            c.code@ == self.chunk.code@,
            c.stmt_spans@ == self.chunk.stmt_spans@,
            c.n_locals == self.chunk.n_locals,
            c.n_cells == self.chunk.n_cells,
            c.n_params == meta.n_params,
            c.local_names@ == meta.local_names@,
            c.captured_slots@ == meta.captured_slots@,
            c.captured_cells@ == meta.captured_cells@,
            c.names@ == self.chunk.names@,
            c.consts@ == self.chunk.consts@,
    {
        let mut c = self.chunk;
        c.local_names = meta.local_names;
        c.n_params = meta.n_params;
        c.captured_slots = meta.captured_slots;
        c.captured_cells = meta.captured_cells;
        c
    }

    /// Runs the peephole optimiser and hands the chunk over (every entry
    /// point but the debugger prompt).
    pub(crate) fn finish(self, meta: ChunkMeta) -> (c: Chunk)
        requires
            self.inv(),
            meta.fits(self.chunk.n_locals as nat, self.chunk.n_cells as nat),
        ensures
            c.wf(),
            c.n_locals == self.chunk.n_locals,
            c.n_cells == self.chunk.n_cells,
            c.n_params == meta.n_params,
            c.local_names@ == meta.local_names@,
            c.captured_slots@ == meta.captured_slots@,
            c.captured_cells@ == meta.captured_cells@,
            c.names@ == self.chunk.names@,
            c.consts@ == self.chunk.consts@,
            (c.code@, c.stmt_spans@) == crate::peephole::optimize_spec(
                self.chunk.code@,
                self.chunk.stmt_spans@,
                crate::peephole::MAX_PASSES as nat,
            ),
            self.chunk.code@.len() > 0 && code_target(self.chunk.code@.last()) is None
                ==> c.code@.len() > 0 && c.code@.last() == self.chunk.code@.last(),
            forall|k: int| 0 <= k < c.code@.len() && code_target(#[trigger] c.code@[k]) is None ==> self.chunk.code@.contains(c.code@[k]),
            (forall|k: int| 0 <= k < self.chunk.code@.len() ==> code_target(#[trigger] self.chunk.code@[k]) is None)
                ==> c.code@ == self.chunk.code@,
            (forall|k: int| 0 <= k < self.chunk.code@.len() ==> !(#[trigger] self.chunk.code@[k] is Jump))
                ==> c.code@ == self.chunk.code@ && c.stmt_spans@ == self.chunk.stmt_spans@,
            self.mode == CompileMode::DefinitionExpr ==> forall|k: int| 0 <= k < c.code@.len() ==> !writes_scope(#[trigger] c.code@[k]),
            self.mode == CompileMode::Module ==> forall|k: int| 0 <= k < c.code@.len() ==> !(#[trigger] c.code@[k] is StoreGlobal),
            self.mode != CompileMode::Module ==> forall|k: int| 0 <= k < c.code@.len() ==> !(#[trigger] c.code@[k] is StoreName),
    {
        let mut c = self.into_chunk(meta);
        let ghost code0 = c.code@;
        let ghost spans0 = c.stmt_spans@;
        let ghost p0 = c.pools();
        crate::peephole::optimize(&mut c.code, &mut c.stmt_spans);
        proof {
            crate::peephole::law_optimize_keeps_code_wf(code0, spans0, p0, crate::peephole::MAX_PASSES as nat);
            crate::peephole::law_optimize_keeps_statement_starts(code0, spans0, crate::peephole::MAX_PASSES as nat);
            lemma_starts_wf(spans0, c.stmt_spans@, c.spans@.len());
            crate::peephole::law_optimize_adds_no_instruction(code0, spans0, crate::peephole::MAX_PASSES as nat);
            if forall|k: int| 0 <= k < code0.len() ==> !(#[trigger] code0[k] is Jump) {
                crate::peephole::law_optimize_keeps_code_without_jumps(code0, spans0, crate::peephole::MAX_PASSES as nat);
            }
            if forall|k: int| 0 <= k < code0.len() ==> code_target(#[trigger] code0[k]) is None {
                crate::peephole::law_optimize_keeps_code_without_targets(code0, spans0, crate::peephole::MAX_PASSES as nat);
            }
            assert forall|k: int| 0 <= k < c.code@.len() && (self.mode == CompileMode::Module) implies !(#[trigger] c.code@[k] is StoreGlobal) by {
                if c.code@[k] is StoreGlobal {
                    let j = choose|j: int| 0 <= j < code0.len() && code0[j] == c.code@[k];
                    assert(!(code0[j] is StoreGlobal));
                }
            }
            assert forall|k: int| 0 <= k < c.code@.len() && (self.mode != CompileMode::Module) implies !(#[trigger] c.code@[k] is StoreName) by {
                if c.code@[k] is StoreName {
                    let j = choose|j: int| 0 <= j < code0.len() && code0[j] == c.code@[k];
                    assert(!(code0[j] is StoreName));
                }
            }
            if self.mode == CompileMode::DefinitionExpr {
                assert forall|k: int| 0 <= k < c.code@.len() implies !writes_scope(#[trigger] c.code@[k]) by {
                    if writes_scope(c.code@[k]) {
                        let j = choose|j: int| 0 <= j < code0.len() && code0[j] == c.code@[k];
                        assert(!writes_scope(code0[j]));
                    }
                }
            }
            if code0.len() > 0 && code_target(code0.last()) is None {
                crate::peephole::law_optimize_keeps_last_op(code0, spans0, crate::peephole::MAX_PASSES as nat);
            }
            assert(c.pools() == crate::peephole::with_code_len(p0, c.code@.len()));
        }
        c
    }
}

/// A line table whose statement starts are those of a well-formed table is well formed.
proof fn lemma_starts_wf(a: Seq<u32>, b: Seq<u32>, n_spans: nat)
    requires
        forall|i: int| 0 <= i < a.len() ==> stmt_span_wf(#[trigger] a[i], n_spans),
        crate::peephole::statement_starts(b) == crate::peephole::statement_starts(a),
    ensures
        forall|i: int| 0 <= i < b.len() ==> stmt_span_wf(#[trigger] b[i], n_spans),
{
    let p = |s: u32| s != NOT_STMT;
    assert forall|i: int| 0 <= i < b.len() implies stmt_span_wf(#[trigger] b[i], n_spans) by {
        if b[i] != NOT_STMT {
            b.lemma_filter_contains(p, i);
            let f = a.filter(p);
            assert(b.filter(p) == f);
            assert(f.contains(b[i]));
            let k = choose|k: int| 0 <= k < f.len() && f[k] == b[i];
            #[allow(deprecated)]
            a.filter_lemma(p);
            lemma_filter_member(a, p, k);
        }
    }
}

/// Every element of a filtered sequence occurs in the sequence.
proof fn lemma_filter_member(a: Seq<u32>, p: spec_fn(u32) -> bool, k: int)
    requires
        0 <= k < a.filter(p).len(),
    ensures
        exists|i: int| 0 <= i < a.len() && a[i] == a.filter(p)[k],
    decreases a.len(),
{
    reveal(Seq::filter);
    if a.len() > 0 {
        let sub = a.drop_last().filter(p);
        if k < sub.len() {
            lemma_filter_member(a.drop_last(), p, k);
            let i = choose|i: int| 0 <= i < a.drop_last().len() && a.drop_last()[i] == sub[k];
            assert(a[i] == a.filter(p)[k]);
        } else {
            assert(a[a.len() - 1] == a.filter(p)[k]);
        }
    }
}

} // verus!

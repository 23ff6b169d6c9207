//! Emission primitives, store targets and type specialisation.
use vstd::prelude::*;

use crate::annotations::{BinOperandKind, InferredType};
use crate::ast::{BinOp, Expr, Resolution, Span, Stmt};
use crate::chunk::{code_target, code_wf, op_wf, stmt_span_wf, with_target, assigns_scope, writes_scope, Pools, SlotCache, AttrCache, Value, NOT_STMT, STMT_NO_SPAN};
use crate::compiler::diag::str_eq;
use crate::compiler::{chunk_full, grew_within, jumps_ok, CompileMode, Compiler, StoreTarget, POOL_LIMIT};
use crate::op::Op;

verus! {

/// Every pool of `a` is at most as large as that of `b`.
pub(crate) open spec fn pools_le(a: Pools, b: Pools) -> bool {
    &&& a.code <= b.code
    &&& a.consts <= b.consts
    &&& a.names <= b.names
    &&& a.spans <= b.spans
    &&& a.locals <= b.locals
    &&& a.cells <= b.cells
    &&& a.caches <= b.caches
    &&& a.kw_calls <= b.kw_calls
    &&& a.fn_defs <= b.fn_defs
    &&& a.type_args <= b.type_args
    &&& a.tuple_decls <= b.tuple_decls
    &&& a.async_blocks <= b.async_blocks
}

/// An instruction that is well formed stays so when the pools grow.
pub(crate) proof fn lemma_op_wf_mono(op: Op, p: Pools, q: Pools)
    requires
        op_wf(op, p),
        pools_le(p, q),
    ensures
        op_wf(op, q),
{
}

/// Code that is well formed stays so when the pools grow.
pub(crate) proof fn lemma_code_wf_mono(code: Seq<Op>, p: Pools, q: Pools)
    requires
        code_wf(code, p),
        pools_le(p, q),
    ensures
        code_wf(code, q),
{
    assert forall|i: int| 0 <= i < code.len() implies #[trigger] op_wf(code[i], q) by {
        lemma_op_wf_mono(code[i], p, q);
    }
}

impl Compiler {
    /// `new` continues the compilation of `self`: the tables only grew, the
    /// code emitted so far is untouched, and the temporaries and the loop,
    /// block and `try` stacks are back at their depth.
    pub(crate) open spec fn grown_into(&self, new: &Compiler) -> bool {
        &&& self.stable_into(new)
        &&& new.temps_in_use == self.temps_in_use
    }

    /// `grown_into` up to the number of temporaries in use.
    pub(crate) open spec fn stable_into(&self, new: &Compiler) -> bool {
        &&& pools_le(self.chunk.pools(), new.chunk.pools())
        &&& forall|i: int| 0 <= i < self.chunk.code@.len() ==> #[trigger] new.chunk.code@[i] == self.chunk.code@[i]
        &&& forall|i: int| 0 <= i < self.chunk.names@.len() ==> #[trigger] new.chunk.names@[i] == self.chunk.names@[i]
        &&& new.named_locals == self.named_locals
        &&& new.loops@.len() == self.loops@.len()
        &&& forall|i: int| 0 <= i < self.loops@.len() ==> (#[trigger] new.loops@[i]).start == self.loops@[i].start
        &&& forall|i: int| 0 <= i < self.block_ctxs@.len() ==> (#[trigger] new.block_ctxs@[i]).start == self.block_ctxs@[i].start
        &&& new.block_ctxs@.len() == self.block_ctxs@.len()
        &&& new.try_stack@.len() == self.try_stack@.len()
        &&& new.in_finally == self.in_finally
        &&& new.mode == self.mode
    }

    /// Appends `op` to the code (and its line-table entry, which takes the
    /// pending statement start). `None` when the code table is full.
    pub(crate) fn emit(&mut self, op: Op) -> (r: Option<usize>)
        requires
            old(self).inv(),
            op_wf(op, old(self).chunk.pools()),
            old(self).mode == CompileMode::DefinitionExpr ==> !writes_scope(op),
            old(self).mode == CompileMode::DebugRepl ==> !assigns_scope(op),
            old(self).mode == CompileMode::Module ==> !(op is StoreGlobal),
            old(self).mode != CompileMode::Module ==> !(op is StoreName),
        ensures
            r is None <==> old(self).chunk.code@.len() >= POOL_LIMIT,
            r is None ==> *final(self) == *old(self),
            r matches Some(at) ==> {
                &&& at == old(self).chunk.code@.len()
                &&& final(self).inv()
                &&& final(self).chunk.code@ == old(self).chunk.code@.push(op)
                &&& final(self).chunk.stmt_spans@ == old(self).chunk.stmt_spans@.push(match old(self).pending_stmt {
                    Some(p) => p,
                    None => NOT_STMT,
                })
                &&& final(self).chunk.global_caches@ == old(self).chunk.global_caches@
                &&& final(self).chunk.names@ == old(self).chunk.names@
                &&& final(self).chunk.consts@ == old(self).chunk.consts@
                &&& final(self).chunk.spans@ == old(self).chunk.spans@
                &&& old(self).grown_into(final(self))
                &&& final(self).pending_stmt is None
                &&& old(self).same_frame(final(self))
                &&& final(self).chunk.pools() == (Pools { code: old(self).chunk.code@.len() + 1, ..old(self).chunk.pools() })
                &&& final(self).loops == old(self).loops
                &&& final(self).block_ctxs == old(self).block_ctxs
                &&& final(self).try_stack == old(self).try_stack
                &&& final(self).stmt_base == old(self).stmt_base
                &&& final(self).pending == old(self).pending
                &&& final(self).slots == old(self).slots
                &&& final(self).cells == old(self).cells
                &&& final(self).statics == old(self).statics
                &&& final(self).toplevel_globals == old(self).toplevel_globals
                &&& final(self).shadowed_for_targets == old(self).shadowed_for_targets
            },
            grew_within(old(self).chunk, final(self).chunk, 1),
    {
        if self.chunk.code.len() >= POOL_LIMIT {
            return None;
        }
        let ghost p0 = self.chunk.pools();
        let at = self.chunk.code.len();
        self.chunk.code.push(op);
        let s = match self.pending_stmt.take() {
            Some(s) => s,
            None => NOT_STMT,
        };
        self.chunk.stmt_spans.push(s);
        proof {
            let p1 = self.chunk.pools();
            lemma_code_wf_mono(old(self).chunk.code@, p0, p1);
            lemma_op_wf_mono(op, p0, p1);
            assert(code_wf(self.chunk.code@, p1)) by {
                assert forall|i: int| 0 <= i < self.chunk.code@.len() implies #[trigger] op_wf(self.chunk.code@[i], p1) by {
                    if i < at {
                        assert(self.chunk.code@[i] == old(self).chunk.code@[i]);
                    }
                }
            }
            assert forall|i: int| 0 <= i < self.chunk.stmt_spans@.len() implies stmt_span_wf(#[trigger] self.chunk.stmt_spans@[i], self.chunk.spans@.len()) by {
                if i < at {
                    assert(self.chunk.stmt_spans@[i] == old(self).chunk.stmt_spans@[i]);
                }
            }
            assert forall|i: int| 0 <= i < self.loops@.len() implies (#[trigger] self.loops@[i]).continue_target <= self.chunk.code@.len()
                && jumps_ok(self.chunk.code@, self.loops@[i].break_jumps@) by {
                assert(jumps_ok(old(self).chunk.code@, self.loops@[i].break_jumps@));
            }
            assert forall|i: int| 0 <= i < self.block_ctxs@.len() implies jumps_ok(self.chunk.code@, (#[trigger] self.block_ctxs@[i]).end_jumps@) by {
                assert(jumps_ok(old(self).chunk.code@, self.block_ctxs@[i].end_jumps@));
            }
        }
        Some(at)
    }

    /// Index of the next instruction.
    pub(crate) fn here(&self) -> (r: u32)
        requires
            self.inv(),
        ensures
            r == self.chunk.code@.len(),
    {
        self.chunk.code.len() as u32
    }

    /// Sets the code target of the jump-like instruction at `at` (a back-patch).
    pub(crate) fn patch_jump(&mut self, at: usize, target: u32)
        requires
            old(self).inv(),
            at < old(self).chunk.code@.len(),
            code_target(old(self).chunk.code@[at as int]) is Some,
            target <= old(self).chunk.code@.len(),
        ensures
            final(self).inv(),
            final(self).chunk.code@ == old(self).chunk.code@.update(at as int, with_target(old(self).chunk.code@[at as int], target)),
            final(self).chunk.pools() == old(self).chunk.pools(),
            final(self).chunk.stmt_spans == old(self).chunk.stmt_spans,
            final(self).chunk.names@ == old(self).chunk.names@,
            final(self).chunk.consts == old(self).chunk.consts,
            old(self).same_frame(final(self)),
            final(self).pending_stmt == old(self).pending_stmt,
    {
        let mut op = self.chunk.code[at];
        crate::peephole::code_target_mut(&mut op, target);
        self.chunk.code.set(at, op);
        proof {
            let p = self.chunk.pools();
            assert(code_wf(self.chunk.code@, p)) by {
                assert forall|i: int| 0 <= i < self.chunk.code@.len() implies #[trigger] op_wf(self.chunk.code@[i], p) by {
                    assert(op_wf(old(self).chunk.code@[i], p));
                }
            }
            assert forall|i: int| 0 <= i < self.loops@.len() implies (#[trigger] self.loops@[i]).continue_target <= self.chunk.code@.len()
                && jumps_ok(self.chunk.code@, self.loops@[i].break_jumps@) by {
                assert(jumps_ok(old(self).chunk.code@, self.loops@[i].break_jumps@));
            }
            assert forall|i: int| 0 <= i < self.block_ctxs@.len() implies jumps_ok(self.chunk.code@, (#[trigger] self.block_ctxs@[i]).end_jumps@) by {
                assert(jumps_ok(old(self).chunk.code@, self.block_ctxs@[i].end_jumps@));
            }
        }
    }
}

impl Compiler {
    /// Only the chunk's tables changed between `self` and `new`: the code, the
    /// line table and every piece of compiler state are the same.
    pub(crate) open spec fn same_state(&self, new: &Compiler) -> bool {
        &&& new.chunk.code@ == self.chunk.code@
        &&& new.chunk.stmt_spans@ == self.chunk.stmt_spans@
        &&& new.pending_stmt == self.pending_stmt
        &&& self.same_frame(new)
    }

    /// The compiler state other than the chunk and the line-table reservation
    /// is the same in `self` and `new`.
    pub(crate) open spec fn same_frame(&self, new: &Compiler) -> bool {
        &&& new.loops == self.loops
        &&& new.block_ctxs == self.block_ctxs
        &&& new.try_stack == self.try_stack
        &&& new.stmt_base == self.stmt_base
        &&& new.pending == self.pending
        &&& new.slots == self.slots
        &&& new.cells == self.cells
        &&& new.statics == self.statics
        &&& new.cell_by_slot == self.cell_by_slot
        &&& new.slot_mut == self.slot_mut
        &&& new.slot_type == self.slot_type
        &&& new.self_slot == self.self_slot
        &&& new.toplevel_globals == self.toplevel_globals
        &&& new.shadowed_for_targets == self.shadowed_for_targets
        &&& new.named_locals == self.named_locals
        &&& new.temps_in_use == self.temps_in_use
        &&& new.in_finally == self.in_finally
        &&& new.mode == self.mode
        &&& new.annotations == self.annotations
    }

    /// Adds `name` to the name pool (with its attribute cache); returns its index.
    pub(crate) fn add_name(&mut self, name: &str) -> (r: Option<u32>)
        requires
            old(self).inv(),
        ensures
            r is None <==> old(self).chunk.names@.len() >= POOL_LIMIT,
            r is None ==> *final(self) == *old(self),
            r matches Some(i) ==> {
                &&& i == old(self).chunk.names@.len()
                &&& final(self).inv()
                &&& final(self).chunk.names@ == old(self).chunk.names@.push(final(self).chunk.names@.last())
                &&& final(self).chunk.names@.last()@ == name@
                &&& final(self).chunk.ffi_call_info == old(self).chunk.ffi_call_info
                &&& final(self).chunk.code@ == old(self).chunk.code@
                &&& final(self).chunk.consts@ == old(self).chunk.consts@
                &&& final(self).chunk.spans@ == old(self).chunk.spans@
                &&& final(self).pending == old(self).pending
                &&& old(self).same_state(final(self))
                &&& final(self).chunk.pools() == (Pools { names: old(self).chunk.names@.len() + 1, ..old(self).chunk.pools() })
                &&& old(self).grown_into(final(self))
            },
            grew_within(old(self).chunk, final(self).chunk, 1),
    {
        if self.chunk.names.len() >= POOL_LIMIT {
            return None;
        }
        let ghost p0 = self.chunk.pools();
        let i = self.chunk.names.len() as u32;
        self.chunk.names.push(name.to_owned());
        self.chunk.attr_caches.push(AttrCache::empty());
        proof {
            lemma_code_wf_mono(self.chunk.code@, p0, self.chunk.pools());
        }
        Some(i)
    }

    /// Adds a position to the span pool; returns its index.
    pub(crate) fn add_span(&mut self, span: Span) -> (r: Option<u32>)
        requires
            old(self).inv(),
        ensures
            r is None <==> old(self).chunk.spans@.len() >= POOL_LIMIT,
            r is None ==> *final(self) == *old(self),
            r matches Some(i) ==> {
                &&& i == old(self).chunk.spans@.len()
                &&& final(self).inv()
                &&& final(self).chunk.spans@ == old(self).chunk.spans@.push(span)
                &&& final(self).chunk.ffi_call_info == old(self).chunk.ffi_call_info
                &&& final(self).chunk.code@ == old(self).chunk.code@
                &&& final(self).chunk.consts@ == old(self).chunk.consts@
                &&& final(self).chunk.names@ == old(self).chunk.names@
                &&& final(self).pending == old(self).pending
                &&& old(self).same_state(final(self))
                &&& final(self).chunk.pools() == (Pools { spans: old(self).chunk.spans@.len() + 1, ..old(self).chunk.pools() })
                &&& old(self).grown_into(final(self))
            },
            grew_within(old(self).chunk, final(self).chunk, 1),
    {
        if self.chunk.spans.len() >= POOL_LIMIT {
            return None;
        }
        let ghost p0 = self.chunk.pools();
        let i = self.chunk.spans.len() as u32;
        self.chunk.spans.push(span);
        proof {
            lemma_code_wf_mono(self.chunk.code@, p0, self.chunk.pools());
            assert forall|j: int| 0 <= j < self.chunk.stmt_spans@.len() implies stmt_span_wf(#[trigger] self.chunk.stmt_spans@[j], self.chunk.spans@.len()) by {
                assert(stmt_span_wf(old(self).chunk.stmt_spans@[j], old(self).chunk.spans@.len()));
            }
        }
        Some(i)
    }

    /// Adds a value to the constant pool; returns its index.
    pub(crate) fn add_const(&mut self, v: Value) -> (r: Option<u32>)
        requires
            old(self).inv(),
        ensures
            r is None <==> old(self).chunk.consts@.len() >= POOL_LIMIT,
            r is None ==> *final(self) == *old(self),
            r matches Some(i) ==> {
                &&& i == old(self).chunk.consts@.len()
                &&& final(self).inv()
                &&& final(self).chunk.consts@ == old(self).chunk.consts@.push(v)
                &&& final(self).chunk.code@ == old(self).chunk.code@
                &&& final(self).chunk.names@ == old(self).chunk.names@
                &&& final(self).chunk.spans@ == old(self).chunk.spans@
                &&& final(self).pending == old(self).pending
                &&& old(self).same_state(final(self))
                &&& final(self).chunk.pools() == (Pools { consts: old(self).chunk.consts@.len() + 1, ..old(self).chunk.pools() })
                &&& old(self).grown_into(final(self))
            },
            grew_within(old(self).chunk, final(self).chunk, 1),
    {
        if self.chunk.consts.len() >= POOL_LIMIT {
            return None;
        }
        let ghost p0 = self.chunk.pools();
        let i = self.chunk.consts.len() as u32;
        self.chunk.consts.push(v);
        proof {
            lemma_code_wf_mono(self.chunk.code@, p0, self.chunk.pools());
        }
        Some(i)
    }

    /// Allocates a fresh global-lookup cache; returns its index.
    pub(crate) fn add_cache(&mut self) -> (r: Option<u32>)
        requires
            old(self).inv(),
        ensures
            r is None <==> old(self).chunk.global_caches@.len() >= POOL_LIMIT,
            r is None ==> *final(self) == *old(self),
            r matches Some(i) ==> {
                &&& i == old(self).chunk.global_caches@.len()
                &&& final(self).inv()
                &&& old(self).same_state(final(self))
                &&& final(self).chunk.pools() == (Pools { caches: old(self).chunk.global_caches@.len() + 1, ..old(self).chunk.pools() })
                &&& final(self).chunk.names@ == old(self).chunk.names@
                &&& final(self).chunk.code@ == old(self).chunk.code@
                &&& final(self).chunk.consts@ == old(self).chunk.consts@
                &&& final(self).chunk.spans@ == old(self).chunk.spans@
                &&& old(self).grown_into(final(self))
            },
            grew_within(old(self).chunk, final(self).chunk, 1),
    {
        if self.chunk.global_caches.len() >= POOL_LIMIT {
            return None;
        }
        let ghost p0 = self.chunk.pools();
        let i = self.chunk.global_caches.len() as u32;
        self.chunk.global_caches.push(SlotCache::empty());
        proof {
            lemma_code_wf_mono(self.chunk.code@, p0, self.chunk.pools());
        }
        Some(i)
    }

    /// Takes the next temporary slot above the named ones (stack discipline;
    /// released by `free_temp`), growing the frame when needed.
    pub(crate) fn alloc_temp(&mut self) -> (r: Option<u16>)
        requires
            old(self).inv(),
        ensures
            r is None <==> old(self).named_locals as int + old(self).temps_in_use as int >= u16::MAX,
            r is None ==> *final(self) == *old(self),
            r matches Some(s) ==> {
                &&& s == old(self).named_locals + old(self).temps_in_use
                &&& s < final(self).chunk.n_locals
                &&& final(self).inv()
                &&& old(self).stable_into(final(self))
                &&& final(self).temps_in_use == old(self).temps_in_use + 1
                &&& final(self).chunk.n_locals == if old(self).chunk.n_locals > s + 1 { old(self).chunk.n_locals } else { (s + 1) as usize }
                &&& final(self).chunk.code@ == old(self).chunk.code@
                &&& final(self).chunk.stmt_spans@ == old(self).chunk.stmt_spans@
                &&& pools_le(old(self).chunk.pools(), final(self).chunk.pools())
                &&& final(self).chunk.pools() == (Pools { locals: final(self).chunk.n_locals as nat, ..old(self).chunk.pools() })
                &&& final(self).loops == old(self).loops
                &&& final(self).block_ctxs == old(self).block_ctxs
                &&& final(self).try_stack == old(self).try_stack
                &&& final(self).stmt_base == old(self).stmt_base
                &&& final(self).pending == old(self).pending
                &&& final(self).pending_stmt == old(self).pending_stmt
                &&& final(self).slots == old(self).slots
                &&& final(self).cells == old(self).cells
                &&& final(self).statics == old(self).statics
                &&& final(self).cell_by_slot == old(self).cell_by_slot
                &&& final(self).named_locals == old(self).named_locals
                &&& final(self).in_finally == old(self).in_finally
                &&& final(self).mode == old(self).mode
                &&& final(self).shadowed_for_targets == old(self).shadowed_for_targets
            },
    {
        if self.named_locals as u32 + self.temps_in_use as u32 >= 0xffff {
            return None;
        }
        let ghost p0 = self.chunk.pools();
        let slot = self.named_locals + self.temps_in_use;
        self.temps_in_use = self.temps_in_use + 1;
        let total = self.named_locals as usize + self.temps_in_use as usize;
        if total > self.chunk.n_locals {
            self.chunk.n_locals = total;
        }
        proof {
            lemma_code_wf_mono(self.chunk.code@, p0, self.chunk.pools());
        }
        Some(slot)
    }

    /// Releases the most recent temporary slot.
    pub(crate) fn free_temp(&mut self)
        requires
            old(self).inv(),
            old(self).temps_in_use > 0,
        ensures
            final(self).inv(),
            old(self).stable_into(final(self)),
            final(self).temps_in_use == old(self).temps_in_use - 1,
            final(self).chunk == old(self).chunk,
            final(self).loops == old(self).loops,
            final(self).block_ctxs == old(self).block_ctxs,
            final(self).try_stack == old(self).try_stack,
            final(self).stmt_base == old(self).stmt_base,
            final(self).pending == old(self).pending,
            final(self).pending_stmt == old(self).pending_stmt,
            final(self).slots == old(self).slots,
            final(self).cells == old(self).cells,
            final(self).statics == old(self).statics,
            final(self).named_locals == old(self).named_locals,
            final(self).in_finally == old(self).in_finally,
            final(self).mode == old(self).mode,
            final(self).shadowed_for_targets == old(self).shadowed_for_targets,
    {
        self.temps_in_use = self.temps_in_use - 1;
    }

    /// `LoadGlobal` of `name` with a fresh lookup cache.
    pub(crate) fn emit_load_global(&mut self, name: &str) -> (r: Option<()>)
        requires
            old(self).inv(),
        ensures
            r is Some ==> final(self).inv() && old(self).grown_into(final(self)),
            r is Some ==> final(self).chunk.code@.len() == old(self).chunk.code@.len() + 1,
            r is Some ==> old(self).same_frame(final(self)),
            r is Some ==> final(self).chunk.code@ == old(self).chunk.code@.push(
                Op::LoadGlobal(old(self).chunk.names@.len() as u32, old(self).chunk.global_caches@.len() as u32),
            ),
            r is Some ==> final(self).chunk.names@.len() == old(self).chunk.names@.len() + 1
                && final(self).chunk.names@.last()@ == name@,
            old(self).chunk.names@.len() < POOL_LIMIT && old(self).chunk.global_caches@.len() < POOL_LIMIT
                && old(self).chunk.code@.len() < POOL_LIMIT ==> r is Some,
            r is Some ==> final(self).chunk.global_caches@.len() == old(self).chunk.global_caches@.len() + 1,
            r is Some ==> final(self).chunk.stmt_spans@ == old(self).chunk.stmt_spans@.push(match old(self).pending_stmt {
                Some(p) => p,
                None => NOT_STMT,
            }),
            r is None ==> chunk_full(final(self).chunk),
            r is Some ==> final(self).chunk.consts@ == old(self).chunk.consts@,
            r is Some ==> final(self).chunk.n_locals == old(self).chunk.n_locals && final(self).chunk.n_cells == old(self).chunk.n_cells,
            grew_within(old(self).chunk, final(self).chunk, 1),
    {
        let ni = self.add_name(name)?;
        let ci = self.add_cache()?;
        self.emit(Op::LoadGlobal(ni, ci))?;
        Some(())
    }
}

/// First cell recorded for slot `s` in `t`.
pub(crate) open spec fn cell_for_slot(t: Seq<(u16, u16)>, s: u16) -> Option<u16>
    decreases t.len(),
{
    if t.len() == 0 {
        None
    } else if t[0].0 == s {
        Some(t[0].1)
    } else {
        cell_for_slot(t.drop_first(), s)
    }
}

proof fn lemma_cell_for_slot_in(t: Seq<(u16, u16)>, s: u16)
    ensures
        cell_for_slot(t, s) matches Some(c) ==> exists|i: int| 0 <= i < t.len() && t[i].1 == c,
    decreases t.len(),
{
    if t.len() > 0 && t[0].0 != s {
        lemma_cell_for_slot_in(t.drop_first(), s);
        if let Some(c) = cell_for_slot(t, s) {
            let i = choose|i: int| 0 <= i < t.drop_first().len() && t.drop_first()[i].1 == c;
            assert(t[i + 1].1 == c);
        }
    }
}

/// The primitive type a `"int"`/`"float"` annotation names.
pub(crate) open spec fn prim_of_annotation(t: Option<String>) -> Option<BinOperandKind> {
    match t {
        Some(s) => if s@ == "int"@ {
            Some(BinOperandKind::Int)
        } else if s@ == "float"@ {
            Some(BinOperandKind::Float)
        } else {
            None
        },
        None => None,
    }
}

/// The operations that have a type-specialised form for `kind` (the integer
/// forms cover every arithmetic, bitwise and comparison operation; the float
/// forms have no `//`, `%` or bitwise operations).
pub(crate) open spec fn gate_allows(kind: BinOperandKind, op: BinOp) -> bool {
    match kind {
        BinOperandKind::Int => !(op is And || op is Or),
        BinOperandKind::Float => op is Add || op is Sub || op is Mul || op is Div || op is Pow || op is Lt
            || op is Gt || op is LtEq || op is GtEq || op is Eq || op is NotEq,
    }
}

/// Where a store writes is inside the pools.
pub(crate) open spec fn store_target_wf(t: StoreTarget, p: Pools) -> bool {
    match t {
        StoreTarget::Local(s) => s < p.locals,
        StoreTarget::Global(n, c) => n < p.names && c < p.caches,
        StoreTarget::Static(s) => s < p.spans,
        StoreTarget::Cell(i) => i < p.cells,
        StoreTarget::Name(n) => n < p.names,
    }
}

/// The position a statement carries for the line table, if any.
pub(crate) open spec fn stmt_span_spec(s: Stmt) -> Option<Span> {
    match s {
        Stmt::Raise { span, .. } => Some(span),
        Stmt::BreakPoint { span } => Some(span),
        Stmt::Static(_, _, span) => Some(span),
        Stmt::Freeze(_, span) => Some(span),
        _ => None,
    }
}

/// The position a statement carries for the line table, if any.
pub(crate) fn stmt_span_of(s: &Stmt) -> (r: Option<Span>)
    ensures
        r == stmt_span_spec(*s),
{
    match s {
        Stmt::Raise { span, .. } => Some(*span),
        Stmt::BreakPoint { span } => Some(*span),
        Stmt::Static(_, _, span) => Some(*span),
        Stmt::Freeze(_, span) => Some(*span),
        _ => None,
    }
}

/// The instruction that pops the top of the stack into `t`.
pub(crate) open spec fn store_op(t: StoreTarget) -> Op {
    match t {
        StoreTarget::Local(s) => Op::StoreLocal(s),
        StoreTarget::Global(n, c) => Op::StoreGlobal(n, c),
        StoreTarget::Static(s) => Op::StoreStatic(s),
        StoreTarget::Cell(i) => Op::StoreCell(i),
        StoreTarget::Name(n) => Op::StoreName(n),
    }
}

/// A binary operation fused with its operands (a local and a local or a
/// constant).
pub(crate) open spec fn is_fused_bin(op: Op) -> bool {
    ||| op is IntBinLL
    ||| op is FloatBinLL
    ||| op is BinLocalLocal
    ||| op is IntBinLC
    ||| op is FloatBinLC
    ||| op is BinLocalConst
}

/// Keeps `kind` when `op` has a type-specialised form for it.
pub(crate) fn gate_bin_kind(kind: BinOperandKind, op: BinOp) -> (r: Option<BinOperandKind>)
    ensures
        r == (if gate_allows(kind, op) { Some(kind) } else { None }),
{
    let allowed = match kind {
        BinOperandKind::Int => !matches!(op, BinOp::And | BinOp::Or),
        BinOperandKind::Float => matches!(
            op,
            BinOp::Add | BinOp::Sub | BinOp::Mul | BinOp::Div | BinOp::Pow | BinOp::Lt | BinOp::Gt
                | BinOp::LtEq | BinOp::GtEq | BinOp::Eq | BinOp::NotEq
        ),
    };
    if allowed {
        Some(kind)
    } else {
        None
    }
}

/// The common kind of two operands, when both are known and equal.
pub(crate) fn pair_kind(l: BinOperandKind, r: BinOperandKind) -> (k: Option<BinOperandKind>)
    ensures
        k == (if l == r { Some(l) } else { None }),
{
    if l == r {
        Some(l)
    } else {
        None
    }
}

/// A numeric or boolean literal as a constant (fusion candidate).
pub(crate) fn as_const_lit(e: &Expr) -> (r: Option<Value>)
    ensures
        r == (match *e {
            Expr::Int(n) => Some(Value::Int(n)),
            Expr::Float(f) => Some(Value::Float(f)),
            Expr::Bool(b) => Some(Value::Bool(b)),
            _ => None,
        }),
{
    match e {
        Expr::Int(n) => Some(Value::Int(*n)),
        Expr::Float(f) => Some(Value::Float(*f)),
        Expr::Bool(b) => Some(Value::Bool(*b)),
        _ => None,
    }
}

impl Compiler {
    /// The slot that a plain read of `e` would load (`LoadLocal`), if any.
    pub(crate) open spec fn local_slot_spec(&self, e: Expr) -> Option<u16> {
        if self.mode == CompileMode::DebugRepl {
            None
        } else {
            match e {
                Expr::Ident { name, res, .. } => if self.statics.get_spec(name@) is Some || self.cells.get_spec(name@) is Some {
                    None
                } else {
                    match res {
                        Resolution::Local(slot) => if slot <= 0xffff && slot < self.chunk.n_locals
                            && cell_for_slot(self.cell_by_slot@, slot as u16) is None {
                            Some(slot as u16)
                        } else {
                            None
                        },
                        Resolution::Unresolved => self.slots.get_spec(name@),
                        Resolution::Global(_) => None,
                    }
                },
                _ => None,
            }
        }
    }

    /// Free identifiers are read by name (`LoadName`) rather than from the
    /// top-level scope (`LoadGlobal`).
    pub(crate) fn reads_by_name(&self) -> (r: bool)
        ensures
            r == (self.mode == CompileMode::DefinitionExpr || self.mode == CompileMode::DebugRepl
                || self.toplevel_globals@.len() > 0),
    {
        self.mode.uses_name_lookup() || self.toplevel_globals.len() > 0
    }

    /// Names missing from the slots may be written as top-level globals.
    pub(crate) fn writes_toplevel_globals(&self) -> (r: bool)
        ensures
            r == (self.toplevel_globals@.len() > 0),
    {
        self.toplevel_globals.len() > 0
    }

    /// Cell that slot `s` was moved to, if any.
    pub(crate) fn cell_of_slot(&self, s: u16) -> (r: Option<u16>)
        requires
            self.inv(),
        ensures
            r == cell_for_slot(self.cell_by_slot@, s),
            r matches Some(i) ==> i < self.chunk.n_cells,
    {
        proof {
            lemma_cell_for_slot_in(self.cell_by_slot@, s);
            assert(self.cell_by_slot@.skip(0) =~= self.cell_by_slot@);
        }
        let mut i: usize = 0;
        while i < self.cell_by_slot.len()
            invariant
                self.inv(),
                i <= self.cell_by_slot@.len(),
                cell_for_slot(self.cell_by_slot@.skip(i as int), s) == cell_for_slot(self.cell_by_slot@, s),
            decreases self.cell_by_slot@.len() - i,
        {
            assert(self.cell_by_slot@.skip(i as int).drop_first() =~= self.cell_by_slot@.skip(i as int + 1));
            if self.cell_by_slot[i].0 == s {
                return Some(self.cell_by_slot[i].1);
            }
            i = i + 1;
        }
        None
    }

    /// The slot of `e` when it is a plain local read (`LoadLocal`); the
    /// debugger prompt never fuses.
    pub(crate) fn as_local(&self, e: &Expr) -> (r: Option<u16>)
        requires
            self.inv(),
        ensures
            r == self.local_slot_spec(*e),
            r matches Some(s) ==> s < self.chunk.n_locals,
    {
        if self.mode.is_debug_repl() {
            return None;
        }
        match e {
            Expr::Ident { name, res, .. } => {
                if self.statics.contains_key(name) || self.cells.contains_key(name) {
                    return None;
                }
                match res {
                    Resolution::Local(slot) => {
                        if *slot <= 0xffff && (*slot as usize) < self.chunk.n_locals {
                            let s = *slot as u16;
                            if self.cell_of_slot(s).is_none() {
                                return Some(s);
                            }
                        }
                        None
                    },
                    Resolution::Unresolved => {
                        let r = self.slots.get(name);
                        proof {
                            if let Some(v) = r {
                                let i = choose|i: int| 0 <= i < self.slots.entries@.len() && self.slots.entries@[i].1 == v;
                                assert(self.slots.entries@[i].1 < self.chunk.n_locals);
                            }
                        }
                        r
                    },
                    Resolution::Global(_) => None,
                }
            },
            _ => None,
        }
    }

    /// Primitive type of slot `s` from its declared annotation.
    pub(crate) fn slot_prim(&self, s: u16) -> (r: Option<BinOperandKind>)
        ensures
            r == (if (s as int) < self.slot_type@.len() { prim_of_annotation(self.slot_type@[s as int]) } else { None }),
    {
        if (s as usize) < self.slot_type.len() {
            match &self.slot_type[s as usize] {
                Some(t) => {
                    if str_eq(t.as_str(), "int") {
                        Some(BinOperandKind::Int)
                    } else if str_eq(t.as_str(), "float") {
                        Some(BinOperandKind::Float)
                    } else {
                        None
                    }
                },
                None => None,
            }
        } else {
            None
        }
    }

    /// Primitive type of an operand: literals by their form, locals by their
    /// annotation.
    pub(crate) open spec fn prim_spec(&self, e: Expr) -> Option<BinOperandKind> {
        match e {
            Expr::Int(_) => Some(BinOperandKind::Int),
            Expr::Float(_) => Some(BinOperandKind::Float),
            _ => match self.local_slot_spec(e) {
                Some(s) => if (s as int) < self.slot_type@.len() { prim_of_annotation(self.slot_type@[s as int]) } else { None },
                None => None,
            },
        }
    }

    /// Primitive type of a slot from its declared annotation.
    pub(crate) open spec fn slot_prim_spec(&self, s: u16) -> Option<BinOperandKind> {
        if (s as int) < self.slot_type@.len() { prim_of_annotation(self.slot_type@[s as int]) } else { None }
    }

    /// Kind of `left <op> right` from the operands' annotations.
    pub(crate) open spec fn local_kind_spec(&self, left: Expr, right: Expr) -> Option<BinOperandKind> {
        match (self.prim_spec(left), self.prim_spec(right)) {
            (Some(l), Some(k)) => if (left is Int || left is Float) && (right is Int || right is Float) {
                None
            } else if l == k {
                Some(l)
            } else {
                None
            },
            _ => None,
        }
    }

    /// Kind of `slot <op> right` from the annotations.
    pub(crate) open spec fn slot_kind_spec(&self, slot: u16, right: Expr) -> Option<BinOperandKind> {
        match (self.slot_prim_spec(slot), self.prim_spec(right)) {
            (Some(l), Some(k)) => if l == k { Some(l) } else { None },
            _ => None,
        }
    }

    pub(crate) fn expr_prim(&self, e: &Expr) -> (r: Option<BinOperandKind>)
        requires
            self.inv(),
        ensures
            r == self.prim_spec(*e),
            r == (match *e {
                Expr::Int(_) => Some(BinOperandKind::Int),
                Expr::Float(_) => Some(BinOperandKind::Float),
                _ => match self.local_slot_spec(*e) {
                    Some(s) => if (s as int) < self.slot_type@.len() { prim_of_annotation(self.slot_type@[s as int]) } else { None },
                    None => None,
                },
            }),
    {
        match e {
            Expr::Int(_) => Some(BinOperandKind::Int),
            Expr::Float(_) => Some(BinOperandKind::Float),
            _ => match self.as_local(e) {
                Some(s) => self.slot_prim(s),
                None => None,
            },
        }
    }

    /// Primitive result type the type checker recorded for `node_id`.
    pub(crate) fn annot_prim(&self, node_id: u32) -> (r: Option<BinOperandKind>)
        ensures
            r == (match crate::annotations::assoc_get(self.annotations.resolved_types@, node_id) {
                Some(InferredType::Int) => Some(BinOperandKind::Int),
                Some(InferredType::Float) => Some(BinOperandKind::Float),
                _ => None,
            }),
    {
        match self.annotations.resolved_type(node_id) {
            Some(InferredType::Int) => Some(BinOperandKind::Int),
            Some(InferredType::Float) => Some(BinOperandKind::Float),
            _ => None,
        }
    }

    /// Kind of `left <op> right` derived from the operands' annotations (both
    /// known and equal, not both literals).
    pub(crate) fn local_operand_kind(&self, left: &Expr, right: &Expr) -> (r: Option<BinOperandKind>)
        requires
            self.inv(),
        ensures
            r == self.local_kind_spec(*left, *right),
    {
        let l = self.expr_prim(left)?;
        let r = self.expr_prim(right)?;
        let left_lit = matches!(left, Expr::Int(_) | Expr::Float(_));
        let right_lit = matches!(right, Expr::Int(_) | Expr::Float(_));
        if left_lit && right_lit {
            return None;
        }
        pair_kind(l, r)
    }

    /// Kind of `slot <op> right` from the slot's and the operand's annotations.
    pub(crate) fn slot_operand_kind(&self, slot: u16, right: &Expr) -> (r: Option<BinOperandKind>)
        requires
            self.inv(),
        ensures
            r == self.slot_kind_spec(slot, *right),
    {
        let l = self.slot_prim(slot)?;
        let r = self.expr_prim(right)?;
        pair_kind(l, r)
    }

    /// Kind recorded by the type checker for the binary operation `node_id`.
    pub(crate) fn annot_binop_kind(&self, node_id: u32) -> (r: Option<BinOperandKind>)
        ensures
            r == crate::annotations::assoc_get(self.annotations.binop_kinds@, node_id),
    {
        self.annotations.binop_kind(node_id)
    }

    /// Specialised kind of `left <op> right`: the checker's record, or else
    /// the operands' annotations; kept only where `op` has a specialised form.
    pub(crate) fn specialized_bin_kind(&self, op: BinOp, node_id: u32, left: &Expr, right: &Expr) -> (r: Option<BinOperandKind>)
        requires
            self.inv(),
        ensures
            r matches Some(k) ==> gate_allows(k, op),
            r == ({
                let k0 = match crate::annotations::assoc_get(self.annotations.binop_kinds@, node_id) {
                    Some(k) => Some(k),
                    None => self.local_kind_spec(*left, *right),
                };
                (match k0 { Some(k) => if gate_allows(k, op) { Some(k) } else { None }, None => None })
            }),
    {
        let kind = match self.annotations.binop_kind(node_id) {
            Some(k) => k,
            None => self.local_operand_kind(left, right)?,
        };
        gate_bin_kind(kind, op)
    }

    /// `specialized_bin_kind` for a left operand given by its slot.
    pub(crate) fn specialized_bin_kind_slot(&self, op: BinOp, node_id: u32, slot: u16, right: &Expr) -> (r: Option<BinOperandKind>)
        requires
            self.inv(),
        ensures
            r matches Some(k) ==> gate_allows(k, op),
            r == ({
                let k0 = match crate::annotations::assoc_get(self.annotations.binop_kinds@, node_id) {
                    Some(k) => Some(k),
                    None => self.slot_kind_spec(slot, *right),
                };
                (match k0 { Some(k) => if gate_allows(k, op) { Some(k) } else { None }, None => None })
            }),
    {
        let kind = match self.annotations.binop_kind(node_id) {
            Some(k) => k,
            None => self.slot_operand_kind(slot, right)?,
        };
        gate_bin_kind(kind, op)
    }

    /// Whether the type checker asked for the dynamic check at `node_id`.
    pub(crate) fn check_required(&self, node_id: u32) -> (r: bool)
        ensures
            r == self.annotations.check_before@.contains(node_id),
    {
        self.annotations.check_before(node_id)
    }

    /// Whether a call argument is passed as mutable: a local variable by its
    /// declared mutability, anything else conservatively mutable.
    pub(crate) fn arg_is_mutable(&self, e: &Expr) -> (r: bool)
        ensures
            r == (match *e {
                Expr::Ident { res: Resolution::Local(slot), .. } => if (slot as int) < self.slot_mut@.len() {
                    self.slot_mut@[slot as int]
                } else {
                    true
                },
                Expr::Ident { name, res: Resolution::Unresolved, .. } => match self.slots.get_spec(name@) {
                    Some(s) => if (s as int) < self.slot_mut@.len() { self.slot_mut@[s as int] } else { true },
                    None => true,
                },
                _ => true,
            }),
    {
        match e {
            Expr::Ident { res: Resolution::Local(slot), .. } => {
                if (*slot as usize) < self.slot_mut.len() {
                    self.slot_mut[*slot as usize]
                } else {
                    true
                }
            },
            Expr::Ident { name, res: Resolution::Unresolved, .. } => match self.slots.get(name) {
                Some(s) => if (s as usize) < self.slot_mut.len() {
                    self.slot_mut[s as usize]
                } else {
                    true
                },
                None => true,
            },
            _ => true,
        }
    }
}

impl Compiler {
    /// Reserves the line-table entry of the next instruction for the start of
    /// `stmt` (not at the debugger prompt, whose chunk is never paused in).
    pub(crate) fn mark_stmt_start(&mut self, stmt: &Stmt) -> (r: Option<()>)
        requires
            old(self).inv(),
        ensures
            r is Some ==> final(self).inv() && old(self).grown_into(final(self)) && old(self).same_frame(final(self)),
            r is Some ==> final(self).chunk.code@ == old(self).chunk.code@,
            r is Some ==> final(self).chunk.consts@ == old(self).chunk.consts@ && final(self).chunk.names@ == old(self).chunk.names@,
            r is Some ==> final(self).pending == old(self).pending,
            old(self).mode == CompileMode::DebugRepl ==> r is Some && final(self).pending_stmt == old(self).pending_stmt,
            old(self).mode != CompileMode::DebugRepl && r is Some ==> (final(self).pending_stmt matches Some(p) && match stmt_span_spec(*stmt) {
                Some(sp) => p < final(self).chunk.spans@.len() && final(self).chunk.spans@[p as int] == sp,
                None => p == STMT_NO_SPAN,
            }),
            stmt_span_spec(*stmt) is None || old(self).chunk.spans@.len() < POOL_LIMIT ==> r is Some,
            r is None ==> chunk_full(final(self).chunk),
            r is Some ==> final(self).chunk.stmt_spans@ == old(self).chunk.stmt_spans@,
            r is Some ==> final(self).chunk.n_locals == old(self).chunk.n_locals && final(self).chunk.n_cells == old(self).chunk.n_cells,
            grew_within(old(self).chunk, final(self).chunk, 1),
            stmt_span_spec(*stmt) is None ==> final(self).chunk == old(self).chunk,
    {
        if self.mode.is_debug_repl() {
            return Some(());
        }
        let idx = match stmt_span_of(stmt) {
            Some(span) => self.add_span(span)?,
            None => STMT_NO_SPAN,
        };
        self.pending_stmt = Some(idx);
        Some(())
    }

    /// Slot of a declared name; names living in a cell or a `static` have none.
    /// The slot a declared name has, unless it lives in a cell or a `static`.
    pub(crate) open spec fn target_slot_spec(&self, name: Seq<char>) -> Option<u16> {
        if self.cells.get_spec(name) is Some || self.statics.get_spec(name) is Some {
            None
        } else {
            self.slots.get_spec(name)
        }
    }

    pub(crate) fn slot_of(&self, name: &String) -> (r: Option<u16>)
        requires
            self.inv(),
        ensures
            r == (if self.cells.get_spec(name@) is Some || self.statics.get_spec(name@) is Some {
                None
            } else {
                self.slots.get_spec(name@)
            }),
            r matches Some(s) ==> s < self.chunk.n_locals,
    {
        if self.cells.contains_key(name) || self.statics.contains_key(name) {
            return None;
        }
        let r = self.slots.get(name);
        proof {
            if let Some(v) = r {
                let i = choose|i: int| 0 <= i < self.slots.entries@.len() && self.slots.entries@[i].1 == v;
                assert(self.slots.entries@[i].1 < self.chunk.n_locals);
            }
        }
        r
    }

    /// The global name under which a top-level declaration of `name` is made
    /// (top-level modes only, and only when no slot holds the name).
    pub(crate) fn toplevel_decl_name(&mut self, name: &String) -> (r: Option<u32>)
        requires
            old(self).inv(),
        ensures
            final(self).inv(),
            old(self).grown_into(final(self)),
            old(self).same_state(final(self)),
            r matches Some(i) ==> i < final(self).chunk.names@.len(),
            r is Some ==> old(self).toplevel_globals@.len() > 0 && old(self).slots.get_spec(name@) is None,
            old(self).toplevel_globals@.len() == 0 || old(self).slots.get_spec(name@) is Some ==> r is None && *final(self) == *old(self),
            old(self).toplevel_globals@.len() > 0 && old(self).slots.get_spec(name@) is None
                && old(self).chunk.names@.len() < POOL_LIMIT ==> r is Some,
            r matches Some(i) ==> i == old(self).chunk.names@.len() && final(self).chunk.names@[i as int]@ == name@
                && final(self).chunk.code@ == old(self).chunk.code@ && final(self).chunk.consts@ == old(self).chunk.consts@,
            r is Some ==> final(self).chunk.names@.len() == old(self).chunk.names@.len() + 1
                && forall|i: int| 0 <= i < old(self).chunk.names@.len() ==> #[trigger] final(self).chunk.names@[i] == old(self).chunk.names@[i],
            grew_within(old(self).chunk, final(self).chunk, 1),
    {
        if !self.writes_toplevel_globals() || self.slots.contains_key(name) {
            return None;
        }
        self.add_name(name.as_str())
    }

    /// Where an assignment to `name` writes: a cell, a `static`, a slot, the
    /// scope chain (module bodies), or a top-level global. `None` where a
    /// free name is read by name (a definition expression, the debugger
    /// prompt): such a write could land in the wrong scope.
    pub(crate) fn store_target(&mut self, name: &String) -> (r: Option<StoreTarget>)
        requires
            old(self).inv(),
        ensures
            r is Some ==> final(self).inv() && old(self).grown_into(final(self)) && old(self).same_state(final(self)),
            r matches Some(t) ==> store_target_wf(t, final(self).chunk.pools()),
            r matches Some(StoreTarget::Cell(i)) ==> old(self).cells.get_spec(name@) == Some(i),
            r matches Some(StoreTarget::Local(s)) ==> old(self).slots.get_spec(name@) == Some(s),
            old(self).cells.get_spec(name@) is None && old(self).statics.get_spec(name@) is None
                && old(self).slots.get_spec(name@) is None && old(self).mode == CompileMode::Module
                && r is Some ==> r matches Some(StoreTarget::Name(_)),
            old(self).mode == CompileMode::DefinitionExpr || old(self).mode == CompileMode::DebugRepl
                ==> !(r matches Some(StoreTarget::Global(_, _))) && !(r matches Some(StoreTarget::Name(_))),
            old(self).mode == CompileMode::Module ==> !(r matches Some(StoreTarget::Global(_, _))),
            old(self).mode != CompileMode::Module ==> !(r matches Some(StoreTarget::Name(_))),
            old(self).cells.get_spec(name@) is Some ==> r == Some(StoreTarget::Cell(old(self).cells.get_spec(name@)->0)),
            old(self).cells.get_spec(name@) is None && old(self).statics.get_spec(name@) is Some
                && old(self).chunk.spans@.len() < POOL_LIMIT ==> (r matches Some(StoreTarget::Static(si))
                && final(self).chunk.spans@[si as int] == old(self).statics.get_spec(name@)->0),
            old(self).cells.get_spec(name@) is None && old(self).statics.get_spec(name@) is None
                && old(self).slots.get_spec(name@) is Some ==> r == Some(StoreTarget::Local(old(self).slots.get_spec(name@)->0)),
            old(self).cells.get_spec(name@) is None && old(self).statics.get_spec(name@) is None
                && old(self).slots.get_spec(name@) is None && old(self).mode == CompileMode::Module
                && old(self).chunk.names@.len() < POOL_LIMIT ==> (r matches Some(StoreTarget::Name(k))
                && final(self).chunk.names@[k as int]@ == name@),
            r matches Some(StoreTarget::Name(k)) ==> k == old(self).chunk.names@.len(),
            r matches Some(StoreTarget::Static(_)) ==> old(self).cells.get_spec(name@) is None && old(self).statics.get_spec(name@) is Some,
            r matches Some(StoreTarget::Global(k, c)) ==> k == old(self).chunk.names@.len() && c == old(self).chunk.global_caches@.len(),
            r is Some ==> final(self).chunk.consts@ == old(self).chunk.consts@,
            grew_within(old(self).chunk, final(self).chunk, 1),
            old(self).cells.get_spec(name@) is None && old(self).statics.get_spec(name@) is None
                && old(self).slots.get_spec(name@) is None
                && (old(self).mode == CompileMode::DefinitionExpr || old(self).mode == CompileMode::DebugRepl) ==> r is None,
            old(self).cells.get_spec(name@) is None && old(self).statics.get_spec(name@) is None
                && old(self).slots.get_spec(name@) is None && old(self).mode != CompileMode::Module
                && old(self).mode != CompileMode::DefinitionExpr && old(self).mode != CompileMode::DebugRepl
                && old(self).chunk.names@.len() < POOL_LIMIT && old(self).chunk.global_caches@.len() < POOL_LIMIT
                ==> (r matches Some(StoreTarget::Global(k, _)) && final(self).chunk.names@[k as int]@ == name@),
    {
        if let Some(i) = self.cells.get(name) {
            proof {
                let k = choose|k: int| 0 <= k < self.cells.entries@.len() && self.cells.entries@[k].1 == i;
                assert(self.cells.entries@[k].1 < self.chunk.n_cells);
            }
            return Some(StoreTarget::Cell(i));
        }
        if let Some(span) = self.statics.get(name) {
            let si = self.add_span(span)?;
            return Some(StoreTarget::Static(si));
        }
        if let Some(slot) = self.slots.get(name) {
            proof {
                let k = choose|k: int| 0 <= k < self.slots.entries@.len() && self.slots.entries@[k].1 == slot;
                assert(self.slots.entries@[k].1 < self.chunk.n_locals);
            }
            return Some(StoreTarget::Local(slot));
        }
        if self.mode.is_module_body() {
            let ni = self.add_name(name.as_str())?;
            return Some(StoreTarget::Name(ni));
        }
        if self.mode.uses_name_lookup() {
            return None;
        }
        let ni = self.add_name(name.as_str())?;
        let ci = self.add_cache()?;
        Some(StoreTarget::Global(ni, ci))
    }

    /// Pops the top of the stack into `t`.
    pub(crate) fn emit_store(&mut self, t: StoreTarget) -> (r: Option<()>)
        requires
            old(self).inv(),
            store_target_wf(t, old(self).chunk.pools()),
            old(self).mode == CompileMode::DefinitionExpr || old(self).mode == CompileMode::DebugRepl
                ==> !(t is Global) && !(t is Name),
            old(self).mode == CompileMode::Module ==> !(t is Global),
            old(self).mode != CompileMode::Module ==> !(t is Name),
        ensures
            r is Some ==> final(self).inv() && old(self).grown_into(final(self)) && old(self).same_frame(final(self)),
            r is Some ==> final(self).chunk.code@ == old(self).chunk.code@.push(store_op(t)),
            r is Some ==> final(self).chunk.consts@ == old(self).chunk.consts@ && final(self).chunk.names@ == old(self).chunk.names@,
            old(self).chunk.code@.len() < POOL_LIMIT ==> r is Some,
    {
        match t {
            StoreTarget::Local(s) => self.emit(Op::StoreLocal(s))?,
            StoreTarget::Global(n, c) => self.emit(Op::StoreGlobal(n, c))?,
            StoreTarget::Static(s) => self.emit(Op::StoreStatic(s))?,
            StoreTarget::Cell(i) => self.emit(Op::StoreCell(i))?,
            StoreTarget::Name(n) => self.emit(Op::StoreName(n))?,
        };
        Some(())
    }

    /// Name index of a block expression's `->T` annotation, if it has one.
    pub(crate) fn add_return_type(&mut self, return_type: &Option<String>) -> (r: Option<Option<u32>>)
        requires
            old(self).inv(),
        ensures
            r is Some ==> final(self).inv() && old(self).grown_into(final(self)) && old(self).same_state(final(self)),
            r matches Some(Some(i)) ==> i < final(self).chunk.names@.len(),
            r matches Some(a) ==> (a is Some <==> return_type is Some),
            return_type is None ==> r == Some(None::<u32>) && *final(self) == *old(self),
            old(self).chunk.names@.len() < POOL_LIMIT ==> r is Some,
            r matches Some(Some(i)) ==> i == old(self).chunk.names@.len() && final(self).chunk.names@[i as int]@ == return_type->0@
                && final(self).chunk.code@ == old(self).chunk.code@,
    {
        match return_type {
            Some(t) => {
                let i = self.add_name(t.as_str())?;
                Some(Some(i))
            },
            None => Some(None),
        }
    }

    /// A binary operation on the two topmost values, type-specialised when
    /// `kind` is known.
    pub(crate) fn emit_bin_specialized(&mut self, kind: Option<BinOperandKind>, op: BinOp) -> (r: Option<()>)
        requires
            old(self).inv(),
        ensures
            r is Some ==> final(self).inv() && old(self).grown_into(final(self)) && old(self).same_frame(final(self)),
            r is Some ==> final(self).chunk.code@ == old(self).chunk.code@.push(match kind {
                Some(BinOperandKind::Int) => Op::IntBinSS(op),
                Some(BinOperandKind::Float) => Op::FloatBinSS(op),
                None => Op::Bin(op),
            }),
            r is Some ==> final(self).chunk.consts@ == old(self).chunk.consts@,
            old(self).chunk.code@.len() < POOL_LIMIT ==> r is Some,
    {
        match kind {
            Some(BinOperandKind::Int) => self.emit(Op::IntBinSS(op))?,
            Some(BinOperandKind::Float) => self.emit(Op::FloatBinSS(op))?,
            None => self.emit(Op::Bin(op))?,
        };
        Some(())
    }

    /// Emits `slot <op> right` as one fused instruction when `right` is a
    /// local or a literal; `Some(false)` when it is neither (nothing emitted).
    pub(crate) fn emit_bin_fused_slot(&mut self, a: u16, kind: Option<BinOperandKind>, right: &Expr, op: BinOp) -> (r: Option<bool>)
        requires
            old(self).inv(),
            a < old(self).chunk.n_locals,
        ensures
            r is Some ==> final(self).inv() && old(self).grown_into(final(self)) && old(self).same_frame(final(self)),
            r == Some(false) ==> *final(self) == *old(self),
            r == Some(true) ==> final(self).chunk.code@.len() == old(self).chunk.code@.len() + 1,
            r == Some(true) ==> is_fused_bin(final(self).chunk.code@.last()),
            old(self).chunk.code@.len() < POOL_LIMIT && old(self).chunk.consts@.len() < POOL_LIMIT ==> r is Some,
    {
        if let Some(b) = self.as_local(right) {
            match kind {
                Some(BinOperandKind::Int) => self.emit(Op::IntBinLL(a, b, op))?,
                Some(BinOperandKind::Float) => self.emit(Op::FloatBinLL(a, b, op))?,
                None => self.emit(Op::BinLocalLocal(a, b, op))?,
            };
            Some(true)
        } else if let Some(cv) = as_const_lit(right) {
            let ci = self.add_const(cv)?;
            match kind {
                Some(BinOperandKind::Int) => self.emit(Op::IntBinLC(a, ci, op))?,
                Some(BinOperandKind::Float) => self.emit(Op::FloatBinLC(a, ci, op))?,
                None => self.emit(Op::BinLocalConst(a, ci, op))?,
            };
            Some(true)
        } else {
            Some(false)
        }
    }

    /// Emits `left <op> right` as one fused instruction when `left` is a local
    /// and `right` a local or a literal; `Some(false)` otherwise.
    pub(crate) fn try_emit_bin_fused(&mut self, left: &Expr, right: &Expr, op: BinOp, node_id: u32) -> (r: Option<bool>)
        requires
            old(self).inv(),
        ensures
            r is Some ==> final(self).inv() && old(self).grown_into(final(self)) && old(self).same_frame(final(self)),
            r == Some(false) ==> *final(self) == *old(self),
            r == Some(true) ==> final(self).chunk.code@.len() == old(self).chunk.code@.len() + 1,
            r == Some(true) ==> is_fused_bin(final(self).chunk.code@.last()),
            old(self).chunk.code@.len() < POOL_LIMIT && old(self).chunk.consts@.len() < POOL_LIMIT ==> r is Some,
            old(self).local_slot_spec(*left) is None ==> r == Some(false),
    {
        let a = match self.as_local(left) {
            Some(a) => a,
            None => return Some(false),
        };
        let kind = self.specialized_bin_kind(op, node_id, left, right);
        self.emit_bin_fused_slot(a, kind, right, op)
    }
}

impl Compiler {
    /// Free identifiers are read by name (`LoadName`) rather than as top-level
    /// globals (`LoadGlobal`).
    pub(crate) open spec fn reads_by_name_spec(&self) -> bool {
        self.mode == CompileMode::DefinitionExpr || self.mode == CompileMode::DebugRepl
            || self.toplevel_globals@.len() > 0
    }

    /// The statement context of `self` is that of `new` again: the operand
    /// depth at the statement boundary, the open `try`s, the loops, the
    /// variable tables (slots, cells, `static`s) and the frame's size.
    pub(crate) open spec fn frame_restored(&self, new: &Compiler) -> bool {
        &&& new.stmt_base == self.stmt_base
        &&& new.try_stack == self.try_stack
        &&& new.loops@.len() == self.loops@.len()
        &&& new.slots == self.slots
        &&& new.cells == self.cells
        &&& new.statics == self.statics
        &&& new.chunk.n_locals == self.chunk.n_locals
        &&& new.chunk.n_cells == self.chunk.n_cells
    }

    /// The line-table entry the next instruction gets: the reserved statement
    /// start, or `NOT_STMT`.
    pub(crate) open spec fn pending_entry(&self) -> u32 {
        match self.pending_stmt {
            Some(p) => p,
            None => NOT_STMT,
        }
    }

    /// `new` is `self` with `op` appended, and its line-table entry.
    pub(crate) open spec fn appended(&self, new: &Compiler, op: Op) -> bool {
        &&& new.chunk.code@ == self.chunk.code@.push(op)
        &&& new.chunk.stmt_spans@ == self.chunk.stmt_spans@.push(match self.pending_stmt {
            Some(p) => p,
            None => NOT_STMT,
        })
    }

    /// `new` reads `name` by name: `LoadName` of a new name-pool entry.
    pub(crate) open spec fn loads_by_name(&self, new: &Compiler, name: Seq<char>) -> bool {
        &&& self.appended(new, Op::LoadName(self.chunk.names@.len() as u32))
        &&& new.chunk.names@.len() == self.chunk.names@.len() + 1
        &&& new.chunk.names@.last()@ == name
    }

    /// `new` reads `name` as a top-level global: `LoadGlobal` of a new name-pool
    /// entry with a fresh lookup cache.
    pub(crate) open spec fn loads_global(&self, new: &Compiler, name: Seq<char>) -> bool {
        &&& self.appended(new, Op::LoadGlobal(self.chunk.names@.len() as u32, self.chunk.global_caches@.len() as u32))
        &&& new.chunk.names@.len() == self.chunk.names@.len() + 1
        &&& new.chunk.names@.last()@ == name
        &&& new.chunk.global_caches@.len() == self.chunk.global_caches@.len() + 1
    }

    /// The one load `compile_ident` appends for `name` resolved as `res`:
    /// a cell, then a `static`, then by resolution (a slot or the cell the
    /// slot moved to; a resolved global; for an unresolved name `Self` in a
    /// method, the receiver's class; at the debugger prompt by name; a slot of
    /// that name; else by name or as a global).
    pub(crate) open spec fn ident_loaded(&self, new: &Compiler, name: Seq<char>, res: Resolution) -> bool {
        match self.cells.get_spec(name) {
            Some(i) => self.appended(new, Op::LoadCell(i)),
            None => match self.statics.get_spec(name) {
                Some(sp) => self.appended(new, Op::LoadStatic(self.chunk.spans@.len() as u32))
                    && new.chunk.spans@ == self.chunk.spans@.push(sp),
                None => match res {
                    Resolution::Local(slot) => match cell_for_slot(self.cell_by_slot@, slot as u16) {
                        Some(i) => self.appended(new, Op::LoadCell(i)),
                        None => self.appended(new, Op::LoadLocal(slot as u16)),
                    },
                    Resolution::Global(_) => self.loads_global(new, name),
                    Resolution::Unresolved => if name == "Self"@ && self.self_slot is Some && self.slots.get_spec(name) is None {
                        self.appended(new, Op::LoadSelfClass)
                    } else if self.mode == CompileMode::DebugRepl {
                        self.loads_by_name(new, name)
                    } else {
                        match self.slots.get_spec(name) {
                            Some(s) => self.appended(new, Op::LoadLocal(s)),
                            None => if self.reads_by_name_spec() {
                                self.loads_by_name(new, name)
                            } else {
                                self.loads_global(new, name)
                            },
                        }
                    },
                },
            },
        }
    }

    /// Reads the identifier `name` (resolved as `res`): a cell, a `static`, a
    /// slot (or the cell the slot was moved to), a resolved global, the
    /// method receiver's class for `Self`, or a free name (by name where free
    /// names are read by name, else as a top-level global).
    pub(crate) fn compile_ident(&mut self, name: &String, res: Resolution) -> (r: Option<()>)
        requires
            old(self).inv(),
        ensures
            r is Some ==> old(self).chunk.code@.len() < final(self).chunk.code@.len(),
            r is Some ==> final(self).inv() && old(self).grown_into(final(self)) && old(self).same_frame(final(self)),
            r is Some ==> old(self).ident_loaded(final(self), name@, res),
            r is Some ==> final(self).chunk.consts@ == old(self).chunk.consts@,
            res is Unresolved && r is None ==> chunk_full(final(self).chunk),
            r is Some ==> final(self).chunk.n_locals == old(self).chunk.n_locals && final(self).chunk.n_cells == old(self).chunk.n_cells,
            grew_within(old(self).chunk, final(self).chunk, 1),
    {
        if let Some(i) = self.cells.get(name) {
            proof {
                let k = choose|k: int| 0 <= k < self.cells.entries@.len() && self.cells.entries@[k].1 == i;
                assert(self.cells.entries@[k].1 < self.chunk.n_cells);
            }
            self.emit(Op::LoadCell(i))?;
            return Some(());
        }
        if let Some(span) = self.statics.get(name) {
            let si = self.add_span(span)?;
            self.emit(Op::LoadStatic(si))?;
            return Some(());
        }
        match res {
            Resolution::Local(slot) => {
                if slot > 0xffff {
                    return None;
                }
                let s = slot as u16;
                match self.cell_of_slot(s) {
                    Some(i) => {
                        self.emit(Op::LoadCell(i))?;
                    },
                    None => {
                        if (s as usize) >= self.chunk.n_locals {
                            return None;
                        }
                        self.emit(Op::LoadLocal(s))?;
                    },
                }
                Some(())
            },
            Resolution::Global(_) => self.emit_load_global(name.as_str()),
            Resolution::Unresolved => {
                if str_eq(name.as_str(), "Self") && self.self_slot.is_some() && !self.slots.contains_key(name) {
                    self.emit(Op::LoadSelfClass)?;
                    return Some(());
                }
                if self.mode.is_debug_repl() {
                    let ni = self.add_name(name.as_str())?;
                    self.emit(Op::LoadName(ni))?;
                    return Some(());
                }
                match self.slots.get(name) {
                    Some(slot) => {
                        proof {
                            let k = choose|k: int| 0 <= k < self.slots.entries@.len() && self.slots.entries@[k].1 == slot;
                            assert(self.slots.entries@[k].1 < self.chunk.n_locals);
                        }
                        self.emit(Op::LoadLocal(slot))?;
                        Some(())
                    },
                    None => {
                        if self.reads_by_name() {
                            let ni = self.add_name(name.as_str())?;
                            self.emit(Op::LoadName(ni))?;
                            Some(())
                        } else {
                            self.emit_load_global(name.as_str())
                        }
                    },
                }
            },
        }
    }
}

} // verus!

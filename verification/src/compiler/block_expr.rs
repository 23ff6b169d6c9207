//! The block expressions (`block:`, `if`, `match`, `for`, `while` with a
//! value) and the statements that leave them (`block_return`, `loop_yield`).
//!
//! A block expression keeps its result in a temporary: `block_return v`
//! stores `v` there and jumps to the block's exit; falling off the end gives
//! the `loop_yield` list (for the forms that collect one) or `None`.
use vstd::prelude::*;

use crate::ast::{Expr, Stmt};
use crate::compiler::control::{all_from, lemma_grown_trans, lemma_patch_all_keeps, lemma_patch_keeps, lemma_stable_trans};
use crate::compiler::decls::{arms_bail, block_body_bails, branches_bail};
use crate::compiler::{jumps_ok, BlockCtx, Compiler, MAX_FINALLY_NEST};
use crate::op::Op;

use crate::compiler::POOL_LIMIT;

verus! {

impl Compiler {
    /// Opens a block expression whose result goes to `result_slot`.
    pub(crate) fn push_block(&mut self, result_slot: u16, yield_slot: Option<u16>, ann: Option<u32>)
        requires
            old(self).inv(),
            result_slot < old(self).chunk.n_locals,
            yield_slot matches Some(s) ==> s < old(self).chunk.n_locals,
            ann matches Some(i) ==> i < old(self).chunk.names@.len(),
        ensures
            final(self).inv(),
            final(self).chunk == old(self).chunk,
            final(self).block_ctxs@.len() == old(self).block_ctxs@.len() + 1,
            final(self).block_ctxs@.last().start@ == old(self).chunk.code@.len(),
            forall|i: int| 0 <= i < old(self).block_ctxs@.len() ==> #[trigger] final(self).block_ctxs@[i] == old(self).block_ctxs@[i],
            final(self).loops == old(self).loops,
            final(self).try_stack == old(self).try_stack,
            final(self).temps_in_use == old(self).temps_in_use,
            final(self).named_locals == old(self).named_locals,
            final(self).in_finally == old(self).in_finally,
            final(self).mode == old(self).mode,
            final(self).stmt_base == old(self).stmt_base,
    {
        self.block_ctxs.push(BlockCtx {
            result_slot,
            end_jumps: Vec::new(),
            yield_slot,
            try_len: self.try_stack.len(),
            entry_depth: self.stmt_base,
            return_type: ann,
            start: Ghost(self.chunk.code@.len() as int),
        });
    }

    /// Closes the innermost block expression; its `block_return` jumps are
    /// returned for patching.
    pub(crate) fn pop_block(&mut self) -> (r: Vec<usize>)
        requires
            old(self).inv(),
            old(self).block_ctxs@.len() > 0,
        ensures
            final(self).inv(),
            final(self).chunk == old(self).chunk,
            final(self).block_ctxs@ == old(self).block_ctxs@.drop_last(),
            jumps_ok(final(self).chunk.code@, r@),
            all_from(r@, old(self).block_ctxs@.last().start@ as nat),
            final(self).loops == old(self).loops,
            final(self).try_stack == old(self).try_stack,
            final(self).temps_in_use == old(self).temps_in_use,
            final(self).named_locals == old(self).named_locals,
            final(self).in_finally == old(self).in_finally,
            final(self).mode == old(self).mode,
            final(self).stmt_base == old(self).stmt_base,
    {
        let ghost last = self.block_ctxs@.last();
        let ctx = self.block_ctxs.pop().unwrap();
        proof {
            assert(old(self).block_ctxs@[old(self).block_ctxs@.len() - 1] == last);
        }
        ctx.end_jumps
    }

    /// A `block:` body (expression or statement form) whose operand stack
    /// starts at `entry_depth`; `owns_yields` when it collects `loop_yield`s
    /// (the expression form; the statement form passes them outward).
    #[verifier::rlimit(40)]
    pub(crate) fn compile_block_expr(&mut self, stmts: &Vec<Stmt>, entry_depth: Option<u16>, ann: Option<u32>, owns_yields: bool) -> (r: Option<()>)
        requires
            old(self).inv(),
            ann matches Some(i) ==> i < old(self).chunk.names@.len(),
        ensures
            (exists|i: int| 0 <= i < stmts@.len() && #[trigger] stmts@[i] is Return) ==> r is None,
            stmts@.len() == 0 && old(self).named_locals + old(self).temps_in_use + 2 < u16::MAX
                && old(self).chunk.code@.len() + 7 < POOL_LIMIT ==> r is Some,
            stmts@.len() == 0 && r is Some ==> final(self).chunk.code@.len() <= old(self).chunk.code@.len() + 6,
            crate::compiler::stmt::flow_stmts(stmts@) && old(self).named_locals + old(self).temps_in_use + 2 < u16::MAX
                && crate::compiler::has_room(old(self).chunk, crate::compiler::stmt::flow_sizes(stmts@) + 7) ==> r is Some,
            crate::compiler::stmt::flow_stmts(stmts@) && r is Some
                ==> final(self).chunk.code@.len() <= old(self).chunk.code@.len() + crate::compiler::stmt::flow_sizes(stmts@) + 6,
            r is Some ==> old(self).chunk.code@.len() < final(self).chunk.code@.len(),
            r is Some ==> final(self).inv() && old(self).grown_into(final(self)),
        decreases MAX_FINALLY_NEST + 1 - old(self).in_finally, 1int, *stmts, 1int,
    {
        proof {
            if crate::compiler::stmt::flow_stmts(stmts@) {
                assert forall|i: int| 0 <= i < stmts@.len() implies !crate::compiler::decls::bails(#[trigger] stmts@[i]) by {
                    crate::compiler::stmt::lemma_flow_no_bail(stmts@[i]);
                }
            }
        }
        if block_body_bails(stmts) {
            return None;
        }
        let saved_base = self.stmt_base;
        self.stmt_base = entry_depth;
        let ghost s0 = *self;
        let yield_slot = if owns_yields {
            let s = self.alloc_temp()?;
            self.emit(Op::BuildEmptyList)?;
            self.emit(Op::StoreLocal(s))?;
            Some(s)
        } else {
            None
        };
        let result_slot = self.alloc_temp()?;
        let ghost s1 = *self;
        self.push_block(result_slot, yield_slot, ann);
        let ghost s2 = *self;
        self.compile_stmts(stmts)?;
        let ghost s3 = *self;
        let ends = self.pop_block();
        let ghost s4 = *self;
        proof { lemma_block_bracket(s1, s2, s3, s4); }
        self.finish_block_value(&ends, yield_slot, result_slot, Ghost(s1))?;
        let ghost s5 = *self;
        self.free_temp();
        if yield_slot.is_some() {
            self.free_temp();
        }
        self.stmt_base = saved_base;
        proof {
            lemma_stable_trans(*old(self), s0, s1);
            lemma_stable_trans(*old(self), s1, s5);
            lemma_stable_trans(*old(self), s5, *self);
        }
        Some(())
    }

    /// Ends a block expression: the fall-through value (the `loop_yield` list
    /// or `None`), a jump over the `block_return` exit, the exit (loading
    /// `result_slot`), and the patches of both.
    pub(crate) fn finish_block_value(&mut self, ends: &Vec<usize>, yield_slot: Option<u16>, result_slot: u16, base: Ghost<Compiler>) -> (r: Option<()>)
        requires
            old(self).inv(),
            base@.grown_into(old(self)),
            jumps_ok(old(self).chunk.code@, ends@),
            all_from(ends@, base@.chunk.code@.len()),
            result_slot < old(self).chunk.n_locals,
            yield_slot matches Some(s) ==> s < old(self).chunk.n_locals,
        ensures
            r is Some ==> final(self).inv() && base@.grown_into(final(self)),
            r is Some ==> final(self).chunk.code@.len() >= old(self).chunk.code@.len() + 3,
            r is Some ==> final(self).chunk.code@.last() == Op::LoadLocal(result_slot),
            old(self).chunk.code@.len() + 4 < POOL_LIMIT ==> r is Some,
            r is Some ==> final(self).chunk.code@.len() <= old(self).chunk.code@.len() + 4,
    {
        match yield_slot {
            Some(s) => {
                self.emit(Op::LoadLocal(s))?;
                self.emit(Op::ListOrNone)?;
            },
            None => {
                self.emit(Op::Nil)?;
            },
        }
        let after_normal = self.emit(Op::Jump(0))?;
        let br_end = self.here();
        let ghost s1 = *self;
        self.patch_all(ends, br_end);
        proof {
            lemma_grown_trans(base@, *old(self), s1);
            lemma_patch_all_keeps(base@, s1, *self, ends@);
        }
        self.emit(Op::LoadLocal(result_slot))?;
        let expr_end = self.here();
        let ghost s2 = *self;
        self.patch_jump(after_normal, expr_end);
        proof { lemma_patch_keeps(base@, s2, *self, after_normal as int); }
        Some(())
    }
}

impl Compiler {
    /// The five block expressions; the `->T` annotation goes to the name pool.
    pub(crate) fn compile_block_family(&mut self, e: &Expr, pending: Option<u16>) -> (r: Option<()>)
        requires
            old(self).inv(),
        ensures
            r is Some ==> old(self).chunk.code@.len() < final(self).chunk.code@.len(),
            r is Some ==> final(self).inv() && old(self).grown_into(final(self)),
        decreases MAX_FINALLY_NEST + 1 - old(self).in_finally, 1int, *e, 1int,
    {
        match e {
            Expr::Block { stmts, return_type } => {
                let ann = self.add_return_type(return_type)?;
                self.compile_block_expr(stmts, pending, ann, true)
            },
            Expr::IfExpr { return_type, .. } => {
                let ann = self.add_return_type(return_type)?;
                self.compile_if_expr(e, pending, ann)
            },
            Expr::MatchExpr { return_type, .. } => {
                let ann = self.add_return_type(return_type)?;
                self.compile_match_expr(e, pending, ann)
            },
            Expr::ForExpr { return_type, .. } => {
                let ann = self.add_return_type(return_type)?;
                self.compile_for_expr(e, ann)
            },
            Expr::WhileExpr { return_type, .. } => {
                let ann = self.add_return_type(return_type)?;
                self.compile_while_expr(e, ann)
            },
            _ => None,
        }
    }

    /// `if cond -> T: ...` expression: the value of the `block_return` of the
    /// branch taken, else `None`; transparent to `loop_yield`.
    pub(crate) fn compile_if_expr(&mut self, e: &Expr, entry_depth: Option<u16>, ann: Option<u32>) -> (r: Option<()>)
        requires
            old(self).inv(),
            ann matches Some(i) ==> i < old(self).chunk.names@.len(),
        ensures
            r is Some ==> old(self).chunk.code@.len() < final(self).chunk.code@.len(),
            r is Some ==> final(self).inv() && old(self).grown_into(final(self)),
        decreases MAX_FINALLY_NEST + 1 - old(self).in_finally, 1int, *e, 0int,
    {
        let (branches, else_body) = match e {
            Expr::IfExpr { branches, else_body, .. } => (branches, else_body),
            _ => {
                return None;
            },
        };
        if branches_bail(branches) {
            return None;
        }
        if let Some(eb) = else_body {
            if block_body_bails(eb) {
                return None;
            }
        }
        let saved_base = self.stmt_base;
        self.stmt_base = entry_depth;
        let ghost s0 = *self;
        let result_slot = self.alloc_temp()?;
        self.emit(Op::Nil)?;
        self.emit(Op::StoreLocal(result_slot))?;
        let ghost s1 = *self;
        self.push_block(result_slot, None, ann);
        let ghost s2 = *self;
        let ends = self.compile_branches(branches)?;
        if let Some(eb) = else_body {
            self.compile_stmts(eb)?;
        }
        let ghost s3 = *self;
        let block_ends = self.pop_block();
        let ghost s4 = *self;
        proof { lemma_block_bracket(s1, s2, s3, s4); }
        let end = self.here();
        self.patch_all(&ends, end);
        let ghost s5 = *self;
        proof {
            lemma_patch_all_keeps(s1, s4, s5, ends@);
            assert forall|q: int| 0 <= q < block_ends@.len() implies (#[trigger] block_ends@[q]) < self.chunk.code@.len()
                && self.chunk.code@[block_ends@[q] as int] is Jump by {
                assert(s4.chunk.code@[block_ends@[q] as int] is Jump);
            }
        }
        self.patch_all(&block_ends, end);
        proof { lemma_patch_all_keeps(s1, s5, *self, block_ends@); }
        self.emit(Op::LoadLocal(result_slot))?;
        let ghost s6 = *self;
        self.free_temp();
        self.stmt_base = saved_base;
        proof {
            lemma_stable_trans(*old(self), s0, s1);
            lemma_stable_trans(*old(self), s1, s6);
            lemma_stable_trans(*old(self), s6, *self);
        }
        Some(())
    }

    /// `match subject -> T: ...` expression: the `block_return` value of the
    /// arm taken, else `None`; transparent to `loop_yield`.
    pub(crate) fn compile_match_expr(&mut self, e: &Expr, entry_depth: Option<u16>, ann: Option<u32>) -> (r: Option<()>)
        requires
            old(self).inv(),
            ann matches Some(i) ==> i < old(self).chunk.names@.len(),
        ensures
            r is Some ==> old(self).chunk.code@.len() < final(self).chunk.code@.len(),
            r is Some ==> final(self).inv() && old(self).grown_into(final(self)),
        decreases MAX_FINALLY_NEST + 1 - old(self).in_finally, 1int, *e, 0int,
    {
        let (subject, arms) = match e {
            Expr::MatchExpr { subject, arms, .. } => (subject, arms),
            _ => {
                return None;
            },
        };
        if arms_bail(arms) {
            return None;
        }
        let saved_base = self.stmt_base;
        self.stmt_base = entry_depth;
        let ghost s0 = *self;
        let subj_temp = self.alloc_temp()?;
        self.compile_expr(subject)?;
        self.emit(Op::StoreLocal(subj_temp))?;
        let result_slot = self.alloc_temp()?;
        self.emit(Op::Nil)?;
        self.emit(Op::StoreLocal(result_slot))?;
        let ghost s1 = *self;
        self.push_block(result_slot, None, ann);
        let ghost s2 = *self;
        let ends = self.compile_arms(arms, subj_temp)?;
        let ghost s3 = *self;
        let block_ends = self.pop_block();
        let ghost s4 = *self;
        proof { lemma_block_bracket(s1, s2, s3, s4); }
        let end = self.here();
        self.patch_all(&ends, end);
        let ghost s5 = *self;
        proof {
            lemma_patch_all_keeps(s1, s4, s5, ends@);
            assert forall|q: int| 0 <= q < block_ends@.len() implies (#[trigger] block_ends@[q]) < self.chunk.code@.len()
                && self.chunk.code@[block_ends@[q] as int] is Jump by {
                assert(s4.chunk.code@[block_ends@[q] as int] is Jump);
            }
        }
        self.patch_all(&block_ends, end);
        proof { lemma_patch_all_keeps(s1, s5, *self, block_ends@); }
        self.emit(Op::LoadLocal(result_slot))?;
        let ghost s6 = *self;
        self.free_temp();
        self.free_temp();
        self.stmt_base = saved_base;
        proof {
            lemma_stable_trans(*old(self), s0, s1);
            lemma_stable_trans(*old(self), s1, s6);
            lemma_stable_trans(*old(self), s6, *self);
        }
        Some(())
    }

    /// `for t in iter -> T: ...` expression: the `block_return` value, else
    /// the `loop_yield` list (`None` when empty). The loop variable uses its
    /// own slot.
    pub(crate) fn compile_for_expr(&mut self, e: &Expr, ann: Option<u32>) -> (r: Option<()>)
        requires
            old(self).inv(),
            ann matches Some(i) ==> i < old(self).chunk.names@.len(),
        ensures
            r is Some ==> old(self).chunk.code@.len() < final(self).chunk.code@.len(),
            r is Some ==> final(self).inv() && old(self).grown_into(final(self)),
        decreases MAX_FINALLY_NEST + 1 - old(self).in_finally, 1int, *e, 0int,
    {
        let (target, iter, body) = match e {
            Expr::ForExpr { target, iter, body, .. } => (target, iter, body),
            _ => {
                return None;
            },
        };
        if block_body_bails(body) {
            return None;
        }
        // The expression is the innermost loop: its body starts at depth 0.
        let saved_base = self.stmt_base;
        self.stmt_base = Some(0);
        let ghost s0 = *self;
        let target_slot = self.slot_of_name(target)?;
        let yield_slot = self.alloc_temp()?;
        self.emit(Op::BuildEmptyList)?;
        self.emit(Op::StoreLocal(yield_slot))?;
        let result_slot = self.alloc_temp()?;
        let iter_temp = self.alloc_temp()?;
        self.compile_expr(iter)?;
        self.emit(Op::GetIter)?;
        self.emit(Op::StoreLocal(iter_temp))?;
        let loop_start = self.here();
        let ghost sp = *self;
        let fi = self.emit(Op::ForIter(iter_temp, target_slot, 0))?;
        let ghost s1 = *self;
        self.push_block(result_slot, Some(yield_slot), ann);
        let ghost s2 = *self;
        let normal_end = self.compile_loop_body(body, loop_start)?;
        let ghost s3 = *self;
        let block_ends = self.pop_block();
        let ghost s4 = *self;
        proof { lemma_block_bracket(s1, s2, s3, s4); }
        self.patch_jump(fi, normal_end);
        proof {
            lemma_grown_trans(sp, s1, s4);
            lemma_patch_keeps(sp, s4, *self, fi as int);
        }
        self.finish_block_value(&block_ends, Some(yield_slot), result_slot, Ghost(sp))?;
        let ghost s6 = *self;
        self.free_temp();
        self.free_temp();
        self.free_temp();
        self.stmt_base = saved_base;
        proof {
            lemma_stable_trans(*old(self), s0, sp);
            lemma_stable_trans(*old(self), sp, s6);
            lemma_stable_trans(*old(self), s6, *self);
        }
        Some(())
    }

    /// `while cond -> T: ...` expression: the `block_return` value, else the
    /// `loop_yield` list (`None` when empty).
    pub(crate) fn compile_while_expr(&mut self, e: &Expr, ann: Option<u32>) -> (r: Option<()>)
        requires
            old(self).inv(),
            ann matches Some(i) ==> i < old(self).chunk.names@.len(),
        ensures
            r is Some ==> old(self).chunk.code@.len() < final(self).chunk.code@.len(),
            r is Some ==> final(self).inv() && old(self).grown_into(final(self)),
        decreases MAX_FINALLY_NEST + 1 - old(self).in_finally, 1int, *e, 0int,
    {
        let (cond, body) = match e {
            Expr::WhileExpr { cond, body, .. } => (cond, body),
            _ => {
                return None;
            },
        };
        if block_body_bails(body) {
            return None;
        }
        let saved_base = self.stmt_base;
        self.stmt_base = Some(0);
        let ghost s0 = *self;
        let yield_slot = self.alloc_temp()?;
        self.emit(Op::BuildEmptyList)?;
        self.emit(Op::StoreLocal(yield_slot))?;
        let result_slot = self.alloc_temp()?;
        let loop_start = self.here();
        self.compile_expr(cond)?;
        let ghost sp = *self;
        let jf = self.emit(Op::JumpIfFalse(0))?;
        let ghost s1 = *self;
        self.push_block(result_slot, Some(yield_slot), ann);
        let ghost s2 = *self;
        let normal_end = self.compile_loop_body(body, loop_start)?;
        let ghost s3 = *self;
        let block_ends = self.pop_block();
        let ghost s4 = *self;
        proof { lemma_block_bracket(s1, s2, s3, s4); }
        self.patch_jump(jf, normal_end);
        proof {
            lemma_grown_trans(sp, s1, s4);
            lemma_patch_keeps(sp, s4, *self, jf as int);
        }
        self.finish_block_value(&block_ends, Some(yield_slot), result_slot, Ghost(sp))?;
        let ghost s6 = *self;
        self.free_temp();
        self.free_temp();
        self.stmt_base = saved_base;
        proof {
            lemma_stable_trans(*old(self), s0, sp);
            lemma_stable_trans(*old(self), sp, s6);
            lemma_stable_trans(*old(self), s6, *self);
        }
        Some(())
    }

    /// `block_return v`: checks `v` against the innermost block's `->T`,
    /// stores it in the block's result slot, unwinds the `try`s opened inside
    /// the block (and what a `finally` copy pushed), and jumps to the exit.
    pub(crate) fn compile_block_return(&mut self, stmt: &Stmt) -> (r: Option<()>)
        requires
            old(self).inv(),
        ensures
            r is Some ==> old(self).chunk.code@.len() < final(self).chunk.code@.len(),
            r is Some ==> final(self).inv() && old(self).grown_into(final(self)),
        decreases MAX_FINALLY_NEST + 1 - old(self).in_finally, 1int, *stmt, 1int,
    {
        let e = match stmt {
            Stmt::BlockReturn(e, _) => e,
            _ => {
                return None;
            },
        };
        if self.block_ctxs.len() == 0 {
            return None;
        }
        let last = self.block_ctxs.len() - 1;
        let result_slot = self.block_ctxs[last].result_slot;
        let ann = self.block_ctxs[last].return_type;
        let block_try_len = self.block_ctxs[last].try_len;
        // Inside a `finally` copy, drop what the copy sits on.
        let block_pops: u16 = match (self.stmt_base, self.block_ctxs[last].entry_depth) {
            (Some(now), Some(base)) => if now > base { now - base } else { 0 },
            _ => 0,
        };
        self.compile_expr(e)?;
        if let Some(idx) = ann {
            self.emit(Op::CheckBlockReturn(idx))?;
        }
        self.emit(Op::StoreLocal(result_slot))?;
        self.emit_unwind_tries(block_try_len, true, 0, Ghost(*stmt))?;
        let mut k: u16 = 0;
        while k < block_pops
            invariant
                self.inv(),
                old(self).grown_into(self),
            decreases block_pops - k,
        {
            self.emit(Op::Pop)?;
            k = k + 1;
        }
        let j = self.emit(Op::Jump(0))?;
        let ghost s1 = *self;
        let mut ctx = self.block_ctxs.pop().unwrap();
        ctx.end_jumps.push(j);
        self.block_ctxs.push(ctx);
        proof {
            assert(s1.block_ctxs@[s1.block_ctxs@.len() - 1] == s1.block_ctxs@.last());
            assert forall|i: int| 0 <= i < self.block_ctxs@.len() implies {
                let b = #[trigger] self.block_ctxs@[i];
                &&& b.result_slot < self.chunk.n_locals
                &&& (b.yield_slot matches Some(s) ==> s < self.chunk.n_locals)
                &&& (b.return_type matches Some(n) ==> n < self.chunk.names@.len())
                &&& jumps_ok(self.chunk.code@, b.end_jumps@)
                &&& 0 <= b.start@ <= self.chunk.code@.len()
                &&& all_from(b.end_jumps@, b.start@ as nat)
            } by {
                if i < self.block_ctxs@.len() - 1 {
                    assert(self.block_ctxs@[i] == s1.block_ctxs@[i]);
                }
            }
            assert forall|i: int| 0 <= i < old(self).block_ctxs@.len() implies (#[trigger] self.block_ctxs@[i]).start == old(self).block_ctxs@[i].start by {
                if i < self.block_ctxs@.len() - 1 {
                    assert(self.block_ctxs@[i] == s1.block_ctxs@[i]);
                }
            }
        }
        Some(())
    }

    /// `loop_yield v`: appends `v` to the list of the innermost block that
    /// collects (`if`/`match` expressions and `block:` statements pass it on),
    /// checked against the innermost block's `->T`. Outside a collecting
    /// block it fails at run time with the tree walker's message.
    pub(crate) fn compile_loop_yield(&mut self, stmt: &Stmt) -> (r: Option<()>)
        requires
            old(self).inv(),
        ensures
            r is Some ==> old(self).chunk.code@.len() < final(self).chunk.code@.len(),
            r is Some ==> final(self).inv() && old(self).grown_into(final(self)),
        decreases MAX_FINALLY_NEST + 1 - old(self).in_finally, 1int, *stmt, 1int,
    {
        let e = match stmt {
            Stmt::LoopYield(e) => e,
            _ => {
                return None;
            },
        };
        let mut found: Option<u16> = None;
        let mut k: usize = self.block_ctxs.len();
        while k > 0
            invariant
                self.inv(),
                *self == *old(self),
                k <= self.block_ctxs@.len(),
                found matches Some(s) ==> s < self.chunk.n_locals,
            decreases k,
        {
            k = k - 1;
            if let Some(s) = self.block_ctxs[k].yield_slot {
                found = Some(s);
                break;
            }
        }
        let yield_slot = match found {
            Some(s) => s,
            None => {
                let n = self.add_name(
                    "SyntaxError: 'loop_yield' can only be used inside a for/while expression (with ->list[T] annotation)",
                )?;
                self.emit(Op::Fail(n))?;
                return Some(());
            },
        };
        let ann = if self.block_ctxs.len() > 0 {
            self.block_ctxs[self.block_ctxs.len() - 1].return_type
        } else {
            None
        };
        self.compile_expr(e)?;
        if let Some(idx) = ann {
            self.emit(Op::CheckLoopYield(idx))?;
        }
        self.emit(Op::ListAppendLocal(yield_slot))?;
        Some(())
    }

    /// `block:` statement: a block expression whose value is dropped; its
    /// `block_return` values are checked against the enclosing expression's
    /// `->T`, and its `loop_yield`s go to the enclosing collecting block.
    pub(crate) fn compile_block_stmt(&mut self, stmt: &Stmt) -> (r: Option<()>)
        requires
            old(self).inv(),
        ensures
            r is Some ==> old(self).chunk.code@.len() < final(self).chunk.code@.len() && final(self).chunk.code@.last() == Op::Pop,
            (*stmt matches Stmt::Block(b) && b@.len() == 0) && old(self).named_locals + old(self).temps_in_use + 2 < u16::MAX
                && old(self).chunk.code@.len() + 8 < POOL_LIMIT ==> r is Some,
            r is Some ==> final(self).inv() && old(self).grown_into(final(self)),
        decreases MAX_FINALLY_NEST + 1 - old(self).in_finally, 1int, *stmt, 1int,
    {
        let body = match stmt {
            Stmt::Block(body) => body,
            _ => {
                return None;
            },
        };
        let depth = self.stmt_base;
        let ann = if self.block_ctxs.len() > 0 {
            self.block_ctxs[self.block_ctxs.len() - 1].return_type
        } else {
            None
        };
        self.compile_block_expr(body, depth, ann, false)?;
        self.emit(Op::Pop)?;
        Some(())
    }
}

/// Opening a block expression, compiling inside it and closing it again
/// continues the compilation from before the opening.
pub(crate) proof fn lemma_block_bracket(s1: Compiler, s2: Compiler, s3: Compiler, s4: Compiler)
    requires
        s2.chunk == s1.chunk,
        s2.block_ctxs@.len() == s1.block_ctxs@.len() + 1,
        forall|i: int| 0 <= i < s1.block_ctxs@.len() ==> #[trigger] s2.block_ctxs@[i] == s1.block_ctxs@[i],
        s2.loops == s1.loops,
        s2.try_stack == s1.try_stack,
        s2.temps_in_use == s1.temps_in_use,
        s2.named_locals == s1.named_locals,
        s2.in_finally == s1.in_finally,
        s2.mode == s1.mode,
        s2.grown_into(&s3),
        s4.chunk == s3.chunk,
        s4.block_ctxs@ == s3.block_ctxs@.drop_last(),
        s4.loops == s3.loops,
        s4.try_stack == s3.try_stack,
        s4.temps_in_use == s3.temps_in_use,
        s4.named_locals == s3.named_locals,
        s4.in_finally == s3.in_finally,
        s4.mode == s3.mode,
    ensures
        s1.grown_into(&s4),
{
    assert forall|i: int| 0 <= i < s1.chunk.code@.len() implies #[trigger] s4.chunk.code@[i] == s1.chunk.code@[i] by {
        assert(s3.chunk.code@[i] == s2.chunk.code@[i]);
    }
    assert forall|i: int| 0 <= i < s1.loops@.len() implies (#[trigger] s4.loops@[i]).start == s1.loops@[i].start by {
        assert(s3.loops@[i].start == s2.loops@[i].start);
    }
    assert forall|i: int| 0 <= i < s1.block_ctxs@.len() implies (#[trigger] s4.block_ctxs@[i]).start == s1.block_ctxs@[i].start by {
        assert(s4.block_ctxs@[i] == s3.block_ctxs@[i]);
        assert(s3.block_ctxs@[i].start == s2.block_ctxs@[i].start);
    }
}

} // verus!

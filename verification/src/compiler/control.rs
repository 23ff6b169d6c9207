//! Statement lists, `try`/`finally`, `match` arms and the unwinding that an
//! early exit (`return`, `break`, `continue`, `block_return`) needs.
use vstd::prelude::*;

use crate::ast::{clone_stmts, BinOp, ExceptHandler, Expr, MatchArm, MatchPattern, Stmt};
use crate::compiler::decls::is_wildcard_name;
use crate::compiler::{jumps_ok, Compiler, MAX_FINALLY_NEST};
use crate::op::Op;

use crate::compiler::stmt::{flow_size, flow_sizes, flow_stmt, flow_stmts, lemma_flow_sizes_prefix, lemma_flow_sizes_step, lemma_trivial_seq_step, trivial_seq_code, trivial_seq_pool, trivial_stmt_code, trivial_stmt};
use crate::compiler::{chunk_full, grew_within, has_room, spans_kept};
use crate::compiler::POOL_LIMIT;

verus! {

/// Jump positions recorded at or after `lo`.
pub(crate) open spec fn all_from(js: Seq<usize>, lo: nat) -> bool {
    forall|j: int| 0 <= j < js.len() ==> (#[trigger] js[j]) >= lo
}

/// `stable_into` is transitive.
pub(crate) proof fn lemma_stable_trans(a: Compiler, b: Compiler, c: Compiler)
    requires
        a.stable_into(&b),
        b.stable_into(&c),
    ensures
        a.stable_into(&c),
{
    assert forall|i: int| 0 <= i < a.chunk.code@.len() implies #[trigger] c.chunk.code@[i] == a.chunk.code@[i] by {
        assert(c.chunk.code@[i] == b.chunk.code@[i]);
    }
    assert forall|i: int| 0 <= i < a.loops@.len() implies (#[trigger] c.loops@[i]).start == a.loops@[i].start by {
        assert(c.loops@[i].start == b.loops@[i].start);
    }
    assert forall|i: int| 0 <= i < a.block_ctxs@.len() implies (#[trigger] c.block_ctxs@[i]).start == a.block_ctxs@[i].start by {
        assert(c.block_ctxs@[i].start == b.block_ctxs@[i].start);
    }
}

/// `grown_into` is transitive.
pub(crate) proof fn lemma_grown_trans(a: Compiler, b: Compiler, c: Compiler)
    requires
        a.grown_into(&b),
        b.grown_into(&c),
    ensures
        a.grown_into(&c),
{
    lemma_stable_trans(a, b, c);
}

/// Patching an instruction emitted after `s0` keeps `s0`'s code.
pub(crate) proof fn lemma_patch_keeps(s0: Compiler, b: Compiler, a: Compiler, at: int)
    requires
        s0.grown_into(&b),
        at >= s0.chunk.code@.len(),
        a.chunk.code@.len() == b.chunk.code@.len(),
        forall|i: int| 0 <= i < b.chunk.code@.len() && i != at ==> #[trigger] a.chunk.code@[i] == b.chunk.code@[i],
        a.chunk.pools() == b.chunk.pools(),
        a.chunk.names@ == b.chunk.names@,
        b.same_frame(&a),
    ensures
        s0.grown_into(&a),
{
    assert forall|i: int| 0 <= i < s0.chunk.code@.len() implies #[trigger] a.chunk.code@[i] == s0.chunk.code@[i] by {
        assert(a.chunk.code@[i] == b.chunk.code@[i]);
    }
}

/// Patching jumps emitted after `s0` keeps `s0`'s code.
pub(crate) proof fn lemma_patch_all_keeps(s0: Compiler, b: Compiler, a: Compiler, js: Seq<usize>)
    requires
        s0.grown_into(&b),
        all_from(js, s0.chunk.code@.len()),
        a.chunk.code@.len() == b.chunk.code@.len(),
        forall|i: int| 0 <= i < b.chunk.code@.len() && !js.contains(i as usize) ==> #[trigger] a.chunk.code@[i] == b.chunk.code@[i],
        a.chunk.pools() == b.chunk.pools(),
        a.chunk.names@ == b.chunk.names@,
        b.same_frame(&a),
    ensures
        s0.grown_into(&a),
{
    assert forall|i: int| 0 <= i < s0.chunk.code@.len() implies #[trigger] a.chunk.code@[i] == s0.chunk.code@[i] by {
        if js.contains(i as usize) {
            let k = choose|k: int| 0 <= k < js.len() && js[k] == i as usize;
            assert(js[k] >= s0.chunk.code@.len());
        }
        assert(a.chunk.code@[i] == b.chunk.code@[i]);
    }
}

impl Compiler {
    /// Back-patches every jump in `js` to `target`.
    pub(crate) fn patch_all(&mut self, js: &Vec<usize>, target: u32)
        requires
            old(self).inv(),
            jumps_ok(old(self).chunk.code@, js@),
            target <= old(self).chunk.code@.len(),
        ensures
            final(self).inv(),
            final(self).chunk.code@.len() == old(self).chunk.code@.len(),
            forall|i: int| 0 <= i < old(self).chunk.code@.len() && !js@.contains(i as usize)
                ==> #[trigger] final(self).chunk.code@[i] == old(self).chunk.code@[i],
            forall|i: int| 0 <= i < old(self).chunk.code@.len()
                ==> (#[trigger] final(self).chunk.code@[i] is Jump) == (old(self).chunk.code@[i] is Jump),
            final(self).chunk.pools() == old(self).chunk.pools(),
            final(self).chunk.names@ == old(self).chunk.names@,
            old(self).same_frame(final(self)),
            final(self).pending_stmt == old(self).pending_stmt,
            forall|j: int| 0 <= j < js@.len() ==> final(self).chunk.code@[#[trigger] js@[j] as int] == Op::Jump(target),
            final(self).chunk.stmt_spans == old(self).chunk.stmt_spans,
            final(self).chunk.consts == old(self).chunk.consts,
    {
        let mut k: usize = 0;
        while k < js.len()
            invariant
                self.inv(),
                k <= js@.len(),
                target <= self.chunk.code@.len(),
                self.chunk.code@.len() == old(self).chunk.code@.len(),
                jumps_ok(self.chunk.code@, js@),
                forall|i: int| 0 <= i < old(self).chunk.code@.len() && !js@.contains(i as usize)
                    ==> #[trigger] self.chunk.code@[i] == old(self).chunk.code@[i],
                forall|i: int| 0 <= i < old(self).chunk.code@.len()
                    ==> (#[trigger] self.chunk.code@[i] is Jump) == (old(self).chunk.code@[i] is Jump),
                self.chunk.pools() == old(self).chunk.pools(),
                self.chunk.names@ == old(self).chunk.names@,
                old(self).same_frame(self),
                self.pending_stmt == old(self).pending_stmt,
                forall|j: int| 0 <= j < k ==> self.chunk.code@[#[trigger] js@[j] as int] == Op::Jump(target),
                self.chunk.stmt_spans == old(self).chunk.stmt_spans,
                self.chunk.consts == old(self).chunk.consts,
            decreases js@.len() - k,
        {
            let at = js[k];
            assert(self.chunk.code@[at as int] is Jump);
            self.patch_jump(at, target);
            proof {
                assert forall|j: int| 0 <= j < js@.len() implies (#[trigger] js@[j]) < self.chunk.code@.len()
                    && self.chunk.code@[js@[j] as int] is Jump by {
                    if js@[j] != at {
                        assert(self.chunk.code@[js@[j] as int] == old(self).chunk.code@[js@[j] as int] || js@.contains(js@[j]));
                    }
                }
                assert forall|i: int| 0 <= i < old(self).chunk.code@.len() && !js@.contains(i as usize)
                    implies #[trigger] self.chunk.code@[i] == old(self).chunk.code@[i] by {
                    assert(js@[k as int] == at);
                    if i == at as int {
                        assert(js@.contains(i as usize));
                    }
                }
            }
            k = k + 1;
        }
    }

    /// Compiles the statements of `stmts` in order.
    pub(crate) fn compile_stmts(&mut self, stmts: &Vec<Stmt>) -> (r: Option<()>)
        requires
            old(self).inv(),
        ensures
            r is Some ==> final(self).inv() && old(self).grown_into(final(self)),
            stmts@.len() == 0 ==> r is Some && *final(self) == *old(self),
            (forall|j: int| 0 <= j < stmts@.len() ==> trivial_stmt(#[trigger] stmts@[j]))
                && old(self).chunk.code@.len() + 2 * stmts@.len() < POOL_LIMIT
                && old(self).chunk.consts@.len() + stmts@.len() < POOL_LIMIT ==> r is Some,
            (forall|j: int| 0 <= j < stmts@.len() ==> trivial_stmt(#[trigger] stmts@[j])) && r is Some
                ==> final(self).chunk.code@.len() <= old(self).chunk.code@.len() + 2 * stmts@.len(),
            flow_stmts(stmts@) && r is None ==> chunk_full(final(self).chunk),
            flow_stmts(stmts@) ==> grew_within(old(self).chunk, final(self).chunk, flow_sizes(stmts@)),
            flow_stmts(stmts@) && has_room(old(self).chunk, flow_sizes(stmts@)) ==> r is Some,
            flow_stmts(stmts@) && r is Some ==> spans_kept(old(self).chunk, final(self).chunk),
            flow_stmts(stmts@) && r is Some ==> old(self).frame_restored(final(self)),
            (forall|j: int| 0 <= j < stmts@.len() ==> trivial_stmt(#[trigger] stmts@[j])) && r is Some ==> {
                &&& final(self).chunk.code@ == old(self).chunk.code@ + trivial_seq_code(stmts@, old(self).chunk.consts@.len())
                &&& final(self).chunk.consts@ == old(self).chunk.consts@ + trivial_seq_pool(stmts@)
            },
            (forall|j: int| 0 <= j < stmts@.len() ==> trivial_stmt(#[trigger] stmts@[j])) && r is Some ==> final(self).loops == old(self).loops,
        decreases MAX_FINALLY_NEST + 1 - old(self).in_finally, 1int, *stmts, 0int,
    {
        let ghost s0 = *self;
        let ghost all_trivial = forall|j: int| 0 <= j < stmts@.len() ==> trivial_stmt(#[trigger] stmts@[j]);
        let mut i: usize = 0;
        while i < stmts.len()
            invariant
                self.inv(),
                s0.grown_into(self),
                s0 == *old(self),
                i <= stmts@.len(),
                all_trivial == forall|j: int| 0 <= j < stmts@.len() ==> trivial_stmt(#[trigger] stmts@[j]),
                i == 0 ==> *self == s0,
                all_trivial ==> self.chunk.code@.len() <= s0.chunk.code@.len() + 2 * i
                    && self.chunk.consts@.len() <= s0.chunk.consts@.len() + i,
                flow_stmts(stmts@) ==> grew_within(s0.chunk, self.chunk, flow_sizes(stmts@.subrange(0, i as int))),
                flow_stmts(stmts@) ==> spans_kept(s0.chunk, self.chunk),
                flow_stmts(stmts@) ==> s0.frame_restored(self),
                all_trivial ==> self.loops == s0.loops,
                all_trivial ==> self.chunk.code@ == s0.chunk.code@ + trivial_seq_code(stmts@.subrange(0, i as int), s0.chunk.consts@.len())
                    && self.chunk.consts@ == s0.chunk.consts@ + trivial_seq_pool(stmts@.subrange(0, i as int)),
            decreases stmts@.len() - i,
        {
            proof {
                lemma_flow_sizes_step(stmts@, i as int);
                lemma_flow_sizes_prefix(stmts@, i as int + 1);
            }
            assert(decreases_to!(stmts => stmts@[i as int]));
            let ghost s1 = *self;
            proof {
                if all_trivial {
                    assert(trivial_stmt(stmts@[i as int]));
                }
            }
            self.compile_stmt(&stmts[i])?;
            proof {
                lemma_grown_trans(s0, s1, *self);
                if all_trivial {
                    let k0 = s0.chunk.consts@.len();
                    lemma_trivial_seq_step(stmts@, i as int, k0);
                    let st = stmts@[i as int];
                    assert(s1.chunk.consts@.len() == k0 + trivial_seq_pool(stmts@.subrange(0, i as int)).len());
                    assert(self.chunk.code@ == s1.chunk.code@ + trivial_stmt_code(st, s1.chunk.consts@.len()));
                    assert(self.chunk.code@ =~= s0.chunk.code@ + trivial_seq_code(stmts@.subrange(0, i as int + 1), k0));
                    assert(self.chunk.consts@ =~= s0.chunk.consts@ + trivial_seq_pool(stmts@.subrange(0, i as int + 1)));
                }
            }
            i = i + 1;
        }
        proof {
            if stmts@.len() == 0 {
                assert(*self == s0);
            }
            assert(stmts@.subrange(0, stmts@.len() as int) =~= stmts@);
        }
        Some(())
    }

    /// Compiles a copy of a `finally` body on the current path. `extra`
    /// values lie on the operand stack under it (the pending exception or
    /// return value); an early exit from the copy discards them too. Copies
    /// nest at most `MAX_FINALLY_NEST` deep.
    pub(crate) fn compile_finally_copy(&mut self, fin: &Vec<Stmt>, extra: u16) -> (r: Option<()>)
        requires
            old(self).inv(),
        ensures
            r is Some ==> final(self).inv() && old(self).grown_into(final(self)),
            r is Some ==> final(self).stmt_base == old(self).stmt_base,
            old(self).in_finally >= MAX_FINALLY_NEST ==> r is None,
            fin@.len() == 0 && old(self).in_finally < MAX_FINALLY_NEST && extra == 0
                ==> r is Some && final(self).chunk.code@ == old(self).chunk.code@,
        decreases MAX_FINALLY_NEST - old(self).in_finally, 2int, *fin, 0int,
    {
        if self.in_finally >= MAX_FINALLY_NEST {
            return None;
        }
        let saved_base = self.stmt_base;
        if extra > 0 {
            self.stmt_base = match saved_base {
                Some(d) => Some(d.checked_add(extra)?),
                None => None,
            };
        }
        self.in_finally = self.in_finally + 1;
        let ghost s1 = *self;
        let r = self.compile_stmts(fin);
        if r.is_none() {
            return None;
        }
        self.in_finally = self.in_finally - 1;
        self.stmt_base = saved_base;
        proof {
            assert forall|i: int| 0 <= i < old(self).chunk.code@.len() implies #[trigger] self.chunk.code@[i] == old(self).chunk.code@[i] by {
                assert(self.chunk.code@[i] == s1.chunk.code@[i]);
            }
        }
        Some(())
    }

    /// Unwinds the `try`s above depth `keep`, innermost first: `PopTry` for a
    /// `try/except` (when `pop_except`), `PopTry` and a copy of the body for
    /// a `try/finally`. While a copy is compiled, the `try`s it leaves are
    /// hidden, so an exit from inside the copy runs only the outer ones.
    pub(crate) fn emit_unwind_tries(&mut self, keep: usize, pop_except: bool, extra: u16, node: Ghost<Stmt>) -> (r: Option<()>)
        requires
            old(self).inv(),
        ensures
            r is Some ==> final(self).inv() && old(self).grown_into(final(self)),
            r is Some ==> final(self).stmt_base == old(self).stmt_base,
            old(self).try_stack@.len() <= keep ==> r is Some && *final(self) == *old(self),
            r is Some && pop_except && keep <= old(self).try_stack@.len()
                ==> final(self).chunk.code@.len() >= old(self).chunk.code@.len() + old(self).try_stack@.len() - keep,
        decreases MAX_FINALLY_NEST + 1 - old(self).in_finally, 0int, node@, 0int,
    {
        let ghost s0 = *self;
        let mut i: usize = self.try_stack.len();
        while i > keep
            invariant
                self.inv(),
                s0.grown_into(self),
                s0 == *old(self),
                i <= self.try_stack@.len(),
                self.stmt_base == s0.stmt_base,
                i == s0.try_stack@.len() ==> *self == s0,
                s0.try_stack@.len() <= keep ==> i == s0.try_stack@.len(),
                pop_except && keep <= s0.try_stack@.len() ==> self.chunk.code@.len() >= s0.chunk.code@.len() + s0.try_stack@.len() - i,
            decreases i,
        {
            i = i - 1;
            let ghost s1 = *self;
            match &self.try_stack[i] {
                None => {
                    if pop_except {
                        self.emit(Op::PopTry)?;
                        proof { lemma_grown_trans(s0, s1, *self); }
                    }
                },
                Some(fin) => {
                    let fin = clone_stmts(fin);
                    self.emit(Op::PopTry)?;
                    let ghost s2 = *self;
                    let mut saved = self.try_stack.split_off(i);
                    let ok = self.compile_finally_copy(&fin, extra);
                    if ok.is_none() {
                        return None;
                    }
                    self.try_stack.append(&mut saved);
                    proof {
                        lemma_grown_trans(s0, s1, s2);
                        assert forall|k: int| 0 <= k < s2.chunk.code@.len() implies #[trigger] self.chunk.code@[k] == s2.chunk.code@[k] by {
                        }
                    }
                },
            }
        }
        Some(())
    }

    /// Before `break`/`continue`: unwinds the `try`s opened inside the
    /// innermost loop, then drops what the enclosing expressions pushed.
    pub(crate) fn emit_unwind_to_loop(&mut self, node: Ghost<Stmt>) -> (r: Option<()>)
        requires
            old(self).inv(),
        ensures
            r is Some ==> final(self).inv() && old(self).grown_into(final(self)),
            r is Some ==> (old(self).stmt_base matches Some(d) && final(self).chunk.code@.len() >= old(self).chunk.code@.len() + d),
        decreases MAX_FINALLY_NEST + 1 - old(self).in_finally, 0int, node@, 1int,
    {
        let loop_try_len = if self.loops.len() > 0 {
            self.loops[self.loops.len() - 1].try_len
        } else {
            0
        };
        self.emit_unwind_tries(loop_try_len, true, 0, node)?;
        let depth = self.stmt_base?;
        let ghost s1 = *self;
        let mut k: u16 = 0;
        while k < depth
            invariant
                self.inv(),
                old(self).grown_into(self),
                k <= depth,
                self.chunk.code@.len() >= s1.chunk.code@.len() + k,
                s1.chunk.code@.len() >= old(self).chunk.code@.len(),
            decreases depth - k,
        {
            let ghost s2 = *self;
            self.emit(Op::Pop)?;
            proof { lemma_grown_trans(*old(self), s2, *self); }
            k = k + 1;
        }
        Some(())
    }
}

impl Compiler {
    /// `try: body except ...:` — a handler frame around the body, then a
    /// landing pad that tests the handlers in order and re-raises when none
    /// matches.
    pub(crate) fn compile_try_except(&mut self, stmt: &Stmt) -> (r: Option<()>)
        requires
            old(self).inv(),
        ensures
            r is Some ==> old(self).chunk.code@.len() < final(self).chunk.code@.len(),
            r is Some ==> final(self).inv() && old(self).grown_into(final(self)),
        decreases MAX_FINALLY_NEST + 1 - old(self).in_finally, 1int, *stmt, 0int,
    {
        let (body, handlers) = match stmt {
            Stmt::Try { body, handlers, .. } => (body, handlers),
            _ => {
                return None;
            },
        };
        let setup = self.emit(Op::SetupTry(0))?;
        // While the body runs, one more handler frame is open.
        self.try_stack.push(None);
        let ghost s1 = *self;
        let r = self.compile_stmts(body);
        if r.is_none() {
            return None;
        }
        self.try_stack.pop();
        self.emit(Op::PopTry)?;
        let j0 = self.emit(Op::Jump(0))?;
        let land = self.here();
        let ghost s2 = *self;
        self.patch_jump(setup, land);
        proof { lemma_patch_keeps(*old(self), s2, *self, setup as int); }
        let hjs = self.compile_handlers(handlers)?;
        // No handler matched: drop the exception and raise it again.
        self.emit(Op::Pop)?;
        self.emit(Op::Reraise)?;
        let end = self.here();
        let ghost s3 = *self;
        self.patch_jump(j0, end);
        proof { lemma_patch_keeps(*old(self), s3, *self, j0 as int); }
        let ghost s4 = *self;
        self.patch_all(&hjs, end);
        proof { lemma_patch_all_keeps(*old(self), s4, *self, hjs@); }
        Some(())
    }

    /// The `except` clauses of a landing pad (the exception is on the stack);
    /// returns their jumps to the end.
    pub(crate) fn compile_handlers(&mut self, handlers: &Vec<ExceptHandler>) -> (r: Option<Vec<usize>>)
        requires
            old(self).inv(),
        ensures
            r matches Some(js) ==> final(self).inv() && old(self).grown_into(final(self))
                && jumps_ok(final(self).chunk.code@, js@) && all_from(js@, old(self).chunk.code@.len()),
            r matches Some(js) ==> js@.len() == handlers@.len()
                && final(self).chunk.code@.len() >= old(self).chunk.code@.len() + handlers@.len(),
            handlers@.len() == 0 ==> (r matches Some(js) && js@.len() == 0 && *final(self) == *old(self)),
        decreases MAX_FINALLY_NEST + 1 - old(self).in_finally, 1int, *handlers, 0int,
    {
        let mut ends: Vec<usize> = Vec::new();
        let mut k: usize = 0;
        while k < handlers.len()
            invariant
                self.inv(),
                old(self).grown_into(self),
                k <= handlers@.len(),
                jumps_ok(self.chunk.code@, ends@),
                all_from(ends@, old(self).chunk.code@.len()),
                ends@.len() == k,
                self.chunk.code@.len() >= old(self).chunk.code@.len() + k,
                k == 0 ==> *self == *old(self),
            decreases handlers@.len() - k,
        {
            assert(decreases_to!(handlers => handlers@[k as int]));
            let h = &handlers[k];
            let jf = match &h.exc_type {
                None => None,
                Some(ty) => {
                    self.emit(Op::Dup)?;
                    let ni = self.add_name(ty.as_str())?;
                    self.emit(Op::ExcMatch(ni))?;
                    Some(self.emit(Op::JumpIfFalse(0))?)
                },
            };
            self.bind_or_pop_exc(h)?;
            self.compile_stmts(&h.body)?;
            let j = self.emit(Op::Jump(0))?;
            ends.push(j);
            if let Some(jf) = jf {
                let next = self.here();
                let ghost s1 = *self;
                self.patch_jump(jf, next);
                proof {
                    lemma_patch_keeps(*old(self), s1, *self, jf as int);
                    assert forall|q: int| 0 <= q < ends@.len() implies (#[trigger] ends@[q]) < self.chunk.code@.len()
                        && self.chunk.code@[ends@[q] as int] is Jump by {
                        assert(s1.chunk.code@[ends@[q] as int] is Jump);
                    }
                }
            }
            k = k + 1;
        }
        Some(ends)
    }

    /// Binds the caught exception to the `as` name, or drops it.
    pub(crate) fn bind_or_pop_exc(&mut self, h: &ExceptHandler) -> (r: Option<()>)
        requires
            old(self).inv(),
        ensures
            r is Some ==> final(self).inv() && old(self).grown_into(final(self)),
            r is Some ==> final(self).chunk.code@.len() == old(self).chunk.code@.len() + 1,
            h.name is None ==> (old(self).chunk.code@.len() < POOL_LIMIT ==> r is Some)
                && (r is Some ==> final(self).chunk.code@ == old(self).chunk.code@.push(Op::Pop)),
            h.name is Some && r is Some ==> final(self).chunk.code@.last() is StoreLocal,
    {
        match &h.name {
            Some(alias) => {
                let slot = self.slot_of_name(alias)?;
                self.emit(Op::StoreLocal(slot))?;
            },
            None => {
                self.emit(Op::Pop)?;
            },
        }
        Some(())
    }

    /// `try: body [except ...:] finally: fin` — `try/except` nested inside
    /// `try/finally`; `fin` runs on the normal path and on the exception path
    /// (which then re-raises), and every early exit from the body runs it too.
    pub(crate) fn compile_try_finally(&mut self, stmt: &Stmt) -> (r: Option<()>)
        requires
            old(self).inv(),
        ensures
            r is Some ==> old(self).chunk.code@.len() < final(self).chunk.code@.len(),
            r is Some ==> final(self).inv() && old(self).grown_into(final(self)),
        decreases MAX_FINALLY_NEST + 1 - old(self).in_finally, 1int, *stmt, 1int,
    {
        let (body, handlers, fin) = match stmt {
            Stmt::Try { body, handlers, finally_body: Some(fin) } => (body, handlers, fin),
            _ => {
                return None;
            },
        };
        let setup = self.emit(Op::SetupTry(0))?;
        self.try_stack.push(Some(clone_stmts(fin)));
        let r = if handlers.len() == 0 {
            self.compile_stmts(body)
        } else {
            self.compile_try_except(stmt)
        };
        if r.is_none() {
            return None;
        }
        self.try_stack.pop();
        self.emit(Op::PopTry)?;
        // Normal path: nothing is pending.
        self.compile_finally_copy(fin, 0)?;
        let normal = self.emit(Op::Jump(0))?;
        let land = self.here();
        let ghost s1 = *self;
        self.patch_jump(setup, land);
        proof { lemma_patch_keeps(*old(self), s1, *self, setup as int); }
        // Exception path: the exception lies under the copy.
        self.compile_finally_copy(fin, 1)?;
        self.emit(Op::Pop)?;
        self.emit(Op::Reraise)?;
        let end = self.here();
        let ghost s2 = *self;
        self.patch_jump(normal, end);
        proof { lemma_patch_keeps(*old(self), s2, *self, normal as int); }
        Some(())
    }

    /// `match` statement: the subject is kept in a temporary and tested
    /// against each arm in order.
    pub(crate) fn compile_match_stmt(&mut self, stmt: &Stmt) -> (r: Option<()>)
        requires
            old(self).inv(),
        ensures
            r is Some ==> old(self).chunk.code@.len() < final(self).chunk.code@.len(),
            r is Some ==> final(self).inv() && old(self).grown_into(final(self)),
        decreases MAX_FINALLY_NEST + 1 - old(self).in_finally, 1int, *stmt, 1int,
    {
        let (subject, arms) = match stmt {
            Stmt::Match { subject, arms } => (subject, arms),
            _ => {
                return None;
            },
        };
        let temp = self.alloc_temp()?;
        let ghost s1 = *self;
        self.compile_expr(subject)?;
        self.emit(Op::StoreLocal(temp))?;
        let ends = self.compile_arms(arms, temp)?;
        let end = self.here();
        let ghost s2 = *self;
        self.patch_all(&ends, end);
        proof { lemma_patch_all_keeps(s1, s2, *self, ends@); }
        let ghost s3 = *self;
        self.free_temp();
        proof {
            lemma_stable_trans(*old(self), s1, s3);
            lemma_stable_trans(*old(self), s3, *self);
        }
        Some(())
    }

    /// The arms of a `match` whose subject is in `temp` (statement or
    /// expression form): `case _` matches anything, `case e` compares with
    /// `==`, `is T` tests the type; returns the arms' jumps to the end.
    pub(crate) fn compile_arms(&mut self, arms: &Vec<MatchArm>, temp: u16) -> (r: Option<Vec<usize>>)
        requires
            old(self).inv(),
            temp < old(self).chunk.n_locals,
        ensures
            r matches Some(js) ==> final(self).inv() && old(self).grown_into(final(self))
                && jumps_ok(final(self).chunk.code@, js@) && all_from(js@, old(self).chunk.code@.len()),
            r matches Some(js) ==> js@.len() == arms@.len()
                && final(self).chunk.code@.len() >= old(self).chunk.code@.len() + arms@.len(),
            arms@.len() == 0 ==> (r matches Some(js) && js@.len() == 0 && *final(self) == *old(self)),
        decreases MAX_FINALLY_NEST + 1 - old(self).in_finally, 1int, *arms, 0int,
    {
        let mut ends: Vec<usize> = Vec::new();
        let mut k: usize = 0;
        while k < arms.len()
            invariant
                self.inv(),
                old(self).grown_into(self),
                temp < self.chunk.n_locals,
                k <= arms@.len(),
                jumps_ok(self.chunk.code@, ends@),
                all_from(ends@, old(self).chunk.code@.len()),
                ends@.len() == k,
                self.chunk.code@.len() >= old(self).chunk.code@.len() + k,
                k == 0 ==> *self == *old(self),
            decreases arms@.len() - k,
        {
            assert(decreases_to!(arms => arms@[k as int]));
            let arm = &arms[k];
            let jf = match &arm.pattern {
                MatchPattern::Case(Expr::Ident { name, .. }) if is_wildcard_name(name) => None,
                MatchPattern::Case(pat) => {
                    self.emit(Op::LoadLocal(temp))?;
                    self.compile_expr(pat)?;
                    self.emit(Op::Bin(BinOp::Eq))?;
                    Some(self.emit(Op::JumpIfFalse(0))?)
                },
                MatchPattern::IsType(ty) => {
                    self.emit(Op::LoadLocal(temp))?;
                    let ni = self.add_name(ty.as_str())?;
                    self.emit(Op::IsType(ni))?;
                    Some(self.emit(Op::JumpIfFalse(0))?)
                },
            };
            self.compile_stmts(&arm.body)?;
            let j = self.emit(Op::Jump(0))?;
            ends.push(j);
            if let Some(jf) = jf {
                let next = self.here();
                let ghost s1 = *self;
                self.patch_jump(jf, next);
                proof {
                    lemma_patch_keeps(*old(self), s1, *self, jf as int);
                    assert forall|q: int| 0 <= q < ends@.len() implies (#[trigger] ends@[q]) < self.chunk.code@.len()
                        && self.chunk.code@[ends@[q] as int] is Jump by {
                        assert(s1.chunk.code@[ends@[q] as int] is Jump);
                    }
                }
            }
            k = k + 1;
        }
        Some(ends)
    }
}

} // verus!

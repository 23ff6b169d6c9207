//! Assignments to attributes, subscripts and trait attributes, `static`
//! declarations and tuple declarations.
use vstd::prelude::*;

use crate::ast::{clone_tuple_targets, Expr, Stmt, TupleTarget};
use crate::chunk::TupleDecl;
use crate::compiler::control::{lemma_patch_keeps, lemma_stable_trans};
use crate::compiler::emit::{as_const_lit, gate_bin_kind, pair_kind};
use crate::compiler::expr::depth_plus_one;
use crate::compiler::{Compiler, MAX_FINALLY_NEST, POOL_LIMIT};
use crate::op::Op;

verus! {

impl Compiler {
    /// `obj.attr = v` (object, then value, then `SetAttr`), `obj[k] = v`
    /// (the value first, as the tree walker evaluates it) and
    /// `obj::Trait.attr = v`.
    pub(crate) fn compile_attr_assign(&mut self, stmt: &Stmt) -> (r: Option<()>)
        requires
            old(self).inv(),
        ensures
            r is Some ==> old(self).chunk.code@.len() < final(self).chunk.code@.len(),
            r is Some ==> final(self).inv() && old(self).grown_into(final(self)),
        decreases MAX_FINALLY_NEST + 1 - old(self).in_finally, 1int, *stmt, 1int,
    {
        let (target, value) = match stmt {
            Stmt::AttrAssign { target, value } => (target, value),
            _ => {
                return None;
            },
        };
        match target {
            Expr::Attr { object, attr, .. } => {
                self.compile_expr(object)?;
                // The object is on the stack while the value is computed.
                self.pending = depth_plus_one(self.stmt_base);
                self.compile_expr(value)?;
                let ni = self.add_name(attr.as_str())?;
                self.emit(Op::SetAttr(ni))?;
            },
            Expr::Subscript { object, index } => {
                let vtmp = self.alloc_temp()?;
                let ghost s1 = *self;
                self.compile_expr(value)?;
                self.emit(Op::StoreLocal(vtmp))?;
                self.compile_expr(object)?;
                self.compile_expr(index)?;
                self.emit(Op::LoadLocal(vtmp))?;
                self.emit(Op::SetIndex)?;
                let ghost s2 = *self;
                self.free_temp();
                proof {
                    lemma_stable_trans(*old(self), s1, s2);
                    lemma_stable_trans(*old(self), s2, *self);
                }
            },
            Expr::TraitAccess { object, trait_name, attr } => {
                self.compile_expr(object)?;
                self.pending = depth_plus_one(self.stmt_base);
                self.compile_expr(value)?;
                let ti = self.add_name(trait_name.as_str())?;
                let ai = self.add_name(attr.as_str())?;
                self.emit(Op::SetTraitAttr(ti, ai))?;
            },
            _ => {
                return None;
            },
        }
        Some(())
    }

    /// `obj[k] <op>= v`: the value first, then a read of `obj[k]`, the
    /// operation, and a write that evaluates `obj` and `k` again (as the tree
    /// walker does).
    pub(crate) fn compile_subscript_compound(&mut self, stmt: &Stmt) -> (r: Option<()>)
        requires
            old(self).inv(),
        ensures
            r is Some ==> old(self).chunk.code@.len() < final(self).chunk.code@.len(),
            r is Some ==> final(self).inv() && old(self).grown_into(final(self)),
        decreases MAX_FINALLY_NEST + 1 - old(self).in_finally, 1int, *stmt, 0int,
    {
        let (object, index, op, value) = match stmt {
            Stmt::AttrCompoundAssign { target: Expr::Subscript { object, index }, op, value } => (object, index, *op, value),
            _ => {
                return None;
            },
        };
        let rhs_tmp = self.alloc_temp()?;
        let ghost s1 = *self;
        self.compile_expr(value)?;
        self.emit(Op::StoreLocal(rhs_tmp))?;
        self.compile_expr(object)?;
        self.compile_expr(index)?;
        self.emit(Op::Subscript)?;
        self.emit(Op::LoadLocal(rhs_tmp))?;
        self.emit(Op::Bin(op))?;
        let ghost s2 = *self;
        let res_tmp = self.alloc_temp()?;
        let ghost s3 = *self;
        self.emit(Op::StoreLocal(res_tmp))?;
        self.compile_expr(object)?;
        self.compile_expr(index)?;
        self.emit(Op::LoadLocal(res_tmp))?;
        self.emit(Op::SetIndex)?;
        let ghost s4 = *self;
        self.free_temp();
        self.free_temp();
        proof {
            lemma_stable_trans(*old(self), s1, s2);
            lemma_stable_trans(*old(self), s2, s3);
            lemma_stable_trans(*old(self), s3, s4);
            lemma_stable_trans(*old(self), s4, *self);
        }
        Some(())
    }

    /// `obj.attr <op>= v`, specialised when the checker typed the attribute
    /// and the value is a typed local or literal. A local receiver is read
    /// in place (its re-evaluation is harmless), and a side-effect-free value
    /// is computed after the current value (no `Swap`); any other receiver is
    /// evaluated twice, as the tree walker does.
    pub(crate) fn compile_attr_compound(&mut self, stmt: &Stmt) -> (r: Option<()>)
        requires
            old(self).inv(),
        ensures
            r is Some ==> old(self).chunk.code@.len() < final(self).chunk.code@.len(),
            r is Some ==> final(self).inv() && old(self).grown_into(final(self)),
        decreases MAX_FINALLY_NEST + 1 - old(self).in_finally, 1int, *stmt, 0int,
    {
        let (object, attr, node_id, op, value) = match stmt {
            Stmt::AttrCompoundAssign { target: Expr::Attr { object, attr, node_id }, op, value } => (object, attr, *node_id, *op, value),
            _ => {
                return None;
            },
        };
        let ni = self.add_name(attr.as_str())?;
        let kind = match (self.annot_prim(node_id), self.expr_prim(value)) {
            (Some(l), Some(r)) => match pair_kind(l, r) {
                Some(k) => gate_bin_kind(k, op),
                None => None,
            },
            _ => None,
        };
        match self.as_local(object) {
            Some(obj_slot) => {
                // The base of `SetAttr`.
                self.compile_expr(object)?;
                let value_pure = self.as_local(value).is_some() || as_const_lit(value).is_some();
                if !value_pure {
                    self.compile_expr(value)?;
                }
                self.emit(Op::GetAttrLocal(obj_slot, ni, ni))?;
                if value_pure {
                    self.compile_expr(value)?;
                } else {
                    self.emit(Op::Swap)?;
                }
                self.emit_bin_specialized(kind, op)?;
                self.emit(Op::SetAttr(ni))?;
            },
            None => {
                let rhs_tmp = self.alloc_temp()?;
                let ghost s1 = *self;
                self.compile_expr(value)?;
                self.emit(Op::StoreLocal(rhs_tmp))?;
                self.compile_expr(object)?;
                self.emit(Op::GetAttr(ni, ni))?;
                self.emit(Op::LoadLocal(rhs_tmp))?;
                self.emit_bin_specialized(kind, op)?;
                let ghost s2 = *self;
                let res_tmp = self.alloc_temp()?;
                let ghost s3 = *self;
                self.emit(Op::StoreLocal(res_tmp))?;
                self.compile_expr(object)?;
                self.emit(Op::LoadLocal(res_tmp))?;
                self.emit(Op::SetAttr(ni))?;
                let ghost s4 = *self;
                self.free_temp();
                self.free_temp();
                proof {
                    lemma_stable_trans(*old(self), s1, s2);
                    lemma_stable_trans(*old(self), s2, s3);
                    lemma_stable_trans(*old(self), s3, s4);
                    lemma_stable_trans(*old(self), s4, *self);
                }
            },
        }
        Some(())
    }

    /// `static mut x = e`: `StaticInit` skips the initialiser when the cell
    /// exists already; otherwise the value is evaluated and `StaticStore`
    /// creates the cell. Only a `static` numbered before compilation (at the
    /// top of a function body) is compiled.
    pub(crate) fn compile_static(&mut self, stmt: &Stmt) -> (r: Option<()>)
        requires
            old(self).inv(),
        ensures
            r is Some ==> old(self).chunk.code@.len() < final(self).chunk.code@.len(),
            r is Some ==> final(self).inv() && old(self).grown_into(final(self)),
        decreases MAX_FINALLY_NEST + 1 - old(self).in_finally, 1int, *stmt, 1int,
    {
        let (name, expr) = match stmt {
            Stmt::Static(name, expr, _) => (name, expr),
            _ => {
                return None;
            },
        };
        let decl_span = self.statics.get(name)?;
        let si = self.add_span(decl_span)?;
        let guard = self.emit(Op::StaticInit(si, 0))?;
        self.compile_expr(expr)?;
        self.emit(Op::StaticStore(si))?;
        let after = self.here();
        let ghost s1 = *self;
        self.patch_jump(guard, after);
        proof { lemma_patch_keeps(*old(self), s1, *self, guard as int); }
        Some(())
    }

    /// Slots of the targets of `let a, b = t` (`None` for `_` and for names
    /// without a slot).
    pub(crate) fn let_tuple_slots(&self, targets: &Vec<TupleTarget>) -> (r: (Vec<Option<u16>>, bool, bool))
        requires
            self.inv(),
        ensures
            r.0@.len() == targets@.len(),
            forall|k: int| 0 <= k < r.0@.len() ==> (#[trigger] r.0@[k] matches Some(s) ==> s < self.chunk.n_locals),
    {
        let mut out: Vec<Option<u16>> = Vec::new();
        let mut any_slot = false;
        let mut partial = false;
        let mut k: usize = 0;
        while k < targets.len()
            invariant
                self.inv(),
                k <= targets@.len(),
                out@.len() == k,
                forall|q: int| 0 <= q < out@.len() ==> (#[trigger] out@[q] matches Some(s) ==> s < self.chunk.n_locals),
            decreases targets@.len() - k,
        {
            let s = match &targets[k] {
                TupleTarget::Let(n) | TupleTarget::Bare(n) | TupleTarget::Mut(n) => {
                    let s = self.slot_of_name(n);
                    if s.is_none() {
                        partial = true;
                    }
                    s
                },
                TupleTarget::Wildcard => None,
            };
            if s.is_some() {
                any_slot = true;
            }
            out.push(s);
            k = k + 1;
        }
        (out, any_slot, partial)
    }

    /// `let a, b = t`: into slots (declarations nested in control flow) or
    /// as globals (a top-level declaration); a mix is not compiled.
    pub(crate) fn compile_let_tuple(&mut self, stmt: &Stmt) -> (r: Option<()>)
        requires
            old(self).inv(),
        ensures
            r is Some ==> old(self).chunk.code@.len() < final(self).chunk.code@.len(),
            r is Some ==> final(self).inv() && old(self).grown_into(final(self)),
        decreases MAX_FINALLY_NEST + 1 - old(self).in_finally, 1int, *stmt, 1int,
    {
        let (targets, value) = match stmt {
            Stmt::LetTuple { targets, value } => (targets, value),
            _ => {
                return None;
            },
        };
        let (slots, any_slot, partial) = self.let_tuple_slots(targets);
        if any_slot {
            if partial {
                return None;
            }
        } else if !self.writes_toplevel_globals() {
            return None;
        }
        self.compile_expr(value)?;
        if self.chunk.tuple_decls.len() >= POOL_LIMIT {
            return None;
        }
        let ghost s1 = *self;
        let ghost p0 = self.chunk.pools();
        let i = self.chunk.tuple_decls.len() as u32;
        let decl_slots = if any_slot {
            slots
        } else {
            Vec::new()
        };
        self.chunk.tuple_decls.push(TupleDecl { targets: clone_tuple_targets(targets), slots: decl_slots });
        proof {
            crate::compiler::emit::lemma_code_wf_mono(self.chunk.code@, p0, self.chunk.pools());
            assert forall|a: int, b: int| 0 <= a < self.chunk.tuple_decls@.len() && 0 <= b < self.chunk.tuple_decls@[a].slots@.len()
                implies (#[trigger] self.chunk.tuple_decls@[a].slots@[b] matches Some(s) ==> s < self.chunk.n_locals) by {
                if a < self.chunk.tuple_decls@.len() - 1 {
                    assert(self.chunk.tuple_decls@[a] == s1.chunk.tuple_decls@[a]);
                }
            }
        }
        self.emit(Op::LetTuple(i))?;
        Some(())
    }
}

} // verus!

//! Expressions.
use vstd::prelude::*;
use vstd::string::StringExecFns;

use crate::ast::{BinOp, Expr, Resolution, UnaryOp};
use crate::chunk::Value;
use crate::compiler::{chunk_full, grew_within, has_room, Compiler, MAX_FINALLY_NEST, POOL_LIMIT};
use crate::chunk::{with_target, Chunk};
use crate::chunk::NOT_STMT;
use crate::op::Op;

verus! {

/// The constant a literal expression is compiled to (`None` has no constant:
/// it is `Nil`).
pub open spec fn literal_const(e: Expr) -> Option<Value> {
    match e {
        Expr::Int(n) => Some(Value::Int(n)),
        Expr::Float(f) => Some(Value::Float(f)),
        Expr::Bool(b) => Some(Value::Bool(b)),
        Expr::Str(s) => Some(Value::Str(s)),
        Expr::ImaginaryLit(f) => Some(Value::Complex(0, f)),
        Expr::Undefined => Some(Value::Undefined),
        _ => None,
    }
}

/// The expression is a literal.
pub open spec fn is_literal(e: Expr) -> bool {
    literal_const(e) is Some || e is NoneLit
}

/// The code of a literal whose constant (if any) takes index `n`.
pub open spec fn literal_code(e: Expr, n: nat) -> Seq<Op> {
    if e is NoneLit {
        seq![Op::Nil]
    } else {
        seq![Op::Const(n as u32)]
    }
}

/// The constants a literal adds to the pool.
pub open spec fn literal_pool(e: Expr) -> Seq<Value> {
    match literal_const(e) {
        Some(v) => seq![v],
        None => Seq::empty(),
    }
}

/// An expression that compiles whenever the chunk's tables have room: a
/// literal, or an identifier the resolver left to the compiler.
pub open spec fn plain_expr(e: Expr) -> bool {
    is_literal(e) || e matches Expr::Ident { res: Resolution::Unresolved, .. }
}

/// A type check (`mustbe` or a cast) that the type checker did not ask for.
pub open spec fn unrequested_check(e: Expr, check_before: Seq<u32>) -> bool {
    match e {
        Expr::MustBe { node_id, .. } | Expr::Cast { node_id, .. } => !check_before.contains(node_id),
        _ => false,
    }
}

/// `op` is the instruction of the binary operator `b`, plain or
/// type-specialised.
pub open spec fn is_bin_op(op: Op, b: BinOp) -> bool {
    op == Op::Bin(b) || op == Op::IntBinSS(b) || op == Op::FloatBinSS(b)
}

/// The code of two literal operands, left then right, whose constants are
/// added from index `k` on.
pub open spec fn literal_operands_code(left: Expr, right: Expr, k: nat) -> Seq<Op> {
    literal_code(left, k) + literal_code(right, k + literal_pool(left).len())
}

/// The short-circuit jump of `and` (jump if false, else pop) or `or` (jump
/// if true, else pop) to `t`.
pub open spec fn short_circuit_jump(op: BinOp, t: int) -> Op {
    if op == BinOp::And {
        Op::JumpIfFalseOrPop(t as u32)
    } else {
        Op::JumpIfTrueOrPop(t as u32)
    }
}

/// `left op right` with two literal operands compiles, when the chunk has
/// room, to: the left operand, the right one, then the operator's
/// instruction; for `and`/`or`, to the left operand, the short-circuit jump
/// past the right operand, then the right operand.
pub open spec fn literal_binop_compiled(e: Expr, old_c: Chunk, new_c: Chunk, ok: bool) -> bool {
    e matches Expr::BinOp { op, left, right, .. } ==> (
        is_literal(*left) && is_literal(*right) ==> {
            &&& has_room(old_c, 3) ==> ok
            &&& ok ==> new_c.consts@ == old_c.consts@ + literal_pool(*left) + literal_pool(*right)
            &&& ok && op != BinOp::And && op != BinOp::Or ==> {
                &&& new_c.code@ == (old_c.code@ + literal_operands_code(*left, *right, old_c.consts@.len())).push(new_c.code@.last())
                &&& is_bin_op(new_c.code@.last(), op)
            }
            &&& ok && (op == BinOp::And || op == BinOp::Or) ==> new_c.code@ == old_c.code@
                + literal_code(*left, old_c.consts@.len())
                + seq![short_circuit_jump(op, new_c.code@.len() as int)]
                + literal_code(*right, old_c.consts@.len() + literal_pool(*left).len())
        })
}

/// `e is T` compiles to the operand's code (at least one instruction) and
/// then the type test `IsType(k)` on the name `T`; `e is not T` adds `not`
/// after the test.
pub open spec fn type_test_compiled(e: Expr, old_c: Chunk, new_c: Chunk, ok: bool) -> bool {
    match e {
        Expr::IsType { ty_name, negated, .. } => ok ==> {
            let code = new_c.code@;
            let at = if negated { code.len() - 2 } else { code.len() - 1 };
            &&& old_c.code@.len() + 1 <= at
            &&& negated ==> code.last() == Op::Un(UnaryOp::Not)
            &&& code[at] matches Op::IsType(k) && k < new_c.names@.len() && new_c.names@[k as int]@ == ty_name@
        },
        _ => true,
    }
}

/// Every key and value of the dictionary entries is a literal.
pub open spec fn literal_pairs(p: Seq<(Expr, Expr)>) -> bool {
    forall|i: int| 0 <= i < p.len() ==> is_literal(#[trigger] p[i].0) && is_literal(p[i].1)
}

/// The constants that literal dictionary entries add, entry by entry, each
/// key before its value.
pub open spec fn literal_pairs_pool(p: Seq<(Expr, Expr)>) -> Seq<Value>
    decreases p.len(),
{
    if p.len() == 0 {
        Seq::empty()
    } else {
        literal_pairs_pool(p.drop_last()) + literal_pool(p.last().0) + literal_pool(p.last().1)
    }
}

/// The code of literal dictionary entries whose constants are added from
/// index `k` on: for each entry, its key's code then its value's code.
pub open spec fn literal_pairs_code(p: Seq<(Expr, Expr)>, k: nat) -> Seq<Op>
    decreases p.len(),
{
    if p.len() == 0 {
        Seq::empty()
    } else {
        let k1 = k + literal_pairs_pool(p.drop_last()).len();
        literal_pairs_code(p.drop_last(), k) + literal_code(p.last().0, k1)
            + literal_code(p.last().1, k1 + literal_pool(p.last().0).len())
    }
}

/// A dictionary display of literal entries compiles to each key then its
/// value, entry by entry, and then `BuildDict` with the number of entries;
/// the constants are added in the same order.
pub open spec fn literal_dict_compiled(e: Expr, old_c: Chunk, new_c: Chunk, ok: bool) -> bool {
    match e {
        Expr::Dict(pairs) => literal_pairs(pairs@) && ok ==> {
            &&& new_c.code@ == (old_c.code@ + literal_pairs_code(pairs@, old_c.consts@.len())).push(Op::BuildDict(pairs@.len() as u16))
            &&& new_c.consts@ == old_c.consts@ + literal_pairs_pool(pairs@)
        },
        _ => true,
    }
}

/// One more value on the operand stack (unknown stays unknown, and so does a
/// depth that would not fit).
pub(crate) fn depth_plus_one(d: Option<u16>) -> (r: Option<u16>)
    ensures
        r == (match d {
            Some(x) => if x < u16::MAX { Some((x + 1) as u16) } else { None },
            None => None,
        }),
{
    match d {
        Some(x) => x.checked_add(1),
        None => None,
    }
}

impl Compiler {
    /// Compiles one expression, leaving its value on the operand stack.
    /// `None`: the expression cannot be compiled.
    pub(crate) fn compile_expr(&mut self, e: &Expr) -> (r: Option<()>)
        requires
            old(self).inv(),
        ensures
            r is Some ==> final(self).inv() && old(self).grown_into(final(self)),
            r is Some ==> old(self).chunk.code@.len() < final(self).chunk.code@.len(),
            is_literal(*e) && old(self).chunk.consts@.len() < POOL_LIMIT && old(self).chunk.code@.len() < POOL_LIMIT ==> r is Some,
            is_literal(*e) && r is Some ==> {
                &&& final(self).chunk.code@ == old(self).chunk.code@ + literal_code(*e, old(self).chunk.consts@.len())
                &&& final(self).chunk.consts@ == old(self).chunk.consts@ + literal_pool(*e)
                &&& final(self).chunk.names@ == old(self).chunk.names@
                &&& final(self).chunk.spans@ == old(self).chunk.spans@
                &&& final(self).chunk.stmt_spans@ == old(self).chunk.stmt_spans@.push(match old(self).pending_stmt {
                    Some(p) => p,
                    None => NOT_STMT,
                })
                &&& final(self).chunk.n_locals == old(self).chunk.n_locals
                &&& final(self).pending_stmt is None
                &&& final(self).slots == old(self).slots && final(self).cells == old(self).cells
                &&& final(self).statics == old(self).statics && final(self).toplevel_globals == old(self).toplevel_globals
                &&& final(self).loops == old(self).loops
            },
            r is Some ==> (*e matches Expr::Ident { name, res, .. } ==> old(self).ident_loaded(final(self), name@, res)),
            plain_expr(*e) && r is None ==> chunk_full(final(self).chunk),
            plain_expr(*e) ==> grew_within(old(self).chunk, final(self).chunk, 1),
            plain_expr(*e) && r is Some ==> final(self).chunk.stmt_spans@ == old(self).chunk.stmt_spans@.push(old(self).pending_entry()),
            plain_expr(*e) && r is Some ==> old(self).frame_restored(final(self)),
            unrequested_check(*e, old(self).annotations.check_before@) ==> r is None && final(self).chunk == old(self).chunk,
            literal_binop_compiled(*e, old(self).chunk, final(self).chunk, r is Some),
            type_test_compiled(*e, old(self).chunk, final(self).chunk, r is Some),
            literal_dict_compiled(*e, old(self).chunk, final(self).chunk, r is Some),
        decreases MAX_FINALLY_NEST + 1 - old(self).in_finally, 1int, *e, 2int,
    {
        // The depth at which this expression starts, if the parent said so;
        // taken, so that only a parent that sets it again passes it on.
        let pending = self.pending.take();
        match e {
            Expr::Int(_) | Expr::Float(_) | Expr::Bool(_) | Expr::Str(_) | Expr::NoneLit | Expr::ImaginaryLit(_)
            | Expr::Undefined => self.compile_literal(e),
            Expr::Ident { name, res, .. } => self.compile_ident(name, *res),
            // `local::name` (the variadic arguments) lives in the slot numbered
            // under that name; without it the read is left to the tree walker.
            Expr::LocalVar(name) => {
                let key = String::from_str("local::").concat(name.as_str());
                let slot = self.slot_of_name(&key)?;
                self.emit(Op::LoadLocal(slot))?;
                Some(())
            },
            Expr::BinOp { .. } => self.compile_binop(e, pending),
            Expr::Call { .. } => self.compile_call(e),
            Expr::List(_) | Expr::Tuple(_) | Expr::SetLit(_) | Expr::Dict(_) => self.compile_collection(e),
            Expr::Block { .. } | Expr::IfExpr { .. } | Expr::MatchExpr { .. } | Expr::ForExpr { .. }
            | Expr::WhileExpr { .. } => self.compile_block_family(e, pending),
            Expr::TraitAccess { .. } | Expr::UnaryOp { .. } | Expr::Attr { .. } | Expr::Subscript { .. }
            | Expr::Slice { .. } | Expr::IsType { .. } | Expr::MustBe { .. } | Expr::Cast { .. } => {
                self.compile_operand_expr(e, pending)
            },
            _ => None,
        }
    }

    /// A literal: a constant, or `Nil` for `None`.
    pub(crate) fn compile_literal(&mut self, e: &Expr) -> (r: Option<()>)
        requires
            old(self).inv(),
        ensures
            r is Some ==> final(self).inv() && old(self).grown_into(final(self)) && old(self).same_frame(final(self)),
            !is_literal(*e) ==> r is None,
            is_literal(*e) && old(self).chunk.consts@.len() < POOL_LIMIT && old(self).chunk.code@.len() < POOL_LIMIT ==> r is Some,
            r is Some ==> {
                &&& final(self).chunk.code@ == old(self).chunk.code@ + literal_code(*e, old(self).chunk.consts@.len())
                &&& final(self).chunk.consts@ == old(self).chunk.consts@ + literal_pool(*e)
                &&& final(self).chunk.names@ == old(self).chunk.names@
                &&& final(self).chunk.spans@ == old(self).chunk.spans@
                &&& final(self).pending == old(self).pending
                &&& final(self).chunk.stmt_spans@ == old(self).chunk.stmt_spans@.push(match old(self).pending_stmt {
                    Some(p) => p,
                    None => NOT_STMT,
                })
                &&& final(self).chunk.n_locals == old(self).chunk.n_locals
                &&& final(self).pending_stmt is None
            },
            is_literal(*e) && r is None ==> chunk_full(final(self).chunk),
            r is Some ==> final(self).chunk.n_locals == old(self).chunk.n_locals && final(self).chunk.n_cells == old(self).chunk.n_cells,
            grew_within(old(self).chunk, final(self).chunk, 1),
    {
        let v = match e {
            Expr::Int(n) => Value::Int(*n),
            Expr::Float(f) => Value::Float(*f),
            Expr::Bool(b) => Value::Bool(*b),
            Expr::Str(s) => Value::Str(s.clone()),
            // The real part is +0.0.
            Expr::ImaginaryLit(f) => Value::Complex(0, *f),
            Expr::Undefined => Value::Undefined,
            Expr::NoneLit => {
                self.emit(Op::Nil)?;
                assert(self.chunk.code@ =~= old(self).chunk.code@ + literal_code(*e, old(self).chunk.consts@.len()));
                assert(self.chunk.consts@ =~= old(self).chunk.consts@ + literal_pool(*e));
                return Some(());
            },
            _ => {
                return None;
            },
        };
        assert(literal_const(*e) == Some(v));
        let c = self.add_const(v)?;
        self.emit(Op::Const(c))?;
        assert(self.chunk.code@ =~= old(self).chunk.code@ + literal_code(*e, old(self).chunk.consts@.len()));
        assert(self.chunk.consts@ =~= old(self).chunk.consts@ + literal_pool(*e));
        Some(())
    }

    /// List, tuple, set and dictionary literals.
    pub(crate) fn compile_collection(&mut self, e: &Expr) -> (r: Option<()>)
        requires
            old(self).inv(),
        ensures
            r is Some ==> old(self).chunk.code@.len() < final(self).chunk.code@.len(),
            r is Some ==> final(self).inv() && old(self).grown_into(final(self)),
            literal_dict_compiled(*e, old(self).chunk, final(self).chunk, r is Some),
        decreases MAX_FINALLY_NEST + 1 - old(self).in_finally, 1int, *e, 1int,
    {
        match e {
            Expr::List(items) => {
                let n = Self::count_u16(items.len())?;
                self.compile_exprs(items)?;
                self.emit(Op::BuildList(n))?;
            },
            Expr::Tuple(items) => {
                let n = Self::count_u16(items.len())?;
                self.compile_exprs(items)?;
                self.emit(Op::BuildTuple(n))?;
            },
            Expr::SetLit(items) => {
                let n = Self::count_u16(items.len())?;
                self.compile_exprs(items)?;
                self.emit(Op::BuildSet(n))?;
            },
            Expr::Dict(pairs) => {
                let n = Self::count_u16(pairs.len())?;
                self.compile_pairs(pairs)?;
                self.emit(Op::BuildDict(n))?;
            },
            _ => {
                return None;
            },
        }
        Some(())
    }

    /// Expressions built around one or two operands: unary operations,
    /// attribute and trait access, subscripts, slices, type tests, `mustbe`
    /// and casts.
    pub(crate) fn compile_operand_expr(&mut self, e: &Expr, pending: Option<u16>) -> (r: Option<()>)
        requires
            old(self).inv(),
        ensures
            r is Some ==> old(self).chunk.code@.len() < final(self).chunk.code@.len(),
            r is Some ==> final(self).inv() && old(self).grown_into(final(self)),
            unrequested_check(*e, old(self).annotations.check_before@) ==> r is None && *final(self) == *old(self),
            type_test_compiled(*e, old(self).chunk, final(self).chunk, r is Some),
        decreases MAX_FINALLY_NEST + 1 - old(self).in_finally, 1int, *e, 1int,
    {
        match e {
            Expr::TraitAccess { object, trait_name, attr } => {
                self.compile_expr(object)?;
                let ti = self.add_name(trait_name.as_str())?;
                let ai = self.add_name(attr.as_str())?;
                self.emit(Op::GetTraitAttr(ti, ai))?;
            },
            Expr::UnaryOp { op, operand } => {
                // The operand starts at the parent's depth (`-block ->int: ...`).
                self.pending = pending;
                self.compile_expr(operand)?;
                self.emit(Op::Un(*op))?;
            },
            Expr::Attr { object, attr, .. } => {
                let ni = self.add_name(attr.as_str())?;
                // A local receiver is read in place.
                match self.as_local(object) {
                    Some(slot) => {
                        self.emit(Op::GetAttrLocal(slot, ni, ni))?;
                    },
                    None => {
                        self.compile_expr(object)?;
                        self.emit(Op::GetAttr(ni, ni))?;
                    },
                }
            },
            Expr::Subscript { object, index } => {
                self.compile_expr(object)?;
                self.compile_expr(index)?;
                self.emit(Op::Subscript)?;
            },
            // A missing bound is `None`.
            Expr::Slice { begin, end, step } => {
                match begin {
                    Some(b) => self.compile_expr(b)?,
                    None => { self.emit(Op::Nil)?; },
                }
                match end {
                    Some(b) => self.compile_expr(b)?,
                    None => { self.emit(Op::Nil)?; },
                }
                match step {
                    Some(b) => self.compile_expr(b)?,
                    None => { self.emit(Op::Nil)?; },
                }
                self.emit(Op::BuildSlice)?;
            },
            Expr::IsType { expr, ty_name, negated } => {
                self.compile_expr(expr)?;
                let ni = self.add_name(ty_name.as_str())?;
                self.emit(Op::IsType(ni))?;
                if *negated {
                    self.emit(Op::Un(UnaryOp::Not))?;
                }
            },
            // A check the type checker did not ask for is never dropped: without
            // the directive the expression is not compiled.
            Expr::MustBe { expr, guard_type, span, node_id } => {
                if !self.check_required(*node_id) {
                    return None;
                }
                self.compile_expr(expr)?;
                let ni = self.add_name(guard_type.as_str())?;
                let si = self.add_span(*span)?;
                self.emit(Op::MustBe(ni, si))?;
            },
            Expr::Cast { object, ty_name, node_id } => {
                if !self.check_required(*node_id) {
                    return None;
                }
                self.compile_expr(object)?;
                let ni = self.add_name(ty_name.as_str())?;
                self.emit(Op::Cast(ni))?;
            },
            _ => {
                return None;
            },
        }
        Some(())
    }

    /// A count that an instruction carries as `u16`.
    pub(crate) fn count_u16(n: usize) -> (r: Option<u16>)
        ensures
            r is Some <==> n <= u16::MAX,
            r matches Some(k) ==> k == n,
    {
        if n <= 0xffff {
            Some(n as u16)
        } else {
            None
        }
    }

    /// Slot of a name, when it has one (cells and `static`s have none).
    pub(crate) fn slot_of_name(&self, name: &String) -> (r: Option<u16>)
        requires
            self.inv(),
        ensures
            r matches Some(s) ==> s < self.chunk.n_locals,
            r == self.slots.get_spec(name@),
    {
        let r = self.slots.get(name);
        proof {
            if let Some(v) = r {
                let i = choose|i: int| 0 <= i < self.slots.entries@.len() && self.slots.entries@[i].1 == v;
                assert(self.slots.entries@[i].1 < self.chunk.n_locals);
            }
        }
        r
    }

    /// `left <op> right`: `and`/`or` short-circuit (Python semantics: the
    /// deciding operand is the value); other operations are fused when both
    /// operands are simple, else compiled on the stack and specialised when
    /// the operand kind is known.
    pub(crate) fn compile_binop(&mut self, e: &Expr, pending: Option<u16>) -> (r: Option<()>)
        requires
            old(self).inv(),
        ensures
            r is Some ==> old(self).chunk.code@.len() < final(self).chunk.code@.len(),
            r is Some ==> final(self).inv() && old(self).grown_into(final(self)),
            literal_binop_compiled(*e, old(self).chunk, final(self).chunk, r is Some),
        decreases MAX_FINALLY_NEST + 1 - old(self).in_finally, 1int, *e, 1int,
    {
        let (op, left, right, node_id) = match e {
            Expr::BinOp { op, left, right, node_id } => (*op, left, right, *node_id),
            _ => {
                return None;
            },
        };
        match op {
            BinOp::And | BinOp::Or => {
                let ghost c0 = self.chunk;
                self.pending = pending;
                self.compile_expr(left)?;
                let ghost c1 = self.chunk;
                let j = match op {
                    BinOp::And => self.emit(Op::JumpIfFalseOrPop(0))?,
                    _ => self.emit(Op::JumpIfTrueOrPop(0))?,
                };
                let ghost c2 = self.chunk;
                // The left value is on the stack while the right one is computed.
                self.pending = depth_plus_one(pending);
                self.compile_expr(right)?;
                let ghost c3 = self.chunk;
                let end = self.here();
                self.patch_jump(j, end);
                proof {
                    if is_literal(**left) && is_literal(**right) {
                        assert(c3.code@[j as int] == c2.code@[j as int]);
                        assert(with_target(c3.code@[j as int], end) == short_circuit_jump(op, end as int));
                        assert(self.chunk.code@ =~= c0.code@ + literal_code(**left, c0.consts@.len())
                            + seq![short_circuit_jump(op, end as int)]
                            + literal_code(**right, c0.consts@.len() + literal_pool(**left).len()));
                    }
                }
            },
            _ => {
                let ghost c0 = self.chunk;
                proof {
                    if is_literal(**left) {
                        assert(self.local_slot_spec(**left) is None);
                    }
                }
                let fused = self.try_emit_bin_fused(left, right, op, node_id)?;
                if !fused {
                    self.pending = pending;
                    self.compile_expr(left)?;
                    let ghost c2 = self.chunk;
                    self.pending = depth_plus_one(pending);
                    self.compile_expr(right)?;
                    let ghost c3 = self.chunk;
                    let kind = self.specialized_bin_kind(op, node_id, left, right);
                    self.emit_bin_specialized(kind, op)?;
                    proof {
                        if is_literal(**left) && is_literal(**right) {
                            assert(c2.code@ == c0.code@ + literal_code(**left, c0.consts@.len()));
                            assert(c3.code@ == c2.code@ + literal_code(**right, c2.consts@.len()));
                            assert(c0.code@ + literal_operands_code(**left, **right, c0.consts@.len())
                                =~= c0.code@ + literal_code(**left, c0.consts@.len()) + literal_code(**right, c2.consts@.len()));
                        }
                    }
                }
            },
        }
        Some(())
    }

    /// Compiles each expression in order.
    pub(crate) fn compile_exprs(&mut self, items: &Vec<Expr>) -> (r: Option<()>)
        requires
            old(self).inv(),
        ensures
            r is Some ==> final(self).inv() && old(self).grown_into(final(self)),
            r is Some ==> final(self).chunk.code@.len() >= old(self).chunk.code@.len() + items@.len(),
            items@.len() == 0 ==> r is Some && *final(self) == *old(self),
        decreases MAX_FINALLY_NEST + 1 - old(self).in_finally, 1int, *items, 0int,
    {
        let mut i: usize = 0;
        while i < items.len()
            invariant
                self.inv(),
                old(self).grown_into(self),
                i <= items@.len(),
                self.chunk.code@.len() >= old(self).chunk.code@.len() + i,
                i == 0 ==> *self == *old(self),
            decreases items@.len() - i,
        {
            assert(decreases_to!(items => items@[i as int]));
            self.compile_expr(&items[i])?;
            i = i + 1;
        }
        Some(())
    }

    /// Compiles each key, then its value, in order.
    pub(crate) fn compile_pairs(&mut self, pairs: &Vec<(Expr, Expr)>) -> (r: Option<()>)
        requires
            old(self).inv(),
        ensures
            r is Some ==> final(self).inv() && old(self).grown_into(final(self)),
            r is Some ==> final(self).chunk.code@.len() >= old(self).chunk.code@.len() + 2 * pairs@.len(),
            pairs@.len() == 0 ==> r is Some && *final(self) == *old(self),
            literal_pairs(pairs@) && r is Some ==> {
                &&& final(self).chunk.code@ == old(self).chunk.code@ + literal_pairs_code(pairs@, old(self).chunk.consts@.len())
                &&& final(self).chunk.consts@ == old(self).chunk.consts@ + literal_pairs_pool(pairs@)
            },
            literal_pairs(pairs@) && old(self).chunk.code@.len() + 2 * pairs@.len() < POOL_LIMIT
                && old(self).chunk.consts@.len() + 2 * pairs@.len() < POOL_LIMIT ==> r is Some,
        decreases MAX_FINALLY_NEST + 1 - old(self).in_finally, 1int, *pairs, 0int,
    {
        let mut i: usize = 0;
        proof {
            assert(pairs@.take(0) =~= Seq::<(Expr, Expr)>::empty());
            assert(old(self).chunk.code@ + Seq::<Op>::empty() =~= old(self).chunk.code@);
            assert(old(self).chunk.consts@ + Seq::<Value>::empty() =~= old(self).chunk.consts@);
        }
        while i < pairs.len()
            invariant
                self.inv(),
                old(self).grown_into(self),
                i <= pairs@.len(),
                self.chunk.code@.len() >= old(self).chunk.code@.len() + 2 * i,
                i == 0 ==> *self == *old(self),
                literal_pairs(pairs@) ==> {
                    &&& self.chunk.code@ == old(self).chunk.code@ + literal_pairs_code(pairs@.take(i as int), old(self).chunk.consts@.len())
                    &&& self.chunk.consts@ == old(self).chunk.consts@ + literal_pairs_pool(pairs@.take(i as int))
                    &&& self.chunk.code@.len() == old(self).chunk.code@.len() + 2 * i
                    &&& self.chunk.consts@.len() <= old(self).chunk.consts@.len() + 2 * i
                },
                literal_pairs(pairs@) && old(self).chunk.code@.len() + 2 * pairs@.len() < POOL_LIMIT
                    && old(self).chunk.consts@.len() + 2 * pairs@.len() < POOL_LIMIT ==> {
                    &&& old(self).chunk.code@.len() + 2 * pairs@.len() < POOL_LIMIT
                    &&& old(self).chunk.consts@.len() + 2 * pairs@.len() < POOL_LIMIT
                },
            decreases pairs@.len() - i,
        {
            assert(decreases_to!(pairs => pairs@[i as int].0));
            assert(decreases_to!(pairs => pairs@[i as int].1));
            let ghost c0 = self.chunk;
            proof {
                if literal_pairs(pairs@) {
                    assert(is_literal(pairs@[i as int].0) && is_literal(pairs@[i as int].1));
                }
            }
            self.compile_expr(&pairs[i].0)?;
            let ghost c1 = self.chunk;
            self.compile_expr(&pairs[i].1)?;
            proof {
                if literal_pairs(pairs@) {
                    let p = pairs@.take(i + 1);
                    assert(p.drop_last() =~= pairs@.take(i as int));
                    assert(p.last() == pairs@[i as int]);
                    let k = old(self).chunk.consts@.len();
                    assert(c0.consts@.len() == k + literal_pairs_pool(pairs@.take(i as int)).len());
                    assert(self.chunk.code@ =~= old(self).chunk.code@ + literal_pairs_code(p, k));
                    assert(self.chunk.consts@ =~= old(self).chunk.consts@ + literal_pairs_pool(p));
                }
            }
            i = i + 1;
        }
        proof {
            assert(pairs@.take(pairs@.len() as int) =~= pairs@);
        }
        Some(())
    }
}

} // verus!

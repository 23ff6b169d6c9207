//! Statements.
use vstd::prelude::*;

use crate::ast::{Expr, Resolution, Stmt};
use crate::compiler::control::{all_from, lemma_stable_trans};
use crate::names::set_contains;
use crate::compiler::decls::{is_wildcard, is_wildcard_name};
use crate::compiler::emit::store_op;
use crate::compiler::{chunk_full, grew_within, has_room, spans_kept, jumps_ok, CompileMode, Compiler, LoopCtx, StoreTarget, MAX_FINALLY_NEST, POOL_LIMIT};
use crate::compiler::expr::{is_literal, literal_code, literal_pool, plain_expr};
use crate::op::{DeclKind, Op};
use crate::chunk::Value;

verus! {

/// `pass`, or a literal as an expression statement: a statement that
/// declares nothing and compiles to at most two instructions.
pub open spec fn trivial_stmt(s: Stmt) -> bool {
    s is Pass || (s matches Stmt::Expr(e) && is_literal(e))
}

/// The code of a trivial statement compiled into an empty chunk.
pub open spec fn trivial_code(s: Stmt) -> Seq<Op> {
    match s {
        Stmt::Expr(e) => literal_code(e, 0).push(Op::Pop),
        _ => Seq::empty(),
    }
}

/// The constants of a trivial statement compiled into an empty chunk.
pub open spec fn trivial_pool(s: Stmt) -> Seq<Value> {
    match s {
        Stmt::Expr(e) => literal_pool(e),
        _ => Seq::empty(),
    }
}

/// The code of a trivial statement whose constant (if any) takes index `k`.
pub open spec fn trivial_stmt_code(s: Stmt, k: nat) -> Seq<Op> {
    match s {
        Stmt::Expr(e) => literal_code(e, k).push(Op::Pop),
        _ => Seq::empty(),
    }
}

/// The constants a sequence of trivial statements adds, in order.
pub open spec fn trivial_seq_pool(stmts: Seq<Stmt>) -> Seq<Value>
    decreases stmts.len(),
{
    if stmts.len() == 0 {
        Seq::empty()
    } else {
        trivial_seq_pool(stmts.subrange(0, stmts.len() - 1)) + trivial_pool(stmts[stmts.len() - 1])
    }
}

/// The code of a sequence of trivial statements whose constants start at
/// index `k`: each statement's code in order.
pub open spec fn trivial_seq_code(stmts: Seq<Stmt>, k: nat) -> Seq<Op>
    decreases stmts.len(),
{
    if stmts.len() == 0 {
        Seq::empty()
    } else {
        let front = stmts.subrange(0, stmts.len() - 1);
        trivial_seq_code(front, k) + trivial_stmt_code(stmts[stmts.len() - 1], k + trivial_seq_pool(front).len())
    }
}

/// One more trivial statement.
pub proof fn lemma_trivial_seq_step(s: Seq<Stmt>, i: int, k: nat)
    requires
        0 <= i < s.len(),
    ensures
        trivial_seq_pool(s.subrange(0, i + 1)) == trivial_seq_pool(s.subrange(0, i)) + trivial_pool(s[i]),
        trivial_seq_code(s.subrange(0, i + 1), k) == trivial_seq_code(s.subrange(0, i), k)
            + trivial_stmt_code(s[i], k + trivial_seq_pool(s.subrange(0, i)).len()),
{
    let t = s.subrange(0, i + 1);
    assert(t.subrange(0, t.len() - 1) =~= s.subrange(0, i));
}

/// The code of trivial statements holds no unconditional jump.
pub proof fn lemma_trivial_seq_no_jump(s: Seq<Stmt>, k: nat)
    ensures
        forall|j: int| 0 <= j < trivial_seq_code(s, k).len() ==> !(#[trigger] trivial_seq_code(s, k)[j] is Jump),
    decreases s.len(),
{
    if s.len() > 0 {
        let front = s.subrange(0, s.len() - 1);
        lemma_trivial_seq_no_jump(front, k);
        let a = trivial_seq_code(front, k);
        let b = trivial_stmt_code(s[s.len() - 1], k + trivial_seq_pool(front).len());
        assert forall|j: int| 0 <= j < (a + b).len() implies !((a + b)[j] is Jump) by {
            if j >= a.len() {
                assert((a + b)[j] == b[j - a.len()]);
            }
        }
    }
}

/// An `if` branch whose condition is a literal and whose body is made of
/// trivial statements.
pub open spec fn simple_branch(b: (Expr, Vec<Stmt>)) -> bool {
    is_literal(b.0) && forall|j: int| 0 <= j < b.1@.len() ==> trivial_stmt(#[trigger] b.1@[j])
}

/// The code of a `simple_branch` compiled at code index `at` with constants
/// from index `k`, whose end jump goes to `end`: the condition, a
/// conditional jump past the branch, the body, and the jump to `end`.
pub open spec fn simple_branch_code(b: (Expr, Vec<Stmt>), k: nat, at: nat, end: u32) -> Seq<Op> {
    let body = trivial_seq_code(b.1@, k + literal_pool(b.0).len());
    (literal_code(b.0, k).push(Op::JumpIfFalse((at + body.len() + 3) as u32)) + body).push(Op::Jump(end))
}

/// Control flow over plain expressions: `pass`, expression statements,
/// `while` loops and `if` statements whose conditions are plain expressions
/// and whose bodies are made of such statements. These compile whenever the
/// chunk's tables have room.
pub open spec fn flow_stmt(s: Stmt) -> bool
    decreases s,
{
    match s {
        Stmt::Pass => true,
        Stmt::Expr(e) => plain_expr(e),
        Stmt::While { cond, body } => plain_expr(cond) && forall|j: int| 0 <= j < body@.len() ==> flow_stmt(#[trigger] body@[j]),
        Stmt::If { branches, else_body } => {
            &&& forall|k: int| 0 <= k < branches@.len() ==> plain_expr(#[trigger] branches@[k].0)
            &&& forall|k: int, j: int| 0 <= k < branches@.len() && 0 <= j < branches@[k].1@.len() ==> flow_stmt(#[trigger] branches@[k].1@[j])
            &&& match else_body {
                Some(b) => forall|j: int| 0 <= j < b@.len() ==> flow_stmt(#[trigger] b@[j]),
                None => true,
            }
        },
        _ => false,
    }
}

/// How many entries compiling a `flow_stmt` adds at most to any one table.
pub open spec fn flow_size(s: Stmt) -> nat
    decreases s,
{
    match s {
        Stmt::Pass => 1,
        Stmt::Expr(_) => 3,
        Stmt::While { body, .. } => 4 + flow_sizes(body@),
        Stmt::If { branches, else_body } => 2 + branch_sizes(branches@) + match else_body {
            Some(b) => flow_sizes(b@),
            None => 0,
        },
        _ => 0,
    }
}

/// `flow_size` summed over `stmts`.
pub open spec fn flow_sizes(stmts: Seq<Stmt>) -> nat
    decreases stmts,
{
    if stmts.len() == 0 {
        0
    } else {
        flow_sizes(stmts.subrange(0, stmts.len() - 1)) + flow_size(stmts[stmts.len() - 1])
    }
}

/// `flow_size` of the `(condition, body)` branches of an `if`: four for
/// each branch's condition and jumps, plus its body.
pub open spec fn branch_sizes(bs: Seq<(Expr, Vec<Stmt>)>) -> nat
    decreases bs,
{
    if bs.len() == 0 {
        0
    } else {
        branch_sizes(bs.subrange(0, bs.len() - 1)) + 4 + flow_sizes(bs[bs.len() - 1].1@)
    }
}

/// `flow_sizes` of one more statement.
pub proof fn lemma_flow_sizes_step(s: Seq<Stmt>, i: int)
    requires
        0 <= i < s.len(),
    ensures
        flow_sizes(s.subrange(0, i + 1)) == flow_sizes(s.subrange(0, i)) + flow_size(s[i]),
{
    let t = s.subrange(0, i + 1);
    assert(t.subrange(0, t.len() - 1) =~= s.subrange(0, i));
}

/// A prefix weighs no more than the whole.
pub proof fn lemma_flow_sizes_prefix(s: Seq<Stmt>, i: int)
    requires
        0 <= i <= s.len(),
    ensures
        flow_sizes(s.subrange(0, i)) <= flow_sizes(s),
    decreases s.len(),
{
    if i == s.len() {
        assert(s.subrange(0, i) =~= s);
    } else {
        let t = s.subrange(0, s.len() - 1);
        lemma_flow_sizes_prefix(t, i);
        assert(t.subrange(0, i) =~= s.subrange(0, i));
    }
}

/// `branch_sizes` of one more branch.
pub proof fn lemma_branch_sizes_step(s: Seq<(Expr, Vec<Stmt>)>, i: int)
    requires
        0 <= i < s.len(),
    ensures
        branch_sizes(s.subrange(0, i + 1)) == branch_sizes(s.subrange(0, i)) + 4 + flow_sizes(s[i].1@),
{
    let t = s.subrange(0, i + 1);
    assert(t.subrange(0, t.len() - 1) =~= s.subrange(0, i));
}

/// A prefix of the branches weighs no more than all of them.
pub proof fn lemma_branch_sizes_prefix(s: Seq<(Expr, Vec<Stmt>)>, i: int)
    requires
        0 <= i <= s.len(),
    ensures
        branch_sizes(s.subrange(0, i)) <= branch_sizes(s),
    decreases s.len(),
{
    if i == s.len() {
        assert(s.subrange(0, i) =~= s);
    } else {
        let t = s.subrange(0, s.len() - 1);
        lemma_branch_sizes_prefix(t, i);
        assert(t.subrange(0, i) =~= s.subrange(0, i));
    }
}

/// Control flow over plain expressions holds no `return`.
pub proof fn lemma_flow_no_bail(s: Stmt)
    requires
        flow_stmt(s),
    ensures
        !crate::compiler::decls::bails(s),
    decreases s,
{
    match s {
        Stmt::While { body, .. } => {
            assert forall|j: int| 0 <= j < body@.len() implies !crate::compiler::decls::bails(#[trigger] body@[j]) by {
                assert(decreases_to!(s => body));
                lemma_flow_no_bail(body@[j]);
            }
        },
        Stmt::If { branches, else_body } => {
            assert forall|k: int, j: int| 0 <= k < branches@.len() && 0 <= j < branches@[k].1@.len()
                implies !crate::compiler::decls::bails(#[trigger] branches@[k].1@[j]) by {
                assert(decreases_to!(s => branches));
                lemma_flow_no_bail(branches@[k].1@[j]);
            }
            if let Some(b) = else_body {
                assert forall|j: int| 0 <= j < b@.len() implies !crate::compiler::decls::bails(#[trigger] b@[j]) by {
                    assert(decreases_to!(s => else_body));
                    lemma_flow_no_bail(b@[j]);
                }
            }
        },
        _ => {},
    }
}

/// Every statement of `stmts` is a `flow_stmt`.
pub open spec fn flow_stmts(stmts: Seq<Stmt>) -> bool {
    forall|j: int| 0 <= j < stmts.len() ==> flow_stmt(#[trigger] stmts[j])
}

/// The message a `break` or `continue` outside any loop fails with at run time.
pub open spec fn loop_exit_message(s: Stmt) -> Seq<char> {
    if s is Break {
        "SyntaxError: 'break' outside for/while loop"@
    } else {
        "SyntaxError: 'continue' outside for/while loop"@
    }
}

/// The name a `let`, `mut` or `const` declares.
pub open spec fn decl_name(s: Stmt) -> Seq<char> {
    match s {
        Stmt::Let(n, _, _) => n@,
        Stmt::Mut(n, _, _) => n@,
        Stmt::Const(n, _, _) => n@,
        _ => Seq::empty(),
    }
}

/// The declaration kind that a top-level `const` (`Const`) or `mut` (`Mut`)
/// statement gives its global.
pub open spec fn global_kind(s: Stmt) -> DeclKind {
    if s is Const { DeclKind::Const } else { DeclKind::Mut }
}

/// The store that ends a `const` or `mut` declaration: the declaration of a
/// global of the statement's kind under the declared name, or a store to a
/// local (a plain store for `const`; a deep-copying store to a slot or a
/// cell for `mut`).
pub open spec fn decl_store_kind_ok(s: Stmt, last: Op, names: Seq<String>) -> bool {
    match last {
        Op::DeclareGlobal(k, kind) => kind == global_kind(s) && k < names.len() && names[k as int]@ == decl_name(s),
        Op::StoreLocal(_) => s is Const,
        Op::StoreLocalDeepCopy(_) => s is Mut,
        Op::StoreCellDeepCopy(_) => s is Mut,
        _ => false,
    }
}

/// A top-level `const name = e` or `mut name = e` with a literal `e`
/// (`name` not `_`, no slot for it) compiles, when the chunk has room, to
/// `e`'s code and then the declaration of the global `name` of the
/// statement's kind, whose name is added to the pool.
pub(crate) open spec fn global_decl_compiled(s: Stmt, old_c: Compiler, new_c: Compiler, ok: bool) -> bool {
    match s {
        Stmt::Const(name, _, e) | Stmt::Mut(name, _, e) => (!is_wildcard(name@) && is_literal(e)
            && old_c.toplevel_globals@.len() > 0 && old_c.slots.get_spec(name@) is None
            && has_room(old_c.chunk, 2)) ==> {
            &&& ok
            &&& ok ==> new_c.chunk.code@ == old_c.chunk.code@ + literal_code(e, old_c.chunk.consts@.len())
                + seq![Op::DeclareGlobal(old_c.chunk.names@.len() as u32, global_kind(s))]
            &&& ok ==> new_c.chunk.names@.len() == old_c.chunk.names@.len() + 1
            &&& ok ==> new_c.chunk.names@[old_c.chunk.names@.len() as int]@ == name@
            &&& ok ==> new_c.chunk.consts@ == old_c.chunk.consts@ + literal_pool(e)
        },
        _ => true,
    }
}

/// A literal that a top-level `let` declares as is (`DeclKind::LetPlain`).
pub open spec fn plain_let_literal(e: Expr) -> bool {
    e is Int || e is Float || e is Bool || e is Str || e is NoneLit
}

/// The code of a top-level `let name = e` with `e` a `plain_let_literal`: the
/// literal, then `DeclareGlobal` of the second of the two name-pool entries
/// the declaration adds (at `names` and `names + 1`).
pub open spec fn toplevel_let_code(e: Expr, consts: nat, names: nat) -> Seq<Op> {
    literal_code(e, consts).push(Op::DeclareGlobal((names + 1) as u32, DeclKind::LetPlain))
}

/// What the code of a statement ends in, for the statements that compile to
/// their operands and one or two instructions (`before` is the code before
/// it, `after` the code after it).
pub(crate) open spec fn simple_stmt_code(stmt: Stmt, before: Seq<Op>, after: Seq<Op>) -> bool {
    match stmt {
        Stmt::Expr(_) => after.len() > before.len() && after.last() == Op::Pop,
        Stmt::Return(Some(_)) => after.len() > before.len() && after.last() == Op::Return,
        Stmt::Return(None) => after.len() > before.len() && after.last() == Op::ReturnNil,
        Stmt::Yield(_) => after.len() > before.len() && after.last() == Op::Yield,
        Stmt::Raise { exc: Some(_), .. } => after.len() > before.len() && after.last() is Raise,
        Stmt::Raise { exc: None, .. } => after.len() > before.len() && after.last() == Op::Reraise,
        Stmt::Pass => after == before,
        Stmt::BreakPoint { .. } => after.len() > before.len() && after.last() is BreakPoint,
        Stmt::Freeze(..) => after.len() > before.len() && after.last() is FreezeVar,
        Stmt::EventSubscribe { is_once, is_async, .. } => after.len() > before.len()
            && after.last() == Op::EventSubscribe(is_once, is_async),
        Stmt::EventUnsubscribe { .. } => after.len() > before.len() && after.last() == Op::EventUnsubscribe,
        Stmt::Assign { .. } => after.len() > before.len() && (after.last() is StoreLocal || after.last() is StoreGlobal
            || after.last() is StoreStatic || after.last() is StoreCell || after.last() is StoreName),
        _ => true,
    }
}

impl Compiler {
    /// The store a local `let` into `slot` ends in, by its source: a mutable
    /// local is copied and frozen, an immutable local or a literal stored as
    /// is, a free identifier decided at run time (its name is the next
    /// name-pool entry), any other value frozen when it is an instance.
    pub(crate) open spec fn local_let_store(&self, slot: u16, e: Expr) -> Op {
        match e {
            Expr::Ident { res: Resolution::Local(s), .. } => if (s as int) < self.slot_mut@.len() && self.slot_mut@[s as int] {
                Op::StoreLocalCopyFreeze(slot)
            } else {
                Op::StoreLocal(slot)
            },
            Expr::Ident { name, .. } => match self.slots.get_spec(name@) {
                Some(s) => if (s as int) < self.slot_mut@.len() && self.slot_mut@[s as int] {
                    Op::StoreLocalCopyFreeze(slot)
                } else {
                    Op::StoreLocal(slot)
                },
                None => Op::StoreLocalFromIdent(slot, self.chunk.names@.len() as u32),
            },
            Expr::Int(_) => Op::StoreLocal(slot),
            Expr::Float(_) => Op::StoreLocal(slot),
            Expr::Bool(_) => Op::StoreLocal(slot),
            Expr::Str(_) => Op::StoreLocal(slot),
            Expr::NoneLit => Op::StoreLocal(slot),
            _ => Op::StoreLocalFreezeInstance(slot),
        }
    }

    /// `name` has no cell, no `static` and no slot here.
    pub(crate) open spec fn is_free_name(&self, name: Seq<char>) -> bool {
        self.cells.get_spec(name) is None && self.statics.get_spec(name) is None && self.slots.get_spec(name) is None
    }

    /// The store an assignment to a free name ends in: by name through the
    /// scope chain in a module body, else as a top-level global (with the
    /// chunk's next name-pool and cache entries).
    pub(crate) open spec fn free_store(&self) -> Op {
        if self.mode == CompileMode::Module {
            Op::StoreName(self.chunk.names@.len() as u32)
        } else {
            Op::StoreGlobal(self.chunk.names@.len() as u32, self.chunk.global_caches@.len() as u32)
        }
    }

    /// The store a `let`/`mut`/`const` of a function frame (no top-level
    /// globals) ends in: a `let` as chosen above into the name's slot; a
    /// `const` stored as is and a `mut` deep-copied into its cell or slot
    /// (stated for a literal initialiser).
    pub(crate) open spec fn local_decl_stored(&self, new: &Compiler, stmt: Stmt) -> bool {
        match stmt {
            Stmt::Let(name, _, e) => self.cells.get_spec(name@) is None && self.statics.get_spec(name@) is None
                && (self.slots.get_spec(name@) matches Some(s) && new.chunk.code@.last() == self.local_let_store(s, e)),
            Stmt::Const(name, _, e) => is_literal(e) ==> self.cells.get_spec(name@) is None && self.statics.get_spec(name@) is None
                && (self.slots.get_spec(name@) matches Some(s) && new.chunk.code@.last() == Op::StoreLocal(s)),
            Stmt::Mut(name, _, e) => is_literal(e) ==> match self.cells.get_spec(name@) {
                Some(i) => new.chunk.code@.last() == Op::StoreCellDeepCopy(i),
                None => self.statics.get_spec(name@) is None
                    && (self.slots.get_spec(name@) matches Some(s) && new.chunk.code@.last() == Op::StoreLocalDeepCopy(s)),
            },
            _ => true,
        }
    }

    /// Compiles one statement. `None`: the statement cannot be compiled (a
    /// definition, an unsupported form, or a table that is full).
    pub(crate) fn compile_stmt(&mut self, stmt: &Stmt) -> (r: Option<()>)
        requires
            old(self).inv(),
        ensures
            r is Some ==> final(self).inv() && old(self).grown_into(final(self)),
            r is Some ==> simple_stmt_code(*stmt, old(self).chunk.code@, final(self).chunk.code@),
            *stmt is Pass ==> r is Some && final(self).chunk.code@ == old(self).chunk.code@
                && final(self).chunk.consts@ == old(self).chunk.consts@,
            (*stmt matches Stmt::Expr(e) && is_literal(e)) && old(self).chunk.consts@.len() < POOL_LIMIT
                && old(self).chunk.code@.len() + 1 < POOL_LIMIT ==> r is Some,
            (*stmt matches Stmt::Expr(e) && is_literal(e)) && r is Some ==> {
                &&& final(self).chunk.code@ == (old(self).chunk.code@ + literal_code(stmt->Expr_0, old(self).chunk.consts@.len())).push(Op::Pop)
                &&& final(self).chunk.consts@ == old(self).chunk.consts@ + literal_pool(stmt->Expr_0)
            },
            flow_stmt(*stmt) && r is None ==> chunk_full(final(self).chunk),
            (*stmt is Break || *stmt is Continue) && old(self).loops@.len() == 0 ==> {
                &&& r is None ==> chunk_full(final(self).chunk)
                &&& has_room(old(self).chunk, 2) ==> r is Some
                &&& r is Some ==> final(self).chunk.code@ == old(self).chunk.code@.push(Op::Fail(old(self).chunk.names@.len() as u32))
                    && final(self).chunk.names@.len() == old(self).chunk.names@.len() + 1
                    && final(self).chunk.names@.last()@ == loop_exit_message(*stmt)
            },
            r is Some && *stmt is While ==> final(self).chunk.code@.len() >= old(self).chunk.code@.len() + 2
                && final(self).chunk.code@.last() == Op::Jump(old(self).chunk.code@.len() as u32)
                && exists|jf: int| old(self).chunk.code@.len() < jf < final(self).chunk.code@.len() - 1
                    && final(self).chunk.code@[jf] == Op::JumpIfFalse(final(self).chunk.code@.len() as u32),
            r is Some && (*stmt matches Stmt::While { cond, .. } && is_literal(cond)) ==> {
                &&& final(self).chunk.code@[old(self).chunk.code@.len() as int] == literal_code(stmt->cond, old(self).chunk.consts@.len())[0]
                &&& final(self).chunk.code@[old(self).chunk.code@.len() + 1int] == Op::JumpIfFalse(final(self).chunk.code@.len() as u32)
            },
            r is Some && (*stmt matches Stmt::If { branches, else_body: None } && branches@.len() > 0)
                ==> final(self).chunk.code@.last() == Op::Jump(final(self).chunk.code@.len() as u32),
            flow_stmt(*stmt) ==> grew_within(old(self).chunk, final(self).chunk, flow_size(*stmt)),
            flow_stmt(*stmt) && has_room(old(self).chunk, flow_size(*stmt)) ==> r is Some,
            (*stmt matches Stmt::Let(name, _, e) && !is_wildcard(name@) && plain_let_literal(e)) && old(self).toplevel_globals@.len() > 0
                && old(self).slots.get_spec(stmt->Let_0@) is None && has_room(old(self).chunk, 4) ==> r is Some,
            (*stmt matches Stmt::Let(name, _, e) && !is_wildcard(name@) && plain_let_literal(e)) && old(self).toplevel_globals@.len() > 0
                && old(self).slots.get_spec(stmt->Let_0@) is None && r is Some ==> {
                &&& final(self).chunk.code@ == old(self).chunk.code@ + toplevel_let_code(stmt->Let_2, old(self).chunk.consts@.len(), old(self).chunk.names@.len())
                &&& final(self).chunk.names@.len() == old(self).chunk.names@.len() + 2
                &&& final(self).chunk.names@[old(self).chunk.names@.len() as int]@ == stmt->Let_0@
                &&& final(self).chunk.names@[old(self).chunk.names@.len() + 1int]@ == stmt->Let_0@
                &&& final(self).chunk.consts@ == old(self).chunk.consts@ + literal_pool(stmt->Let_2)
            },
            (*stmt is Let || *stmt is Mut || *stmt is Const) && !is_wildcard(decl_name(*stmt)) && old(self).toplevel_globals@.len() == 0
                && r is Some ==> old(self).local_decl_stored(final(self), *stmt),
            flow_stmt(*stmt) && r is Some ==> spans_kept(old(self).chunk, final(self).chunk),
            flow_stmt(*stmt) && !(*stmt is Pass) && !(*stmt matches Stmt::If { branches, .. } && branches@.len() == 0)
                && old(self).mode != CompileMode::DebugRepl && r is Some
                ==> final(self).chunk.stmt_spans@[old(self).chunk.code@.len() as int] != crate::chunk::NOT_STMT,
            flow_stmt(*stmt) && r is Some ==> old(self).frame_restored(final(self)),
            *stmt is Assign && r is Some ==> final(self).chunk.code@.len() >= old(self).chunk.code@.len() + 2,
            (*stmt matches Stmt::Assign { value, .. } && is_literal(value)) && old(self).is_free_name(stmt->Assign_name@)
                && old(self).mode != CompileMode::DefinitionExpr && old(self).mode != CompileMode::DebugRepl ==> {
                &&& has_room(old(self).chunk, 3) ==> r is Some
                &&& r is Some ==> final(self).chunk.code@ == (old(self).chunk.code@ + literal_code(stmt->Assign_value, old(self).chunk.consts@.len())).push(old(self).free_store())
                    && final(self).chunk.names@.len() == old(self).chunk.names@.len() + 1
                    && final(self).chunk.names@.last()@ == stmt->Assign_name@
                    && final(self).chunk.consts@ == old(self).chunk.consts@ + literal_pool(stmt->Assign_value)
            },
            trivial_stmt(*stmt) && r is Some ==> final(self).loops == old(self).loops,
            r is Some && (*stmt matches Stmt::While { cond, body } && is_literal(cond)
                && forall|j: int| 0 <= j < body@.len() ==> trivial_stmt(#[trigger] body@[j])) ==> {
                &&& final(self).chunk.code@ == ((old(self).chunk.code@ + literal_code(stmt->cond, old(self).chunk.consts@.len()))
                    .push(Op::JumpIfFalse(final(self).chunk.code@.len() as u32))
                    + trivial_seq_code(stmt->While_body@, old(self).chunk.consts@.len() + literal_pool(stmt->cond).len()))
                    .push(Op::Jump(old(self).chunk.code@.len() as u32))
                &&& final(self).chunk.consts@ == old(self).chunk.consts@ + literal_pool(stmt->cond) + trivial_seq_pool(stmt->While_body@)
            },
            r is Some && (*stmt matches Stmt::If { branches, else_body: None } && branches@.len() == 1 && simple_branch(branches@[0])) ==> {
                &&& final(self).chunk.code@ == old(self).chunk.code@ + simple_branch_code(stmt->If_branches@[0], old(self).chunk.consts@.len(),
                    old(self).chunk.code@.len(), final(self).chunk.code@.len() as u32)
                &&& final(self).chunk.consts@ == old(self).chunk.consts@ + literal_pool(stmt->If_branches@[0].0) + trivial_seq_pool(stmt->If_branches@[0].1@)
            },
        decreases MAX_FINALLY_NEST + 1 - old(self).in_finally, 1int, *stmt, 2int,
    {
        self.mark_stmt_start(stmt)?;
        // The statement starts on a balanced stack; only its first expression
        // learns the depth.
        self.pending = self.stmt_base;
        let ghost s1 = *self;
        assert(s1.chunk.code@ == old(self).chunk.code@ && s1.chunk.names@ == old(self).chunk.names@
            && s1.chunk.consts@ == old(self).chunk.consts@ && s1.slots == old(self).slots
            && s1.toplevel_globals == old(self).toplevel_globals);
        match stmt {
            Stmt::CompoundAssign { .. } => self.compile_compound_assign(stmt),
            Stmt::If { .. } => self.compile_if_stmt(stmt),
            Stmt::While { .. } => self.compile_while_stmt(stmt),
            Stmt::For { .. } => self.compile_for_stmt(stmt),
            Stmt::Match { .. } => self.compile_match_stmt(stmt),
            Stmt::Try { finally_body: None, .. } => self.compile_try_except(stmt),
            Stmt::Try { .. } => self.compile_try_finally(stmt),
            Stmt::BlockReturn(..) => self.compile_block_return(stmt),
            Stmt::LoopYield(_) => self.compile_loop_yield(stmt),
            Stmt::Block(_) => self.compile_block_stmt(stmt),
            Stmt::AttrAssign { .. } => self.compile_attr_assign(stmt),
            Stmt::AttrCompoundAssign { target: Expr::Subscript { .. }, .. } => self.compile_subscript_compound(stmt),
            Stmt::AttrCompoundAssign { .. } => self.compile_attr_compound(stmt),
            Stmt::Static(..) => self.compile_static(stmt),
            Stmt::LetTuple { .. } => self.compile_let_tuple(stmt),
            Stmt::FnDef { .. } => self.compile_nested_fn(stmt),
            Stmt::AsyncAssign { .. } => self.compile_async_assign(stmt),
            Stmt::Break | Stmt::Continue => self.compile_loop_exit(stmt),
            Stmt::Let(..) | Stmt::Mut(..) | Stmt::Const(..) => self.compile_decl(stmt),
            _ => self.compile_simple_stmt(stmt),
        }
    }

    /// Statements that compile to their operands and one or two instructions.
    pub(crate) fn compile_simple_stmt(&mut self, stmt: &Stmt) -> (r: Option<()>)
        requires
            old(self).inv(),
        ensures
            r is Some ==> final(self).inv() && old(self).grown_into(final(self)),
            r is Some ==> simple_stmt_code(*stmt, old(self).chunk.code@, final(self).chunk.code@),
            *stmt is Pass ==> r is Some && *final(self) == *old(self),
            (*stmt matches Stmt::Expr(e) && is_literal(e)) && old(self).chunk.consts@.len() < POOL_LIMIT
                && old(self).chunk.code@.len() + 1 < POOL_LIMIT ==> r is Some,
            (*stmt matches Stmt::Expr(e) && is_literal(e)) && r is Some ==> {
                &&& final(self).chunk.code@ == (old(self).chunk.code@ + literal_code(stmt->Expr_0, old(self).chunk.consts@.len())).push(Op::Pop)
                &&& final(self).chunk.consts@ == old(self).chunk.consts@ + literal_pool(stmt->Expr_0)
            },
            (*stmt is Pass || (*stmt matches Stmt::Expr(e) && plain_expr(e))) && r is None ==> chunk_full(final(self).chunk),
            (*stmt is Pass || (*stmt matches Stmt::Expr(e) && plain_expr(e))) ==> grew_within(old(self).chunk, final(self).chunk, 2),
            (*stmt is Pass || (*stmt matches Stmt::Expr(e) && plain_expr(e))) && r is Some ==> spans_kept(old(self).chunk, final(self).chunk),
            (*stmt matches Stmt::Expr(e) && plain_expr(e)) && r is Some ==> final(self).chunk.stmt_spans@[old(self).chunk.code@.len() as int] == old(self).pending_entry(),
            (*stmt is Pass || (*stmt matches Stmt::Expr(e) && plain_expr(e))) && r is Some ==> old(self).frame_restored(final(self)),
            *stmt is Assign && r is Some ==> final(self).chunk.code@.len() >= old(self).chunk.code@.len() + 2,
            (*stmt matches Stmt::Assign { value, .. } && is_literal(value)) && old(self).is_free_name(stmt->Assign_name@)
                && old(self).mode != CompileMode::DefinitionExpr && old(self).mode != CompileMode::DebugRepl ==> {
                &&& has_room(old(self).chunk, 2) ==> r is Some
                &&& r is Some ==> final(self).chunk.code@ == (old(self).chunk.code@ + literal_code(stmt->Assign_value, old(self).chunk.consts@.len())).push(old(self).free_store())
                    && final(self).chunk.names@.len() == old(self).chunk.names@.len() + 1
                    && final(self).chunk.names@.last()@ == stmt->Assign_name@
                    && final(self).chunk.consts@ == old(self).chunk.consts@ + literal_pool(stmt->Assign_value)
            },
            trivial_stmt(*stmt) && r is Some ==> final(self).loops == old(self).loops,
        decreases MAX_FINALLY_NEST + 1 - old(self).in_finally, 1int, *stmt, 1int,
    {
        match stmt {
            Stmt::Expr(e) => {
                self.compile_expr(e)?;
                self.emit(Op::Pop)?;
            },
            // Every open `finally` runs (innermost first) before the return;
            // the return value lies under them.
            Stmt::Return(Some(e)) => {
                self.compile_expr(e)?;
                self.emit_unwind_tries(0, false, 1, Ghost(*stmt))?;
                self.emit(Op::Return)?;
            },
            Stmt::Return(None) => {
                self.emit_unwind_tries(0, false, 0, Ghost(*stmt))?;
                self.emit(Op::ReturnNil)?;
            },
            Stmt::Assign { name, value } => {
                let t = self.store_target(name)?;
                let ghost s1 = *self;
                self.compile_expr(value)?;
                let ghost s2 = *self;
                self.emit_store(t)?;
                proof {
                    if is_literal(*value) && old(self).is_free_name(name@) && old(self).mode != CompileMode::DefinitionExpr
                        && old(self).mode != CompileMode::DebugRepl {
                        assert(store_op(t) == old(self).free_store());
                        assert(s1.chunk.names@.len() == old(self).chunk.names@.len() + 1);
                        assert(self.chunk.names@ == s1.chunk.names@);
                        assert(self.chunk.code@ =~= (old(self).chunk.code@ + literal_code(*value, old(self).chunk.consts@.len())).push(old(self).free_store()));
                    }
                }
            },
            Stmt::Raise { exc, span } => match exc {
                Some(e) => {
                    self.compile_expr(e)?;
                    let si = self.add_span(*span)?;
                    self.emit(Op::Raise(si))?;
                },
                None => {
                    self.emit(Op::Reraise)?;
                },
            },
            Stmt::Yield(e) => {
                self.compile_expr(e)?;
                self.emit(Op::Yield)?;
            },
            Stmt::Pass => {},
            Stmt::BreakPoint { span } => {
                let si = self.add_span(*span)?;
                self.emit(Op::BreakPoint(si))?;
            },
            Stmt::Freeze(name, span) => {
                let ni = self.add_name(name.as_str())?;
                let si = self.add_span(*span)?;
                self.emit(Op::FreezeVar(ni, si))?;
            },
            // Source first, then handler.
            Stmt::EventSubscribe { source, handler, is_once, is_async } => {
                self.compile_expr(source)?;
                self.compile_expr(handler)?;
                self.emit(Op::EventSubscribe(*is_once, *is_async))?;
            },
            Stmt::EventUnsubscribe { source, handler } => {
                self.compile_expr(source)?;
                self.compile_expr(handler)?;
                self.emit(Op::EventUnsubscribe)?;
            },
            _ => {
                return None;
            },
        }
        Some(())
    }

    /// `x <op>= e`: the same code as `x = x <op> e`; a slot operand goes
    /// through the same fusion and specialisation as a binary expression.
    pub(crate) fn compile_compound_assign(&mut self, stmt: &Stmt) -> (r: Option<()>)
        requires
            old(self).inv(),
        ensures
            r is Some ==> old(self).chunk.code@.len() < final(self).chunk.code@.len(),
            r is Some ==> final(self).inv() && old(self).grown_into(final(self)),
        decreases MAX_FINALLY_NEST + 1 - old(self).in_finally, 1int, *stmt, 1int,
    {
        let (name, op, value, node_id) = match stmt {
            Stmt::CompoundAssign { name, op, value, node_id } => (name, *op, value, *node_id),
            _ => {
                return None;
            },
        };
        let t = self.store_target(name)?;
        match t {
            StoreTarget::Local(slot) => {
                let kind = self.specialized_bin_kind_slot(op, node_id, slot, value);
                let fused = self.emit_bin_fused_slot(slot, kind, value, op)?;
                if !fused {
                    self.emit(Op::LoadLocal(slot))?;
                    self.compile_expr(value)?;
                    self.emit_bin_specialized(kind, op)?;
                }
                self.emit(Op::StoreLocal(slot))?;
            },
            _ => {
                // Storage without a slot: read, compute on the stack, write.
                match t {
                    StoreTarget::Global(_, _) => self.emit_load_global(name.as_str())?,
                    StoreTarget::Name(ni) => {
                        self.emit(Op::LoadName(ni))?;
                    },
                    StoreTarget::Static(si) => {
                        self.emit(Op::LoadStatic(si))?;
                    },
                    StoreTarget::Cell(i) => {
                        self.emit(Op::LoadCell(i))?;
                    },
                    StoreTarget::Local(_) => {
                        return None;
                    },
                }
                let kind = self.annot_binop_kind(node_id);
                self.compile_expr(value)?;
                self.emit_bin_specialized(kind, op)?;
                self.emit_store(t)?;
            },
        }
        Some(())
    }

    /// `if`/`elif`/`else` statement.
    pub(crate) fn compile_if_stmt(&mut self, stmt: &Stmt) -> (r: Option<()>)
        requires
            old(self).inv(),
        ensures
            r is Some ==> (*stmt matches Stmt::If { branches, .. }
                && old(self).chunk.code@.len() + 3 * branches@.len() <= final(self).chunk.code@.len()),
            r is Some ==> final(self).inv() && old(self).grown_into(final(self)),
            *stmt is If && flow_stmt(*stmt) && r is None ==> chunk_full(final(self).chunk),
            r is Some && (*stmt matches Stmt::If { branches, else_body: None } && branches@.len() > 0)
                ==> final(self).chunk.code@.last() == Op::Jump(final(self).chunk.code@.len() as u32),
            (*stmt matches Stmt::If { branches, else_body } && flow_stmt(*stmt)) ==> grew_within(old(self).chunk, final(self).chunk,
                1 + branch_sizes(stmt->branches@) + match stmt->else_body { Some(b) => flow_sizes(b@), None => 0 }),
            *stmt is If && flow_stmt(*stmt) && r is Some ==> spans_kept(old(self).chunk, final(self).chunk)
                && (stmt->If_branches@.len() > 0 ==> final(self).chunk.stmt_spans@[old(self).chunk.code@.len() as int] == old(self).pending_entry()),
            *stmt is If && flow_stmt(*stmt) && r is Some ==> old(self).frame_restored(final(self)),
            r is Some && (*stmt matches Stmt::If { branches, else_body: None } && branches@.len() == 1 && simple_branch(branches@[0])) ==> {
                &&& final(self).chunk.code@ == old(self).chunk.code@ + simple_branch_code(stmt->If_branches@[0], old(self).chunk.consts@.len(),
                    old(self).chunk.code@.len(), final(self).chunk.code@.len() as u32)
                &&& final(self).chunk.consts@ == old(self).chunk.consts@ + literal_pool(stmt->If_branches@[0].0) + trivial_seq_pool(stmt->If_branches@[0].1@)
            },
        decreases MAX_FINALLY_NEST + 1 - old(self).in_finally, 1int, *stmt, 1int,
    {
        let (branches, else_body) = match stmt {
            Stmt::If { branches, else_body } => (branches, else_body),
            _ => {
                return None;
            },
        };
        let ends = self.compile_branches(branches)?;
        let ghost s1 = *self;
        if let Some(body) = else_body {
            self.compile_stmts(body)?;
        }
        let end = self.here();
        let ghost s2 = *self;
        self.patch_all(&ends, end);
        proof {
            if else_body.is_none() && branches@.len() > 0 {
                assert(s1 == s2);
                assert(self.chunk.code@[ends@[ends@.len() - 1] as int] == Op::Jump(end));
            }
            assert forall|i: int| 0 <= i < old(self).chunk.code@.len() implies #[trigger] self.chunk.code@[i] == old(self).chunk.code@[i] by {
                assert(self.chunk.code@[i] == s2.chunk.code@[i]) by {
                    if ends@.contains(i as usize) {
                        let k = choose|k: int| 0 <= k < ends@.len() && ends@[k] == i as usize;
                        assert(ends@[k] >= old(self).chunk.code@.len());
                    }
                }
            }
        }
        Some(())
    }

    /// `while` statement; `continue` goes back to the condition, `break` to the end.
    pub(crate) fn compile_while_stmt(&mut self, stmt: &Stmt) -> (r: Option<()>)
        requires
            old(self).inv(),
        ensures
            r is Some ==> old(self).chunk.code@.len() < final(self).chunk.code@.len(),
            r is Some ==> final(self).inv() && old(self).grown_into(final(self)),
            *stmt is While && flow_stmt(*stmt) && r is None ==> chunk_full(final(self).chunk),
            r is Some ==> final(self).chunk.code@.len() >= old(self).chunk.code@.len() + 2
                && final(self).chunk.code@.last() == Op::Jump(old(self).chunk.code@.len() as u32),
            r is Some ==> exists|jf: int| old(self).chunk.code@.len() < jf < final(self).chunk.code@.len() - 1
                && final(self).chunk.code@[jf] == Op::JumpIfFalse(final(self).chunk.code@.len() as u32),
            r is Some && (*stmt matches Stmt::While { cond, .. } && is_literal(cond)) ==> {
                &&& final(self).chunk.code@[old(self).chunk.code@.len() as int] == literal_code(stmt->cond, old(self).chunk.consts@.len())[0]
                &&& final(self).chunk.code@[old(self).chunk.code@.len() + 1int] == Op::JumpIfFalse(final(self).chunk.code@.len() as u32)
            },
            (*stmt matches Stmt::While { body, .. } && flow_stmt(*stmt)) ==> grew_within(old(self).chunk, final(self).chunk, 3 + flow_sizes(stmt->While_body@)),
            *stmt is While && flow_stmt(*stmt) && r is Some ==> spans_kept(old(self).chunk, final(self).chunk)
                && final(self).chunk.stmt_spans@[old(self).chunk.code@.len() as int] == old(self).pending_entry(),
            *stmt is While && flow_stmt(*stmt) && r is Some ==> old(self).frame_restored(final(self)),
            r is Some && (*stmt matches Stmt::While { cond, body } && is_literal(cond)
                && forall|j: int| 0 <= j < body@.len() ==> trivial_stmt(#[trigger] body@[j])) ==> {
                &&& final(self).chunk.code@ == ((old(self).chunk.code@ + literal_code(stmt->cond, old(self).chunk.consts@.len()))
                    .push(Op::JumpIfFalse(final(self).chunk.code@.len() as u32))
                    + trivial_seq_code(stmt->While_body@, old(self).chunk.consts@.len() + literal_pool(stmt->cond).len()))
                    .push(Op::Jump(old(self).chunk.code@.len() as u32))
                &&& final(self).chunk.consts@ == old(self).chunk.consts@ + literal_pool(stmt->cond) + trivial_seq_pool(stmt->While_body@)
            },
        decreases MAX_FINALLY_NEST + 1 - old(self).in_finally, 1int, *stmt, 1int,
    {
        let (cond, body) = match stmt {
            Stmt::While { cond, body } => (cond, body),
            _ => {
                return None;
            },
        };
        let start = self.here();
        self.compile_expr(cond)?;
        let ghost s_c = *self;
        let jf = self.emit(Op::JumpIfFalse(0))?;
        let ghost s_j = *self;
        let end = self.compile_loop_body(body, start)?;
        let ghost s_b = *self;
        self.patch_jump(jf, end);
        proof {
            assert(s_b.chunk.code@[jf as int] == s_j.chunk.code@[jf as int]);
            assert(self.chunk.code@[jf as int] == Op::JumpIfFalse(end));
            assert(self.chunk.code@.last() == s_b.chunk.code@.last());
            if is_literal(*cond) {
                assert(s_c.chunk.code@[start as int] == literal_code(*cond, old(self).chunk.consts@.len())[0]);
                assert(s_b.chunk.code@[start as int] == s_c.chunk.code@[start as int]);
                assert(jf == start + 1);
            }
        }
        Some(())
    }

    /// The body of a loop whose `continue` goes to `continue_target`: pushes
    /// the loop, compiles the body at the loop's entry depth, jumps back, and
    /// sends the `break`s to the end, whose index it returns.
    pub(crate) fn compile_loop_body(&mut self, body: &Vec<Stmt>, continue_target: u32) -> (r: Option<u32>)
        requires
            old(self).inv(),
            continue_target <= old(self).chunk.code@.len(),
        ensures
            r matches Some(end) ==> final(self).inv() && old(self).grown_into(final(self))
                && end == final(self).chunk.code@.len() && end > old(self).chunk.code@.len(),
            body@.len() == 0 && old(self).chunk.code@.len() + 1 < POOL_LIMIT ==> r is Some,
            flow_stmts(body@) && r is None ==> chunk_full(final(self).chunk),
            r is Some ==> final(self).chunk.code@.last() == Op::Jump(continue_target),
            flow_stmts(body@) ==> grew_within(old(self).chunk, final(self).chunk, flow_sizes(body@) + 1),
            flow_stmts(body@) && r is Some ==> spans_kept(old(self).chunk, final(self).chunk),
            flow_stmts(body@) && r is Some ==> old(self).frame_restored(final(self)),
            (forall|j: int| 0 <= j < body@.len() ==> trivial_stmt(#[trigger] body@[j])) && r is Some ==> {
                &&& final(self).chunk.code@ == (old(self).chunk.code@ + trivial_seq_code(body@, old(self).chunk.consts@.len())).push(Op::Jump(continue_target))
                &&& final(self).chunk.consts@ == old(self).chunk.consts@ + trivial_seq_pool(body@)
            },
        decreases MAX_FINALLY_NEST + 1 - old(self).in_finally, 1int, *body, 1int,
    {
        let ghost s0 = *self;
        self.loops.push(LoopCtx {
            continue_target,
            break_jumps: Vec::new(),
            try_len: self.try_stack.len(),
            start: Ghost(self.chunk.code@.len() as int),
        });
        let saved_base = self.stmt_base;
        self.stmt_base = Some(0);
        let ghost s1 = *self;
        self.compile_stmts(body)?;
        self.stmt_base = saved_base;
        let ghost s_pre = *self;
        self.emit(Op::Jump(continue_target))?;
        let end = self.here();
        let ghost s2 = *self;
        proof {
            let li = s_pre.loops@.len() - 1;
            assert(s_pre.loops@.len() == s1.loops@.len());
            assert(jumps_ok(s_pre.chunk.code@, s_pre.loops@[li].break_jumps@));
            assert(s2.loops@.last() == s_pre.loops@[li]);
            if s2.loops@.last().break_jumps@.contains((end - 1) as usize) {
                let q = choose|q: int| 0 <= q < s2.loops@.last().break_jumps@.len() && s2.loops@.last().break_jumps@[q] == (end - 1) as usize;
                assert(s_pre.loops@[li].break_jumps@[q] < s_pre.chunk.code@.len());
            }
        }
        self.end_loop(end);
        proof {
            assert(self.chunk.code@[end - 1] == s2.chunk.code@[end - 1]);
            assert(s2.loops@.last().start == s1.loops@.last().start);
            assert forall|i: int| 0 <= i < s0.chunk.code@.len() implies #[trigger] self.chunk.code@[i] == s0.chunk.code@[i] by {
                assert(self.chunk.code@[i] == s2.chunk.code@[i]);
                assert(s2.chunk.code@[i] == s1.chunk.code@[i]);
            }
            assert forall|i: int| 0 <= i < s0.loops@.len() implies (#[trigger] self.loops@[i]).start == s0.loops@[i].start by {
                assert(self.loops@[i] == s2.loops@[i]);
                assert(s2.loops@[i].start == s1.loops@[i].start);
            }
            if forall|j: int| 0 <= j < body@.len() ==> trivial_stmt(#[trigger] body@[j]) {
                assert(s_pre.loops == s1.loops);
                assert(s2.loops@.last().break_jumps@.len() == 0);
                assert(self.chunk.code@ =~= s2.chunk.code@) by {
                    assert forall|i: int| 0 <= i < s2.chunk.code@.len() implies self.chunk.code@[i] == s2.chunk.code@[i] by {
                        assert(!s2.loops@.last().break_jumps@.contains(i as usize));
                    }
                }
                assert(s1.chunk.consts@ == s0.chunk.consts@);
                assert(self.chunk.code@ =~= (s0.chunk.code@ + trivial_seq_code(body@, s0.chunk.consts@.len())).push(Op::Jump(continue_target)));
            }
        }
        Some(end)
    }

    /// Pops the innermost loop and sends its `break`s to `end`.
    pub(crate) fn end_loop(&mut self, end: u32)
        requires
            old(self).inv(),
            old(self).loops@.len() > 0,
            end <= old(self).chunk.code@.len(),
        ensures
            final(self).inv(),
            final(self).loops@ == old(self).loops@.drop_last(),
            final(self).chunk.code@.len() == old(self).chunk.code@.len(),
            forall|i: int| 0 <= i < old(self).loops@.last().start@
                ==> #[trigger] final(self).chunk.code@[i] == old(self).chunk.code@[i],
            forall|i: int| 0 <= i < old(self).chunk.code@.len() && !old(self).loops@.last().break_jumps@.contains(i as usize)
                ==> #[trigger] final(self).chunk.code@[i] == old(self).chunk.code@[i],
            final(self).chunk.pools() == old(self).chunk.pools(),
            final(self).chunk.names@ == old(self).chunk.names@,
            final(self).block_ctxs == old(self).block_ctxs,
            final(self).chunk.consts == old(self).chunk.consts,
            final(self).chunk.stmt_spans == old(self).chunk.stmt_spans,
            final(self).try_stack == old(self).try_stack,
            final(self).named_locals == old(self).named_locals,
            final(self).temps_in_use == old(self).temps_in_use,
            final(self).in_finally == old(self).in_finally,
            final(self).mode == old(self).mode,
            final(self).stmt_base == old(self).stmt_base,
            final(self).slots == old(self).slots,
            final(self).cells == old(self).cells,
            final(self).statics == old(self).statics,
    {
        let ghost last = self.loops@.last();
        let ctx = self.loops.pop().unwrap();
        assert(jumps_ok(self.chunk.code@, ctx.break_jumps@));
        self.patch_all(&ctx.break_jumps, end);
        proof {
            assert forall|i: int| 0 <= i < last.start@ implies #[trigger] self.chunk.code@[i] == old(self).chunk.code@[i] by {
                if ctx.break_jumps@.contains(i as usize) {
                    let k = choose|k: int| 0 <= k < ctx.break_jumps@.len() && ctx.break_jumps@[k] == i as usize;
                    assert(old(self).loops@[old(self).loops@.len() - 1] == last);
                }
            }
        }
    }

    /// `(condition, body)` branches of an `if` (statement or expression):
    /// each tests its condition, runs its body and jumps to the end; the
    /// jumps to the end are returned for patching.
    pub(crate) fn compile_branches(&mut self, branches: &Vec<(Expr, Vec<Stmt>)>) -> (r: Option<Vec<usize>>)
        requires
            old(self).inv(),
        ensures
            r matches Some(js) ==> final(self).inv() && old(self).grown_into(final(self))
                && jumps_ok(final(self).chunk.code@, js@) && all_from(js@, old(self).chunk.code@.len()),
            r matches Some(js) ==> js@.len() == branches@.len()
                && final(self).chunk.code@.len() >= old(self).chunk.code@.len() + 3 * branches@.len(),
            branches@.len() == 0 ==> (r matches Some(js) && js@.len() == 0 && *final(self) == *old(self)),
            (forall|k: int| 0 <= k < branches@.len() ==> plain_expr(#[trigger] branches@[k].0))
                && (forall|k: int, j: int| 0 <= k < branches@.len() && 0 <= j < branches@[k].1@.len() ==> flow_stmt(#[trigger] branches@[k].1@[j]))
                && r is None ==> chunk_full(final(self).chunk),
            r matches Some(js) ==> (js@.len() > 0 ==> js@.last() == final(self).chunk.code@.len() - 1),
            (forall|k: int| 0 <= k < branches@.len() ==> plain_expr(#[trigger] branches@[k].0))
                && (forall|k: int, j: int| 0 <= k < branches@.len() && 0 <= j < branches@[k].1@.len() ==> flow_stmt(#[trigger] branches@[k].1@[j]))
                ==> grew_within(old(self).chunk, final(self).chunk, branch_sizes(branches@)),
            (forall|k: int| 0 <= k < branches@.len() ==> plain_expr(#[trigger] branches@[k].0))
                && (forall|k: int, j: int| 0 <= k < branches@.len() && 0 <= j < branches@[k].1@.len() ==> flow_stmt(#[trigger] branches@[k].1@[j]))
                && r is Some ==> spans_kept(old(self).chunk, final(self).chunk)
                && (branches@.len() > 0 ==> final(self).chunk.stmt_spans@[old(self).chunk.code@.len() as int] == old(self).pending_entry()),
            (forall|k: int| 0 <= k < branches@.len() ==> plain_expr(#[trigger] branches@[k].0))
                && (forall|k: int, j: int| 0 <= k < branches@.len() && 0 <= j < branches@[k].1@.len() ==> flow_stmt(#[trigger] branches@[k].1@[j]))
                && r is Some ==> old(self).frame_restored(final(self)),
            r is Some && branches@.len() == 1 && simple_branch(branches@[0]) ==> {
                &&& final(self).chunk.code@ == old(self).chunk.code@ + simple_branch_code(branches@[0], old(self).chunk.consts@.len(), old(self).chunk.code@.len(), 0)
                &&& final(self).chunk.consts@ == old(self).chunk.consts@ + literal_pool(branches@[0].0) + trivial_seq_pool(branches@[0].1@)
            },
        decreases MAX_FINALLY_NEST + 1 - old(self).in_finally, 1int, *branches, 0int,
    {
        let ghost flow_ok = (forall|k: int| 0 <= k < branches@.len() ==> plain_expr(#[trigger] branches@[k].0))
            && (forall|k: int, j: int| 0 <= k < branches@.len() && 0 <= j < branches@[k].1@.len() ==> flow_stmt(#[trigger] branches@[k].1@[j]));
        let mut ends: Vec<usize> = Vec::new();
        let mut k: usize = 0;
        while k < branches.len()
            invariant
                self.inv(),
                old(self).grown_into(self),
                ends@.len() == k,
                self.chunk.code@.len() >= old(self).chunk.code@.len() + 3 * k,
                k == 0 ==> *self == *old(self),
                k <= branches@.len(),
                jumps_ok(self.chunk.code@, ends@),
                all_from(ends@, old(self).chunk.code@.len()),
                k > 0 ==> ends@.len() > 0 && ends@.last() == self.chunk.code@.len() - 1,
                flow_ok ==> grew_within(old(self).chunk, self.chunk, branch_sizes(branches@.subrange(0, k as int))),
                flow_ok ==> spans_kept(old(self).chunk, self.chunk),
                k == 1 && branches@.len() == 1 && simple_branch(branches@[0]) ==> {
                    &&& self.chunk.code@ == old(self).chunk.code@ + simple_branch_code(branches@[0], old(self).chunk.consts@.len(), old(self).chunk.code@.len(), 0)
                    &&& self.chunk.consts@ == old(self).chunk.consts@ + literal_pool(branches@[0].0) + trivial_seq_pool(branches@[0].1@)
                },
                flow_ok ==> old(self).frame_restored(self),
                flow_ok && k > 0 ==> self.chunk.stmt_spans@[old(self).chunk.code@.len() as int] == old(self).pending_entry(),
                flow_ok == ((forall|k: int| 0 <= k < branches@.len() ==> plain_expr(#[trigger] branches@[k].0))
                    && (forall|k: int, j: int| 0 <= k < branches@.len() && 0 <= j < branches@[k].1@.len() ==> flow_stmt(#[trigger] branches@[k].1@[j]))),
            decreases branches@.len() - k,
        {
            proof {
                lemma_branch_sizes_step(branches@, k as int);
                lemma_branch_sizes_prefix(branches@, k as int + 1);
                if flow_ok {
                    assert(plain_expr(branches@[k as int].0));
                    assert forall|j: int| 0 <= j < branches@[k as int].1@.len() implies flow_stmt(#[trigger] branches@[k as int].1@[j]) by {
                        assert(flow_stmt(branches@[k as int].1@[j]));
                    }
                }
            }
            assert(decreases_to!(branches => branches@[k as int].0));
            assert(decreases_to!(branches => branches@[k as int].1));
            let ghost sb0 = *self;
            self.compile_expr(&branches[k].0)?;
            let jf = self.emit(Op::JumpIfFalse(0))?;
            self.compile_stmts(&branches[k].1)?;
            let j = self.emit(Op::Jump(0))?;
            ends.push(j);
            let next = self.here();
            let ghost s1 = *self;
            self.patch_jump(jf, next);
            proof {
                assert forall|q: int| 0 <= q < ends@.len() implies (#[trigger] ends@[q]) < self.chunk.code@.len()
                    && self.chunk.code@[ends@[q] as int] is Jump by {
                    assert(s1.chunk.code@[ends@[q] as int] is Jump);
                }
                if k == 0 && branches@.len() == 1 && simple_branch(branches@[0]) {
                    assert(sb0 == *old(self));
                    assert(self.chunk.code@ =~= old(self).chunk.code@ + simple_branch_code(branches@[0], old(self).chunk.consts@.len(), old(self).chunk.code@.len(), 0));
                    assert(self.chunk.consts@ =~= old(self).chunk.consts@ + literal_pool(branches@[0].0) + trivial_seq_pool(branches@[0].1@));
                }
            }
            k = k + 1;
        }
        proof {
            assert(branches@.subrange(0, branches@.len() as int) =~= branches@);
        }
        Some(ends)
    }

    /// `break` (to the end of the innermost loop) and `continue` (to its
    /// next iteration), after unwinding what lies between. Outside a loop
    /// they fail at run time with the tree walker's message.
    pub(crate) fn compile_loop_exit(&mut self, stmt: &Stmt) -> (r: Option<()>)
        requires
            old(self).inv(),
        ensures
            r is Some ==> old(self).chunk.code@.len() < final(self).chunk.code@.len(),
            r is Some ==> final(self).inv() && old(self).grown_into(final(self)),
            (*stmt is Break || *stmt is Continue) && old(self).loops@.len() == 0 ==> {
                &&& r is None ==> chunk_full(final(self).chunk)
                &&& has_room(old(self).chunk, 1) ==> r is Some
                &&& r is Some ==> final(self).chunk.code@ == old(self).chunk.code@.push(Op::Fail(old(self).chunk.names@.len() as u32))
                    && final(self).chunk.names@.len() == old(self).chunk.names@.len() + 1
                    && final(self).chunk.names@.last()@ == loop_exit_message(*stmt)
            },
        decreases MAX_FINALLY_NEST + 1 - old(self).in_finally, 1int, *stmt, 1int,
    {
        let is_break = match stmt {
            Stmt::Break => true,
            Stmt::Continue => false,
            _ => {
                return None;
            },
        };
        if self.loops.len() == 0 {
            let msg = if is_break {
                "SyntaxError: 'break' outside for/while loop"
            } else {
                "SyntaxError: 'continue' outside for/while loop"
            };
            let n = self.add_name(msg)?;
            self.emit(Op::Fail(n))?;
            return Some(());
        }
        let target = self.loops[self.loops.len() - 1].continue_target;
        self.emit_unwind_to_loop(Ghost(*stmt))?;
        if is_break {
            let j = self.emit(Op::Jump(0))?;
            let ghost s1 = *self;
            let mut ctx = self.loops.pop().unwrap();
            ctx.break_jumps.push(j);
            self.loops.push(ctx);
            proof {
                assert forall|i: int| 0 <= i < self.loops@.len() implies (#[trigger] self.loops@[i]).continue_target <= self.chunk.code@.len()
                    && jumps_ok(self.chunk.code@, self.loops@[i].break_jumps@)
                    && 0 <= self.loops@[i].start@ <= self.chunk.code@.len()
                    && all_from(self.loops@[i].break_jumps@, self.loops@[i].start@ as nat) by {
                    if i < self.loops@.len() - 1 {
                        assert(self.loops@[i] == s1.loops@[i]);
                    }
                }
            }
        } else {
            self.emit(Op::Jump(target))?;
        }
        Some(())
    }

    /// `let`/`mut`/`const` declarations: a slot store (`mut` deep-copies,
    /// `let` copies and freezes according to its source), a cell for a
    /// `mut` captured by a nested function, or a global declaration at the
    /// top level; `_` discards the value.
    pub(crate) fn compile_decl(&mut self, stmt: &Stmt) -> (r: Option<()>)
        requires
            old(self).inv(),
        ensures
            r is Some ==> old(self).chunk.code@.len() < final(self).chunk.code@.len(),
            r is Some ==> final(self).inv() && old(self).grown_into(final(self)),
            (*stmt matches Stmt::Let(name, _, e) && !is_wildcard(name@) && plain_let_literal(e)) && old(self).toplevel_globals@.len() > 0
                && old(self).slots.get_spec(stmt->Let_0@) is None && has_room(old(self).chunk, 3) ==> r is Some,
            (*stmt matches Stmt::Let(name, _, e) && !is_wildcard(name@) && plain_let_literal(e)) && old(self).toplevel_globals@.len() > 0
                && old(self).slots.get_spec(stmt->Let_0@) is None && r is Some ==> {
                &&& final(self).chunk.code@ == old(self).chunk.code@ + toplevel_let_code(stmt->Let_2, old(self).chunk.consts@.len(), old(self).chunk.names@.len())
                &&& final(self).chunk.names@.len() == old(self).chunk.names@.len() + 2
                &&& final(self).chunk.names@[old(self).chunk.names@.len() as int]@ == stmt->Let_0@
                &&& final(self).chunk.names@[old(self).chunk.names@.len() + 1int]@ == stmt->Let_0@
                &&& final(self).chunk.consts@ == old(self).chunk.consts@ + literal_pool(stmt->Let_2)
            },
            (*stmt is Let || *stmt is Mut || *stmt is Const) && !is_wildcard(decl_name(*stmt)) && old(self).toplevel_globals@.len() == 0
                && r is Some ==> old(self).local_decl_stored(final(self), *stmt),
            (*stmt is Const || *stmt is Mut) && !is_wildcard(decl_name(*stmt)) && r is Some
                ==> decl_store_kind_ok(*stmt, final(self).chunk.code@.last(), final(self).chunk.names@),
            global_decl_compiled(*stmt, *old(self), *final(self), r is Some),
        decreases MAX_FINALLY_NEST + 1 - old(self).in_finally, 1int, *stmt, 1int,
    {
        match stmt {
            Stmt::Const(name, _, e) => {
                self.compile_expr(e)?;
                if is_wildcard_name(name) {
                    self.emit(Op::Pop)?;
                } else if let Some(ni) = self.toplevel_decl_name(name) {
                    let ghost c1 = self.chunk;
                    self.emit(Op::DeclareGlobal(ni, DeclKind::Const))?;
                    proof {
                        if is_literal(*e) {
                            assert(self.chunk.code@ =~= c1.code@ + seq![Op::DeclareGlobal(ni, DeclKind::Const)]);
                        }
                    }
                } else {
                    let slot = self.slot_of(name)?;
                    self.emit(Op::StoreLocal(slot))?;
                }
            },
            Stmt::Mut(name, _, e) => {
                self.compile_expr(e)?;
                if is_wildcard_name(name) {
                    self.emit(Op::Pop)?;
                } else if let Some(ni) = self.toplevel_decl_name(name) {
                    let ghost c1 = self.chunk;
                    self.emit(Op::DeclareGlobal(ni, DeclKind::Mut))?;
                    proof {
                        if is_literal(*e) {
                            assert(self.chunk.code@ =~= c1.code@ + seq![Op::DeclareGlobal(ni, DeclKind::Mut)]);
                        }
                    }
                } else if let Some(i) = self.cells.get(name) {
                    proof {
                        let k = choose|k: int| 0 <= k < self.cells.entries@.len() && self.cells.entries@[k].1 == i;
                        assert(self.cells.entries@[k].1 < self.chunk.n_cells);
                    }
                    self.emit(Op::StoreCellDeepCopy(i))?;
                } else {
                    let slot = self.slot_of(name)?;
                    self.emit(Op::StoreLocalDeepCopy(slot))?;
                }
            },
            Stmt::Let(name, _, e) => {
                // The top-level test runs first (it records the name).
                let ghost s0 = *self;
                let top = self.toplevel_decl_name(name);
                let ghost s1 = *self;
                if top.is_some() && !is_wildcard_name(name) {
                    self.compile_toplevel_let(name, e)?;
                    proof {
                        if plain_let_literal(*e) {
                            assert(self.chunk.code@ =~= old(self).chunk.code@ + toplevel_let_code(*e, old(self).chunk.consts@.len(), old(self).chunk.names@.len()));
                            assert(self.chunk.names@[old(self).chunk.names@.len() as int] == s1.chunk.names@[old(self).chunk.names@.len() as int]);
                        }
                    }
                } else {
                    self.compile_local_let(name, e)?;
                }
            },
            _ => {
                return None;
            },
        }
        Some(())
    }

    /// A top-level `let`: the copy rule is decided at run time from the source
    /// when it is an identifier.
    pub(crate) fn compile_toplevel_let(&mut self, name: &String, e: &Expr) -> (r: Option<()>)
        requires
            old(self).inv(),
        ensures
            r is Some ==> old(self).chunk.code@.len() < final(self).chunk.code@.len(),
            r is Some ==> final(self).inv() && old(self).grown_into(final(self)),
            plain_let_literal(*e) && old(self).toplevel_globals@.len() > 0 && old(self).slots.get_spec(name@) is None
                && has_room(old(self).chunk, 2) ==> r is Some,
            plain_let_literal(*e) && r is Some ==> {
                &&& final(self).chunk.code@ == old(self).chunk.code@ + literal_code(*e, old(self).chunk.consts@.len())
                    .push(Op::DeclareGlobal(old(self).chunk.names@.len() as u32, DeclKind::LetPlain))
                &&& final(self).chunk.names@.len() == old(self).chunk.names@.len() + 1
                &&& final(self).chunk.names@.last()@ == name@
                &&& forall|i: int| 0 <= i < old(self).chunk.names@.len() ==> #[trigger] final(self).chunk.names@[i] == old(self).chunk.names@[i]
                &&& final(self).chunk.consts@ == old(self).chunk.consts@ + literal_pool(*e)
            },
        decreases MAX_FINALLY_NEST + 1 - old(self).in_finally, 1int, *e, 3int,
    {
        let kind = match e {
            Expr::Int(_) | Expr::Float(_) | Expr::Bool(_) | Expr::Str(_) | Expr::NoneLit => DeclKind::LetPlain,
            Expr::Ident { name: src, .. } => DeclKind::LetFromIdent(self.add_name(src.as_str())?),
            _ => DeclKind::LetFreezeInstance,
        };
        let ghost s0 = *self;
        let ni = self.toplevel_decl_name(name)?;
        let ghost s1 = *self;
        self.compile_expr(e)?;
        let ghost s2 = *self;
        self.emit(Op::DeclareGlobal(ni, kind))?;
        proof {
            if plain_let_literal(*e) {
                assert(s0 == *old(self));
                assert(s2.chunk.names@ == s1.chunk.names@);
                assert(self.chunk.names@ == s1.chunk.names@);
                assert(s1.chunk.names@.len() == old(self).chunk.names@.len() + 1);
                assert(self.chunk.code@ =~= old(self).chunk.code@ + literal_code(*e, old(self).chunk.consts@.len())
                    .push(Op::DeclareGlobal(old(self).chunk.names@.len() as u32, DeclKind::LetPlain)));
            }
        }
        Some(())
    }

    /// A `let` into a slot; the store follows the source: a mutable local is
    /// copied and frozen, an immutable one or a literal stored as is, a free
    /// identifier decided at run time, any other value frozen when it is an
    /// instance.
    pub(crate) fn compile_local_let(&mut self, name: &String, e: &Expr) -> (r: Option<()>)
        requires
            old(self).inv(),
        ensures
            r is Some ==> old(self).chunk.code@.len() < final(self).chunk.code@.len(),
            r is Some ==> final(self).inv() && old(self).grown_into(final(self)),
            !is_wildcard(name@) && old(self).slots.get_spec(name@) is None ==> r is None,
            !is_wildcard(name@) && r is Some ==> old(self).cells.get_spec(name@) is None && old(self).statics.get_spec(name@) is None
                && (old(self).slots.get_spec(name@) matches Some(s) && final(self).chunk.code@.last() == old(self).local_let_store(s, *e)),
        decreases MAX_FINALLY_NEST + 1 - old(self).in_finally, 1int, *e, 3int,
    {
        if is_wildcard_name(name) {
            self.compile_expr(e)?;
            self.emit(Op::Pop)?;
            return Some(());
        }
        let slot = self.slot_of(name)?;
        let store = match e {
            Expr::Ident { res: Resolution::Local(s), .. } => {
                if (*s as usize) < self.slot_mut.len() && self.slot_mut[*s as usize] {
                    Op::StoreLocalCopyFreeze(slot)
                } else {
                    Op::StoreLocal(slot)
                }
            },
            Expr::Ident { name: nm, .. } => match self.slots.get(nm) {
                Some(s) => {
                    if (s as usize) < self.slot_mut.len() && self.slot_mut[s as usize] {
                        Op::StoreLocalCopyFreeze(slot)
                    } else {
                        Op::StoreLocal(slot)
                    }
                },
                None => {
                    let ni = self.add_name(nm.as_str())?;
                    Op::StoreLocalFromIdent(slot, ni)
                },
            },
            Expr::Int(_) | Expr::Float(_) | Expr::Bool(_) | Expr::Str(_) | Expr::NoneLit => Op::StoreLocal(slot),
            _ => Op::StoreLocalFreezeInstance(slot),
        };
        self.compile_expr(e)?;
        self.emit(store)?;
        Some(())
    }
}

impl Compiler {
    /// Gives each `for` variable that shadows another binding a fresh slot for
    /// the duration of the loop; returns the replaced `(name, slot)` pairs.
    pub(crate) fn shadow_for_targets(&mut self, targets: &Vec<String>) -> (r: Option<Vec<(String, u16)>>)
        requires
            old(self).inv(),
        ensures
            r matches Some(saved) ==> {
                &&& final(self).inv()
                &&& old(self).stable_into(final(self))
                &&& final(self).temps_in_use == old(self).temps_in_use + saved@.len()
                &&& forall|k: int| 0 <= k < saved@.len() ==> (#[trigger] saved@[k]).1 < final(self).chunk.n_locals
                &&& final(self).chunk.code@ == old(self).chunk.code@
            },
            r matches Some(saved) ==> forall|q: int| 0 <= q < saved@.len() ==> exists|k: int| 0 <= k < targets@.len()
                && (#[trigger] saved@[q]).0@ == (#[trigger] targets@[k])@ && !is_wildcard(targets@[k]@),
            (forall|k: int| 0 <= k < targets@.len() ==> is_wildcard((#[trigger] targets@[k])@)
                || !(exists|i: int| 0 <= i < old(self).shadowed_for_targets@.len() && old(self).shadowed_for_targets@[i]@ == targets@[k]@))
                ==> (r matches Some(saved) && saved@.len() == 0 && *final(self) == *old(self)),
    {
        let mut saved: Vec<(String, u16)> = Vec::new();
        let mut k: usize = 0;
        while k < targets.len()
            invariant
                forall|q: int| 0 <= q < saved@.len() ==> exists|j: int| 0 <= j < k
                    && (#[trigger] saved@[q]).0@ == (#[trigger] targets@[j])@ && !is_wildcard(targets@[j]@),
                self.shadowed_for_targets == old(self).shadowed_for_targets,
                (forall|j: int| 0 <= j < targets@.len() ==> is_wildcard((#[trigger] targets@[j])@)
                    || !(exists|i: int| 0 <= i < old(self).shadowed_for_targets@.len() && old(self).shadowed_for_targets@[i]@ == targets@[j]@))
                    ==> saved@.len() == 0 && *self == *old(self),
                self.inv(),
                old(self).stable_into(self),
                self.temps_in_use == old(self).temps_in_use + saved@.len(),
                forall|q: int| 0 <= q < saved@.len() ==> (#[trigger] saved@[q]).1 < self.chunk.n_locals,
                self.chunk.code@ == old(self).chunk.code@,
                k <= targets@.len(),
            decreases targets@.len() - k,
        {
            let t = &targets[k];
            if !is_wildcard_name(t) && set_contains(&self.shadowed_for_targets, t) {
                let ghost s1 = *self;
                let prev = self.slot_of_name(t)?;
                let fresh = self.alloc_temp()?;
                self.slots.insert(t.clone(), fresh);
                saved.push((t.clone(), prev));
                proof {
                    lemma_stable_trans(*old(self), s1, *self);
                }
            }
            k = k + 1;
        }
        Some(saved)
    }

    /// Puts the shadowed `for` variables back and releases their slots.
    pub(crate) fn restore_shadows(&mut self, saved: Vec<(String, u16)>)
        requires
            old(self).inv(),
            old(self).temps_in_use >= saved@.len(),
            forall|k: int| 0 <= k < saved@.len() ==> (#[trigger] saved@[k]).1 < old(self).chunk.n_locals,
        ensures
            final(self).inv(),
            old(self).stable_into(final(self)),
            final(self).temps_in_use == old(self).temps_in_use - saved@.len(),
    {
        let mut k: usize = saved.len();
        while k > 0
            invariant
                self.inv(),
                old(self).stable_into(self),
                k <= saved@.len(),
                old(self).temps_in_use >= saved@.len(),
                self.temps_in_use == old(self).temps_in_use - (saved@.len() - k),
                self.chunk.n_locals == old(self).chunk.n_locals,
                forall|q: int| 0 <= q < saved@.len() ==> (#[trigger] saved@[q]).1 < old(self).chunk.n_locals,
            decreases k,
        {
            k = k - 1;
            let name = saved[k].0.clone();
            let v = saved[k].1;
            self.slots.insert(name, v);
            self.free_temp();
        }
    }

    /// Slot of each target of a destructuring `for` (`None` for `_`).
    pub(crate) fn tuple_target_slots(&self, targets: &Vec<String>) -> (r: Option<Vec<Option<u16>>>)
        requires
            self.inv(),
        ensures
            r matches Some(v) ==> v@.len() == targets@.len()
                && forall|k: int| 0 <= k < v@.len() ==> (#[trigger] v@[k] matches Some(s) ==> s < self.chunk.n_locals),
            r matches Some(v) ==> forall|k: int| 0 <= k < v@.len() ==> #[trigger] v@[k] == (if is_wildcard(targets@[k]@) {
                None
            } else {
                self.target_slot_spec(targets@[k]@)
            }),
            (forall|k: int| 0 <= k < targets@.len() ==> is_wildcard((#[trigger] targets@[k])@)
                || self.target_slot_spec(targets@[k]@) is Some) ==> r is Some,
    {
        let mut out: Vec<Option<u16>> = Vec::new();
        let mut k: usize = 0;
        while k < targets.len()
            invariant
                self.inv(),
                k <= targets@.len(),
                out@.len() == k,
                forall|q: int| 0 <= q < k ==> #[trigger] out@[q] == (if is_wildcard(targets@[q]@) {
                    None
                } else {
                    self.target_slot_spec(targets@[q]@)
                }),
                forall|q: int| 0 <= q < out@.len() ==> (#[trigger] out@[q] matches Some(s) ==> s < self.chunk.n_locals),
            decreases targets@.len() - k,
        {
            if is_wildcard_name(&targets[k]) {
                out.push(None);
            } else {
                let s = self.slot_of(&targets[k])?;
                out.push(Some(s));
            }
            k = k + 1;
        }
        Some(out)
    }

    /// Destructures the element in `source`: pushes its parts, then stores
    /// them last first (`_` parts are dropped).
    pub(crate) fn emit_unpack(&mut self, source: u16, slots: &Vec<Option<u16>>) -> (r: Option<()>)
        requires
            old(self).inv(),
            source < old(self).chunk.n_locals,
            forall|k: int| 0 <= k < slots@.len() ==> (#[trigger] slots@[k] matches Some(s) ==> s < old(self).chunk.n_locals),
        ensures
            r is Some ==> final(self).inv() && old(self).grown_into(final(self)),
            r is Some ==> final(self).chunk.code@.len() == old(self).chunk.code@.len() + 1 + slots@.len()
                && final(self).chunk.code@[old(self).chunk.code@.len() as int] == Op::UnpackTuple(source, slots@.len() as u16),
            slots@.len() <= u16::MAX && old(self).chunk.code@.len() + 1 + slots@.len() <= POOL_LIMIT ==> r is Some,
    {
        let n = Self::count_u16(slots.len())?;
        self.emit(Op::UnpackTuple(source, n))?;
        let ghost at = old(self).chunk.code@.len();
        let mut k: usize = slots.len();
        while k > 0
            invariant
                self.inv(),
                old(self).grown_into(self),
                k <= slots@.len(),
                self.chunk.code@.len() == at + 1 + (slots@.len() - k),
                self.chunk.code@[at as int] == Op::UnpackTuple(source, slots@.len() as u16),
                at == old(self).chunk.code@.len(),
                slots@.len() <= u16::MAX && at + 1 + slots@.len() <= POOL_LIMIT ==> self.chunk.code@.len() + k <= POOL_LIMIT,
                forall|q: int| 0 <= q < slots@.len() ==> (#[trigger] slots@[q] matches Some(s) ==> s < self.chunk.n_locals),
            decreases k,
        {
            k = k - 1;
            match slots[k] {
                Some(s) => {
                    self.emit(Op::StoreLocal(s))?;
                },
                None => {
                    self.emit(Op::Pop)?;
                },
            }
        }
        Some(())
    }

    /// `for t in iter:` / `for a, b in iter:`. The iterator lives in a
    /// temporary; several targets (or `_`) receive the element in another
    /// temporary first; a target that shadows another binding has its own
    /// slot for the duration of the loop.
    #[verifier::rlimit(30)]
    pub(crate) fn compile_for_stmt(&mut self, stmt: &Stmt) -> (r: Option<()>)
        requires
            old(self).inv(),
        ensures
            r is Some ==> old(self).chunk.code@.len() < final(self).chunk.code@.len(),
            r is Some ==> final(self).inv() && old(self).grown_into(final(self)),
        decreases MAX_FINALLY_NEST + 1 - old(self).in_finally, 1int, *stmt, 1int,
    {
        let (targets, iter, body) = match stmt {
            Stmt::For { targets, iter, body } => (targets, iter, body),
            _ => {
                return None;
            },
        };
        if targets.len() == 0 {
            return None;
        }
        let ghost s0 = *self;
        let saved = self.shadow_for_targets(targets)?;
        let unpack = targets.len() > 1;
        let ghost s1 = *self;
        let sink = if unpack || is_wildcard_name(&targets[0]) {
            Some(self.alloc_temp()?)
        } else {
            None
        };
        let target_slot = match sink {
            Some(t) => t,
            None => self.slot_of(&targets[0])?,
        };
        let target_slots = if unpack {
            self.tuple_target_slots(targets)?
        } else {
            Vec::new()
        };
        let ghost s2 = *self;
        let iter_temp = self.alloc_temp()?;
        let ghost s3 = *self;
        self.compile_expr(iter)?;
        self.emit(Op::GetIter)?;
        self.emit(Op::StoreLocal(iter_temp))?;
        let loop_start = self.here();
        let fi = self.emit(Op::ForIter(iter_temp, target_slot, 0))?;
        if unpack {
            self.emit_unpack(target_slot, &target_slots)?;
        }
        let exit = self.compile_loop_body(body, loop_start)?;
        let ghost s4 = *self;
        self.patch_jump(fi, exit);
        let ghost s5 = *self;
        self.free_temp();
        if sink.is_some() {
            self.free_temp();
        }
        let ghost s6 = *self;
        self.restore_shadows(saved);
        proof {
            lemma_stable_trans(s0, s1, s2);
            lemma_stable_trans(s0, s2, s3);
            lemma_stable_trans(s0, s3, s4);
            assert(s0.stable_into(&s5)) by {
                assert forall|i: int| 0 <= i < s0.chunk.code@.len() implies #[trigger] s5.chunk.code@[i] == s0.chunk.code@[i] by {
                    assert(s5.chunk.code@[i] == s4.chunk.code@[i]);
                }
                assert forall|i: int| 0 <= i < s0.loops@.len() implies (#[trigger] s5.loops@[i]).start == s0.loops@[i].start by {
                    assert(s5.loops@[i] == s4.loops@[i]);
                }
                assert forall|i: int| 0 <= i < s0.block_ctxs@.len() implies (#[trigger] s5.block_ctxs@[i]).start == s0.block_ctxs@[i].start by {
                    assert(s5.block_ctxs@[i] == s4.block_ctxs@[i]);
                }
            }
            lemma_stable_trans(s0, s5, s6);
            lemma_stable_trans(s0, s6, *self);
        }
        Some(())
    }
}

} // verus!

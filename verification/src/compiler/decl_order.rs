//! The resolver's declaration order, and the numbering it gives.
//!
//! `decls_*` list the declarations of a piece of syntax in the order in which
//! slots are handed out: a statement's own declaration, then its
//! sub-expressions, then its bodies; nested function bodies are other frames.
//! `decl_fold` numbers such a list from a given table state.
use vstd::prelude::*;

use crate::ast::{CallArg, ExceptHandler, Expr, MatchArm, Stmt, TupleTarget};
use crate::compiler::decls::is_wildcard;
use crate::names::NameMap;

verus! {

/// One declaration: its name, whether it is mutable, its annotation.
pub type Decl = (Seq<char>, bool, Option<String>);

/// The numbering state: each name's slot, the per-slot mutability and
/// annotation, the next free slot, and whether the slots ran out.
pub type DeclState = (Map<Seq<char>, u16>, Seq<bool>, Seq<Option<String>>, int, bool);

/// The declarations of the statements `s`, in order.
pub open spec fn decls_stmts(s: Seq<Stmt>) -> Seq<Decl>
    decreases s,
{
    if s.len() == 0 {
        Seq::empty()
    } else {
        decls_stmt(s[0]) + decls_stmts(s.subrange(1, s.len() as int))
    }
}

/// The declarations of an optional body.
pub open spec fn decls_opt_body(b: Option<Vec<Stmt>>) -> Seq<Decl>
    decreases b,
{
    match b {
        Some(v) => decls_stmts(v@),
        None => Seq::empty(),
    }
}

/// The declarations of one statement.
pub open spec fn decls_stmt(s: Stmt) -> Seq<Decl>
    decreases s,
{
    match s {
        Stmt::Let(name, ty, e) => seq![(name@, false, ty)] + decls_expr(e),
        Stmt::Const(name, ty, e) => seq![(name@, false, ty)] + decls_expr(e),
        Stmt::Mut(name, ty, e) => seq![(name@, true, ty)] + decls_expr(e),
        Stmt::LetTuple { targets, value } => decls_tuple(targets@) + decls_expr(value),
        Stmt::Expr(e) => decls_expr(e),
        Stmt::BlockReturn(e, _) => decls_expr(e),
        Stmt::LoopYield(e) => decls_expr(e),
        Stmt::Yield(e) => decls_expr(e),
        Stmt::Return(Some(e)) => decls_expr(e),
        Stmt::Assign { value, .. } => decls_expr(value),
        Stmt::CompoundAssign { value, .. } => decls_expr(value),
        Stmt::FnDef { name, .. } => seq![(name@, false, None)],
        Stmt::EnumDef { name } => seq![(name@, false, None)],
        Stmt::AttrAssign { target, value } => decls_expr(target) + decls_expr(value),
        Stmt::AttrCompoundAssign { target, value, .. } => decls_expr(target) + decls_expr(value),
        Stmt::If { branches, else_body } => decls_branches(branches@) + decls_opt_body(else_body),
        Stmt::While { cond, body } => decls_expr(cond) + decls_stmts(body@),
        Stmt::Match { subject, arms } => decls_expr(subject) + decls_arms(arms@),
        Stmt::For { targets, iter, body } => decls_for_targets(targets@) + (decls_expr(iter) + decls_stmts(body@)),
        Stmt::Block(b) => decls_stmts(b@),
        Stmt::Raise { exc: Some(e), .. } => decls_expr(e),
        Stmt::Try { body, handlers, finally_body } => decls_stmts(body@) + (decls_handlers(handlers@) + decls_opt_body(finally_body)),
        _ => Seq::empty(),
    }
}

/// The declarations of the `(condition, body)` branches of an `if`.
pub open spec fn decls_branches(s: Seq<(Expr, Vec<Stmt>)>) -> Seq<Decl>
    decreases s,
{
    if s.len() == 0 {
        Seq::empty()
    } else {
        decls_expr(s[0].0) + decls_stmts(s[0].1@) + decls_branches(s.subrange(1, s.len() as int))
    }
}

/// The declarations of a list of expressions.
pub open spec fn decls_exprs(s: Seq<Expr>) -> Seq<Decl>
    decreases s,
{
    if s.len() == 0 {
        Seq::empty()
    } else {
        decls_expr(s[0]) + decls_exprs(s.subrange(1, s.len() as int))
    }
}

/// The declarations in the bodies of `match` arms.
pub open spec fn decls_arms(s: Seq<MatchArm>) -> Seq<Decl>
    decreases s,
{
    if s.len() == 0 {
        Seq::empty()
    } else {
        decls_stmts(s[0].body@) + decls_arms(s.subrange(1, s.len() as int))
    }
}

/// The alias of an `except` clause, if it has one.
pub open spec fn decls_alias(h: ExceptHandler) -> Seq<Decl> {
    match h.name {
        Some(a) => seq![(a@, false, None)],
        None => Seq::empty(),
    }
}

/// The declarations of `except` clauses: each alias, then its body.
pub open spec fn decls_handlers(s: Seq<ExceptHandler>) -> Seq<Decl>
    decreases s,
{
    if s.len() == 0 {
        Seq::empty()
    } else {
        decls_alias(s[0]) + decls_stmts(s[0].body@) + decls_handlers(s.subrange(1, s.len() as int))
    }
}

/// The declarations of call arguments.
pub open spec fn decls_args(s: Seq<CallArg>) -> Seq<Decl>
    decreases s,
{
    if s.len() == 0 {
        Seq::empty()
    } else {
        decls_arg(s[0]) + decls_args(s.subrange(1, s.len() as int))
    }
}

/// The declarations of one call argument.
pub open spec fn decls_arg(a: CallArg) -> Seq<Decl>
    decreases a,
{
    match a {
        CallArg::Positional(x) => decls_expr(x),
        CallArg::Keyword { value, .. } => decls_expr(value),
        CallArg::Variadic(xs) => decls_exprs(xs@),
    }
}

/// The declarations of dictionary entries.
pub open spec fn decls_pairs(s: Seq<(Expr, Expr)>) -> Seq<Decl>
    decreases s,
{
    if s.len() == 0 {
        Seq::empty()
    } else {
        decls_expr(s[0].0) + decls_expr(s[0].1) + decls_pairs(s.subrange(1, s.len() as int))
    }
}

/// The declaration of one target of `let a, b = t`.
pub open spec fn decl_tuple_target(t: TupleTarget) -> Seq<Decl> {
    match t {
        TupleTarget::Wildcard => Seq::empty(),
        TupleTarget::Let(nm) => seq![(nm@, false, None)],
        TupleTarget::Bare(nm) => seq![(nm@, false, None)],
        TupleTarget::Mut(nm) => seq![(nm@, true, None)],
    }
}

/// The declarations of the targets of `let a, b = t`.
pub open spec fn decls_tuple(s: Seq<TupleTarget>) -> Seq<Decl>
    decreases s.len(),
{
    if s.len() == 0 {
        Seq::empty()
    } else {
        decl_tuple_target(s[0]) + decls_tuple(s.subrange(1, s.len() as int))
    }
}

/// The loop variables of a `for` statement (mutable, without annotation).
pub open spec fn decls_for_targets(s: Seq<String>) -> Seq<Decl>
    decreases s.len(),
{
    if s.len() == 0 {
        Seq::empty()
    } else {
        seq![(s[0]@, true, None::<String>)] + decls_for_targets(s.subrange(1, s.len() as int))
    }
}

/// The declarations of an optional sub-expression.
pub open spec fn decls_opt_expr(e: Option<Box<Expr>>) -> Seq<Decl>
    decreases e,
{
    match e {
        Some(x) => decls_expr(*x),
        None => Seq::empty(),
    }
}

/// The declarations inside the block expressions of `e` (match patterns are
/// not entered).
pub open spec fn decls_expr(e: Expr) -> Seq<Decl>
    decreases e,
{
    match e {
        Expr::Block { stmts, .. } => decls_stmts(stmts@),
        Expr::IfExpr { branches, else_body, .. } => decls_branches(branches@) + decls_opt_body(else_body),
        Expr::MatchExpr { subject, arms, .. } => decls_expr(*subject) + decls_arms(arms@),
        Expr::ForExpr { target, iter, body, .. } => seq![(target@, true, None::<String>)] + (decls_expr(*iter) + decls_stmts(body@)),
        Expr::WhileExpr { cond, body, .. } => decls_expr(*cond) + decls_stmts(body@),
        Expr::BinOp { left, right, .. } => decls_expr(*left) + decls_expr(*right),
        Expr::UnaryOp { operand, .. } => decls_expr(*operand),
        Expr::Call { func, args, .. } => decls_expr(*func) + decls_args(args@),
        Expr::Attr { object, .. } => decls_expr(*object),
        Expr::TraitAccess { object, .. } => decls_expr(*object),
        Expr::Subscript { object, index } => decls_expr(*object) + decls_expr(*index),
        Expr::Slice { begin, end, step } => decls_opt_expr(begin) + (decls_opt_expr(end) + decls_opt_expr(step)),
        Expr::List(items) => decls_exprs(items@),
        Expr::Tuple(items) => decls_exprs(items@),
        Expr::SetLit(items) => decls_exprs(items@),
        Expr::Dict(pairs) => decls_pairs(pairs@),
        Expr::TemplateInstantiate { base, .. } => decls_expr(*base),
        Expr::IsType { expr, .. } => decls_expr(*expr),
        Expr::MustBe { expr, .. } => decls_expr(*expr),
        Expr::Cast { object, .. } => decls_expr(*object),
        _ => Seq::empty(),
    }
}

/// The numbering state of the tables.
pub(crate) open spec fn decl_state(slots: NameMap<u16>, slot_mut: Seq<bool>, slot_type: Seq<Option<String>>, n: u16) -> DeclState {
    (
        Map::new(|k: Seq<char>| slots.get_spec(k) is Some, |k: Seq<char>| slots.get_spec(k)->0),
        slot_mut,
        slot_type,
        n as int,
        false,
    )
}

/// The state of empty tables.
pub open spec fn empty_decl_state() -> DeclState {
    (Map::empty(), Seq::empty(), Seq::empty(), 0, false)
}

/// Empty tables are in the empty numbering state.
pub(crate) proof fn lemma_decl_state_empty(slots: NameMap<u16>)
    requires
        slots.entries@.len() == 0,
    ensures
        decl_state(slots, Seq::empty(), Seq::empty(), 0) == empty_decl_state(),
{
    assert(decl_state(slots, Seq::empty(), Seq::empty(), 0).0 =~= Map::<Seq<char>, u16>::empty());
}

/// Numbers one declaration: `_` and names that have a slot take none; a new
/// name takes the next slot, and when there is none left the numbering fails.
pub open spec fn decl_step(st: DeclState, d: Decl) -> DeclState {
    if st.4 || is_wildcard(d.0) || st.0.dom().contains(d.0) {
        st
    } else if st.3 >= u16::MAX {
        (st.0, st.1, st.2, st.3, true)
    } else {
        (st.0.insert(d.0, st.3 as u16), st.1.push(d.1), st.2.push(d.2), st.3 + 1, false)
    }
}

/// Numbers the declarations `ds` in order.
pub open spec fn decl_fold(st: DeclState, ds: Seq<Decl>) -> DeclState
    decreases ds.len(),
{
    if ds.len() == 0 {
        st
    } else {
        decl_step(decl_fold(st, ds.drop_last()), ds.last())
    }
}

/// The tables went from the first state to the second by numbering `ds`:
/// the call succeeded exactly when the numbering did not run out of slots,
/// and then the tables are the numbered ones.
pub(crate) open spec fn numbered(
    slots0: NameMap<u16>, mut0: Seq<bool>, type0: Seq<Option<String>>, n0: u16,
    ds: Seq<Decl>, ok: bool,
    slots1: NameMap<u16>, mut1: Seq<bool>, type1: Seq<Option<String>>, n1: u16,
) -> bool {
    let s1 = decl_fold(decl_state(slots0, mut0, type0, n0), ds);
    &&& ok <==> !s1.4
    &&& ok ==> decl_state(slots1, mut1, type1, n1) == s1
}

/// Numbering `a` then `b` is numbering `a + b`.
pub proof fn lemma_decl_fold_concat(st: DeclState, a: Seq<Decl>, b: Seq<Decl>)
    ensures
        decl_fold(st, a + b) == decl_fold(decl_fold(st, a), b),
    decreases b.len(),
{
    if b.len() == 0 {
        assert(a + b =~= a);
    } else {
        assert((a + b).drop_last() =~= a + b.drop_last());
        assert((a + b).last() == b.last());
        lemma_decl_fold_concat(st, a, b.drop_last());
    }
}

/// Once the slots ran out, numbering more changes nothing.
pub proof fn lemma_decl_fold_failed(st: DeclState, ds: Seq<Decl>)
    ensures
        st.4 ==> decl_fold(st, ds) == st,
    decreases ds.len(),
{
    if ds.len() > 0 {
        lemma_decl_fold_failed(st, ds.drop_last());
    }
}

/// Numbering `a` then `b`: the whole fails if `a` does, and otherwise goes on
/// from where `a` left the tables.
pub proof fn lemma_decl_fold_then(st: DeclState, a: Seq<Decl>, b: Seq<Decl>)
    ensures
        decl_fold(st, a + b) == decl_fold(decl_fold(st, a), b),
        decl_fold(st, a).4 ==> decl_fold(st, a + b) == decl_fold(st, a),
{
    lemma_decl_fold_concat(st, a, b);
    lemma_decl_fold_failed(decl_fold(st, a), b);
}

/// Numbering one declaration is one step.
pub proof fn lemma_decl_fold_one(st: DeclState, d: Decl)
    ensures
        decl_fold(st, seq![d]) == decl_step(st, d),
{
    assert(seq![d].drop_last() =~= Seq::<Decl>::empty());
    assert(seq![d].last() == d);
    assert(decl_fold(st, Seq::<Decl>::empty()) == st);
}


} // verus!

//! Slot numbering and the syntax walks it needs.
//!
//! Slots are numbered in the resolver's order: a name takes the next slot the
//! first time it is declared; `_` and names that already have a slot take none.
use vstd::prelude::*;

use crate::ast::{CallArg, Expr, Param, Stmt, TupleTarget};
use crate::ast::clone_opt_string;
use crate::names::{set_contains, set_insert, values_below, NameMap};
use crate::compiler::diag::str_eq;
use crate::compiler::decl_order::{
    decl_fold, decl_state, decls_arms, decls_args, decls_branches, decls_expr, decls_exprs,
    decls_for_targets, decls_handlers, decls_opt_body, decls_pairs, decls_stmt, decls_stmts,
    decls_tuple, decl_tuple_target, decls_alias, decls_arg, decls_opt_expr, lemma_decl_fold_one,
    lemma_decl_fold_then, numbered,
};

use crate::compiler::expr::{is_literal, plain_expr};
use crate::compiler::stmt::{flow_stmt, flow_stmts, trivial_stmt};

verus! {

/// The identifier `_` (binds nothing).
pub open spec fn is_wildcard(s: Seq<char>) -> bool {
    s == "_"@
}

/// The slot tables agree: every slot is below `n`, and both per-slot tables
/// have one entry per slot.
pub(crate) open spec fn slot_tables_ok(slots: NameMap<u16>, slot_mut: Seq<bool>, slot_type: Seq<Option<String>>, n: u16) -> bool {
    &&& values_below(slots.entries@, n as int)
    &&& slot_mut.len() == n
    &&& slot_type.len() == n
}

/// Existing slot assignments are kept and the count does not shrink.
pub(crate) open spec fn slots_grow(old_slots: NameMap<u16>, new_slots: NameMap<u16>, old_n: u16, new_n: u16) -> bool {
    &&& old_n <= new_n
    &&& forall|k: Seq<char>| old_slots.get_spec(k) is Some ==> #[trigger] new_slots.get_spec(k) == old_slots.get_spec(k)
}

/// The name the statement declares at the top of a body (if any) has a slot.
pub(crate) open spec fn top_decl_numbered(s: Stmt, slots: NameMap<u16>) -> bool {
    match crate::compiler::entry::top_decl_name(s) {
        Some(nm) => is_wildcard(nm) || slots.get_spec(nm) is Some,
        None => true,
    }
}

/// Whether `name` is `_`.
pub(crate) fn is_wildcard_name(name: &String) -> (r: bool)
    ensures
        r == is_wildcard(name@),
{
    str_eq(name.as_str(), "_")
}

/// The name a tuple target declares (if any) has a slot.
pub(crate) open spec fn tuple_target_numbered(t: TupleTarget, slots: NameMap<u16>) -> bool {
    match t {
        TupleTarget::Wildcard => true,
        TupleTarget::Let(nm) | TupleTarget::Bare(nm) | TupleTarget::Mut(nm) => is_wildcard(nm@) || slots.get_spec(nm@) is Some,
    }
}

/// Gives `name` the next slot unless it is `_` or already has one.
pub(crate) fn add_decl(
    name: &String,
    ty: &Option<String>,
    mutable: bool,
    slots: &mut NameMap<u16>,
    slot_mut: &mut Vec<bool>,
    slot_type: &mut Vec<Option<String>>,
    n: &mut u16,
) -> (r: Option<()>)
    requires
        slot_tables_ok(*old(slots), old(slot_mut)@, old(slot_type)@, *old(n)),
    ensures
        ({
            let fresh = !is_wildcard(name@) && old(slots).get_spec(name@) is None;
            &&& r is None <==> (fresh && *old(n) == u16::MAX)
            &&& r is Some ==> slot_tables_ok(*final(slots), final(slot_mut)@, final(slot_type)@, *final(n))
            &&& r is Some ==> slots_grow(*old(slots), *final(slots), *old(n), *final(n))
            &&& (r is Some && fresh) ==> {
                &&& final(slots).get_spec(name@) == Some(*old(n))
                &&& *final(n) == *old(n) + 1
                &&& final(slot_mut)@ == old(slot_mut)@.push(mutable)
                &&& final(slot_type)@ == old(slot_type)@.push(*ty)
                &&& forall|k: Seq<char>| k != name@ ==> #[trigger] final(slots).get_spec(k) == old(slots).get_spec(k)
            }
            &&& r is None ==> {
                &&& final(slots).get_spec(name@) == Some(u16::MAX)
                &&& *final(n) == u16::MAX
                &&& final(slot_mut)@ == old(slot_mut)@.push(mutable)
                &&& final(slot_type)@ == old(slot_type)@.push(*ty)
                &&& forall|k: Seq<char>| k != name@ ==> #[trigger] final(slots).get_spec(k) == old(slots).get_spec(k)
            }
            &&& !fresh ==> {
                &&& *final(slots) == *old(slots)
                &&& *final(n) == *old(n)
                &&& final(slot_mut)@ == old(slot_mut)@
                &&& final(slot_type)@ == old(slot_type)@
            }
        }),
        numbered(*old(slots), old(slot_mut)@, old(slot_type)@, *old(n), seq![(name@, mutable, *ty)], r is Some,
            *final(slots), final(slot_mut)@, final(slot_type)@, *final(n)),
{
    let ghost st0 = decl_state(*slots, slot_mut@, slot_type@, *n);
    proof { lemma_decl_fold_one(st0, (name@, mutable, *ty)); }
    if !is_wildcard_name(name) && !slots.contains_key(name) {
        let v = *n;
        slots.insert(name.clone(), v);
        slot_mut.push(mutable);
        slot_type.push(clone_opt_string(ty));
        if v == u16::MAX {
            return None;
        }
        *n = v + 1;
        assert(values_below(slots.entries@, *n as int));
        assert(decl_state(*slots, slot_mut@, slot_type@, *n).0 =~= st0.0.insert(name@, v));
    }
    Some(())
}

/// Declares every target of `let a, b = t` (`mut` targets are mutable).
fn add_tuple_decls(
    targets: &Vec<TupleTarget>,
    slots: &mut NameMap<u16>,
    slot_mut: &mut Vec<bool>,
    slot_type: &mut Vec<Option<String>>,
    n: &mut u16,
) -> (r: Option<()>)
    requires
        slot_tables_ok(*old(slots), old(slot_mut)@, old(slot_type)@, *old(n)),
    ensures
        r is Some ==> slot_tables_ok(*final(slots), final(slot_mut)@, final(slot_type)@, *final(n)),
        r is Some ==> slots_grow(*old(slots), *final(slots), *old(n), *final(n)),
        r is Some ==> forall|i: int| 0 <= i < targets@.len() ==> tuple_target_numbered(#[trigger] targets@[i], *final(slots)),
        r is None ==> *final(n) == u16::MAX,
        numbered(*old(slots), old(slot_mut)@, old(slot_type)@, *old(n), decls_tuple(targets@), r is Some,
            *final(slots), final(slot_mut)@, final(slot_type)@, *final(n)),
{
    let ghost st0 = decl_state(*slots, slot_mut@, slot_type@, *n);
    proof { assert(targets@.subrange(0, targets@.len() as int) =~= targets@); }
    let mut i: usize = 0;
    while i < targets.len()
        invariant
            i <= targets.len(),
            slot_tables_ok(*slots, slot_mut@, slot_type@, *n),
            slots_grow(*old(slots), *slots, *old(n), *n),
            forall|j: int| 0 <= j < i ==> tuple_target_numbered(#[trigger] targets@[j], *slots),
            decl_fold(st0, decls_tuple(targets@)) == decl_fold(decl_state(*slots, slot_mut@, slot_type@, *n), decls_tuple(targets@.subrange(i as int, targets@.len() as int))),
            st0 == decl_state(*old(slots), old(slot_mut)@, old(slot_type)@, *old(n)),
        decreases targets.len() - i,
    {
        let none: Option<String> = None;
        proof {
            let rest = targets@.subrange(i as int, targets@.len() as int);
            assert(rest.subrange(1, rest.len() as int) =~= targets@.subrange(i + 1, targets@.len() as int));
            assert(rest[0] == targets@[i as int]);
            lemma_decl_fold_then(decl_state(*slots, slot_mut@, slot_type@, *n), decl_tuple_target(targets@[i as int]), decls_tuple(targets@.subrange(i + 1, targets@.len() as int)));
        }
        match &targets[i] {
            TupleTarget::Wildcard => {},
            TupleTarget::Let(name) | TupleTarget::Bare(name) => {
                add_decl(name, &none, false, slots, slot_mut, slot_type, n)?;
            },
            TupleTarget::Mut(name) => {
                add_decl(name, &none, true, slots, slot_mut, slot_type, n)?;
            },
        }
        i = i + 1;
    }
    Some(())
}

/// Numbers the declarations nested in `body` (control-flow bodies, `block:`
/// statements and block expressions included; nested function bodies are
/// separate frames and are skipped). Order: a statement's own declaration,
/// then its sub-expressions, then its bodies.
pub(crate) fn collect_nested_decls(
    body: &Vec<Stmt>,
    slots: &mut NameMap<u16>,
    slot_mut: &mut Vec<bool>,
    slot_type: &mut Vec<Option<String>>,
    n: &mut u16,
) -> (r: Option<()>)
    requires
        slot_tables_ok(*old(slots), old(slot_mut)@, old(slot_type)@, *old(n)),
    ensures
        r is Some ==> slot_tables_ok(*final(slots), final(slot_mut)@, final(slot_type)@, *final(n)),
        r is Some ==> slots_grow(*old(slots), *final(slots), *old(n), *final(n)),
        r is Some ==> forall|j: int| 0 <= j < body@.len() ==> top_decl_numbered(#[trigger] body@[j], *final(slots)),
        (forall|j: int| 0 <= j < body@.len() ==> trivial_stmt(#[trigger] body@[j])) ==> r is Some && *final(slots) == *old(slots) && final(slot_mut)@ == old(slot_mut)@ && final(slot_type)@ == old(slot_type)@ && *final(n) == *old(n),
        flow_stmts(body@) ==> r is Some && *final(slots) == *old(slots) && final(slot_mut)@ == old(slot_mut)@ && final(slot_type)@ == old(slot_type)@ && *final(n) == *old(n),
        r is None ==> *final(n) == u16::MAX,
        numbered(*old(slots), old(slot_mut)@, old(slot_type)@, *old(n), decls_stmts(body@), r is Some,
            *final(slots), final(slot_mut)@, final(slot_type)@, *final(n)),
    decreases body,
{
    let ghost st0 = decl_state(*slots, slot_mut@, slot_type@, *n);
    proof { assert(body@.subrange(0, body@.len() as int) =~= body@); }
    let mut i: usize = 0;
    while i < body.len()
        invariant
            i <= body.len(),
            slot_tables_ok(*slots, slot_mut@, slot_type@, *n),
            slots_grow(*old(slots), *slots, *old(n), *n),
            forall|j: int| 0 <= j < i ==> top_decl_numbered(#[trigger] body@[j], *slots),
            (forall|j: int| 0 <= j < body@.len() ==> trivial_stmt(#[trigger] body@[j])) ==> *slots == *old(slots)
                && slot_mut@ == old(slot_mut)@ && slot_type@ == old(slot_type)@ && *n == *old(n),
            flow_stmts(body@) ==> *slots == *old(slots) && slot_mut@ == old(slot_mut)@ && slot_type@ == old(slot_type)@ && *n == *old(n),
            decl_fold(st0, decls_stmts(body@)) == decl_fold(decl_state(*slots, slot_mut@, slot_type@, *n), decls_stmts(body@.subrange(i as int, body@.len() as int))),
            st0 == decl_state(*old(slots), old(slot_mut)@, old(slot_type)@, *old(n)),
        decreases body.len() - i,
    {
        assert(decreases_to!(body => body@[i as int]));
        proof {
            let rest = body@.subrange(i as int, body@.len() as int);
            assert(rest.subrange(1, rest.len() as int) =~= body@.subrange(i + 1, body@.len() as int));
            assert(rest[0] == body@[i as int]);
            lemma_decl_fold_then(decl_state(*slots, slot_mut@, slot_type@, *n), decls_stmt(body@[i as int]), decls_stmts(body@.subrange(i + 1, body@.len() as int)));
        }
        collect_stmt_decls(&body[i], slots, slot_mut, slot_type, n)?;
        i = i + 1;
    }
    Some(())
}

/// `collect_nested_decls` for one statement.
#[verifier::rlimit(40)]
pub(crate) fn collect_stmt_decls(
    stmt: &Stmt,
    slots: &mut NameMap<u16>,
    slot_mut: &mut Vec<bool>,
    slot_type: &mut Vec<Option<String>>,
    n: &mut u16,
) -> (r: Option<()>)
    requires
        slot_tables_ok(*old(slots), old(slot_mut)@, old(slot_type)@, *old(n)),
    ensures
        r is Some ==> slot_tables_ok(*final(slots), final(slot_mut)@, final(slot_type)@, *final(n)),
        r is Some ==> slots_grow(*old(slots), *final(slots), *old(n), *final(n)),
        r is Some ==> top_decl_numbered(*stmt, *final(slots)),
        trivial_stmt(*stmt) ==> r is Some && *final(slots) == *old(slots) && final(slot_mut)@ == old(slot_mut)@ && final(slot_type)@ == old(slot_type)@ && *final(n) == *old(n),
        (*stmt matches Stmt::Assign { value, .. } && plain_expr(value)) ==> r is Some && *final(slots) == *old(slots) && final(slot_mut)@ == old(slot_mut)@ && final(slot_type)@ == old(slot_type)@ && *final(n) == *old(n),
        flow_stmt(*stmt) ==> r is Some && *final(slots) == *old(slots) && final(slot_mut)@ == old(slot_mut)@ && final(slot_type)@ == old(slot_type)@ && *final(n) == *old(n),
        r is None ==> *final(n) == u16::MAX,
        numbered(*old(slots), old(slot_mut)@, old(slot_type)@, *old(n), decls_stmt(*stmt), r is Some,
            *final(slots), final(slot_mut)@, final(slot_type)@, *final(n)),
    decreases stmt,
{
    let none: Option<String> = None;
    let ghost st0 = decl_state(*slots, slot_mut@, slot_type@, *n);
    match stmt {
        Stmt::Let(name, ty, e) | Stmt::Const(name, ty, e) => {
            proof { lemma_decl_fold_then(st0, seq![(name@, false, *ty)], decls_expr(*e)); }
            add_decl(name, ty, false, slots, slot_mut, slot_type, n)?;
            collect_expr_decls(e, slots, slot_mut, slot_type, n)?;
        },
        Stmt::Mut(name, ty, e) => {
            proof { lemma_decl_fold_then(st0, seq![(name@, true, *ty)], decls_expr(*e)); }
            add_decl(name, ty, true, slots, slot_mut, slot_type, n)?;
            collect_expr_decls(e, slots, slot_mut, slot_type, n)?;
        },
        // A nested `let a, b = t` gets slots, so that a top-level one (globals)
        // can be told apart.
        Stmt::LetTuple { targets, value } => {
            proof { lemma_decl_fold_then(st0, decls_tuple(targets@), decls_expr(*value)); }
            add_tuple_decls(targets, slots, slot_mut, slot_type, n)?;
            collect_expr_decls(value, slots, slot_mut, slot_type, n)?;
        },
        Stmt::Expr(e) | Stmt::BlockReturn(e, _) | Stmt::LoopYield(e) | Stmt::Yield(e) => {
            collect_expr_decls(e, slots, slot_mut, slot_type, n)?;
        },
        Stmt::Return(Some(e)) => {
            collect_expr_decls(e, slots, slot_mut, slot_type, n)?;
        },
        Stmt::Assign { value, .. } | Stmt::CompoundAssign { value, .. } => {
            collect_expr_decls(value, slots, slot_mut, slot_type, n)?;
        },
        // A `fn` defined in a nested block is a local of that block; its body
        // is another frame.
        Stmt::FnDef { name, .. } => {
            add_decl(name, &none, false, slots, slot_mut, slot_type, n)?;
        },
        // So is an `enum` (`compile_stmt` then stops at it, but the numbering
        // stays the resolver's).
        Stmt::EnumDef { name } => {
            add_decl(name, &none, false, slots, slot_mut, slot_type, n)?;
        },
        Stmt::AttrAssign { target, value } | Stmt::AttrCompoundAssign { target, value, .. } => {
            proof { lemma_decl_fold_then(st0, decls_expr(*target), decls_expr(*value)); }
            collect_expr_decls(target, slots, slot_mut, slot_type, n)?;
            collect_expr_decls(value, slots, slot_mut, slot_type, n)?;
        },
        Stmt::If { branches, else_body } => {
            proof { lemma_decl_fold_then(st0, decls_branches(branches@), decls_opt_body(*else_body)); }
            collect_branch_decls(branches, slots, slot_mut, slot_type, n)?;
            if let Some(eb) = else_body {
                collect_nested_decls(eb, slots, slot_mut, slot_type, n)?;
            }
        },
        Stmt::While { cond, body } => {
            proof { lemma_decl_fold_then(st0, decls_expr(*cond), decls_stmts(body@)); }
            collect_expr_decls(cond, slots, slot_mut, slot_type, n)?;
            collect_nested_decls(body, slots, slot_mut, slot_type, n)?;
        },
        Stmt::Match { subject, arms } => {
            proof { lemma_decl_fold_then(st0, decls_expr(*subject), decls_arms(arms@)); }
            collect_expr_decls(subject, slots, slot_mut, slot_type, n)?;
            collect_arm_decls(arms, slots, slot_mut, slot_type, n)?;
        },
        // Loop variables are mutable and carry no annotation.
        Stmt::For { targets, iter, body } => {
            proof { lemma_decl_fold_then(st0, decls_for_targets(targets@), decls_expr(*iter) + decls_stmts(body@)); }
            add_for_target_decls(targets, slots, slot_mut, slot_type, n)?;
            proof { lemma_decl_fold_then(decl_state(*slots, slot_mut@, slot_type@, *n), decls_expr(*iter), decls_stmts(body@)); }
            collect_expr_decls(iter, slots, slot_mut, slot_type, n)?;
            collect_nested_decls(body, slots, slot_mut, slot_type, n)?;
        },
        Stmt::Block(b) => {
            collect_nested_decls(b, slots, slot_mut, slot_type, n)?;
        },
        Stmt::Raise { exc: Some(e), .. } => {
            collect_expr_decls(e, slots, slot_mut, slot_type, n)?;
        },
        Stmt::Try { body, handlers, finally_body } => {
            proof {
                lemma_decl_fold_then(st0, decls_stmts(body@), decls_handlers(handlers@) + decls_opt_body(*finally_body));
            }
            collect_nested_decls(body, slots, slot_mut, slot_type, n)?;
            proof { lemma_decl_fold_then(decl_state(*slots, slot_mut@, slot_type@, *n), decls_handlers(handlers@), decls_opt_body(*finally_body)); }
            collect_handler_decls(handlers, slots, slot_mut, slot_type, n)?;
            if let Some(fb) = finally_body {
                collect_nested_decls(fb, slots, slot_mut, slot_type, n)?;
            }
        },
        // Other statements declare nothing here; `compile_stmt` rejects the
        // unsupported ones when it reaches them.
        _ => {},
    }
    Some(())
}

/// Declares the loop variables of a `for` statement (mutable, unannotated).
fn add_for_target_decls(
    targets: &Vec<String>,
    slots: &mut NameMap<u16>,
    slot_mut: &mut Vec<bool>,
    slot_type: &mut Vec<Option<String>>,
    n: &mut u16,
) -> (r: Option<()>)
    requires
        slot_tables_ok(*old(slots), old(slot_mut)@, old(slot_type)@, *old(n)),
    ensures
        r is Some ==> slot_tables_ok(*final(slots), final(slot_mut)@, final(slot_type)@, *final(n)),
        r is Some ==> slots_grow(*old(slots), *final(slots), *old(n), *final(n)),
        r is None ==> *final(n) == u16::MAX,
        numbered(*old(slots), old(slot_mut)@, old(slot_type)@, *old(n), decls_for_targets(targets@), r is Some,
            *final(slots), final(slot_mut)@, final(slot_type)@, *final(n)),
{
    let none: Option<String> = None;
    let ghost st0 = decl_state(*slots, slot_mut@, slot_type@, *n);
    proof { assert(targets@.subrange(0, targets@.len() as int) =~= targets@); }
    let mut k: usize = 0;
    while k < targets.len()
        invariant
            k <= targets.len(),
            slot_tables_ok(*slots, slot_mut@, slot_type@, *n),
            slots_grow(*old(slots), *slots, *old(n), *n),
            decl_fold(st0, decls_for_targets(targets@)) == decl_fold(decl_state(*slots, slot_mut@, slot_type@, *n), decls_for_targets(targets@.subrange(k as int, targets@.len() as int))),
            st0 == decl_state(*old(slots), old(slot_mut)@, old(slot_type)@, *old(n)),
            none is None,
        decreases targets.len() - k,
    {
        proof {
            let rest = targets@.subrange(k as int, targets@.len() as int);
            assert(rest.subrange(1, rest.len() as int) =~= targets@.subrange(k + 1, targets@.len() as int));
            assert(rest[0] == targets@[k as int]);
            lemma_decl_fold_then(decl_state(*slots, slot_mut@, slot_type@, *n), seq![(targets@[k as int]@, true, None::<String>)], decls_for_targets(targets@.subrange(k + 1, targets@.len() as int)));
        }
        add_decl(&targets[k], &none, true, slots, slot_mut, slot_type, n)?;
        k = k + 1;
    }
    Some(())
}

/// Declarations in the `(condition, body)` branches of an `if`.
#[verifier::spinoff_prover]
fn collect_branch_decls(
    branches: &Vec<(Expr, Vec<Stmt>)>,
    slots: &mut NameMap<u16>,
    slot_mut: &mut Vec<bool>,
    slot_type: &mut Vec<Option<String>>,
    n: &mut u16,
) -> (r: Option<()>)
    requires
        slot_tables_ok(*old(slots), old(slot_mut)@, old(slot_type)@, *old(n)),
    ensures
        r is Some ==> slot_tables_ok(*final(slots), final(slot_mut)@, final(slot_type)@, *final(n)),
        r is Some ==> slots_grow(*old(slots), *final(slots), *old(n), *final(n)),
        r is Some ==> forall|k: int, j: int| 0 <= k < branches@.len() && 0 <= j < branches@[k].1@.len()
            ==> top_decl_numbered(#[trigger] branches@[k].1@[j], *final(slots)),
        (forall|k: int| 0 <= k < branches@.len() ==> plain_expr(#[trigger] branches@[k].0) && flow_stmts(branches@[k].1@)) ==> r is Some && *final(slots) == *old(slots) && final(slot_mut)@ == old(slot_mut)@ && final(slot_type)@ == old(slot_type)@ && *final(n) == *old(n),
        r is None ==> *final(n) == u16::MAX,
        numbered(*old(slots), old(slot_mut)@, old(slot_type)@, *old(n), decls_branches(branches@), r is Some,
            *final(slots), final(slot_mut)@, final(slot_type)@, *final(n)),
    decreases branches,
{
    let ghost st0 = decl_state(*slots, slot_mut@, slot_type@, *n);
    proof { assert(branches@.subrange(0, branches@.len() as int) =~= branches@); }
    let mut k: usize = 0;
    while k < branches.len()
        invariant
            k <= branches.len(),
            slot_tables_ok(*slots, slot_mut@, slot_type@, *n),
            slots_grow(*old(slots), *slots, *old(n), *n),
            forall|q: int, j: int| 0 <= q < k && 0 <= j < branches@[q].1@.len()
                ==> top_decl_numbered(#[trigger] branches@[q].1@[j], *slots),
            (forall|k: int| 0 <= k < branches@.len() ==> plain_expr(#[trigger] branches@[k].0) && flow_stmts(branches@[k].1@)) ==> *slots == *old(slots) && slot_mut@ == old(slot_mut)@ && slot_type@ == old(slot_type)@ && *n == *old(n),
            decl_fold(st0, decls_branches(branches@)) == decl_fold(decl_state(*slots, slot_mut@, slot_type@, *n), decls_branches(branches@.subrange(k as int, branches@.len() as int))),
            st0 == decl_state(*old(slots), old(slot_mut)@, old(slot_type)@, *old(n)),
        decreases branches.len() - k,
    {
        proof {
            let rest = branches@.subrange(k as int, branches@.len() as int);
            assert(rest.subrange(1, rest.len() as int) =~= branches@.subrange(k + 1, branches@.len() as int));
            assert(rest[0] == branches@[k as int]);
            lemma_decl_fold_then(decl_state(*slots, slot_mut@, slot_type@, *n), decls_expr(branches@[k as int].0) + decls_stmts(branches@[k as int].1@), decls_branches(branches@.subrange(k + 1, branches@.len() as int)));
            lemma_decl_fold_then(decl_state(*slots, slot_mut@, slot_type@, *n), decls_expr(branches@[k as int].0), decls_stmts(branches@[k as int].1@));
        }
        assert(decreases_to!(branches => branches@[k as int].0));
        assert(decreases_to!(branches => branches@[k as int].1));
        proof {
            if forall|q: int| 0 <= q < branches@.len() ==> plain_expr(#[trigger] branches@[q].0) && flow_stmts(branches@[q].1@) {
                assert(plain_expr(branches@[k as int].0) && flow_stmts(branches@[k as int].1@));
            }
        }
        collect_expr_decls(&branches[k].0, slots, slot_mut, slot_type, n)?;
        collect_nested_decls(&branches[k].1, slots, slot_mut, slot_type, n)?;
        k = k + 1;
    }
    Some(())
}

/// Declarations in a list of expressions.
fn collect_exprs_decls(
    items: &Vec<Expr>,
    slots: &mut NameMap<u16>,
    slot_mut: &mut Vec<bool>,
    slot_type: &mut Vec<Option<String>>,
    n: &mut u16,
) -> (r: Option<()>)
    requires
        slot_tables_ok(*old(slots), old(slot_mut)@, old(slot_type)@, *old(n)),
    ensures
        r is Some ==> slot_tables_ok(*final(slots), final(slot_mut)@, final(slot_type)@, *final(n)),
        r is Some ==> slots_grow(*old(slots), *final(slots), *old(n), *final(n)),
        (forall|i: int| 0 <= i < items@.len() ==> is_literal(#[trigger] items@[i])) ==> r is Some && *final(slots) == *old(slots) && final(slot_mut)@ == old(slot_mut)@ && final(slot_type)@ == old(slot_type)@ && *final(n) == *old(n),
        r is None ==> *final(n) == u16::MAX,
        numbered(*old(slots), old(slot_mut)@, old(slot_type)@, *old(n), decls_exprs(items@), r is Some,
            *final(slots), final(slot_mut)@, final(slot_type)@, *final(n)),
    decreases items,
{
    let ghost st0 = decl_state(*slots, slot_mut@, slot_type@, *n);
    proof { assert(items@.subrange(0, items@.len() as int) =~= items@); }
    let mut k: usize = 0;
    while k < items.len()
        invariant
            k <= items.len(),
            slot_tables_ok(*slots, slot_mut@, slot_type@, *n),
            slots_grow(*old(slots), *slots, *old(n), *n),
            (forall|i: int| 0 <= i < items@.len() ==> is_literal(#[trigger] items@[i])) ==> *slots == *old(slots) && slot_mut@ == old(slot_mut)@ && slot_type@ == old(slot_type)@ && *n == *old(n),
            decl_fold(st0, decls_exprs(items@)) == decl_fold(decl_state(*slots, slot_mut@, slot_type@, *n), decls_exprs(items@.subrange(k as int, items@.len() as int))),
            st0 == decl_state(*old(slots), old(slot_mut)@, old(slot_type)@, *old(n)),
        decreases items.len() - k,
    {
        assert(decreases_to!(items => items@[k as int]));
        proof {
            let rest = items@.subrange(k as int, items@.len() as int);
            assert(rest.subrange(1, rest.len() as int) =~= items@.subrange(k + 1, items@.len() as int));
            assert(rest[0] == items@[k as int]);
            lemma_decl_fold_then(decl_state(*slots, slot_mut@, slot_type@, *n), decls_expr(items@[k as int]), decls_exprs(items@.subrange(k + 1, items@.len() as int)));
        }
        collect_expr_decls(&items[k], slots, slot_mut, slot_type, n)?;
        k = k + 1;
    }
    Some(())
}

/// Numbers the declarations inside the block expressions of `e`
/// (`block:`/`if`/`while`/`for`/`match` expressions, at any depth). Match
/// patterns are not entered.
#[verifier::rlimit(40)]
pub(crate) fn collect_expr_decls(
    e: &Expr,
    slots: &mut NameMap<u16>,
    slot_mut: &mut Vec<bool>,
    slot_type: &mut Vec<Option<String>>,
    n: &mut u16,
) -> (r: Option<()>)
    requires
        slot_tables_ok(*old(slots), old(slot_mut)@, old(slot_type)@, *old(n)),
    ensures
        r is Some ==> slot_tables_ok(*final(slots), final(slot_mut)@, final(slot_type)@, *final(n)),
        r is Some ==> slots_grow(*old(slots), *final(slots), *old(n), *final(n)),
        is_literal(*e) ==> r is Some && *final(slots) == *old(slots) && final(slot_mut)@ == old(slot_mut)@ && final(slot_type)@ == old(slot_type)@ && *final(n) == *old(n),
        r is Some && (*e matches Expr::Block { stmts, .. }) ==> forall|j: int| 0 <= j < e->stmts@.len()
            ==> top_decl_numbered(#[trigger] e->stmts@[j], *final(slots)),
        r is Some && (*e matches Expr::ForExpr { target, .. }) && !is_wildcard(e->target@)
            ==> final(slots).get_spec(e->target@) is Some,
        plain_expr(*e) ==> r is Some && *final(slots) == *old(slots) && final(slot_mut)@ == old(slot_mut)@ && final(slot_type)@ == old(slot_type)@ && *final(n) == *old(n),
        r is None ==> *final(n) == u16::MAX,
        numbered(*old(slots), old(slot_mut)@, old(slot_type)@, *old(n), decls_expr(*e), r is Some,
            *final(slots), final(slot_mut)@, final(slot_type)@, *final(n)),
    decreases e,
{
    let none: Option<String> = None;
    let ghost st0 = decl_state(*slots, slot_mut@, slot_type@, *n);
    match e {
        Expr::Block { stmts, .. } => {
            collect_nested_decls(stmts, slots, slot_mut, slot_type, n)?;
        },
        Expr::IfExpr { branches, else_body, .. } => {
            proof { lemma_decl_fold_then(st0, decls_branches(branches@), decls_opt_body(*else_body)); }
            collect_branch_decls(branches, slots, slot_mut, slot_type, n)?;
            if let Some(eb) = else_body {
                collect_nested_decls(eb, slots, slot_mut, slot_type, n)?;
            }
        },
        Expr::MatchExpr { subject, arms, .. } => {
            proof { lemma_decl_fold_then(st0, decls_expr(**subject), decls_arms(arms@)); }
            collect_expr_decls(subject, slots, slot_mut, slot_type, n)?;
            collect_arm_decls(arms, slots, slot_mut, slot_type, n)?;
        },
        Expr::ForExpr { target, iter, body, .. } => {
            proof { lemma_decl_fold_then(st0, seq![(target@, true, None::<String>)], decls_expr(**iter) + decls_stmts(body@)); }
            add_decl(target, &none, true, slots, slot_mut, slot_type, n)?;
            proof { lemma_decl_fold_then(decl_state(*slots, slot_mut@, slot_type@, *n), decls_expr(**iter), decls_stmts(body@)); }
            collect_expr_decls(iter, slots, slot_mut, slot_type, n)?;
            collect_nested_decls(body, slots, slot_mut, slot_type, n)?;
        },
        Expr::WhileExpr { cond, body, .. } => {
            proof { lemma_decl_fold_then(st0, decls_expr(**cond), decls_stmts(body@)); }
            collect_expr_decls(cond, slots, slot_mut, slot_type, n)?;
            collect_nested_decls(body, slots, slot_mut, slot_type, n)?;
        },
        Expr::BinOp { left, right, .. } => {
            proof { lemma_decl_fold_then(st0, decls_expr(**left), decls_expr(**right)); }
            collect_expr_decls(left, slots, slot_mut, slot_type, n)?;
            collect_expr_decls(right, slots, slot_mut, slot_type, n)?;
        },
        Expr::UnaryOp { operand, .. } => {
            collect_expr_decls(operand, slots, slot_mut, slot_type, n)?;
        },
        Expr::Call { func, args, .. } => {
            proof { lemma_decl_fold_then(st0, decls_expr(**func), decls_args(args@)); }
            collect_expr_decls(func, slots, slot_mut, slot_type, n)?;
            collect_arg_decls(args, slots, slot_mut, slot_type, n)?;
        },
        Expr::Attr { object, .. } | Expr::TraitAccess { object, .. } => {
            collect_expr_decls(object, slots, slot_mut, slot_type, n)?;
        },
        Expr::Subscript { object, index } => {
            proof { lemma_decl_fold_then(st0, decls_expr(**object), decls_expr(**index)); }
            collect_expr_decls(object, slots, slot_mut, slot_type, n)?;
            collect_expr_decls(index, slots, slot_mut, slot_type, n)?;
        },
        Expr::Slice { begin, end, step } => {
            proof { lemma_decl_fold_then(st0, decls_opt_expr(*begin), decls_opt_expr(*end) + decls_opt_expr(*step)); }
            if let Some(x) = begin {
                collect_expr_decls(x, slots, slot_mut, slot_type, n)?;
            }
            proof { lemma_decl_fold_then(decl_state(*slots, slot_mut@, slot_type@, *n), decls_opt_expr(*end), decls_opt_expr(*step)); }
            if let Some(x) = end {
                collect_expr_decls(x, slots, slot_mut, slot_type, n)?;
            }
            if let Some(x) = step {
                collect_expr_decls(x, slots, slot_mut, slot_type, n)?;
            }
        },
        Expr::List(items) | Expr::Tuple(items) | Expr::SetLit(items) => {
            collect_exprs_decls(items, slots, slot_mut, slot_type, n)?;
        },
        Expr::Dict(pairs) => {
            collect_pair_decls(pairs, slots, slot_mut, slot_type, n)?;
        },
        Expr::TemplateInstantiate { base, .. } => {
            collect_expr_decls(base, slots, slot_mut, slot_type, n)?;
        },
        Expr::IsType { expr, .. } | Expr::MustBe { expr, .. } => {
            collect_expr_decls(expr, slots, slot_mut, slot_type, n)?;
        },
        Expr::Cast { object, .. } => {
            collect_expr_decls(object, slots, slot_mut, slot_type, n)?;
        },
        // Literals and identifiers declare nothing.
        _ => {},
    }
    Some(())
}

/// Declarations in the bodies of `match` arms (patterns are not entered).
fn collect_arm_decls(
    arms: &Vec<crate::ast::MatchArm>,
    slots: &mut NameMap<u16>,
    slot_mut: &mut Vec<bool>,
    slot_type: &mut Vec<Option<String>>,
    n: &mut u16,
) -> (r: Option<()>)
    requires
        slot_tables_ok(*old(slots), old(slot_mut)@, old(slot_type)@, *old(n)),
    ensures
        r is Some ==> slot_tables_ok(*final(slots), final(slot_mut)@, final(slot_type)@, *final(n)),
        r is Some ==> slots_grow(*old(slots), *final(slots), *old(n), *final(n)),
        r is Some ==> forall|k: int, j: int| 0 <= k < arms@.len() && 0 <= j < arms@[k].body@.len()
            ==> top_decl_numbered(#[trigger] arms@[k].body@[j], *final(slots)),
        r is None ==> *final(n) == u16::MAX,
        numbered(*old(slots), old(slot_mut)@, old(slot_type)@, *old(n), decls_arms(arms@), r is Some,
            *final(slots), final(slot_mut)@, final(slot_type)@, *final(n)),
    decreases arms,
{
    let ghost st0 = decl_state(*slots, slot_mut@, slot_type@, *n);
    proof { assert(arms@.subrange(0, arms@.len() as int) =~= arms@); }
    let mut k: usize = 0;
    while k < arms.len()
        invariant
            k <= arms.len(),
            slot_tables_ok(*slots, slot_mut@, slot_type@, *n),
            slots_grow(*old(slots), *slots, *old(n), *n),
            forall|q: int, j: int| 0 <= q < k && 0 <= j < arms@[q].body@.len()
                ==> top_decl_numbered(#[trigger] arms@[q].body@[j], *slots),
            decl_fold(st0, decls_arms(arms@)) == decl_fold(decl_state(*slots, slot_mut@, slot_type@, *n), decls_arms(arms@.subrange(k as int, arms@.len() as int))),
            st0 == decl_state(*old(slots), old(slot_mut)@, old(slot_type)@, *old(n)),
        decreases arms.len() - k,
    {
        assert(decreases_to!(arms => arms@[k as int]));
        proof {
            let rest = arms@.subrange(k as int, arms@.len() as int);
            assert(rest.subrange(1, rest.len() as int) =~= arms@.subrange(k + 1, arms@.len() as int));
            assert(rest[0] == arms@[k as int]);
            lemma_decl_fold_then(decl_state(*slots, slot_mut@, slot_type@, *n), decls_stmts(arms@[k as int].body@), decls_arms(arms@.subrange(k + 1, arms@.len() as int)));
        }
        collect_nested_decls(&arms[k].body, slots, slot_mut, slot_type, n)?;
        k = k + 1;
    }
    Some(())
}

/// Declarations in `except` clauses: the alias, then the body.
fn collect_handler_decls(
    handlers: &Vec<crate::ast::ExceptHandler>,
    slots: &mut NameMap<u16>,
    slot_mut: &mut Vec<bool>,
    slot_type: &mut Vec<Option<String>>,
    n: &mut u16,
) -> (r: Option<()>)
    requires
        slot_tables_ok(*old(slots), old(slot_mut)@, old(slot_type)@, *old(n)),
    ensures
        r is Some ==> slot_tables_ok(*final(slots), final(slot_mut)@, final(slot_type)@, *final(n)),
        r is Some ==> slots_grow(*old(slots), *final(slots), *old(n), *final(n)),
        r is Some ==> forall|k: int| 0 <= k < handlers@.len() ==> ((#[trigger] handlers@[k]).name matches Some(a)
            ==> is_wildcard(a@) || final(slots).get_spec(a@) is Some),
        r is Some ==> forall|k: int, j: int| 0 <= k < handlers@.len() && 0 <= j < handlers@[k].body@.len()
            ==> top_decl_numbered(#[trigger] handlers@[k].body@[j], *final(slots)),
        r is None ==> *final(n) == u16::MAX,
        numbered(*old(slots), old(slot_mut)@, old(slot_type)@, *old(n), decls_handlers(handlers@), r is Some,
            *final(slots), final(slot_mut)@, final(slot_type)@, *final(n)),
    decreases handlers,
{
    let none: Option<String> = None;
    let ghost st0 = decl_state(*slots, slot_mut@, slot_type@, *n);
    proof { assert(handlers@.subrange(0, handlers@.len() as int) =~= handlers@); }
    let mut k: usize = 0;
    while k < handlers.len()
        invariant
            k <= handlers.len(),
            slot_tables_ok(*slots, slot_mut@, slot_type@, *n),
            slots_grow(*old(slots), *slots, *old(n), *n),
            forall|q: int| 0 <= q < k ==> ((#[trigger] handlers@[q]).name matches Some(a) ==> is_wildcard(a@) || slots.get_spec(a@) is Some),
            forall|q: int, j: int| 0 <= q < k && 0 <= j < handlers@[q].body@.len()
                ==> top_decl_numbered(#[trigger] handlers@[q].body@[j], *slots),
            none is None,
            decl_fold(st0, decls_handlers(handlers@)) == decl_fold(decl_state(*slots, slot_mut@, slot_type@, *n), decls_handlers(handlers@.subrange(k as int, handlers@.len() as int))),
            st0 == decl_state(*old(slots), old(slot_mut)@, old(slot_type)@, *old(n)),
        decreases handlers.len() - k,
    {
        proof {
            let rest = handlers@.subrange(k as int, handlers@.len() as int);
            assert(rest.subrange(1, rest.len() as int) =~= handlers@.subrange(k + 1, handlers@.len() as int));
            assert(rest[0] == handlers@[k as int]);
            lemma_decl_fold_then(decl_state(*slots, slot_mut@, slot_type@, *n), decls_alias(handlers@[k as int]) + decls_stmts(handlers@[k as int].body@), decls_handlers(handlers@.subrange(k + 1, handlers@.len() as int)));
            lemma_decl_fold_then(decl_state(*slots, slot_mut@, slot_type@, *n), decls_alias(handlers@[k as int]), decls_stmts(handlers@[k as int].body@));
        }
        // `except E as e:` binds `e` immutably.
        if let Some(alias) = &handlers[k].name {
            add_decl(alias, &none, false, slots, slot_mut, slot_type, n)?;
        }
        assert(decreases_to!(handlers => handlers@[k as int]));
        collect_nested_decls(&handlers[k].body, slots, slot_mut, slot_type, n)?;
        k = k + 1;
    }
    Some(())
}

/// Declarations in call arguments.
fn collect_arg_decls(
    args: &Vec<CallArg>,
    slots: &mut NameMap<u16>,
    slot_mut: &mut Vec<bool>,
    slot_type: &mut Vec<Option<String>>,
    n: &mut u16,
) -> (r: Option<()>)
    requires
        slot_tables_ok(*old(slots), old(slot_mut)@, old(slot_type)@, *old(n)),
    ensures
        r is Some ==> slot_tables_ok(*final(slots), final(slot_mut)@, final(slot_type)@, *final(n)),
        r is Some ==> slots_grow(*old(slots), *final(slots), *old(n), *final(n)),
        (forall|i: int| 0 <= i < args@.len() ==> (#[trigger] args@[i] matches CallArg::Positional(e) && is_literal(e))) ==> r is Some && *final(slots) == *old(slots) && final(slot_mut)@ == old(slot_mut)@ && final(slot_type)@ == old(slot_type)@ && *final(n) == *old(n),
        r is None ==> *final(n) == u16::MAX,
        numbered(*old(slots), old(slot_mut)@, old(slot_type)@, *old(n), decls_args(args@), r is Some,
            *final(slots), final(slot_mut)@, final(slot_type)@, *final(n)),
    decreases args,
{
    let ghost st0 = decl_state(*slots, slot_mut@, slot_type@, *n);
    proof { assert(args@.subrange(0, args@.len() as int) =~= args@); }
    let mut k: usize = 0;
    while k < args.len()
        invariant
            k <= args.len(),
            slot_tables_ok(*slots, slot_mut@, slot_type@, *n),
            slots_grow(*old(slots), *slots, *old(n), *n),
            (forall|i: int| 0 <= i < args@.len() ==> (#[trigger] args@[i] matches CallArg::Positional(e) && is_literal(e))) ==> *slots == *old(slots) && slot_mut@ == old(slot_mut)@ && slot_type@ == old(slot_type)@ && *n == *old(n),
            decl_fold(st0, decls_args(args@)) == decl_fold(decl_state(*slots, slot_mut@, slot_type@, *n), decls_args(args@.subrange(k as int, args@.len() as int))),
            st0 == decl_state(*old(slots), old(slot_mut)@, old(slot_type)@, *old(n)),
        decreases args.len() - k,
    {
        assert(decreases_to!(args => args@[k as int]));
        proof {
            let rest = args@.subrange(k as int, args@.len() as int);
            assert(rest.subrange(1, rest.len() as int) =~= args@.subrange(k + 1, args@.len() as int));
            assert(rest[0] == args@[k as int]);
            lemma_decl_fold_then(decl_state(*slots, slot_mut@, slot_type@, *n), decls_arg(args@[k as int]), decls_args(args@.subrange(k + 1, args@.len() as int)));
        }
        match &args[k] {
            CallArg::Positional(x) => {
                collect_expr_decls(x, slots, slot_mut, slot_type, n)?;
            },
            CallArg::Keyword { value, .. } => {
                collect_expr_decls(value, slots, slot_mut, slot_type, n)?;
            },
            CallArg::Variadic(xs) => {
                collect_exprs_decls(xs, slots, slot_mut, slot_type, n)?;
            },
        }
        k = k + 1;
    }
    Some(())
}

/// Declarations in dictionary entries.
fn collect_pair_decls(
    pairs: &Vec<(Expr, Expr)>,
    slots: &mut NameMap<u16>,
    slot_mut: &mut Vec<bool>,
    slot_type: &mut Vec<Option<String>>,
    n: &mut u16,
) -> (r: Option<()>)
    requires
        slot_tables_ok(*old(slots), old(slot_mut)@, old(slot_type)@, *old(n)),
    ensures
        r is Some ==> slot_tables_ok(*final(slots), final(slot_mut)@, final(slot_type)@, *final(n)),
        r is Some ==> slots_grow(*old(slots), *final(slots), *old(n), *final(n)),
        (forall|i: int| 0 <= i < pairs@.len() ==> is_literal((#[trigger] pairs@[i]).0) && is_literal(pairs@[i].1)) ==> r is Some && *final(slots) == *old(slots) && final(slot_mut)@ == old(slot_mut)@ && final(slot_type)@ == old(slot_type)@ && *final(n) == *old(n),
        r is None ==> *final(n) == u16::MAX,
        numbered(*old(slots), old(slot_mut)@, old(slot_type)@, *old(n), decls_pairs(pairs@), r is Some,
            *final(slots), final(slot_mut)@, final(slot_type)@, *final(n)),
    decreases pairs,
{
    let ghost st0 = decl_state(*slots, slot_mut@, slot_type@, *n);
    proof { assert(pairs@.subrange(0, pairs@.len() as int) =~= pairs@); }
    let mut k: usize = 0;
    while k < pairs.len()
        invariant
            k <= pairs.len(),
            slot_tables_ok(*slots, slot_mut@, slot_type@, *n),
            slots_grow(*old(slots), *slots, *old(n), *n),
            (forall|i: int| 0 <= i < pairs@.len() ==> is_literal((#[trigger] pairs@[i]).0) && is_literal(pairs@[i].1)) ==> *slots == *old(slots) && slot_mut@ == old(slot_mut)@ && slot_type@ == old(slot_type)@ && *n == *old(n),
            decl_fold(st0, decls_pairs(pairs@)) == decl_fold(decl_state(*slots, slot_mut@, slot_type@, *n), decls_pairs(pairs@.subrange(k as int, pairs@.len() as int))),
            st0 == decl_state(*old(slots), old(slot_mut)@, old(slot_type)@, *old(n)),
        decreases pairs.len() - k,
    {
        proof {
            let rest = pairs@.subrange(k as int, pairs@.len() as int);
            assert(rest.subrange(1, rest.len() as int) =~= pairs@.subrange(k + 1, pairs@.len() as int));
            assert(rest[0] == pairs@[k as int]);
            lemma_decl_fold_then(decl_state(*slots, slot_mut@, slot_type@, *n), decls_expr(pairs@[k as int].0) + decls_expr(pairs@[k as int].1), decls_pairs(pairs@.subrange(k + 1, pairs@.len() as int)));
            lemma_decl_fold_then(decl_state(*slots, slot_mut@, slot_type@, *n), decls_expr(pairs@[k as int].0), decls_expr(pairs@[k as int].1));
        }
        assert(decreases_to!(pairs => pairs@[k as int].0));
        assert(decreases_to!(pairs => pairs@[k as int].1));
        collect_expr_decls(&pairs[k].0, slots, slot_mut, slot_type, n)?;
        collect_expr_decls(&pairs[k].1, slots, slot_mut, slot_type, n)?;
        k = k + 1;
    }
    Some(())
}


/// Collects the `for` targets (into `for_names`) and the value bindings that a
/// `for` target could shadow (into `decl_names`) of `stmts`; nested frames are
/// not entered.
pub(crate) fn scan_shadow_stmts(stmts: &Vec<Stmt>, for_names: &mut Vec<String>, decl_names: &mut Vec<String>)
    ensures
        keeps_names(old(for_names)@, final(for_names)@),
        keeps_names(old(decl_names)@, final(decl_names)@),
        forall|j: int| 0 <= j < stmts@.len() ==> let_named(#[trigger] stmts@[j], final(decl_names)@),
        forall|j: int| 0 <= j < stmts@.len() ==> for_targets_named(#[trigger] stmts@[j], final(for_names)@),
        forall|j: int| 0 <= j < stmts@.len() ==> binds_named(#[trigger] stmts@[j], final(decl_names)@),
    decreases stmts,
{
    let mut i: usize = 0;
    while i < stmts.len()
        invariant
            i <= stmts.len(),
            keeps_names(old(for_names)@, for_names@),
            keeps_names(old(decl_names)@, decl_names@),
            forall|q: int| 0 <= q < i ==> let_named(#[trigger] stmts@[q], decl_names@),
            forall|q: int| 0 <= q < i ==> for_targets_named(#[trigger] stmts@[q], for_names@),
            forall|q: int| 0 <= q < i ==> binds_named(#[trigger] stmts@[q], decl_names@),
        decreases stmts.len() - i,
    {
        assert(decreases_to!(stmts => stmts@[i as int]));
        let ghost before_decl = decl_names@;
        let ghost before = for_names@;
        scan_shadow_stmt(&stmts[i], for_names, decl_names);
        proof {
            assert forall|q: int| 0 <= q < i implies for_targets_named(#[trigger] stmts@[q], for_names@) by {
                if let Stmt::For { targets, .. } = stmts@[q] {
                    assert forall|k: int| 0 <= k < targets@.len() implies names_have(for_names@, (#[trigger] targets@[k])@) by {
                        assert(for_targets_named(stmts@[q], before));
                        lemma_keeps_have(before, for_names@, targets@[k]@);
                    }
                }
            }
            assert forall|q: int| 0 <= q < i implies binds_named(#[trigger] stmts@[q], decl_names@) by {
                lemma_keeps_binds(stmts@[q], before_decl, decl_names@);
            }
        }
        i = i + 1;
    }
}

fn scan_shadow_stmt(s: &Stmt, for_names: &mut Vec<String>, decl_names: &mut Vec<String>)
    ensures
        keeps_names(old(for_names)@, final(for_names)@),
        keeps_names(old(decl_names)@, final(decl_names)@),
        let_named(*s, final(decl_names)@),
        for_targets_named(*s, final(for_names)@),
        binds_named(*s, final(decl_names)@),
    decreases s,
{
    match s {
        Stmt::Let(n, _, e) | Stmt::Const(n, _, e) | Stmt::Mut(n, _, e) => {
            set_insert(decl_names, n.clone());
            scan_shadow_expr(e, for_names, decl_names);
        },
        Stmt::LetTuple { targets, value } => {
            let mut k: usize = 0;
            while k < targets.len()
                invariant
                    k <= targets.len(),
                    keeps_names(old(for_names)@, for_names@),
                    keeps_names(old(decl_names)@, decl_names@),
                    forall|q: int| 0 <= q < k ==> match #[trigger] targets@[q] {
                        TupleTarget::Let(n) => names_have(decl_names@, n@),
                        TupleTarget::Mut(n) => names_have(decl_names@, n@),
                        TupleTarget::Bare(n) => names_have(decl_names@, n@),
                        TupleTarget::Wildcard => true,
                    },
                decreases targets.len() - k,
            {
                let ghost before = decl_names@;
                match &targets[k] {
                    TupleTarget::Let(n) | TupleTarget::Bare(n) | TupleTarget::Mut(n) => {
                        set_insert(decl_names, n.clone());
                    },
                    TupleTarget::Wildcard => {},
                }
                proof {
                    assert forall|q: int| 0 <= q < k implies match #[trigger] targets@[q] {
                        TupleTarget::Let(n) => names_have(decl_names@, n@),
                        TupleTarget::Mut(n) => names_have(decl_names@, n@),
                        TupleTarget::Bare(n) => names_have(decl_names@, n@),
                        TupleTarget::Wildcard => true,
                    } by {
                        match targets@[q] {
                            TupleTarget::Let(n) => lemma_keeps_have(before, decl_names@, n@),
                            TupleTarget::Mut(n) => lemma_keeps_have(before, decl_names@, n@),
                            TupleTarget::Bare(n) => lemma_keeps_have(before, decl_names@, n@),
                            TupleTarget::Wildcard => {},
                        }
                    }
                }
                k = k + 1;
            }
            let ghost mid = decl_names@;
            scan_shadow_expr(value, for_names, decl_names);
            proof {
                lemma_keeps_binds(*s, mid, decl_names@);
            }
        },
        Stmt::Static(n, e, _) => {
            set_insert(decl_names, n.clone());
            let ghost mid = decl_names@;
            scan_shadow_expr(e, for_names, decl_names);
            proof {
                lemma_keeps_binds(*s, mid, decl_names@);
            }
        },
        Stmt::For { targets, iter, body } => {
            let mut k: usize = 0;
            while k < targets.len()
                invariant
                    k <= targets.len(),
                    keeps_names(old(for_names)@, for_names@),
                    keeps_names(old(decl_names)@, decl_names@),
                    forall|q: int| 0 <= q < k ==> names_have(for_names@, (#[trigger] targets@[q])@),
                decreases targets.len() - k,
            {
                let ghost before = for_names@;
                set_insert(for_names, targets[k].clone());
                proof {
                    assert forall|q: int| 0 <= q < k implies names_have(for_names@, (#[trigger] targets@[q])@) by {
                        lemma_keeps_have(before, for_names@, targets@[q]@);
                    }
                    assert(names_have(for_names@, targets@[k as int]@));
                }
                k = k + 1;
            }
            let ghost mid = for_names@;
            scan_shadow_expr(iter, for_names, decl_names);
            let ghost mid2 = for_names@;
            scan_shadow_stmts(body, for_names, decl_names);
            proof {
                assert forall|q: int| 0 <= q < targets@.len() implies names_have(for_names@, (#[trigger] targets@[q])@) by {
                    lemma_keeps_have(mid, mid2, targets@[q]@);
                    lemma_keeps_have(mid2, for_names@, targets@[q]@);
                }
            }
        },
        Stmt::Expr(e) | Stmt::BlockReturn(e, _) | Stmt::LoopYield(e) | Stmt::Yield(e) => {
            scan_shadow_expr(e, for_names, decl_names);
        },
        Stmt::Return(Some(e)) => scan_shadow_expr(e, for_names, decl_names),
        Stmt::Assign { value, .. } | Stmt::CompoundAssign { value, .. } => {
            scan_shadow_expr(value, for_names, decl_names);
        },
        Stmt::AttrAssign { target, value } | Stmt::AttrCompoundAssign { target, value, .. } => {
            scan_shadow_expr(target, for_names, decl_names);
            scan_shadow_expr(value, for_names, decl_names);
        },
        Stmt::If { branches, else_body } => {
            scan_shadow_branches(branches, for_names, decl_names);
            if let Some(eb) = else_body {
                scan_shadow_stmts(eb, for_names, decl_names);
            }
        },
        Stmt::While { cond, body } => {
            scan_shadow_expr(cond, for_names, decl_names);
            scan_shadow_stmts(body, for_names, decl_names);
        },
        Stmt::Match { subject, arms } => {
            scan_shadow_expr(subject, for_names, decl_names);
            scan_shadow_arms(arms, for_names, decl_names);
        },
        Stmt::Block(b) => scan_shadow_stmts(b, for_names, decl_names),
        Stmt::Try { body, handlers, finally_body } => {
            scan_shadow_stmts(body, for_names, decl_names);
            scan_shadow_handlers(handlers, for_names, decl_names);
            if let Some(fb) = finally_body {
                scan_shadow_stmts(fb, for_names, decl_names);
            }
        },
        _ => {},
    }
}

fn scan_shadow_branches(branches: &Vec<(Expr, Vec<Stmt>)>, for_names: &mut Vec<String>, decl_names: &mut Vec<String>)
    ensures
        keeps_names(old(for_names)@, final(for_names)@),
        keeps_names(old(decl_names)@, final(decl_names)@),
        forall|k: int, j: int| 0 <= k < branches@.len() && 0 <= j < branches@[k].1@.len() ==> let_named(#[trigger] branches@[k].1@[j], final(decl_names)@),
    decreases branches,
{
    let mut k: usize = 0;
    while k < branches.len()
        invariant
            k <= branches.len(),
            keeps_names(old(for_names)@, for_names@),
            keeps_names(old(decl_names)@, decl_names@),
            forall|q: int, j: int| 0 <= q < k && 0 <= j < branches@[q].1@.len() ==> let_named(#[trigger] branches@[q].1@[j], decl_names@),
        decreases branches.len() - k,
    {
        assert(decreases_to!(branches => branches@[k as int].0));
        assert(decreases_to!(branches => branches@[k as int].1));
        scan_shadow_expr(&branches[k].0, for_names, decl_names);
        scan_shadow_stmts(&branches[k].1, for_names, decl_names);
        k = k + 1;
    }
}

fn scan_shadow_arms(arms: &Vec<crate::ast::MatchArm>, for_names: &mut Vec<String>, decl_names: &mut Vec<String>)
    ensures
        keeps_names(old(for_names)@, final(for_names)@),
        keeps_names(old(decl_names)@, final(decl_names)@),
        forall|k: int, j: int| 0 <= k < arms@.len() && 0 <= j < arms@[k].body@.len() ==> let_named(#[trigger] arms@[k].body@[j], final(decl_names)@),
    decreases arms,
{
    let mut k: usize = 0;
    while k < arms.len()
        invariant
            k <= arms.len(),
            keeps_names(old(for_names)@, for_names@),
            keeps_names(old(decl_names)@, decl_names@),
            forall|q: int, j: int| 0 <= q < k && 0 <= j < arms@[q].body@.len() ==> let_named(#[trigger] arms@[q].body@[j], decl_names@),
        decreases arms.len() - k,
    {
        assert(decreases_to!(arms => arms@[k as int]));
        scan_shadow_stmts(&arms[k].body, for_names, decl_names);
        k = k + 1;
    }
}

fn scan_shadow_handlers(handlers: &Vec<crate::ast::ExceptHandler>, for_names: &mut Vec<String>, decl_names: &mut Vec<String>)
    ensures
        keeps_names(old(for_names)@, final(for_names)@),
        keeps_names(old(decl_names)@, final(decl_names)@),
        forall|k: int, j: int| 0 <= k < handlers@.len() && 0 <= j < handlers@[k].body@.len() ==> let_named(#[trigger] handlers@[k].body@[j], final(decl_names)@),
    decreases handlers,
{
    let mut k: usize = 0;
    while k < handlers.len()
        invariant
            k <= handlers.len(),
            keeps_names(old(for_names)@, for_names@),
            keeps_names(old(decl_names)@, decl_names@),
            forall|q: int, j: int| 0 <= q < k && 0 <= j < handlers@[q].body@.len() ==> let_named(#[trigger] handlers@[q].body@[j], decl_names@),
        decreases handlers.len() - k,
    {
        // `except ... as e` is a nested binding that a `for` target could cover.
        if let Some(alias) = &handlers[k].name {
            set_insert(decl_names, alias.clone());
        }
        assert(decreases_to!(handlers => handlers@[k as int]));
        scan_shadow_stmts(&handlers[k].body, for_names, decl_names);
        k = k + 1;
    }
}

fn scan_shadow_exprs(items: &Vec<Expr>, for_names: &mut Vec<String>, decl_names: &mut Vec<String>)
    ensures
        keeps_names(old(for_names)@, final(for_names)@),
        keeps_names(old(decl_names)@, final(decl_names)@),
        forall|k: int| 0 <= k < items@.len() ==> expr_lets_named(#[trigger] items@[k], final(decl_names)@),
    decreases items,
{
    let mut k: usize = 0;
    while k < items.len()
        invariant
            k <= items.len(),
            keeps_names(old(for_names)@, for_names@),
            keeps_names(old(decl_names)@, decl_names@),
            forall|q: int| 0 <= q < k ==> expr_lets_named(#[trigger] items@[q], decl_names@),
        decreases items.len() - k,
    {
        assert(decreases_to!(items => items@[k as int]));
        scan_shadow_expr(&items[k], for_names, decl_names);
        k = k + 1;
    }
}

fn scan_shadow_args(args: &Vec<CallArg>, for_names: &mut Vec<String>, decl_names: &mut Vec<String>)
    ensures
        keeps_names(old(for_names)@, final(for_names)@),
        keeps_names(old(decl_names)@, final(decl_names)@),
        forall|k: int| 0 <= k < args@.len() ==> (#[trigger] args@[k] matches CallArg::Positional(x) ==> expr_lets_named(x, final(decl_names)@)),
    decreases args,
{
    let mut k: usize = 0;
    while k < args.len()
        invariant
            k <= args.len(),
            keeps_names(old(for_names)@, for_names@),
            keeps_names(old(decl_names)@, decl_names@),
            forall|q: int| 0 <= q < k ==> (#[trigger] args@[q] matches CallArg::Positional(x) ==> expr_lets_named(x, decl_names@)),
        decreases args.len() - k,
    {
        assert(decreases_to!(args => args@[k as int]));
        match &args[k] {
            CallArg::Positional(x) => scan_shadow_expr(x, for_names, decl_names),
            CallArg::Keyword { value, .. } => scan_shadow_expr(value, for_names, decl_names),
            CallArg::Variadic(xs) => scan_shadow_exprs(xs, for_names, decl_names),
        }
        k = k + 1;
    }
}

/// `scan_shadow_stmts` for an expression (block expressions included; match
/// patterns are not entered).
pub(crate) fn scan_shadow_expr(e: &Expr, for_names: &mut Vec<String>, decl_names: &mut Vec<String>)
    ensures
        keeps_names(old(for_names)@, final(for_names)@),
        keeps_names(old(decl_names)@, final(decl_names)@),
        expr_lets_named(*e, final(decl_names)@),
    decreases e,
{
    match e {
        Expr::Block { stmts, .. } => scan_shadow_stmts(stmts, for_names, decl_names),
        Expr::IfExpr { branches, else_body, .. } => {
            scan_shadow_branches(branches, for_names, decl_names);
            if let Some(eb) = else_body {
                scan_shadow_stmts(eb, for_names, decl_names);
            }
        },
        Expr::MatchExpr { subject, arms, .. } => {
            scan_shadow_expr(subject, for_names, decl_names);
            scan_shadow_arms(arms, for_names, decl_names);
        },
        Expr::ForExpr { target, iter, body, .. } => {
            set_insert(for_names, target.clone());
            scan_shadow_expr(iter, for_names, decl_names);
            scan_shadow_stmts(body, for_names, decl_names);
        },
        Expr::WhileExpr { cond, body, .. } => {
            scan_shadow_expr(cond, for_names, decl_names);
            scan_shadow_stmts(body, for_names, decl_names);
        },
        Expr::BinOp { left, right, .. } => {
            scan_shadow_expr(left, for_names, decl_names);
            scan_shadow_expr(right, for_names, decl_names);
        },
        Expr::UnaryOp { operand, .. } => scan_shadow_expr(operand, for_names, decl_names),
        Expr::Call { func, args, .. } => {
            scan_shadow_expr(func, for_names, decl_names);
            scan_shadow_args(args, for_names, decl_names);
        },
        Expr::Attr { object, .. } | Expr::TraitAccess { object, .. } => scan_shadow_expr(object, for_names, decl_names),
        Expr::Subscript { object, index } => {
            scan_shadow_expr(object, for_names, decl_names);
            scan_shadow_expr(index, for_names, decl_names);
        },
        Expr::Slice { begin, end, step } => {
            if let Some(x) = begin {
                scan_shadow_expr(x, for_names, decl_names);
            }
            if let Some(x) = end {
                scan_shadow_expr(x, for_names, decl_names);
            }
            if let Some(x) = step {
                scan_shadow_expr(x, for_names, decl_names);
            }
        },
        Expr::List(items) | Expr::Tuple(items) | Expr::SetLit(items) => scan_shadow_exprs(items, for_names, decl_names),
        Expr::Dict(pairs) => scan_shadow_pairs(pairs, for_names, decl_names),
        Expr::TemplateInstantiate { base, .. } => scan_shadow_expr(base, for_names, decl_names),
        Expr::IsType { expr, .. } | Expr::MustBe { expr, .. } => scan_shadow_expr(expr, for_names, decl_names),
        Expr::Cast { object, .. } => scan_shadow_expr(object, for_names, decl_names),
        _ => {},
    }
}

/// A `for` statement that binds `nm` as one of its variables.
pub(crate) open spec fn for_binds(s: Stmt, nm: Seq<char>) -> bool {
    match s {
        Stmt::For { targets, .. } => exists|k: int| 0 <= k < targets@.len() && (#[trigger] targets@[k])@ == nm,
        _ => false,
    }
}

/// A `let`/`const`/`mut` statement that binds `nm`.
pub(crate) open spec fn let_binds(s: Stmt, nm: Seq<char>) -> bool {
    match s {
        Stmt::Let(n, _, _) | Stmt::Const(n, _, _) | Stmt::Mut(n, _, _) => n@ == nm,
        _ => false,
    }
}

/// `nm` is a variable of a top-level `for` statement of `body`.
pub(crate) open spec fn top_for_binds(body: Seq<Stmt>, nm: Seq<char>) -> bool {
    exists|j: int| 0 <= j < body.len() && for_binds(#[trigger] body[j], nm)
}

/// A `let a, b = t` that binds `nm`, or a `static nm`.
pub(crate) open spec fn other_binds(s: Stmt, nm: Seq<char>) -> bool {
    match s {
        Stmt::LetTuple { targets, .. } => exists|k: int| 0 <= k < targets@.len() && match #[trigger] targets@[k] {
            TupleTarget::Let(n) => n@ == nm,
            TupleTarget::Mut(n) => n@ == nm,
            TupleTarget::Bare(n) => n@ == nm,
            TupleTarget::Wildcard => false,
        },
        Stmt::Static(n, _, _) => n@ == nm,
        _ => false,
    }
}

/// `nm` is a parameter or is bound by a top-level `let`/`const`/`mut`, tuple
/// `let` or `static` of `body`.
pub(crate) open spec fn bound_besides_for(params: Seq<Param>, body: Seq<Stmt>, nm: Seq<char>) -> bool {
    ||| exists|i: int| 0 <= i < params.len() && (#[trigger] params[i]).name@ == nm
    ||| exists|j: int| 0 <= j < body.len() && let_binds(#[trigger] body[j], nm)
    ||| exists|j: int| 0 <= j < body.len() && other_binds(#[trigger] body[j], nm)
}

/// The `for` variables (statement or expression form) that share their name
/// with a parameter or a non-`for` binding; only these get a fresh slot for
/// the duration of their loop.
pub(crate) fn for_target_shadows(params: &Vec<Param>, body: &Vec<Stmt>) -> (r: Vec<String>)
    ensures
        forall|nm: Seq<char>| #[trigger] top_for_binds(body@, nm) && bound_besides_for(params@, body@, nm) ==> names_have(r@, nm),
{
    let mut for_names: Vec<String> = Vec::new();
    let mut decl_names: Vec<String> = Vec::new();
    let mut i: usize = 0;
    while i < params.len()
        invariant
            i <= params.len(),
            forall|q: int| 0 <= q < i ==> names_have(decl_names@, (#[trigger] params@[q]).name@),
        decreases params.len() - i,
    {
        let ghost before = decl_names@;
        set_insert(&mut decl_names, params[i].name.clone());
        proof {
            assert forall|q: int| 0 <= q < i implies names_have(decl_names@, (#[trigger] params@[q]).name@) by {
                lemma_keeps_have(before, decl_names@, params@[q].name@);
            }
            assert(names_have(decl_names@, params@[i as int].name@));
        }
        i = i + 1;
    }
    let ghost param_names = decl_names@;
    scan_shadow_stmts(body, &mut for_names, &mut decl_names);
    let mut out: Vec<String> = Vec::new();
    let mut k: usize = 0;
    while k < for_names.len()
        invariant
            k <= for_names.len(),
            forall|q: int| 0 <= q < k && names_have(decl_names@, (#[trigger] for_names@[q])@) ==> names_have(out@, for_names@[q]@),
        decreases for_names.len() - k,
    {
        let ghost before = out@;
        if set_contains(&decl_names, &for_names[k]) {
            set_insert(&mut out, for_names[k].clone());
        }
        proof {
            assert forall|q: int| 0 <= q < k && names_have(decl_names@, (#[trigger] for_names@[q])@) implies names_have(out@, for_names@[q]@) by {
                lemma_keeps_have(before, out@, for_names@[q]@);
            }
        }
        k = k + 1;
    }
    proof {
        assert forall|nm: Seq<char>| #[trigger] top_for_binds(body@, nm) && bound_besides_for(params@, body@, nm) implies names_have(out@, nm) by {
            let j = choose|j: int| 0 <= j < body@.len() && for_binds(#[trigger] body@[j], nm);
            if let Stmt::For { targets, .. } = body@[j] {
                let kk = choose|kk: int| 0 <= kk < targets@.len() && (#[trigger] targets@[kk])@ == nm;
                assert(for_targets_named(body@[j], for_names@));
                assert(names_have(for_names@, targets@[kk]@));
                let q = choose|q: int| 0 <= q < for_names@.len() && (#[trigger] for_names@[q])@ == nm;
                if exists|i: int| 0 <= i < params@.len() && (#[trigger] params@[i]).name@ == nm {
                    let pi = choose|i: int| 0 <= i < params@.len() && (#[trigger] params@[i]).name@ == nm;
                    assert(names_have(param_names, params@[pi].name@));
                    lemma_keeps_have(param_names, decl_names@, nm);
                } else if exists|lj: int| 0 <= lj < body@.len() && let_binds(#[trigger] body@[lj], nm) {
                    let lj = choose|lj: int| 0 <= lj < body@.len() && let_binds(#[trigger] body@[lj], nm);
                    assert(let_named(body@[lj], decl_names@));
                } else {
                    let lj = choose|lj: int| 0 <= lj < body@.len() && other_binds(#[trigger] body@[lj], nm);
                    assert(binds_named(body@[lj], decl_names@));
                    if let Stmt::LetTuple { targets, .. } = body@[lj] {
                        let t = choose|t: int| 0 <= t < targets@.len() && match #[trigger] targets@[t] {
                            TupleTarget::Let(n) => n@ == nm,
                            TupleTarget::Mut(n) => n@ == nm,
                            TupleTarget::Bare(n) => n@ == nm,
                            TupleTarget::Wildcard => false,
                        };
                        assert(match targets@[t] {
                            TupleTarget::Let(n) => names_have(decl_names@, n@),
                            TupleTarget::Mut(n) => names_have(decl_names@, n@),
                            TupleTarget::Bare(n) => names_have(decl_names@, n@),
                            TupleTarget::Wildcard => true,
                        });
                    }
                }
                assert(names_have(decl_names@, for_names@[q]@));
            }
        }
    }
    out
}

/// A statement with no statement body of its own and no `return`.
pub(crate) open spec fn flat_stmt(s: Stmt) -> bool {
    !(s is Return || s is While || s is For || s is If || s is Match || s is Block || s is Try)
}

/// `b` extends `a`: every name collected in `a` is still there, in place.
pub(crate) open spec fn keeps_names(a: Seq<String>, b: Seq<String>) -> bool {
    a.len() <= b.len() && forall|i: int| 0 <= i < a.len() ==> b[i] == #[trigger] a[i]
}

/// A name collected in `a` is still collected in an extension `b` of it.
proof fn lemma_keeps_have(a: Seq<String>, b: Seq<String>, nm: Seq<char>)
    requires
        keeps_names(a, b),
        names_have(a, nm),
    ensures
        names_have(b, nm),
{
    let i = choose|i: int| 0 <= i < a.len() && (#[trigger] a[i])@ == nm;
    assert(b[i] == a[i]);
}

/// Some collected string has the characters `nm`.
pub(crate) open spec fn names_have(out: Seq<String>, nm: Seq<char>) -> bool {
    exists|i: int| 0 <= i < out.len() && (#[trigger] out[i])@ == nm
}

/// The name a `let`/`const`/`mut` statement binds has been collected.
pub(crate) open spec fn let_named(s: Stmt, out: Seq<String>) -> bool {
    match s {
        Stmt::Let(n, _, _) | Stmt::Const(n, _, _) | Stmt::Mut(n, _, _) => names_have(out, n@),
        _ => true,
    }
}

/// The variables a `for` statement binds have been collected.
pub(crate) open spec fn for_targets_named(s: Stmt, out: Seq<String>) -> bool {
    match s {
        Stmt::For { targets, .. } => forall|k: int| 0 <= k < targets@.len() ==> names_have(out, (#[trigger] targets@[k])@),
        _ => true,
    }
}

/// The names a `let a, b = t` or a `static` statement binds have been
/// collected (`_` targets bind nothing).
pub(crate) open spec fn binds_named(s: Stmt, out: Seq<String>) -> bool {
    match s {
        Stmt::LetTuple { targets, .. } => forall|k: int| 0 <= k < targets@.len() ==> match #[trigger] targets@[k] {
            TupleTarget::Let(n) => names_have(out, n@),
            TupleTarget::Mut(n) => names_have(out, n@),
            TupleTarget::Bare(n) => names_have(out, n@),
            TupleTarget::Wildcard => true,
        },
        Stmt::Static(n, _, _) => names_have(out, n@),
        _ => true,
    }
}

/// What `binds_named` says stays true as the collection grows.
proof fn lemma_keeps_binds(s: Stmt, a: Seq<String>, b: Seq<String>)
    requires
        keeps_names(a, b),
        binds_named(s, a),
    ensures
        binds_named(s, b),
{
    match s {
        Stmt::LetTuple { targets, .. } => {
            assert forall|k: int| 0 <= k < targets@.len() implies match #[trigger] targets@[k] {
                TupleTarget::Let(n) => names_have(b, n@),
                TupleTarget::Mut(n) => names_have(b, n@),
                TupleTarget::Bare(n) => names_have(b, n@),
                TupleTarget::Wildcard => true,
            } by {
                match targets@[k] {
                    TupleTarget::Let(n) => lemma_keeps_have(a, b, n@),
                    TupleTarget::Mut(n) => lemma_keeps_have(a, b, n@),
                    TupleTarget::Bare(n) => lemma_keeps_have(a, b, n@),
                    TupleTarget::Wildcard => {},
                }
            }
        },
        Stmt::Static(n, _, _) => lemma_keeps_have(a, b, n@),
        _ => {},
    }
}

/// The names that the top statements of a `block:` expression bind have been
/// collected.
pub(crate) open spec fn expr_lets_named(e: Expr, out: Seq<String>) -> bool {
    match e {
        Expr::Block { stmts, .. } => forall|j: int| 0 <= j < stmts@.len() ==> let_named(#[trigger] stmts@[j], out),
        _ => true,
    }
}

/// An identifier expression's name has been collected.
pub(crate) open spec fn ident_named(e: Expr, out: Seq<String>) -> bool {
    match e {
        Expr::Ident { name, .. } => names_have(out, name@),
        _ => true,
    }
}

/// The name a statement assigns, if any, has been collected.
pub(crate) open spec fn assign_named(s: Stmt, out: Seq<String>) -> bool {
    match s {
        Stmt::Assign { name, .. } | Stmt::CompoundAssign { name, .. } => names_have(out, name@),
        _ => true,
    }
}

/// The name `s` declares at the top of a body, if any, has been collected.
pub(crate) open spec fn decl_named(s: Stmt, out: Seq<String>) -> bool {
    match crate::compiler::entry::top_decl_name(s) {
        Some(nm) => names_have(out, nm),
        None => true,
    }
}

/// The statement contains a `return` that leaves the enclosing block
/// expression: the statement itself, or one inside a control-flow body at
/// any depth (nested frames and expressions are not entered).
pub open spec fn bails(s: Stmt) -> bool
    decreases s,
{
    match s {
        Stmt::Return(_) => true,
        Stmt::While { body, .. } => exists|j: int| 0 <= j < body@.len() && bails(#[trigger] body@[j]),
        Stmt::For { body, .. } => exists|j: int| 0 <= j < body@.len() && bails(#[trigger] body@[j]),
        Stmt::If { branches, else_body } => {
            ||| exists|k: int, j: int| 0 <= k < branches@.len() && 0 <= j < branches@[k].1@.len() && bails(#[trigger] branches@[k].1@[j])
            ||| match else_body {
                Some(eb) => exists|j: int| 0 <= j < eb@.len() && bails(#[trigger] eb@[j]),
                None => false,
            }
        },
        Stmt::Match { arms, .. } => exists|k: int, j: int| 0 <= k < arms@.len() && 0 <= j < arms@[k].body@.len() && bails(#[trigger] arms@[k].body@[j]),
        Stmt::Block(b) => exists|j: int| 0 <= j < b@.len() && bails(#[trigger] b@[j]),
        Stmt::Try { body, handlers, finally_body } => {
            ||| exists|j: int| 0 <= j < body@.len() && bails(#[trigger] body@[j])
            ||| exists|k: int, j: int| 0 <= k < handlers@.len() && 0 <= j < handlers@[k].body@.len() && bails(#[trigger] handlers@[k].body@[j])
            ||| match finally_body {
                Some(fb) => exists|j: int| 0 <= j < fb@.len() && bails(#[trigger] fb@[j]),
                None => false,
            }
        },
        _ => false,
    }
}

/// Whether a block-expression body contains a `return` that would leave the
/// block (control-flow bodies included; nested frames and expressions not).
pub(crate) fn block_body_bails(stmts: &Vec<Stmt>) -> (r: bool)
    ensures
        (exists|i: int| 0 <= i < stmts@.len() && #[trigger] stmts@[i] is Return) ==> r,
        (forall|i: int| 0 <= i < stmts@.len() ==> flat_stmt(#[trigger] stmts@[i])) ==> !r,
        r == exists|i: int| 0 <= i < stmts@.len() && bails(#[trigger] stmts@[i]),
    decreases stmts,
{
    let mut i: usize = 0;
    while i < stmts.len()
        invariant
            i <= stmts.len(),
            forall|j: int| 0 <= j < i ==> !(#[trigger] stmts@[j] is Return),
            forall|j: int| 0 <= j < i ==> !bails(#[trigger] stmts@[j]),
        decreases stmts.len() - i,
    {
        assert(decreases_to!(stmts => stmts@[i as int]));
        if stmt_bails(&stmts[i]) {
            return true;
        }
        i = i + 1;
    }
    false
}

fn stmt_bails(s: &Stmt) -> (r: bool)
    ensures
        *s is Return ==> r,
        flat_stmt(*s) ==> !r,
        r == bails(*s),
    decreases s,
{
    match s {
        Stmt::Return(_) => true,
        Stmt::While { body, .. } | Stmt::For { body, .. } => block_body_bails(body),
        Stmt::If { branches, else_body } => {
            if branches_bail(branches) {
                return true;
            }
            match else_body {
                Some(eb) => block_body_bails(eb),
                None => false,
            }
        },
        Stmt::Match { arms, .. } => arms_bail(arms),
        Stmt::Block(b) => block_body_bails(b),
        Stmt::Try { body, handlers, finally_body } => {
            if block_body_bails(body) || handlers_bail(handlers) {
                return true;
            }
            match finally_body {
                Some(fb) => block_body_bails(fb),
                None => false,
            }
        },
        _ => false,
    }
}

pub(crate) fn arms_bail(arms: &Vec<crate::ast::MatchArm>) -> (r: bool)
    ensures
        (exists|k: int, j: int| 0 <= k < arms@.len() && 0 <= j < arms@[k].body@.len() && #[trigger] arms@[k].body@[j] is Return) ==> r,
        (forall|k: int, j: int| 0 <= k < arms@.len() && 0 <= j < arms@[k].body@.len() ==> flat_stmt(#[trigger] arms@[k].body@[j])) ==> !r,
        r == exists|k: int, j: int| 0 <= k < arms@.len() && 0 <= j < arms@[k].body@.len() && bails(#[trigger] arms@[k].body@[j]),
    decreases arms,
{
    let mut k: usize = 0;
    while k < arms.len()
        invariant
            k <= arms.len(),
            forall|q: int, j: int| 0 <= q < k && 0 <= j < arms@[q].body@.len() ==> !(#[trigger] arms@[q].body@[j] is Return),
            forall|q: int, j: int| 0 <= q < k && 0 <= j < arms@[q].body@.len() ==> !bails(#[trigger] arms@[q].body@[j]),
        decreases arms.len() - k,
    {
        assert(decreases_to!(arms => arms@[k as int]));
        if block_body_bails(&arms[k].body) {
            return true;
        }
        k = k + 1;
    }
    false
}

fn handlers_bail(handlers: &Vec<crate::ast::ExceptHandler>) -> (r: bool)
    ensures
        (exists|k: int, j: int| 0 <= k < handlers@.len() && 0 <= j < handlers@[k].body@.len() && #[trigger] handlers@[k].body@[j] is Return) ==> r,
        (forall|k: int, j: int| 0 <= k < handlers@.len() && 0 <= j < handlers@[k].body@.len() ==> flat_stmt(#[trigger] handlers@[k].body@[j])) ==> !r,
        r == exists|k: int, j: int| 0 <= k < handlers@.len() && 0 <= j < handlers@[k].body@.len() && bails(#[trigger] handlers@[k].body@[j]),
    decreases handlers,
{
    let mut k: usize = 0;
    while k < handlers.len()
        invariant
            k <= handlers.len(),
            forall|q: int, j: int| 0 <= q < k && 0 <= j < handlers@[q].body@.len() ==> !(#[trigger] handlers@[q].body@[j] is Return),
            forall|q: int, j: int| 0 <= q < k && 0 <= j < handlers@[q].body@.len() ==> !bails(#[trigger] handlers@[q].body@[j]),
        decreases handlers.len() - k,
    {
        assert(decreases_to!(handlers => handlers@[k as int]));
        if block_body_bails(&handlers[k].body) {
            return true;
        }
        k = k + 1;
    }
    false
}

fn scan_shadow_pairs(pairs: &Vec<(Expr, Expr)>, for_names: &mut Vec<String>, decl_names: &mut Vec<String>)
    ensures
        keeps_names(old(for_names)@, final(for_names)@),
        keeps_names(old(decl_names)@, final(decl_names)@),
        forall|k: int| 0 <= k < pairs@.len() ==> expr_lets_named((#[trigger] pairs@[k]).0, final(decl_names)@) && expr_lets_named(pairs@[k].1, final(decl_names)@),
    decreases pairs,
{
    let mut k: usize = 0;
    while k < pairs.len()
        invariant
            k <= pairs.len(),
            keeps_names(old(for_names)@, for_names@),
            keeps_names(old(decl_names)@, decl_names@),
            forall|q: int| 0 <= q < k ==> expr_lets_named((#[trigger] pairs@[q]).0, decl_names@) && expr_lets_named(pairs@[q].1, decl_names@),
        decreases pairs.len() - k,
    {
        assert(decreases_to!(pairs => pairs@[k as int].0));
        assert(decreases_to!(pairs => pairs@[k as int].1));
        scan_shadow_expr(&pairs[k].0, for_names, decl_names);
        scan_shadow_expr(&pairs[k].1, for_names, decl_names);
        k = k + 1;
    }
}

pub(crate) fn branches_bail(branches: &Vec<(Expr, Vec<Stmt>)>) -> (r: bool)
    ensures
        (exists|k: int, j: int| 0 <= k < branches@.len() && 0 <= j < branches@[k].1@.len() && #[trigger] branches@[k].1@[j] is Return) ==> r,
        (forall|k: int, j: int| 0 <= k < branches@.len() && 0 <= j < branches@[k].1@.len() ==> flat_stmt(#[trigger] branches@[k].1@[j])) ==> !r,
        r == exists|k: int, j: int| 0 <= k < branches@.len() && 0 <= j < branches@[k].1@.len() && bails(#[trigger] branches@[k].1@[j]),
    decreases branches,
{
    let mut k: usize = 0;
    while k < branches.len()
        invariant
            k <= branches.len(),
            forall|q: int, j: int| 0 <= q < k && 0 <= j < branches@[q].1@.len() ==> !(#[trigger] branches@[q].1@[j] is Return),
            forall|q: int, j: int| 0 <= q < k && 0 <= j < branches@[q].1@.len() ==> !bails(#[trigger] branches@[q].1@[j]),
        decreases branches.len() - k,
    {
        assert(decreases_to!(branches => branches@[k as int].1));
        if block_body_bails(&branches[k].1) {
            return true;
        }
        k = k + 1;
    }
    false
}

/// Names declared directly in `stmts` or in their control-flow bodies (not in
/// nested function bodies): `let`/`mut`/`const`/`static`, tuple targets,
/// `for` targets, `except` aliases and nested `fn` names.
pub(crate) fn collect_declared_names(stmts: &Vec<Stmt>, out: &mut Vec<String>)
    ensures
        keeps_names(old(out)@, final(out)@),
        forall|j: int| 0 <= j < stmts@.len() ==> decl_named(#[trigger] stmts@[j], final(out)@),
        (forall|j: int| 0 <= j < stmts@.len() ==> #[trigger] stmts@[j] is Expr) ==> final(out)@ == old(out)@,
    decreases stmts,
{
    let mut i: usize = 0;
    while i < stmts.len()
        invariant
            i <= stmts.len(),
            keeps_names(old(out)@, out@),
            forall|j: int| 0 <= j < i ==> decl_named(#[trigger] stmts@[j], out@),
            (forall|j: int| 0 <= j < stmts@.len() ==> #[trigger] stmts@[j] is Expr) ==> out@ == old(out)@,
        decreases stmts.len() - i,
    {
        assert(decreases_to!(stmts => stmts@[i as int]));
        declared_in_stmt(&stmts[i], out);
        i = i + 1;
    }
}

fn declared_in_stmt(s: &Stmt, out: &mut Vec<String>)
    ensures
        keeps_names(old(out)@, final(out)@),
        decl_named(*s, final(out)@),
        *s is Expr ==> final(out)@ == old(out)@,
    decreases s,
{
    match s {
        Stmt::Let(n, _, _) | Stmt::Mut(n, _, _) | Stmt::Const(n, _, _) | Stmt::Static(n, _, _) => {
            set_insert(out, n.clone());
        },
        Stmt::FnDef { name, .. } => set_insert(out, name.clone()),
        Stmt::LetTuple { targets, .. } => {
            let mut k: usize = 0;
            while k < targets.len()
                invariant
                    k <= targets.len(),
                    keeps_names(old(out)@, out@),
                decreases targets.len() - k,
            {
                match &targets[k] {
                    TupleTarget::Let(n) | TupleTarget::Bare(n) | TupleTarget::Mut(n) => set_insert(out, n.clone()),
                    TupleTarget::Wildcard => {},
                }
                k = k + 1;
            }
        },
        Stmt::For { targets, body, .. } => {
            let mut k: usize = 0;
            while k < targets.len()
                invariant
                    k <= targets.len(),
                    keeps_names(old(out)@, out@),
                decreases targets.len() - k,
            {
                set_insert(out, targets[k].clone());
                k = k + 1;
            }
            collect_declared_names(body, out);
        },
        Stmt::If { branches, else_body } => {
            declared_in_branches(branches, out);
            if let Some(eb) = else_body {
                collect_declared_names(eb, out);
            }
        },
        Stmt::While { body, .. } => collect_declared_names(body, out),
        Stmt::Block(b) => collect_declared_names(b, out),
        Stmt::Match { arms, .. } => declared_in_arms(arms, out),
        Stmt::Try { body, handlers, finally_body } => {
            collect_declared_names(body, out);
            declared_in_handlers(handlers, out);
            if let Some(fb) = finally_body {
                collect_declared_names(fb, out);
            }
        },
        _ => {},
    }
}

fn declared_in_branches(branches: &Vec<(Expr, Vec<Stmt>)>, out: &mut Vec<String>)
    ensures
        keeps_names(old(out)@, final(out)@),
        forall|k: int, j: int| 0 <= k < branches@.len() && 0 <= j < branches@[k].1@.len() ==> decl_named(#[trigger] branches@[k].1@[j], final(out)@),
    decreases branches,
{
    let mut k: usize = 0;
    while k < branches.len()
        invariant
            k <= branches.len(),
            keeps_names(old(out)@, out@),
            forall|q: int, j: int| 0 <= q < k && 0 <= j < branches@[q].1@.len() ==> decl_named(#[trigger] branches@[q].1@[j], out@),
        decreases branches.len() - k,
    {
        assert(decreases_to!(branches => branches@[k as int].1));
        collect_declared_names(&branches[k].1, out);
        k = k + 1;
    }
}

fn declared_in_arms(arms: &Vec<crate::ast::MatchArm>, out: &mut Vec<String>)
    ensures
        keeps_names(old(out)@, final(out)@),
        forall|k: int, j: int| 0 <= k < arms@.len() && 0 <= j < arms@[k].body@.len() ==> decl_named(#[trigger] arms@[k].body@[j], final(out)@),
    decreases arms,
{
    let mut k: usize = 0;
    while k < arms.len()
        invariant
            k <= arms.len(),
            keeps_names(old(out)@, out@),
            forall|q: int, j: int| 0 <= q < k && 0 <= j < arms@[q].body@.len() ==> decl_named(#[trigger] arms@[q].body@[j], out@),
        decreases arms.len() - k,
    {
        assert(decreases_to!(arms => arms@[k as int]));
        collect_declared_names(&arms[k].body, out);
        k = k + 1;
    }
}

fn declared_in_handlers(handlers: &Vec<crate::ast::ExceptHandler>, out: &mut Vec<String>)
    ensures
        keeps_names(old(out)@, final(out)@),
        forall|k: int| 0 <= k < handlers@.len() ==> ((#[trigger] handlers@[k]).name matches Some(a) ==> names_have(final(out)@, a@)),
        forall|k: int, j: int| 0 <= k < handlers@.len() && 0 <= j < handlers@[k].body@.len() ==> decl_named(#[trigger] handlers@[k].body@[j], final(out)@),
    decreases handlers,
{
    let mut k: usize = 0;
    while k < handlers.len()
        invariant
            k <= handlers.len(),
            keeps_names(old(out)@, out@),
            forall|q: int| 0 <= q < k ==> ((#[trigger] handlers@[q]).name matches Some(a) ==> names_have(out@, a@)),
            forall|q: int, j: int| 0 <= q < k && 0 <= j < handlers@[q].body@.len() ==> decl_named(#[trigger] handlers@[q].body@[j], out@),
        decreases handlers.len() - k,
    {
        let ghost o0 = out@;
        if let Some(alias) = &handlers[k].name {
            set_insert(out, alias.clone());
        }
        let ghost o1 = out@;
        assert(decreases_to!(handlers => handlers@[k as int]));
        collect_declared_names(&handlers[k].body, out);
        proof {
            assert forall|q: int| 0 <= q < k + 1 implies ((#[trigger] handlers@[q]).name matches Some(a) ==> names_have(out@, a@)) by {
                if let Some(a) = handlers@[q].name {
                    if q < k {
                        lemma_keeps_have(o0, o1, a@);
                    }
                    lemma_keeps_have(o1, out@, a@);
                }
            }
        }
        k = k + 1;
    }
}

/// Names that `stmts` reads or assigns anywhere, nested function bodies
/// included (so the free names of an inner `fn` count for the outer one).
pub(crate) fn collect_referenced_names(stmts: &Vec<Stmt>, out: &mut Vec<String>)
    ensures
        keeps_names(old(out)@, final(out)@),
        forall|j: int| 0 <= j < stmts@.len() ==> assign_named(#[trigger] stmts@[j], final(out)@),
        stmts@.len() == 0 ==> final(out)@ == old(out)@,
        forall|j: int| 0 <= j < stmts@.len() ==> (#[trigger] stmts@[j] matches Stmt::Expr(e) ==> ident_named(e, final(out)@)),
    decreases stmts,
{
    let mut i: usize = 0;
    while i < stmts.len()
        invariant
            i <= stmts.len(),
            keeps_names(old(out)@, out@),
            forall|q: int| 0 <= q < i ==> assign_named(#[trigger] stmts@[q], out@),
            stmts@.len() == 0 ==> out@ == old(out)@,
            forall|q: int| 0 <= q < i ==> (#[trigger] stmts@[q] matches Stmt::Expr(e) ==> ident_named(e, out@)),
        decreases stmts.len() - i,
    {
        assert(decreases_to!(stmts => stmts@[i as int]));
        referenced_in_stmt(&stmts[i], out);
        i = i + 1;
    }
}

fn referenced_in_stmt(s: &Stmt, out: &mut Vec<String>)
    ensures
        keeps_names(old(out)@, final(out)@),
        assign_named(*s, final(out)@),
        *s matches Stmt::Expr(e) ==> ident_named(e, final(out)@),
    decreases s,
{
    match s {
        Stmt::Expr(e) | Stmt::Let(_, _, e) | Stmt::Mut(_, _, e) | Stmt::Const(_, _, e) | Stmt::Static(_, e, _)
        | Stmt::BlockReturn(e, _) | Stmt::LoopYield(e) | Stmt::Yield(e) => referenced_in_expr(e, out),
        Stmt::LetTuple { value, .. } => referenced_in_expr(value, out),
        Stmt::Assign { name, value } | Stmt::CompoundAssign { name, value, .. } => {
            set_insert(out, name.clone());
            referenced_in_expr(value, out);
        },
        Stmt::AttrAssign { target, value } | Stmt::AttrCompoundAssign { target, value, .. } => {
            referenced_in_expr(target, out);
            referenced_in_expr(value, out);
        },
        Stmt::If { branches, else_body } => {
            referenced_in_branches(branches, out);
            if let Some(eb) = else_body {
                collect_referenced_names(eb, out);
            }
        },
        Stmt::While { cond, body } => {
            referenced_in_expr(cond, out);
            collect_referenced_names(body, out);
        },
        Stmt::For { iter, body, .. } => {
            referenced_in_expr(iter, out);
            collect_referenced_names(body, out);
        },
        Stmt::Match { subject, arms } => {
            referenced_in_expr(subject, out);
            referenced_in_arms(arms, out);
        },
        Stmt::Return(Some(e)) => referenced_in_expr(e, out),
        Stmt::Raise { exc: Some(e), .. } => referenced_in_expr(e, out),
        Stmt::Block(b) => collect_referenced_names(b, out),
        Stmt::Try { body, handlers, finally_body } => {
            collect_referenced_names(body, out);
            referenced_in_handlers(handlers, out);
            if let Some(fb) = finally_body {
                collect_referenced_names(fb, out);
            }
        },
        Stmt::AsyncAssign { target, stmts } => {
            set_insert(out, target.clone());
            collect_referenced_names(stmts, out);
        },
        Stmt::FnDef { body, .. } => collect_referenced_names(body, out),
        Stmt::Freeze(name, _) => set_insert(out, name.clone()),
        Stmt::EventSubscribe { source, handler, .. } | Stmt::EventUnsubscribe { source, handler } => {
            referenced_in_expr(source, out);
            referenced_in_expr(handler, out);
        },
        _ => {},
    }
}

fn referenced_in_branches(branches: &Vec<(Expr, Vec<Stmt>)>, out: &mut Vec<String>)
    ensures
        keeps_names(old(out)@, final(out)@),
        forall|k: int| 0 <= k < branches@.len() ==> ident_named((#[trigger] branches@[k]).0, final(out)@),
    decreases branches,
{
    let mut k: usize = 0;
    while k < branches.len()
        invariant
            k <= branches.len(),
            keeps_names(old(out)@, out@),
            forall|q: int| 0 <= q < k ==> ident_named((#[trigger] branches@[q]).0, out@),
        decreases branches.len() - k,
    {
        assert(decreases_to!(branches => branches@[k as int].0));
        assert(decreases_to!(branches => branches@[k as int].1));
        referenced_in_expr(&branches[k].0, out);
        collect_referenced_names(&branches[k].1, out);
        k = k + 1;
    }
}

fn referenced_in_arms(arms: &Vec<crate::ast::MatchArm>, out: &mut Vec<String>)
    ensures
        keeps_names(old(out)@, final(out)@),
        forall|k: int, j: int| 0 <= k < arms@.len() && 0 <= j < arms@[k].body@.len() ==> assign_named(#[trigger] arms@[k].body@[j], final(out)@),
    decreases arms,
{
    let mut k: usize = 0;
    while k < arms.len()
        invariant
            k <= arms.len(),
            keeps_names(old(out)@, out@),
            forall|q: int, j: int| 0 <= q < k && 0 <= j < arms@[q].body@.len() ==> assign_named(#[trigger] arms@[q].body@[j], out@),
        decreases arms.len() - k,
    {
        assert(decreases_to!(arms => arms@[k as int]));
        match &arms[k].pattern {
            crate::ast::MatchPattern::Case(p) => referenced_in_expr(p, out),
            crate::ast::MatchPattern::IsType(_) => {},
        }
        collect_referenced_names(&arms[k].body, out);
        k = k + 1;
    }
}

fn referenced_in_handlers(handlers: &Vec<crate::ast::ExceptHandler>, out: &mut Vec<String>)
    ensures
        keeps_names(old(out)@, final(out)@),
        forall|k: int, j: int| 0 <= k < handlers@.len() && 0 <= j < handlers@[k].body@.len() ==> assign_named(#[trigger] handlers@[k].body@[j], final(out)@),
    decreases handlers,
{
    let mut k: usize = 0;
    while k < handlers.len()
        invariant
            k <= handlers.len(),
            keeps_names(old(out)@, out@),
            forall|q: int, j: int| 0 <= q < k && 0 <= j < handlers@[q].body@.len() ==> assign_named(#[trigger] handlers@[q].body@[j], out@),
        decreases handlers.len() - k,
    {
        assert(decreases_to!(handlers => handlers@[k as int]));
        collect_referenced_names(&handlers[k].body, out);
        k = k + 1;
    }
}

fn referenced_in_exprs(items: &Vec<Expr>, out: &mut Vec<String>)
    ensures
        keeps_names(old(out)@, final(out)@),
        forall|k: int| 0 <= k < items@.len() ==> ident_named(#[trigger] items@[k], final(out)@),
    decreases items,
{
    let mut k: usize = 0;
    while k < items.len()
        invariant
            k <= items.len(),
            keeps_names(old(out)@, out@),
            forall|q: int| 0 <= q < k ==> ident_named(#[trigger] items@[q], out@),
        decreases items.len() - k,
    {
        assert(decreases_to!(items => items@[k as int]));
        referenced_in_expr(&items[k], out);
        k = k + 1;
    }
}

fn referenced_in_args(args: &Vec<CallArg>, out: &mut Vec<String>)
    ensures
        keeps_names(old(out)@, final(out)@),
        forall|k: int| 0 <= k < args@.len() ==> (#[trigger] args@[k] matches CallArg::Positional(e) ==> ident_named(e, final(out)@)),
    decreases args,
{
    let mut k: usize = 0;
    while k < args.len()
        invariant
            k <= args.len(),
            keeps_names(old(out)@, out@),
            forall|q: int| 0 <= q < k ==> (#[trigger] args@[q] matches CallArg::Positional(e) ==> ident_named(e, out@)),
        decreases args.len() - k,
    {
        assert(decreases_to!(args => args@[k as int]));
        match &args[k] {
            CallArg::Positional(x) => referenced_in_expr(x, out),
            CallArg::Keyword { value, .. } => referenced_in_expr(value, out),
            CallArg::Variadic(xs) => referenced_in_exprs(xs, out),
        }
        k = k + 1;
    }
}

fn referenced_in_pairs(pairs: &Vec<(Expr, Expr)>, out: &mut Vec<String>)
    ensures
        keeps_names(old(out)@, final(out)@),
        forall|k: int| 0 <= k < pairs@.len() ==> ident_named((#[trigger] pairs@[k]).0, final(out)@) && ident_named(pairs@[k].1, final(out)@),
    decreases pairs,
{
    let mut k: usize = 0;
    while k < pairs.len()
        invariant
            k <= pairs.len(),
            keeps_names(old(out)@, out@),
            forall|q: int| 0 <= q < k ==> ident_named((#[trigger] pairs@[q]).0, out@) && ident_named(pairs@[q].1, out@),
        decreases pairs.len() - k,
    {
        assert(decreases_to!(pairs => pairs@[k as int].0));
        assert(decreases_to!(pairs => pairs@[k as int].1));
        referenced_in_expr(&pairs[k].0, out);
        referenced_in_expr(&pairs[k].1, out);
        k = k + 1;
    }
}

fn referenced_in_expr(e: &Expr, out: &mut Vec<String>)
    ensures
        keeps_names(old(out)@, final(out)@),
        ident_named(*e, final(out)@),
    decreases e,
{
    match e {
        Expr::Ident { name, .. } => set_insert(out, name.clone()),
        Expr::BinOp { left, right, .. } => {
            referenced_in_expr(left, out);
            referenced_in_expr(right, out);
        },
        Expr::UnaryOp { operand, .. } => referenced_in_expr(operand, out),
        Expr::Call { func, args, .. } => {
            referenced_in_expr(func, out);
            referenced_in_args(args, out);
        },
        Expr::Attr { object, .. } | Expr::TraitAccess { object, .. } => referenced_in_expr(object, out),
        Expr::Subscript { object, index } => {
            referenced_in_expr(object, out);
            referenced_in_expr(index, out);
        },
        Expr::Slice { begin, end, step } => {
            if let Some(x) = begin {
                referenced_in_expr(x, out);
            }
            if let Some(x) = end {
                referenced_in_expr(x, out);
            }
            if let Some(x) = step {
                referenced_in_expr(x, out);
            }
        },
        Expr::List(items) | Expr::Tuple(items) | Expr::SetLit(items) => referenced_in_exprs(items, out),
        Expr::Dict(pairs) => referenced_in_pairs(pairs, out),
        Expr::IfExpr { branches, else_body, .. } => {
            referenced_in_branches(branches, out);
            if let Some(eb) = else_body {
                collect_referenced_names(eb, out);
            }
        },
        Expr::MatchExpr { subject, arms, .. } => {
            referenced_in_expr(subject, out);
            referenced_in_arms(arms, out);
        },
        Expr::ForExpr { iter, body, .. } => {
            referenced_in_expr(iter, out);
            collect_referenced_names(body, out);
        },
        Expr::WhileExpr { cond, body, .. } => {
            referenced_in_expr(cond, out);
            collect_referenced_names(body, out);
        },
        Expr::Block { stmts, .. } => collect_referenced_names(stmts, out),
        Expr::Cast { object, .. } => referenced_in_expr(object, out),
        Expr::IsType { expr, .. } | Expr::MustBe { expr, .. } => referenced_in_expr(expr, out),
        Expr::TemplateInstantiate { base, .. } => referenced_in_expr(base, out),
        _ => {},
    }
}

/// `nm` is the name of one of `params`.
pub(crate) open spec fn is_param_name(params: Seq<Param>, nm: Seq<char>) -> bool {
    exists|i: int| 0 <= i < params.len() && (#[trigger] params[i]).name@ == nm
}

/// For a nested `fn` whose body is made of expression statements only: every
/// statement that is a bare identifier other than a parameter has its name
/// collected as free.
pub(crate) open spec fn fn_free_idents_named(s: Stmt, out: Seq<String>) -> bool {
    match s {
        Stmt::FnDef { params, body, .. } => (forall|j: int| 0 <= j < body@.len() ==> #[trigger] body@[j] is Expr) ==> forall|j: int|
            0 <= j < body@.len() ==> (#[trigger] body@[j] matches Stmt::Expr(Expr::Ident { name, .. }) ==> (is_param_name(params@, name@) || names_have(out, name@))),
        _ => true,
    }
}

/// Every name that a nested `fn` of `body` uses without declaring it (its free
/// names). Nested functions inside control-flow bodies count; nested
/// functions inside expressions do not.
pub(crate) fn nested_fn_free_names(body: &Vec<Stmt>) -> (r: Vec<String>)
    ensures
        flow_stmts(body@) ==> r@.len() == 0,
        forall|j: int| 0 <= j < body@.len() ==> fn_free_idents_named(#[trigger] body@[j], r@),
{
    let mut out: Vec<String> = Vec::new();
    free_names_walk(body, &mut out);
    out
}

fn free_names_walk(stmts: &Vec<Stmt>, out: &mut Vec<String>)
    ensures
        keeps_names(old(out)@, final(out)@),
        forall|j: int| 0 <= j < stmts@.len() ==> fn_free_idents_named(#[trigger] stmts@[j], final(out)@),
        flow_stmts(stmts@) ==> final(out)@ == old(out)@,
    decreases stmts,
{
    let mut i: usize = 0;
    while i < stmts.len()
        invariant
            i <= stmts.len(),
            keeps_names(old(out)@, out@),
            flow_stmts(stmts@) ==> out@ == old(out)@,
            forall|q: int| 0 <= q < i ==> fn_free_idents_named(#[trigger] stmts@[q], out@),
        decreases stmts.len() - i,
    {
        assert(decreases_to!(stmts => stmts@[i as int]));
        let ghost before = out@;
        free_names_stmt(&stmts[i], out);
        proof {
            assert forall|q: int| 0 <= q < i implies fn_free_idents_named(#[trigger] stmts@[q], out@) by {
                lemma_keeps_fn_free(stmts@[q], before, out@);
            }
        }
        i = i + 1;
    }
}

/// What `fn_free_idents_named` says of collected names stays true as the
/// collection grows.
proof fn lemma_keeps_fn_free(s: Stmt, a: Seq<String>, b: Seq<String>)
    requires
        keeps_names(a, b),
        fn_free_idents_named(s, a),
    ensures
        fn_free_idents_named(s, b),
{
    if let Stmt::FnDef { params, body, .. } = s {
        if forall|j: int| 0 <= j < body@.len() ==> #[trigger] body@[j] is Expr {
            assert forall|j: int| 0 <= j < body@.len() implies (#[trigger] body@[j] matches Stmt::Expr(Expr::Ident { name, .. }) ==> (is_param_name(params@, name@) || names_have(b, name@))) by {
                if let Stmt::Expr(Expr::Ident { name, .. }) = body@[j] {
                    if names_have(a, name@) {
                        lemma_keeps_have(a, b, name@);
                    }
                }
            }
        }
    }
}

fn free_names_stmt(s: &Stmt, out: &mut Vec<String>)
    ensures
        keeps_names(old(out)@, final(out)@),
        fn_free_idents_named(*s, final(out)@),
        flow_stmt(*s) ==> final(out)@ == old(out)@,
    decreases s,
{
    match s {
        Stmt::FnDef { params, body, .. } => {
            let mut own: Vec<String> = Vec::new();
            let mut k: usize = 0;
            while k < params.len()
                invariant
                    k <= params.len(),
                    forall|i: int| 0 <= i < own@.len() ==> is_param_name(params@, (#[trigger] own@[i])@),
                decreases params.len() - k,
            {
                let ghost before = own@;
                set_insert(&mut own, params[k].name.clone());
                proof {
                    assert forall|i: int| 0 <= i < own@.len() implies is_param_name(params@, (#[trigger] own@[i])@) by {
                        if i < before.len() {
                            assert(own@[i] == before[i]);
                        } else {
                            assert(params@[k as int].name@ == own@[i]@);
                        }
                    }
                }
                k = k + 1;
            }
            let ghost own_params = own@;
            collect_declared_names(body, &mut own);
            let mut referenced: Vec<String> = Vec::new();
            collect_referenced_names(body, &mut referenced);
            let ghost start = out@;
            let mut k: usize = 0;
            while k < referenced.len()
                invariant
                    k <= referenced.len(),
                    keeps_names(start, out@),
                    forall|q: int| 0 <= q < k && !names_have(own@, (#[trigger] referenced@[q])@) ==> names_have(out@, referenced@[q]@),
                decreases referenced.len() - k,
            {
                let ghost before = out@;
                if !set_contains(&own, &referenced[k]) {
                    set_insert(out, referenced[k].clone());
                }
                proof {
                    assert forall|q: int| 0 <= q < k && !names_have(own@, (#[trigger] referenced@[q])@) implies names_have(out@, referenced@[q]@) by {
                        lemma_keeps_have(before, out@, referenced@[q]@);
                    }
                }
                k = k + 1;
            }
            proof {
                if forall|j: int| 0 <= j < body@.len() ==> #[trigger] body@[j] is Expr {
                    assert(own@ == own_params);
                    assert forall|j: int| 0 <= j < body@.len() implies (#[trigger] body@[j] matches Stmt::Expr(Expr::Ident { name, .. }) ==> (is_param_name(params@, name@) || names_have(out@, name@))) by {
                        if let Stmt::Expr(ex) = body@[j] {
                            if let Expr::Ident { name, .. } = ex {
                                if !is_param_name(params@, name@) {
                                    assert(ident_named(ex, referenced@));
                                    let q = choose|q: int| 0 <= q < referenced@.len() && (#[trigger] referenced@[q])@ == name@;
                                    if names_have(own@, referenced@[q]@) {
                                        let w = choose|w: int| 0 <= w < own@.len() && (#[trigger] own@[w])@ == referenced@[q]@;
                                        assert(is_param_name(params@, own@[w]@));
                                    }
                                }
                            }
                        }
                    }
                }
            }
        },
        Stmt::If { branches, else_body } => {
            free_names_branches(branches, out);
            if let Some(eb) = else_body {
                free_names_walk(eb, out);
            }
        },
        Stmt::While { body, .. } | Stmt::For { body, .. } => free_names_walk(body, out),
        Stmt::Block(b) => free_names_walk(b, out),
        Stmt::Match { arms, .. } => free_names_arms(arms, out),
        Stmt::Try { body, handlers, finally_body } => {
            free_names_walk(body, out);
            free_names_handlers(handlers, out);
            if let Some(fb) = finally_body {
                free_names_walk(fb, out);
            }
        },
        _ => {},
    }
}

fn free_names_branches(branches: &Vec<(Expr, Vec<Stmt>)>, out: &mut Vec<String>)
    ensures
        keeps_names(old(out)@, final(out)@),
        forall|k: int, j: int| 0 <= k < branches@.len() && 0 <= j < branches@[k].1@.len() ==> fn_free_idents_named(#[trigger] branches@[k].1@[j], final(out)@),
        (forall|k: int| 0 <= k < branches@.len() ==> flow_stmts(#[trigger] branches@[k].1@)) ==> final(out)@ == old(out)@,
    decreases branches,
{
    let mut k: usize = 0;
    while k < branches.len()
        invariant
            k <= branches.len(),
            keeps_names(old(out)@, out@),
            (forall|k: int| 0 <= k < branches@.len() ==> flow_stmts(#[trigger] branches@[k].1@)) ==> out@ == old(out)@,
            forall|q: int, j: int| 0 <= q < k && 0 <= j < branches@[q].1@.len() ==> fn_free_idents_named(#[trigger] branches@[q].1@[j], out@),
        decreases branches.len() - k,
    {
        assert(decreases_to!(branches => branches@[k as int].1));
        let ghost before = out@;
        free_names_walk(&branches[k].1, out);
        proof {
            assert forall|q: int, j: int| 0 <= q < k && 0 <= j < branches@[q].1@.len() implies fn_free_idents_named(#[trigger] branches@[q].1@[j], out@) by {
                lemma_keeps_fn_free(branches@[q].1@[j], before, out@);
            }
        }
        k = k + 1;
    }
}

fn free_names_arms(arms: &Vec<crate::ast::MatchArm>, out: &mut Vec<String>)
    ensures
        keeps_names(old(out)@, final(out)@),
        forall|k: int, j: int| 0 <= k < arms@.len() && 0 <= j < arms@[k].body@.len() ==> fn_free_idents_named(#[trigger] arms@[k].body@[j], final(out)@),
    decreases arms,
{
    let mut k: usize = 0;
    while k < arms.len()
        invariant
            k <= arms.len(),
            keeps_names(old(out)@, out@),
            forall|q: int, j: int| 0 <= q < k && 0 <= j < arms@[q].body@.len() ==> fn_free_idents_named(#[trigger] arms@[q].body@[j], out@),
        decreases arms.len() - k,
    {
        assert(decreases_to!(arms => arms@[k as int]));
        let ghost before = out@;
        free_names_walk(&arms[k].body, out);
        proof {
            assert forall|q: int, j: int| 0 <= q < k && 0 <= j < arms@[q].body@.len() implies fn_free_idents_named(#[trigger] arms@[q].body@[j], out@) by {
                lemma_keeps_fn_free(arms@[q].body@[j], before, out@);
            }
        }
        k = k + 1;
    }
}

fn free_names_handlers(handlers: &Vec<crate::ast::ExceptHandler>, out: &mut Vec<String>)
    ensures
        keeps_names(old(out)@, final(out)@),
        forall|k: int, j: int| 0 <= k < handlers@.len() && 0 <= j < handlers@[k].body@.len() ==> fn_free_idents_named(#[trigger] handlers@[k].body@[j], final(out)@),
    decreases handlers,
{
    let mut k: usize = 0;
    while k < handlers.len()
        invariant
            k <= handlers.len(),
            keeps_names(old(out)@, out@),
            forall|q: int, j: int| 0 <= q < k && 0 <= j < handlers@[q].body@.len() ==> fn_free_idents_named(#[trigger] handlers@[q].body@[j], out@),
        decreases handlers.len() - k,
    {
        assert(decreases_to!(handlers => handlers@[k as int]));
        let ghost before = out@;
        free_names_walk(&handlers[k].body, out);
        proof {
            assert forall|q: int, j: int| 0 <= q < k && 0 <= j < handlers@[q].body@.len() implies fn_free_idents_named(#[trigger] handlers@[q].body@[j], out@) by {
                lemma_keeps_fn_free(handlers@[q].body@[j], before, out@);
            }
        }
        k = k + 1;
    }
}

} // verus!

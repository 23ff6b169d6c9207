//! The public entry points.
//!
//! Every entry point returns `None` when the code cannot be compiled; the
//! caller then does not run it on the VM.
use std::rc::Rc;

use vstd::prelude::*;
use vstd::string::StringExecFns;

use crate::annotations::AstAnnotations;
use crate::ast::{CallArg, Expr, Param, Span, Stmt};
use crate::chunk::{assigns_scope, writes_scope, Chunk, NOT_STMT};
use crate::compiler::decls::{add_decl, collect_expr_decls, collect_nested_decls, collect_stmt_decls, for_target_shadows, is_wildcard, is_wildcard_name, nested_fn_free_names, slot_tables_ok, slots_grow, top_decl_numbered};
use crate::compiler::diag::str_eq;
use crate::compiler::decl_order::{decl_fold, decls_stmts, empty_decl_state, lemma_decl_state_empty};
use crate::compiler::{ChunkMeta, CompileMode, Compiler, POOL_LIMIT};
use crate::names::{names_sorted, pair_names, sort_strings, values_below, NameMap};
use crate::op::Op;
use crate::compiler::stmt::{lemma_trivial_seq_no_jump, trivial_seq_code, trivial_seq_pool, flow_size, flow_sizes, flow_stmt, flow_stmts, plain_let_literal, toplevel_let_code, trivial_code, trivial_pool, trivial_stmt};
use crate::compiler::expr::{is_literal, literal_code, literal_pool};

verus! {

/// Statements that define something (functions, types, imports); the
/// interpreter executes them, the VM does not.
pub open spec fn is_definition_stmt(s: Stmt) -> bool {
    ||| s is FnDef
    ||| s is GenDef
    ||| s is ClassDef
    ||| s is TraitDef
    ||| s is ProtocolDef
    ||| s is NewTypeDef
    ||| s is EnumDef
    ||| s is Import
    ||| s is FromImport
    ||| s is Field
}

/// The name a statement declares at the top of a function body, taking a
/// slot there: `let`, `mut`, `const` or a nested `fn`.
pub open spec fn top_decl_name(s: Stmt) -> Option<Seq<char>> {
    match s {
        Stmt::Let(name, _, _) => Some(name@),
        Stmt::Mut(name, _, _) => Some(name@),
        Stmt::Const(name, _, _) => Some(name@),
        Stmt::FnDef { name, .. } => Some(name@),
        _ => None,
    }
}

/// The body declares `name` at its top (`_` declares nothing).
pub open spec fn declared_at_top(body: Seq<Stmt>, name: Seq<char>) -> bool {
    &&& !is_wildcard(name)
    &&& exists|j: int| 0 <= j < body.len() && #[trigger] top_decl_name(body[j]) == Some(name)
}

/// `name` is a local of a function with these parameters and body before
/// its captures are numbered: a (non-variadic) parameter's name or a name
/// declared at the top of the body.
pub open spec fn fn_local_name(params: Seq<Param>, body: Seq<Stmt>, name: Seq<char>) -> bool {
    ||| exists|p: int| 0 <= p < params.len() && !params[p].variadic && (#[trigger] params[p]).name@ == name
    ||| declared_at_top(body, name)
}

/// Whether compiling the top-level statement is attempted at all: every
/// statement but a definition. ("Not a target" is not a compilation failure.)
pub fn is_toplevel_compile_target(stmt: &Stmt) -> (r: bool)
    ensures
        r == !is_definition_stmt(*stmt),
{
    !matches!(
        stmt,
        Stmt::FnDef { .. } | Stmt::GenDef { .. } | Stmt::ClassDef { .. } | Stmt::TraitDef { .. }
            | Stmt::ProtocolDef { .. } | Stmt::NewTypeDef { .. } | Stmt::EnumDef { .. } | Stmt::Import { .. }
            | Stmt::FromImport { .. } | Stmt::Field { .. }
    )
}

/// Gives `name` the next slot unconditionally (parameters, captures).
fn push_slot(
    name: String,
    mutable: bool,
    ty: Option<String>,
    slots: &mut NameMap<u16>,
    slot_mut: &mut Vec<bool>,
    slot_type: &mut Vec<Option<String>>,
    n: &mut u16,
) -> (r: Option<()>)
    requires
        slot_tables_ok(*old(slots), old(slot_mut)@, old(slot_type)@, *old(n)),
    ensures
        r is Some ==> slot_tables_ok(*final(slots), final(slot_mut)@, final(slot_type)@, *final(n)),
        r is Some ==> *final(n) == *old(n) + 1,
        r is Some ==> final(slots).get_spec(name@) == Some(*old(n)),
        r is Some ==> forall|k: Seq<char>| k != name@ ==> #[trigger] final(slots).get_spec(k) == old(slots).get_spec(k),
        r is None <==> *old(n) == u16::MAX,
{
    if *n == u16::MAX {
        return None;
    }
    let v = *n;
    slots.insert(name, v);
    slot_mut.push(mutable);
    slot_type.push(ty);
    *n = v + 1;
    Some(())
}

/// Slot → variable name for the debugger (`n` named slots; temporaries
/// stay unnamed).
fn build_local_names(slots: &NameMap<u16>, n: u16) -> (r: Vec<String>)
    ensures
        r@.len() == n,
{
    let mut names: Vec<String> = Vec::new();
    let mut i: u16 = 0;
    while i < n
        invariant
            names@.len() == i,
            i <= n,
        decreases n - i,
    {
        names.push(String::new());
        i = i + 1;
    }
    let mut k: usize = 0;
    while k < slots.entries.len()
        invariant
            names@.len() == n,
        decreases slots.entries@.len() - k,
    {
        let s = slots.entries[k].1;
        if s < n {
            names.set(s as usize, slots.entries[k].0.clone());
        }
        k = k + 1;
    }
    names
}

impl Compiler {
    /// A compiler for `mode` whose frame has the `n` named slots of the
    /// given tables.
    pub(crate) fn with_slots(
        mode: CompileMode,
        annotations: Rc<AstAnnotations>,
        slots: NameMap<u16>,
        slot_mut: Vec<bool>,
        slot_type: Vec<Option<String>>,
        n: u16,
    ) -> (c: Compiler)
        requires
            slot_tables_ok(slots, slot_mut@, slot_type@, n),
        ensures
            c.inv(),
            c.mode == mode,
            c.chunk.n_locals == n,
            c.chunk.n_cells == 0,
            c.named_locals == n,
            c.temps_in_use == 0,
            c.in_finally == 0,
            c.chunk.code@.len() == 0,
            c.chunk.names@.len() == 0,
            c.loops@.len() == 0,
            c.block_ctxs@.len() == 0,
            c.try_stack@.len() == 0,
            c.cells.entries@.len() == 0,
            c.statics.entries@.len() == 0,
            c.cell_by_slot@.len() == 0,
            c.toplevel_globals@.len() == 0,
            c.self_slot is None,
            c.pending is None,
            c.chunk.consts@.len() == 0,
            c.chunk.spans@.len() == 0,
            c.chunk.global_caches@.len() == 0,
            c.chunk.stmt_spans@.len() == 0,
            c.pending_stmt is None,
            c.slots == slots,
    {
        let mut c = Compiler::base(mode, annotations);
        c.slots = slots;
        c.slot_mut = slot_mut;
        c.slot_type = slot_type;
        c.named_locals = n;
        c.chunk.n_locals = n as usize;
        c
    }
}

/// No two of `names` are the same name.
pub open spec fn names_distinct(names: Seq<String>) -> bool {
    forall|i: int, j: int| 0 <= i < j < names.len() ==> (#[trigger] names[i])@ != (#[trigger] names[j])@
}

/// Captures a function can take: each list names every variable once, no
/// capture is a parameter or a top-level declaration of the body, and no
/// name is in both lists.
pub open spec fn captures_ok(params: Seq<Param>, body: Seq<Stmt>, captures: Seq<String>, mut_captures: Seq<String>) -> bool {
    &&& names_distinct(captures)
    &&& names_distinct(mut_captures)
    &&& forall|i: int| 0 <= i < captures.len() ==> !fn_local_name(params, body, (#[trigger] captures[i])@)
    &&& forall|i: int| 0 <= i < mut_captures.len() ==> !fn_local_name(params, body, (#[trigger] mut_captures[i])@)
    &&& forall|i: int, j: int| 0 <= i < captures.len() && 0 <= j < mut_captures.len()
        ==> (#[trigger] captures[i])@ != (#[trigger] mut_captures[j])@
}

/// A rearrangement of distinct names holds distinct names, each taken from
/// the original.
proof fn lemma_perm_distinct(s: Seq<String>, t: Seq<String>)
    requires
        s.to_multiset() == t.to_multiset(),
        names_distinct(s),
    ensures
        names_distinct(t),
        forall|k: int| 0 <= k < t.len() ==> s.contains(#[trigger] t[k]),
{
    assert(s.no_duplicates()) by {
        assert forall|i: int, j: int| 0 <= i < s.len() && 0 <= j < s.len() && i != j implies s[i] != s[j] by {
            if i < j {
                assert(s[i]@ != s[j]@);
            } else {
                assert(s[j]@ != s[i]@);
            }
        }
    }
    s.lemma_multiset_has_no_duplicates();
    t.lemma_multiset_has_no_duplicates_conv();
    assert forall|k: int| 0 <= k < t.len() implies s.contains(#[trigger] t[k]) by {
        vstd::seq_lib::to_multiset_contains(t, t[k]);
        vstd::seq_lib::to_multiset_contains(s, t[k]);
        assert(t.contains(t[k]));
    }
    assert forall|a: int, b: int| 0 <= a < b < t.len() implies (#[trigger] t[a])@ != (#[trigger] t[b])@ by {
        vstd::seq_lib::to_multiset_contains(t, t[a]);
        vstd::seq_lib::to_multiset_contains(s, t[a]);
        vstd::seq_lib::to_multiset_contains(t, t[b]);
        vstd::seq_lib::to_multiset_contains(s, t[b]);
        assert(t.contains(t[a]));
        assert(t.contains(t[b]));
        let i = choose|i: int| 0 <= i < s.len() && s[i] == t[a];
        let j = choose|j: int| 0 <= j < s.len() && s[j] == t[b];
        assert(t[a] != t[b]);
        if i < j {
            assert(s[i]@ != s[j]@);
        } else {
            assert(s[j]@ != s[i]@);
        }
    }
}

/// Compiles a function body. Parameters take the first slots (a variadic
/// parameter, which must be the last, as `local::args`), then the body's
/// top-level declarations in order (a `static` takes a slot it never uses),
/// then the nested declarations, then the immutable captures (sorted by
/// name); mutable captures and mutable locals that a nested function
/// captures live in cells. `None` when the body holds a definition that
/// would shift the numbering, a capture collides with a local, or the body
/// cannot be compiled.
pub fn compile_fn(
    params: &Vec<Param>,
    body: &Vec<Stmt>,
    annotations: Rc<AstAnnotations>,
    captures: &Vec<String>,
    mut_captures: &Vec<String>,
) -> (r: Option<Chunk>)
    ensures
        r matches Some(c) ==> {
            &&& c.wf()
            &&& c.ends_with_return()
            &&& c.code@.last() == Op::ReturnNil
            &&& c.n_params == params@.len()
            &&& c.captured_slots@.len() == captures@.len()
            &&& c.captured_cells@.len() == mut_captures@.len()
            &&& names_sorted(pair_names(c.captured_slots@))
            &&& pair_names(c.captured_slots@).to_multiset() == captures@.to_multiset()
            &&& c.local_names@.len() >= captures@.len()
            &&& forall|j: int| 0 <= j < c.captured_slots@.len()
                ==> (#[trigger] c.captured_slots@[j]).1 == c.local_names@.len() - captures@.len() + j
            &&& names_sorted(pair_names(c.captured_cells@))
            &&& pair_names(c.captured_cells@).to_multiset() == mut_captures@.to_multiset()
            &&& forall|j: int| 0 <= j < c.captured_cells@.len() ==> (#[trigger] c.captured_cells@[j]).1 == j
        },
        (exists|i: int| 0 <= i < params@.len() - 1 && (#[trigger] params@[i]).variadic) ==> r is None,
        (exists|i: int| 0 <= i < body@.len() && (#[trigger] body@[i] is LetTuple || is_definition_stmt(body@[i]) && !(body@[i] is FnDef) && !(body@[i] is Field))) ==> r is None,
        (exists|i: int| 0 <= i < captures@.len() && fn_local_name(params@, body@, (#[trigger] captures@[i])@)) ==> r is None,
        (exists|i: int| 0 <= i < mut_captures@.len() && fn_local_name(params@, body@, (#[trigger] mut_captures@[i])@)) ==> r is None,
        params@.len() == 0 && captures@.len() == 0 && mut_captures@.len() == 0 && body@.len() < 1000
            && (forall|j: int| 0 <= j < body@.len() ==> trivial_stmt(#[trigger] body@[j])) ==> r is Some,
        params@.len() == 0 && captures@.len() == 0 && mut_captures@.len() == 0 && body@.len() == 0
            ==> (r matches Some(c) && c.code@ == seq![Op::ReturnNil]),
        params@.len() < u16::MAX && !(exists|i: int| 0 <= i < params@.len() - 1 && (#[trigger] params@[i]).variadic)
            && captures@.len() == 0 && mut_captures@.len() == 0 && flow_stmts(body@)
            && flow_sizes(body@) + 1 < POOL_LIMIT ==> r is Some,
        !captures@.no_duplicates() || !mut_captures@.no_duplicates() ==> r is None,
        (exists|i: int, j: int| 0 <= i < captures@.len() && 0 <= j < mut_captures@.len() && (#[trigger] captures@[i])@ == (#[trigger] mut_captures@[j])@) ==> r is None,
        flow_stmts(body@) && r is Some ==> r->0.n_locals == params@.len() + captures@.len() && r->0.n_cells == mut_captures@.len(),
        params@.len() + captures@.len() < u16::MAX && mut_captures@.len() < u16::MAX
            && (forall|i: int| 0 <= i < params@.len() ==> !(#[trigger] params@[i]).variadic)
            && captures_ok(params@, body@, captures@, mut_captures@) && flow_stmts(body@)
            && flow_sizes(body@) + 1 < POOL_LIMIT ==> r is Some,
        body@.len() == 0 && r is Some ==> r->0.code@ == seq![Op::ReturnNil],
        (forall|j: int| 0 <= j < body@.len() ==> trivial_stmt(#[trigger] body@[j])) && r is Some
            ==> r->0.code@ == trivial_seq_code(body@, 0).push(Op::ReturnNil) && r->0.consts@ == trivial_seq_pool(body@),
{
    compile_fn_inner(params, body, annotations, captures, mut_captures)
}

/// Numbers the parameters; returns the slot of `self`, if any.
fn number_params(
    params: &Vec<Param>,
    slots: &mut NameMap<u16>,
    slot_mut: &mut Vec<bool>,
    slot_type: &mut Vec<Option<String>>,
    n: &mut u16,
) -> (r: Option<Option<u16>>)
    requires
        slot_tables_ok(*old(slots), old(slot_mut)@, old(slot_type)@, *old(n)),
        *old(n) == 0,
    ensures
        r is Some ==> slot_tables_ok(*final(slots), final(slot_mut)@, final(slot_type)@, *final(n)),
        r is Some ==> *final(n) == params@.len(),
        r matches Some(Some(s)) ==> s < *final(n),
        r is Some ==> forall|j: int| 0 <= j < params@.len() && !(#[trigger] params@[j]).variadic
            ==> final(slots).get_spec(params@[j].name@) is Some,
        (exists|i: int| 0 <= i < params@.len() - 1 && (#[trigger] params@[i]).variadic) ==> r is None,
        params@.len() < u16::MAX && !(exists|i: int| 0 <= i < params@.len() - 1 && (#[trigger] params@[i]).variadic) ==> r is Some,
        params@.len() == 0 ==> r == Some(None::<u16>) && *final(slots) == *old(slots) && final(slot_mut)@ == old(slot_mut)@ && final(slot_type)@ == old(slot_type)@ && *final(n) == *old(n),
        r is Some ==> forall|key: Seq<char>| #[trigger] final(slots).get_spec(key) is Some ==> old(slots).get_spec(key) is Some
            || (exists|j: int| 0 <= j < params@.len() && !params@[j].variadic && (#[trigger] params@[j]).name@ == key)
            || (key == "local::args"@ && exists|j: int| 0 <= j < params@.len() && (#[trigger] params@[j]).variadic),
{
    let mut self_slot: Option<u16> = None;
    let mut i: usize = 0;
    while i < params.len()
        invariant
            slot_tables_ok(*slots, slot_mut@, slot_type@, *n),
            i <= params@.len(),
            *n == i,
            self_slot matches Some(s) ==> s < *n,
            i == 0 ==> self_slot is None && *slots == *old(slots) && slot_mut@ == old(slot_mut)@ && slot_type@ == old(slot_type)@,
            forall|j: int| 0 <= j < i && j < params@.len() - 1 ==> !(#[trigger] params@[j]).variadic,
            forall|j: int| 0 <= j < i && !(#[trigger] params@[j]).variadic ==> slots.get_spec(params@[j].name@) is Some,
            forall|key: Seq<char>| #[trigger] slots.get_spec(key) is Some ==> old(slots).get_spec(key) is Some
                || (exists|j: int| 0 <= j < i && !params@[j].variadic && (#[trigger] params@[j]).name@ == key)
                || (key == "local::args"@ && exists|j: int| 0 <= j < i && (#[trigger] params@[j]).variadic),
        decreases params@.len() - i,
    {
        let p = &params[i];
        if p.variadic {
            if i + 1 != params.len() {
                return None;
            }
            push_slot(String::from_str("local::args"), p.mutable, None, slots, slot_mut, slot_type, n)?;
        } else {
            if str_eq(p.name.as_str(), "self") {
                self_slot = Some(*n);
            }
            push_slot(p.name.clone(), p.mutable, crate::ast::clone_opt_string(&p.type_ann), slots, slot_mut, slot_type, n)?;
        }
        i = i + 1;
    }
    Some(self_slot)
}

/// Numbers the body's top-level declarations the way the resolver does;
/// returns the `static`s by name. `None` for a declaration the numbering
/// does not handle (`let a, b = t`, type definitions, imports).
fn number_body_decls(
    body: &Vec<Stmt>,
    slots: &mut NameMap<u16>,
    slot_mut: &mut Vec<bool>,
    slot_type: &mut Vec<Option<String>>,
    n: &mut u16,
) -> (r: Option<NameMap<Span>>)
    requires
        slot_tables_ok(*old(slots), old(slot_mut)@, old(slot_type)@, *old(n)),
    ensures
        r is Some ==> slot_tables_ok(*final(slots), final(slot_mut)@, final(slot_type)@, *final(n)),
        r is Some ==> *final(n) >= *old(n),
        r is Some ==> slots_grow(*old(slots), *final(slots), *old(n), *final(n)),
        r is Some ==> forall|j: int| 0 <= j < body@.len() ==> top_decl_numbered(#[trigger] body@[j], *final(slots)),
        (exists|i: int| 0 <= i < body@.len() && (#[trigger] body@[i] is LetTuple || is_definition_stmt(body@[i]) && !(body@[i] is FnDef) && !(body@[i] is Field))) ==> r is None,
        (forall|j: int| 0 <= j < body@.len() ==> trivial_stmt(#[trigger] body@[j])) ==> r is Some && *final(slots) == *old(slots) && final(slot_mut)@ == old(slot_mut)@ && final(slot_type)@ == old(slot_type)@ && *final(n) == *old(n),
        flow_stmts(body@) ==> r is Some && *final(slots) == *old(slots) && final(slot_mut)@ == old(slot_mut)@ && final(slot_type)@ == old(slot_type)@ && *final(n) == *old(n),
{
    let mut statics: NameMap<Span> = NameMap::new();
    let none: Option<String> = None;
    let mut i: usize = 0;
    while i < body.len()
        invariant
            slot_tables_ok(*slots, slot_mut@, slot_type@, *n),
            *n >= *old(n),
            slots_grow(*old(slots), *slots, *old(n), *n),
            forall|j: int| 0 <= j < i ==> top_decl_numbered(#[trigger] body@[j], *slots),
            (forall|j: int| 0 <= j < body@.len() ==> trivial_stmt(#[trigger] body@[j])) ==> *slots == *old(slots)
                && slot_mut@ == old(slot_mut)@ && slot_type@ == old(slot_type)@ && *n == *old(n),
            flow_stmts(body@) ==> *slots == *old(slots)
                && slot_mut@ == old(slot_mut)@ && slot_type@ == old(slot_type)@ && *n == *old(n),
            i <= body@.len(),
            forall|j: int| 0 <= j < i ==> !(#[trigger] body@[j] is LetTuple || is_definition_stmt(body@[j]) && !(body@[j] is FnDef) && !(body@[j] is Field)),
        decreases body@.len() - i,
    {
        match &body[i] {
            Stmt::Let(name, ty, _) | Stmt::Const(name, ty, _) => {
                add_decl(name, ty, false, slots, slot_mut, slot_type, n)?;
            },
            Stmt::Mut(name, ty, _) => {
                add_decl(name, ty, true, slots, slot_mut, slot_type, n)?;
            },
            // A nested `fn`'s name takes a slot here; whether it compiles is
            // decided when it is reached.
            Stmt::FnDef { name, .. } => {
                add_decl(name, &none, false, slots, slot_mut, slot_type, n)?;
            },
            // A `static` lives outside the frame but takes a slot all the
            // same (the resolver counts it); the slot stays unnamed.
            Stmt::Static(name, _, span) => {
                statics.insert(name.clone(), *span);
                if !is_wildcard_name(name) {
                    if *n == u16::MAX {
                        return None;
                    }
                    slot_mut.push(true);
                    slot_type.push(None);
                    *n = *n + 1;
                }
            },
            Stmt::LetTuple { .. } | Stmt::GenDef { .. } | Stmt::ClassDef { .. } | Stmt::TraitDef { .. }
            | Stmt::ProtocolDef { .. } | Stmt::NewTypeDef { .. } | Stmt::EnumDef { .. } | Stmt::Import { .. }
            | Stmt::FromImport { .. } => {
                return None;
            },
            _ => {},
        }
        i = i + 1;
    }
    Some(statics)
}

/// A local of the function has a slot in a table that numbers every
/// parameter and every top-level declaration.
proof fn lemma_locals_have_slots(params: Seq<Param>, body: Seq<Stmt>, slots: NameMap<u16>, name: Seq<char>)
    requires
        forall|j: int| 0 <= j < params.len() && !(#[trigger] params[j]).variadic ==> slots.get_spec(params[j].name@) is Some,
        forall|j: int| 0 <= j < body.len() ==> top_decl_numbered(#[trigger] body[j], slots),
    ensures
        fn_local_name(params, body, name) ==> slots.get_spec(name) is Some,
{
    if exists|p: int| 0 <= p < params.len() && !params[p].variadic && (#[trigger] params[p]).name@ == name {
        let p = choose|p: int| 0 <= p < params.len() && !params[p].variadic && (#[trigger] params[p]).name@ == name;
        assert(slots.get_spec(params[p].name@) is Some);
    }
    if declared_at_top(body, name) {
        let j = choose|j: int| 0 <= j < body.len() && #[trigger] top_decl_name(body[j]) == Some(name);
        assert(top_decl_numbered(body[j], slots));
    }
}

fn compile_fn_inner(
    params: &Vec<Param>,
    body: &Vec<Stmt>,
    annotations: Rc<AstAnnotations>,
    captures: &Vec<String>,
    mut_captures: &Vec<String>,
) -> (r: Option<Chunk>)
    ensures
        r matches Some(c) ==> {
            &&& c.wf()
            &&& c.ends_with_return()
            &&& c.code@.last() == Op::ReturnNil
            &&& c.n_params == params@.len()
            &&& c.captured_slots@.len() == captures@.len()
            &&& c.captured_cells@.len() == mut_captures@.len()
            &&& names_sorted(pair_names(c.captured_slots@))
            &&& pair_names(c.captured_slots@).to_multiset() == captures@.to_multiset()
            &&& c.local_names@.len() >= captures@.len()
            &&& forall|j: int| 0 <= j < c.captured_slots@.len()
                ==> (#[trigger] c.captured_slots@[j]).1 == c.local_names@.len() - captures@.len() + j
            &&& names_sorted(pair_names(c.captured_cells@))
            &&& pair_names(c.captured_cells@).to_multiset() == mut_captures@.to_multiset()
            &&& forall|j: int| 0 <= j < c.captured_cells@.len() ==> (#[trigger] c.captured_cells@[j]).1 == j
        },
        (exists|i: int| 0 <= i < params@.len() - 1 && (#[trigger] params@[i]).variadic) ==> r is None,
        (exists|i: int| 0 <= i < body@.len() && (#[trigger] body@[i] is LetTuple || is_definition_stmt(body@[i]) && !(body@[i] is FnDef) && !(body@[i] is Field))) ==> r is None,
        (exists|i: int| 0 <= i < captures@.len() && fn_local_name(params@, body@, (#[trigger] captures@[i])@)) ==> r is None,
        (exists|i: int| 0 <= i < mut_captures@.len() && fn_local_name(params@, body@, (#[trigger] mut_captures@[i])@)) ==> r is None,
        params@.len() == 0 && captures@.len() == 0 && mut_captures@.len() == 0 && body@.len() < 1000
            && (forall|j: int| 0 <= j < body@.len() ==> trivial_stmt(#[trigger] body@[j])) ==> r is Some,
        params@.len() == 0 && captures@.len() == 0 && mut_captures@.len() == 0 && body@.len() == 0
            ==> (r matches Some(c) && c.code@ == seq![Op::ReturnNil]),
        params@.len() < u16::MAX && !(exists|i: int| 0 <= i < params@.len() - 1 && (#[trigger] params@[i]).variadic)
            && captures@.len() == 0 && mut_captures@.len() == 0 && flow_stmts(body@)
            && flow_sizes(body@) + 1 < POOL_LIMIT ==> r is Some,
        !captures@.no_duplicates() || !mut_captures@.no_duplicates() ==> r is None,
        (exists|i: int, j: int| 0 <= i < captures@.len() && 0 <= j < mut_captures@.len() && (#[trigger] captures@[i])@ == (#[trigger] mut_captures@[j])@) ==> r is None,
        flow_stmts(body@) && r is Some ==> r->0.n_locals == params@.len() + captures@.len() && r->0.n_cells == mut_captures@.len(),
        params@.len() + captures@.len() < u16::MAX && mut_captures@.len() < u16::MAX
            && (forall|i: int| 0 <= i < params@.len() ==> !(#[trigger] params@[i]).variadic)
            && captures_ok(params@, body@, captures@, mut_captures@) && flow_stmts(body@)
            && flow_sizes(body@) + 1 < POOL_LIMIT ==> r is Some,
        body@.len() == 0 && r is Some ==> r->0.code@ == seq![Op::ReturnNil],
        (forall|j: int| 0 <= j < body@.len() ==> trivial_stmt(#[trigger] body@[j])) && r is Some
            ==> r->0.code@ == trivial_seq_code(body@, 0).push(Op::ReturnNil) && r->0.consts@ == trivial_seq_pool(body@),
{
    let shadowed = for_target_shadows(params, body);
    let mut slots: NameMap<u16> = NameMap::new();
    let mut slot_mut: Vec<bool> = Vec::new();
    let mut slot_type: Vec<Option<String>> = Vec::new();
    let mut n: u16 = 0;
    let ghost slots_e = slots;
    assert(forall|key: Seq<char>| slots_e.get_spec(key) is None);
    let self_slot = number_params(params, &mut slots, &mut slot_mut, &mut slot_type, &mut n)?;
    let n_params = n;
    let ghost slots_p = slots;
    let statics = number_body_decls(body, &mut slots, &mut slot_mut, &mut slot_type, &mut n)?;
    collect_nested_decls(body, &mut slots, &mut slot_mut, &mut slot_type, &mut n)?;
    proof {
        if flow_stmts(body@) && (forall|i: int| 0 <= i < params@.len() ==> !(#[trigger] params@[i]).variadic) {
            assert(slots == slots_p);
            assert forall|key: Seq<char>| #[trigger] slots.get_spec(key) is Some
                implies (exists|j: int| 0 <= j < params@.len() && !params@[j].variadic && (#[trigger] params@[j]).name@ == key) by {
                assert(slots_e.get_spec(key) is None);
                if key == "local::args"@ && exists|j: int| 0 <= j < params@.len() && (#[trigger] params@[j]).variadic {
                    let j = choose|j: int| 0 <= j < params@.len() && (#[trigger] params@[j]).variadic;
                    assert(!params@[j].variadic);
                }
            }
        }
    }
    // Immutable captures, last and in name order.
    let mut capture_names = crate::ast::clone_strings(captures);
    sort_strings(&mut capture_names);
    let mut captured_slots: Vec<(String, u16)> = Vec::new();
    let ghost slots0 = slots;
    let ghost n_before_captures = n as int;
    let ghost ok = params@.len() + captures@.len() < u16::MAX && mut_captures@.len() < u16::MAX
        && (forall|i: int| 0 <= i < params@.len() ==> !(#[trigger] params@[i]).variadic)
        && captures_ok(params@, body@, captures@, mut_captures@) && flow_stmts(body@)
        && flow_sizes(body@) + 1 < POOL_LIMIT;
    proof {
        if ok {
            lemma_perm_distinct(captures@, capture_names@);
        }
    }
    let mut k: usize = 0;
    while k < capture_names.len()
        invariant
            ok == (params@.len() + captures@.len() < u16::MAX && mut_captures@.len() < u16::MAX
                && (forall|i: int| 0 <= i < params@.len() ==> !(#[trigger] params@[i]).variadic)
                && captures_ok(params@, body@, captures@, mut_captures@) && flow_stmts(body@)
                && flow_sizes(body@) + 1 < POOL_LIMIT),
            ok ==> n_before_captures == params@.len() && names_distinct(capture_names@)
                && (forall|q: int| 0 <= q < capture_names@.len() ==> captures@.contains(#[trigger] capture_names@[q]))
                && captures_ok(params@, body@, captures@, mut_captures@)
                && (forall|i: int| 0 <= i < params@.len() ==> !(#[trigger] params@[i]).variadic)
                && params@.len() + captures@.len() < u16::MAX,
            ok ==> forall|key: Seq<char>| #[trigger] slots.get_spec(key) is Some
                ==> (exists|j: int| 0 <= j < params@.len() && !params@[j].variadic && (#[trigger] params@[j]).name@ == key)
                || (exists|q: int| 0 <= q < k && (#[trigger] capture_names@[q])@ == key),
            slot_tables_ok(slots, slot_mut@, slot_type@, n),
            forall|key: Seq<char>| #[trigger] slots0.get_spec(key) is Some ==> slots.get_spec(key) is Some,
            forall|j: int| 0 <= j < k ==> slots0.get_spec((#[trigger] capture_names@[j])@) is None,
            k == 0 ==> slots == slots0,
            capture_names@.len() == captures@.len(),
            n >= n_params,
            k <= capture_names@.len(),
            captured_slots@.len() == k,
            forall|j: int| 0 <= j < captured_slots@.len() ==> (#[trigger] captured_slots@[j]).1 < n,
            forall|j: int| 0 <= j < captured_slots@.len() ==> (#[trigger] captured_slots@[j]).0 == capture_names@[j],
            n == n_before_captures + k,
            forall|j: int| 0 <= j < captured_slots@.len() ==> (#[trigger] captured_slots@[j]).1 == n_before_captures + j,
            forall|j: int| 0 <= j < k ==> slots.get_spec((#[trigger] capture_names@[j])@) is Some,
            forall|a: int, b: int| 0 <= a < b < k ==> capture_names@[a] != capture_names@[b],
        decreases capture_names@.len() - k,
    {
        let name = &capture_names[k];
        proof {
            if ok && slots.get_spec(name@) is Some {
                if exists|q: int| 0 <= q < k && (#[trigger] capture_names@[q])@ == name@ {
                    let q = choose|q: int| 0 <= q < k && (#[trigger] capture_names@[q])@ == name@;
                    assert(capture_names@[q]@ != capture_names@[k as int]@);
                } else {
                    let j = choose|j: int| 0 <= j < params@.len() && !params@[j].variadic && (#[trigger] params@[j]).name@ == name@;
                    assert(captures@.contains(capture_names@[k as int]));
                    let i = choose|i: int| 0 <= i < captures@.len() && captures@[i] == capture_names@[k as int];
                    assert(fn_local_name(params@, body@, captures@[i]@));
                    assert(!fn_local_name(params@, body@, captures@[i]@));
                }
            }
        }
        if slots.contains_key(name) {
            return None;
        }
        let slot = n;
        let ghost before = slots;
        push_slot(name.clone(), false, None, &mut slots, &mut slot_mut, &mut slot_type, &mut n)?;
        proof {
            if ok {
                assert forall|key: Seq<char>| #[trigger] slots.get_spec(key) is Some
                    implies (exists|j: int| 0 <= j < params@.len() && !params@[j].variadic && (#[trigger] params@[j]).name@ == key)
                    || (exists|q: int| 0 <= q < k + 1 && (#[trigger] capture_names@[q])@ == key) by {
                    if key != capture_names@[k as int]@ {
                        assert(before.get_spec(key) is Some);
                        if exists|q: int| 0 <= q < k && (#[trigger] capture_names@[q])@ == key {
                            let q = choose|q: int| 0 <= q < k && (#[trigger] capture_names@[q])@ == key;
                            assert(capture_names@[q]@ == key);
                        }
                    } else {
                        assert(capture_names@[k as int]@ == key);
                    }
                }
            }
            assert forall|j: int| 0 <= j < k + 1 implies slots.get_spec((#[trigger] capture_names@[j])@) is Some by {
                if j < k && capture_names@[j]@ != capture_names@[k as int]@ {
                    assert(before.get_spec(capture_names@[j]@) is Some);
                }
            }
            assert forall|a: int, b: int| 0 <= a < b < k + 1 implies capture_names@[a] != capture_names@[b] by {
                if b == k {
                    assert(before.get_spec(capture_names@[a]@) is Some);
                }
            }
        }
        captured_slots.push((name.clone(), slot));
        k = k + 1;
    }
    // Mutable captures share the enclosing frame's cells.
    let mut cells: NameMap<u16> = NameMap::new();
    let mut n_cells: u16 = 0;
    proof {
        assert forall|i: int| 0 <= i < captures@.len() implies !fn_local_name(params@, body@, (#[trigger] captures@[i])@) by {
            vstd::seq_lib::to_multiset_contains(captures@, captures@[i]);
            vstd::seq_lib::to_multiset_contains(capture_names@, captures@[i]);
            assert(captures@.contains(captures@[i]));
            let j = choose|j: int| 0 <= j < capture_names@.len() && capture_names@[j] == captures@[i];
            assert(slots0.get_spec(capture_names@[j]@) is None);
            lemma_locals_have_slots(params@, body@, slots0, captures@[i]@);
        }
    }
    let mut mut_names = crate::ast::clone_strings(mut_captures);
    sort_strings(&mut mut_names);
    let mut captured_cells: Vec<(String, u16)> = Vec::new();
    let ghost slots1 = slots;
    proof {
        if ok {
            lemma_perm_distinct(mut_captures@, mut_names@);
        }
    }
    let mut k: usize = 0;
    while k < mut_names.len()
        invariant
            ok == (params@.len() + captures@.len() < u16::MAX && mut_captures@.len() < u16::MAX
                && (forall|i: int| 0 <= i < params@.len() ==> !(#[trigger] params@[i]).variadic)
                && captures_ok(params@, body@, captures@, mut_captures@) && flow_stmts(body@)
                && flow_sizes(body@) + 1 < POOL_LIMIT),
            ok ==> names_distinct(mut_names@) && names_distinct(capture_names@)
                && (forall|q: int| 0 <= q < mut_names@.len() ==> mut_captures@.contains(#[trigger] mut_names@[q]))
                && (forall|q: int| 0 <= q < capture_names@.len() ==> captures@.contains(#[trigger] capture_names@[q]))
                && captures_ok(params@, body@, captures@, mut_captures@) && mut_captures@.len() < u16::MAX,
            ok ==> forall|key: Seq<char>| #[trigger] slots1.get_spec(key) is Some
                ==> (exists|j: int| 0 <= j < params@.len() && !params@[j].variadic && (#[trigger] params@[j]).name@ == key)
                || (exists|q: int| 0 <= q < capture_names@.len() && (#[trigger] capture_names@[q])@ == key),
            ok ==> forall|key: Seq<char>| #[trigger] cells.get_spec(key) is Some
                ==> exists|q: int| 0 <= q < k && (#[trigger] mut_names@[q])@ == key,
            slots == slots1,
            mut_names@.len() == mut_captures@.len(),
            forall|j: int| 0 <= j < k ==> slots1.get_spec((#[trigger] mut_names@[j])@) is None,
            k <= mut_names@.len(),
            captured_cells@.len() == k,
            forall|j: int| 0 <= j < captured_cells@.len() ==> (#[trigger] captured_cells@[j]).0 == mut_names@[j],
            forall|j: int| 0 <= j < captured_cells@.len() ==> (#[trigger] captured_cells@[j]).1 == j,
            n_cells == k,
            forall|j: int| 0 <= j < captured_cells@.len() ==> (#[trigger] captured_cells@[j]).1 < n_cells,
            values_below(cells.entries@, n_cells as int),
            forall|j: int| 0 <= j < k ==> cells.get_spec((#[trigger] mut_names@[j])@) is Some,
            forall|a: int, b: int| 0 <= a < b < k ==> mut_names@[a] != mut_names@[b],
        decreases mut_names@.len() - k,
    {
        let name = &mut_names[k];
        proof {
            if ok {
                assert(mut_captures@.contains(mut_names@[k as int]));
                let i2 = choose|i: int| 0 <= i < mut_captures@.len() && mut_captures@[i] == mut_names@[k as int];
                if slots1.get_spec(name@) is Some {
                    if exists|q: int| 0 <= q < capture_names@.len() && (#[trigger] capture_names@[q])@ == name@ {
                        let q = choose|q: int| 0 <= q < capture_names@.len() && (#[trigger] capture_names@[q])@ == name@;
                        assert(captures@.contains(capture_names@[q]));
                        let i = choose|i: int| 0 <= i < captures@.len() && captures@[i] == capture_names@[q];
                        assert(captures@[i]@ != mut_captures@[i2]@);
                    } else {
                        let j = choose|j: int| 0 <= j < params@.len() && !params@[j].variadic && (#[trigger] params@[j]).name@ == name@;
                        assert(fn_local_name(params@, body@, mut_captures@[i2]@));
                    }
                }
                if cells.get_spec(name@) is Some {
                    let q = choose|q: int| 0 <= q < k && (#[trigger] mut_names@[q])@ == name@;
                    assert(mut_names@[q]@ != mut_names@[k as int]@);
                }
            }
        }
        if slots.contains_key(name) || cells.contains_key(name) {
            return None;
        }
        if n_cells == u16::MAX {
            return None;
        }
        let idx = n_cells;
        let ghost before = cells;
        cells.insert(name.clone(), idx);
        proof {
            if ok {
                assert forall|key: Seq<char>| #[trigger] cells.get_spec(key) is Some
                    implies exists|q: int| 0 <= q < k + 1 && (#[trigger] mut_names@[q])@ == key by {
                    if key != mut_names@[k as int]@ {
                        assert(before.get_spec(key) is Some);
                        let q = choose|q: int| 0 <= q < k && (#[trigger] mut_names@[q])@ == key;
                        assert(mut_names@[q]@ == key);
                    } else {
                        assert(mut_names@[k as int]@ == key);
                    }
                }
            }
            assert forall|j: int| 0 <= j < k + 1 implies cells.get_spec((#[trigger] mut_names@[j])@) is Some by {
                if j < k && mut_names@[j]@ != mut_names@[k as int]@ {
                    assert(before.get_spec(mut_names@[j]@) is Some);
                }
            }
            assert forall|a: int, b: int| 0 <= a < b < k + 1 implies mut_names@[a] != mut_names@[b] by {
                if b == k {
                    assert(before.get_spec(mut_names@[a]@) is Some);
                }
            }
        }
        n_cells = n_cells + 1;
        captured_cells.push((name.clone(), idx));
        k = k + 1;
    }
    proof {
        assert(capture_names@.no_duplicates());
        assert(mut_names@.no_duplicates());
        capture_names@.lemma_multiset_has_no_duplicates();
        captures@.lemma_multiset_has_no_duplicates_conv();
        mut_names@.lemma_multiset_has_no_duplicates();
        mut_captures@.lemma_multiset_has_no_duplicates_conv();
        assert forall|i: int, j: int| 0 <= i < captures@.len() && 0 <= j < mut_captures@.len()
            implies (#[trigger] captures@[i])@ != (#[trigger] mut_captures@[j])@ by {
            vstd::seq_lib::to_multiset_contains(captures@, captures@[i]);
            vstd::seq_lib::to_multiset_contains(capture_names@, captures@[i]);
            vstd::seq_lib::to_multiset_contains(mut_captures@, mut_captures@[j]);
            vstd::seq_lib::to_multiset_contains(mut_names@, mut_captures@[j]);
            assert(captures@.contains(captures@[i]));
            assert(mut_captures@.contains(mut_captures@[j]));
            let a = choose|a: int| 0 <= a < capture_names@.len() && capture_names@[a] == captures@[i];
            let b = choose|b: int| 0 <= b < mut_names@.len() && mut_names@[b] == mut_captures@[j];
            assert(slots1.get_spec(capture_names@[a]@) is Some);
            assert(slots1.get_spec(mut_names@[b]@) is None);
        }
        assert forall|i: int| 0 <= i < mut_captures@.len() implies !fn_local_name(params@, body@, (#[trigger] mut_captures@[i])@) by {
            vstd::seq_lib::to_multiset_contains(mut_captures@, mut_captures@[i]);
            vstd::seq_lib::to_multiset_contains(mut_names@, mut_captures@[i]);
            assert(mut_captures@.contains(mut_captures@[i]));
            let j = choose|j: int| 0 <= j < mut_names@.len() && mut_names@[j] == mut_captures@[i];
            assert(slots1.get_spec(mut_names@[j]@) is None);
            lemma_locals_have_slots(params@, body@, slots0, mut_captures@[i]@);
        }
    }
    // Mutable locals that a nested function captures move to cells; their
    // slots stay (as holes), so the resolver's numbering still holds.
    let mut cell_by_slot: Vec<(u16, u16)> = Vec::new();
    let mut free = nested_fn_free_names(body);
    sort_strings(&mut free);
    assert(flow_stmts(body@) ==> free@.len() == 0);
    let ghost slots_empty = slots.entries@.len() == 0;
    let mut k: usize = 0;
    while k < free.len()
        invariant
            slots_empty ==> slots.entries@.len() == 0,
            flow_stmts(body@) ==> free@.len() == 0,
            flow_stmts(body@) ==> n_cells == mut_captures@.len(),
            params@.len() == 0 && captures@.len() == 0
                && ((forall|j: int| 0 <= j < body@.len() ==> trivial_stmt(#[trigger] body@[j])) || flow_stmts(body@)) ==> slots_empty,
            slot_tables_ok(slots, slot_mut@, slot_type@, n),
            k <= free@.len(),
            values_below(cells.entries@, n_cells as int),
            forall|j: int| 0 <= j < captured_cells@.len() ==> (#[trigger] captured_cells@[j]).1 < n_cells,
            forall|j: int| 0 <= j < cell_by_slot@.len() ==> (#[trigger] cell_by_slot@[j]).1 < n_cells,
        decreases free@.len() - k,
    {
        let name = &free[k];
        k = k + 1;
        let slot = match slots.get(name) {
            Some(s) => s,
            None => {
                continue;
            },
        };
        let mutable = if (slot as usize) < slot_mut.len() {
            slot_mut[slot as usize]
        } else {
            false
        };
        if !mutable {
            continue;
        }
        if n_cells == u16::MAX {
            return None;
        }
        let idx = n_cells;
        slots.remove(name);
        cells.insert(name.clone(), idx);
        n_cells = n_cells + 1;
        cell_by_slot.push((slot, idx));
    }
    proof {
        assert(pair_names(captured_slots@) =~= capture_names@);
        assert(pair_names(captured_cells@) =~= mut_names@);
    }
    let local_names = build_local_names(&slots, n);
    let mut c = Compiler::with_slots(CompileMode::Function, annotations, slots, slot_mut, slot_type, n);
    c.self_slot = self_slot;
    c.shadowed_for_targets = shadowed;
    c.statics = statics;
    c.cells = cells;
    c.cell_by_slot = cell_by_slot;
    c.chunk.n_cells = n_cells as usize;
    c.compile_stmts(body)?;
    c.emit(Op::ReturnNil)?;
    let meta = ChunkMeta { local_names, n_params: n_params as usize, captured_slots, captured_cells };
    proof {
        if body@.len() == 0 {
            assert(c.chunk.code@ =~= seq![Op::ReturnNil]);
        }
        if forall|j: int| 0 <= j < body@.len() ==> trivial_stmt(#[trigger] body@[j]) {
            lemma_trivial_seq_no_jump(body@, 0);
            assert(c.chunk.code@ =~= trivial_seq_code(body@, 0).push(Op::ReturnNil));
            assert(forall|k: int| 0 <= k < c.chunk.code@.len() ==> !(#[trigger] c.chunk.code@[k] is Jump));
            assert(c.chunk.consts@ =~= trivial_seq_pool(body@));
        }
    }
    Some(c.finish(meta))
}

/// Compiles one top-level statement. Declarations at the top level are
/// globals (`DeclareGlobal`); only declarations nested inside the statement
/// get slots. Names of `toplevel_globals` (the program's top-level
/// declarations) may be assigned as globals, and free names are read by
/// name. A definition is not a target (`None`).
pub fn compile_toplevel_stmt(stmt: &Stmt, annotations: Rc<AstAnnotations>, toplevel_globals: &Vec<String>) -> (r: Option<Chunk>)
    ensures
        trivial_stmt(*stmt) ==> (r matches Some(c) && c.code@ == trivial_code(*stmt).push(Op::ReturnNil)
            && c.consts@ == trivial_pool(*stmt)),
        r matches Some(c) ==> forall|k: int| 0 <= k < c.code@.len() ==> !(#[trigger] c.code@[k] is StoreName),
        is_definition_stmt(*stmt) ==> r is None,
        r matches Some(c) ==> c.wf() && c.ends_with_return() && c.n_params == 0 && c.captured_slots@.len() == 0 && c.captured_cells@.len() == 0,
        r matches Some(c) ==> c.code@.last() == Op::ReturnNil,
        flow_stmt(*stmt) && flow_size(*stmt) + 1 < POOL_LIMIT ==> r is Some,
        toplevel_globals@.len() > 0 && (*stmt matches Stmt::Let(name, _, e) && !is_wildcard(name@) && plain_let_literal(e)) ==> (r matches Some(c)
            && c.code@ == toplevel_let_code(stmt->Let_2, 0, 0).push(Op::ReturnNil)
            && c.names@.len() == 2 && c.names@[0]@ == stmt->Let_0@ && c.names@[1]@ == stmt->Let_0@
            && c.consts@ == literal_pool(stmt->Let_2)),
        flow_stmt(*stmt) && r is Some ==> r->0.n_locals == 0 && r->0.local_names@.len() == 0,
        (*stmt matches Stmt::Assign { value, .. } && is_literal(value)) ==> (r matches Some(c)
            && c.code@ == literal_code(stmt->Assign_value, 0).push(Op::StoreGlobal(0, 0)).push(Op::ReturnNil)
            && c.names@.len() == 1 && c.names@[0]@ == stmt->Assign_name@ && c.consts@ == literal_pool(stmt->Assign_value)),
{
    compile_toplevel_or_module(stmt, annotations, toplevel_globals, CompileMode::Toplevel)
}

/// Compiles one statement of an imported module's body: as
/// `compile_toplevel_stmt`, but assignments to names without a slot go
/// through the scope chain (`StoreName`), since the module body runs in its
/// own scope.
pub fn compile_module_stmt(stmt: &Stmt, annotations: Rc<AstAnnotations>, module_globals: &Vec<String>) -> (r: Option<Chunk>)
    ensures
        trivial_stmt(*stmt) ==> (r matches Some(c) && c.code@ == trivial_code(*stmt).push(Op::ReturnNil)
            && c.consts@ == trivial_pool(*stmt)),
        r matches Some(c) ==> forall|k: int| 0 <= k < c.code@.len() ==> !(#[trigger] c.code@[k] is StoreGlobal),
        is_definition_stmt(*stmt) ==> r is None,
        r matches Some(c) ==> c.wf() && c.ends_with_return() && c.n_params == 0 && c.captured_slots@.len() == 0 && c.captured_cells@.len() == 0,
        r matches Some(c) ==> c.code@.last() == Op::ReturnNil,
        flow_stmt(*stmt) && flow_size(*stmt) + 1 < POOL_LIMIT ==> r is Some,
        module_globals@.len() > 0 && (*stmt matches Stmt::Let(name, _, e) && !is_wildcard(name@) && plain_let_literal(e)) ==> (r matches Some(c)
            && c.code@ == toplevel_let_code(stmt->Let_2, 0, 0).push(Op::ReturnNil)
            && c.names@.len() == 2 && c.names@[0]@ == stmt->Let_0@ && c.names@[1]@ == stmt->Let_0@
            && c.consts@ == literal_pool(stmt->Let_2)),
        flow_stmt(*stmt) && r is Some ==> r->0.n_locals == 0 && r->0.local_names@.len() == 0,
        (*stmt matches Stmt::Assign { value, .. } && is_literal(value)) ==> (r matches Some(c)
            && c.code@ == literal_code(stmt->Assign_value, 0).push(Op::StoreName(0)).push(Op::ReturnNil)
            && c.names@.len() == 1 && c.names@[0]@ == stmt->Assign_name@ && c.consts@ == literal_pool(stmt->Assign_value)),
{
    compile_toplevel_or_module(stmt, annotations, module_globals, CompileMode::Module)
}

/// The shared part of `compile_toplevel_stmt` and `compile_module_stmt`.
pub(crate) fn compile_toplevel_or_module(
    stmt: &Stmt,
    annotations: Rc<AstAnnotations>,
    toplevel_globals: &Vec<String>,
    mode: CompileMode,
) -> (r: Option<Chunk>)
    requires
        mode == CompileMode::Toplevel || mode == CompileMode::Module,
    ensures
        trivial_stmt(*stmt) ==> (r matches Some(c) && c.code@ == trivial_code(*stmt).push(Op::ReturnNil)
            && c.consts@ == trivial_pool(*stmt)),
        mode == CompileMode::Toplevel ==> (r matches Some(c) ==> forall|k: int| 0 <= k < c.code@.len() ==> !(#[trigger] c.code@[k] is StoreName)),
        mode == CompileMode::Module ==> (r matches Some(c) ==> forall|k: int| 0 <= k < c.code@.len() ==> !(#[trigger] c.code@[k] is StoreGlobal)),
        is_definition_stmt(*stmt) ==> r is None,
        r matches Some(c) ==> c.wf() && c.ends_with_return() && c.n_params == 0 && c.captured_slots@.len() == 0 && c.captured_cells@.len() == 0,
        r matches Some(c) ==> c.code@.last() == Op::ReturnNil,
        flow_stmt(*stmt) && flow_size(*stmt) + 1 < POOL_LIMIT ==> r is Some,
        toplevel_globals@.len() > 0 && (*stmt matches Stmt::Let(name, _, e) && !is_wildcard(name@) && plain_let_literal(e)) ==> (r matches Some(c)
            && c.code@ == toplevel_let_code(stmt->Let_2, 0, 0).push(Op::ReturnNil)
            && c.names@.len() == 2 && c.names@[0]@ == stmt->Let_0@ && c.names@[1]@ == stmt->Let_0@
            && c.consts@ == literal_pool(stmt->Let_2)),
        flow_stmt(*stmt) && r is Some ==> r->0.n_locals == 0 && r->0.local_names@.len() == 0,
        (*stmt matches Stmt::Assign { value, .. } && is_literal(value)) ==> (r matches Some(c)
            && c.code@ == literal_code(stmt->Assign_value, 0).push(if mode == CompileMode::Module { Op::StoreName(0) } else { Op::StoreGlobal(0, 0) }).push(Op::ReturnNil)
            && c.names@.len() == 1 && c.names@[0]@ == stmt->Assign_name@ && c.consts@ == literal_pool(stmt->Assign_value)),
{
    if !is_toplevel_compile_target(stmt) {
        return None;
    }
    compile_toplevel_stmt_inner(stmt, annotations, toplevel_globals, mode)
}

/// Compiles a target statement at the top level (or of a module body).
pub(crate) fn compile_toplevel_stmt_inner(
    stmt: &Stmt,
    annotations: Rc<AstAnnotations>,
    toplevel_globals: &Vec<String>,
    mode: CompileMode,
) -> (r: Option<Chunk>)
    requires
        mode == CompileMode::Toplevel || mode == CompileMode::Module,
    ensures
        trivial_stmt(*stmt) ==> (r matches Some(c) && c.code@ == trivial_code(*stmt).push(Op::ReturnNil)
            && c.consts@ == trivial_pool(*stmt)),
        mode == CompileMode::Toplevel ==> (r matches Some(c) ==> forall|k: int| 0 <= k < c.code@.len() ==> !(#[trigger] c.code@[k] is StoreName)),
        mode == CompileMode::Module ==> (r matches Some(c) ==> forall|k: int| 0 <= k < c.code@.len() ==> !(#[trigger] c.code@[k] is StoreGlobal)),
        r matches Some(c) ==> c.wf() && c.ends_with_return() && c.n_params == 0 && c.captured_slots@.len() == 0 && c.captured_cells@.len() == 0,
        r matches Some(c) ==> c.code@.last() == Op::ReturnNil,
        flow_stmt(*stmt) && flow_size(*stmt) + 1 < POOL_LIMIT ==> r is Some,
        toplevel_globals@.len() > 0 && (*stmt matches Stmt::Let(name, _, e) && !is_wildcard(name@) && plain_let_literal(e)) ==> (r matches Some(c)
            && c.code@ == toplevel_let_code(stmt->Let_2, 0, 0).push(Op::ReturnNil)
            && c.names@.len() == 2 && c.names@[0]@ == stmt->Let_0@ && c.names@[1]@ == stmt->Let_0@
            && c.consts@ == literal_pool(stmt->Let_2)),
        flow_stmt(*stmt) && r is Some ==> r->0.n_locals == 0 && r->0.local_names@.len() == 0,
        (*stmt matches Stmt::Assign { value, .. } && is_literal(value)) ==> (r matches Some(c)
            && c.code@ == literal_code(stmt->Assign_value, 0).push(if mode == CompileMode::Module { Op::StoreName(0) } else { Op::StoreGlobal(0, 0) }).push(Op::ReturnNil)
            && c.names@.len() == 1 && c.names@[0]@ == stmt->Assign_name@ && c.consts@ == literal_pool(stmt->Assign_value)),
{
    let mut body: Vec<Stmt> = Vec::new();
    body.push(stmt.deep_clone());
    proof {
        if trivial_stmt(*stmt) {
            assert(body@[0] == *stmt);
        }
    }
    let no_params: Vec<Param> = Vec::new();
    let shadowed = for_target_shadows(&no_params, &body);
    let mut slots: NameMap<u16> = NameMap::new();
    let mut slot_mut: Vec<bool> = Vec::new();
    let mut slot_type: Vec<Option<String>> = Vec::new();
    let mut n: u16 = 0;
    // A declaration's own name is a global here: only what lies inside its
    // initialiser is numbered.
    match stmt {
        Stmt::Let(_, _, e) | Stmt::Mut(_, _, e) | Stmt::Const(_, _, e) => {
            collect_expr_decls(e, &mut slots, &mut slot_mut, &mut slot_type, &mut n)?;
        },
        Stmt::LetTuple { value, .. } => {
            collect_expr_decls(value, &mut slots, &mut slot_mut, &mut slot_type, &mut n)?;
        },
        _ => {
            collect_stmt_decls(stmt, &mut slots, &mut slot_mut, &mut slot_type, &mut n)?;
        },
    }
    let local_names = build_local_names(&slots, n);
    let mut c = Compiler::with_slots(mode, annotations, slots, slot_mut, slot_type, n);
    c.toplevel_globals = crate::ast::clone_strings(toplevel_globals);
    c.shadowed_for_targets = shadowed;
    let ghost c0 = c;
    proof {
        if let Stmt::Let(name, _, e) = stmt {
            if plain_let_literal(*e) {
                assert(c0.slots.entries@.len() == 0);
                assert(c0.slots.get_spec(name@) is None);
            }
        }
        if let Stmt::Assign { name, value } = stmt {
            if is_literal(*value) {
                assert(c0.slots.entries@.len() == 0);
                assert(c0.is_free_name(name@));
            }
        }
    }
    c.compile_stmt(stmt)?;
    // A top-level statement yields no value.
    c.emit(Op::ReturnNil)?;
    let meta = ChunkMeta { local_names, n_params: 0, captured_slots: Vec::new(), captured_cells: Vec::new() };
    proof {
        if let Stmt::Assign { name, value } = stmt {
            if is_literal(*value) {
                assert(c.chunk.code@ =~= literal_code(*value, 0).push(
                    if mode == CompileMode::Module { Op::StoreName(0) } else { Op::StoreGlobal(0, 0) }).push(Op::ReturnNil));
                assert(forall|k: int| 0 <= k < c.chunk.code@.len() ==> crate::chunk::code_target(#[trigger] c.chunk.code@[k]) is None);
                assert(c.chunk.consts@ =~= literal_pool(*value));
            }
        }
        if let Stmt::Let(name, _, e) = stmt {
            if toplevel_globals@.len() > 0 && !is_wildcard(name@) && plain_let_literal(*e) {
                assert(c.chunk.code@ =~= toplevel_let_code(*e, 0, 0).push(Op::ReturnNil));
                assert(forall|k: int| 0 <= k < c.chunk.code@.len() ==> crate::chunk::code_target(#[trigger] c.chunk.code@[k]) is None);
                assert(c.chunk.consts@ =~= literal_pool(*e));
            }
        }
        if trivial_stmt(*stmt) {
            assert(c.chunk.code@ =~= trivial_code(*stmt).push(Op::ReturnNil));
            assert(c.chunk.consts@ =~= trivial_pool(*stmt));
        }
    }
    Some(c.finish(meta))
}

/// Compiles an expression that is part of a definition (a field default, an
/// `enum` value, a decorator) into a chunk that returns its value. Free
/// names are read by name (the definition may run in any scope), and only
/// the expression's own declarations can be assigned: no instruction writes
/// a name in a scope.
pub fn compile_definition_expr(expr: &Expr, annotations: Rc<AstAnnotations>) -> (r: Option<Chunk>)
    ensures
        r matches Some(c) ==> c.wf() && c.ends_with_return() && c.n_params == 0 && c.captured_slots@.len() == 0 && c.captured_cells@.len() == 0,
        r matches Some(c) ==> c.code@.last() == Op::Return,
        r matches Some(c) ==> forall|k: int| 0 <= k < c.code@.len() ==> !writes_scope(#[trigger] c.code@[k]),
        is_literal(*expr) ==> (r matches Some(c) && c.code@ == literal_code(*expr, 0).push(Op::Return)
            && c.consts@ == literal_pool(*expr) && c.stmt_spans@ == seq![NOT_STMT, NOT_STMT] && c.n_locals == 0
            && c.names@.len() == 0),
        *expr matches Expr::Ident { name, res: crate::ast::Resolution::Unresolved, .. } ==> (r matches Some(c)
            && c.code@ == seq![Op::LoadName(0), Op::Return] && c.names@.len() == 1 && c.names@[0]@ == name@),
{
    let mut slots: NameMap<u16> = NameMap::new();
    let mut slot_mut: Vec<bool> = Vec::new();
    let mut slot_type: Vec<Option<String>> = Vec::new();
    let mut n: u16 = 0;
    collect_expr_decls(expr, &mut slots, &mut slot_mut, &mut slot_type, &mut n)?;
    let local_names = build_local_names(&slots, n);
    let mut c = Compiler::with_slots(CompileMode::DefinitionExpr, annotations, slots, slot_mut, slot_type, n);
    // The chunk starts with the expression: depth 0.
    c.pending = Some(0);
    let ghost c0 = c;
    proof {
        if let Expr::Ident { res: crate::ast::Resolution::Unresolved, .. } = expr {
            assert(c0.slots.entries@.len() == 0);
        }
    }
    c.compile_expr(expr)?;
    c.emit(Op::Return)?;
    proof {
        if let Expr::Ident { res: crate::ast::Resolution::Unresolved, .. } = expr {
            assert(c.chunk.code@ =~= seq![Op::LoadName(0), Op::Return]);
            assert(forall|k: int| 0 <= k < c.chunk.code@.len() ==> crate::chunk::code_target(#[trigger] c.chunk.code@[k]) is None);
        }
    }
    let meta = ChunkMeta { local_names, n_params: 0, captured_slots: Vec::new(), captured_cells: Vec::new() };
    proof {
        if is_literal(*expr) {
            assert(c.chunk.code@ =~= literal_code(*expr, 0).push(Op::Return));
            assert(c.chunk.stmt_spans@ =~= seq![NOT_STMT, NOT_STMT]);
            assert(forall|k: int| 0 <= k < c.chunk.code@.len() ==> !(#[trigger] c.chunk.code@[k] is Jump));
            assert(c.chunk.consts@ =~= literal_pool(*expr));
        }
    }
    Some(c.finish(meta))
}

/// Compiles the body of `target <- async->T: body` as a block expression
/// whose value is returned. The captured names (copies of the submitting
/// frame's values) take the last slots, in name order; a body that declares
/// a captured name is not compiled. Free names are read by name.
pub fn compile_async_body(body: &Vec<Stmt>, annotations: Rc<AstAnnotations>, captures: &Vec<String>) -> (r: Option<Chunk>)
    ensures
        r matches Some(c) ==> c.wf() && c.ends_with_return() && c.n_params == 0 && c.captured_slots@.len() == captures@.len() && c.captured_cells@.len() == 0,
        r matches Some(c) ==> names_sorted(pair_names(c.captured_slots@)) && pair_names(c.captured_slots@).to_multiset() == captures@.to_multiset(),
        r matches Some(c) ==> c.local_names@.len() >= captures@.len() && forall|j: int| 0 <= j < c.captured_slots@.len()
            ==> (#[trigger] c.captured_slots@[j]).1 == c.local_names@.len() - captures@.len() + j,
        r matches Some(c) ==> c.code@.last() == Op::Return,
        (exists|i: int| 0 <= i < captures@.len() && declared_at_top(body@, (#[trigger] captures@[i])@)) ==> r is None,
        (exists|i: int| 0 <= i < body@.len() && #[trigger] body@[i] is Return) ==> r is None,
        body@.len() == 0 && captures@.len() == 0 ==> r is Some,
        names_distinct(captures@) && captures@.len() + 3 < u16::MAX && flow_stmts(body@)
            && flow_sizes(body@) + 8 < POOL_LIMIT ==> r is Some,
        decl_fold(empty_decl_state(), decls_stmts(body@)).4 ==> r is None,
        r matches Some(c) ==> c.local_names@.len() == decl_fold(empty_decl_state(), decls_stmts(body@)).3 + captures@.len(),
{
    let mut slots: NameMap<u16> = NameMap::new();
    let mut slot_mut: Vec<bool> = Vec::new();
    let mut slot_type: Vec<Option<String>> = Vec::new();
    let mut n: u16 = 0;
    let ghost slots_e = slots;
    assert(forall|key: Seq<char>| slots_e.get_spec(key) is None);
    proof {
        lemma_decl_state_empty(slots);
        assert(slot_mut@ =~= Seq::<bool>::empty());
        assert(slot_type@ =~= Seq::<Option<String>>::empty());
    }
    collect_nested_decls(body, &mut slots, &mut slot_mut, &mut slot_type, &mut n)?;
    let ghost n_decls = n;
    let ghost ok = names_distinct(captures@) && captures@.len() + 3 < u16::MAX && flow_stmts(body@)
        && flow_sizes(body@) + 8 < POOL_LIMIT;
    let mut capture_names = crate::ast::clone_strings(captures);
    sort_strings(&mut capture_names);
    let mut captured_slots: Vec<(String, u16)> = Vec::new();
    let ghost slots0 = slots;
    let ghost n_before_captures = n as int;
    proof {
        if ok {
            lemma_perm_distinct(captures@, capture_names@);
        }
    }
    let mut k: usize = 0;
    while k < capture_names.len()
        invariant
            ok == (names_distinct(captures@) && captures@.len() + 3 < u16::MAX && flow_stmts(body@)
                && flow_sizes(body@) + 8 < POOL_LIMIT),
            ok ==> n_before_captures == 0 && names_distinct(capture_names@),
            ok ==> forall|key: Seq<char>| #[trigger] slots.get_spec(key) is Some
                ==> exists|q: int| 0 <= q < k && (#[trigger] capture_names@[q])@ == key,
            slot_tables_ok(slots, slot_mut@, slot_type@, n),
            forall|key: Seq<char>| #[trigger] slots0.get_spec(key) is Some ==> slots.get_spec(key) is Some,
            forall|j: int| 0 <= j < k ==> slots0.get_spec((#[trigger] capture_names@[j])@) is None,
            capture_names@.len() == captures@.len(),
            k == 0 ==> n == n_before_captures,
            k <= capture_names@.len(),
            captured_slots@.len() == k,
            forall|j: int| 0 <= j < captured_slots@.len() ==> (#[trigger] captured_slots@[j]).1 < n,
            forall|j: int| 0 <= j < captured_slots@.len() ==> (#[trigger] captured_slots@[j]).0 == capture_names@[j],
            n == n_before_captures + k,
            forall|j: int| 0 <= j < captured_slots@.len() ==> (#[trigger] captured_slots@[j]).1 == n_before_captures + j,
            n_before_captures == n_decls,
            n_decls == decl_fold(empty_decl_state(), decls_stmts(body@)).3,
        decreases capture_names@.len() - k,
    {
        let name = &capture_names[k];
        proof {
            if ok && slots.get_spec(name@) is Some {
                let q = choose|q: int| 0 <= q < k && (#[trigger] capture_names@[q])@ == name@;
                assert(capture_names@[q]@ != capture_names@[k as int]@);
            }
        }
        if slots.contains_key(name) {
            return None;
        }
        let slot = n;
        let ghost before = slots;
        push_slot(name.clone(), false, None, &mut slots, &mut slot_mut, &mut slot_type, &mut n)?;
        proof {
            if ok {
                assert forall|key: Seq<char>| #[trigger] slots.get_spec(key) is Some
                    implies exists|q: int| 0 <= q < k + 1 && (#[trigger] capture_names@[q])@ == key by {
                    if key != capture_names@[k as int]@ {
                        assert(before.get_spec(key) is Some);
                        let q = choose|q: int| 0 <= q < k && (#[trigger] capture_names@[q])@ == key;
                        assert(capture_names@[q]@ == key);
                    } else {
                        assert(capture_names@[k as int]@ == key);
                    }
                }
            }
        }
        captured_slots.push((name.clone(), slot));
        k = k + 1;
    }
    proof {
        assert(pair_names(captured_slots@) =~= capture_names@);
        let no_params: Seq<Param> = Seq::empty();
        assert forall|i: int| 0 <= i < captures@.len() implies !declared_at_top(body@, (#[trigger] captures@[i])@) by {
            vstd::seq_lib::to_multiset_contains(captures@, captures@[i]);
            vstd::seq_lib::to_multiset_contains(capture_names@, captures@[i]);
            assert(captures@.contains(captures@[i]));
            let j = choose|j: int| 0 <= j < capture_names@.len() && capture_names@[j] == captures@[i];
            assert(slots0.get_spec(capture_names@[j]@) is None);
            lemma_locals_have_slots(no_params, body@, slots0, captures@[i]@);
        }
    }
    let local_names = build_local_names(&slots, n);
    let no_params: Vec<Param> = Vec::new();
    let shadowed = for_target_shadows(&no_params, body);
    let mut c = Compiler::with_slots(CompileMode::AsyncBody, annotations, slots, slot_mut, slot_type, n);
    // Free names are read by name: the task's scope holds the globals and
    // the captured values.
    c.toplevel_globals = crate::ast::clone_strings(captures);
    c.shadowed_for_targets = shadowed;
    c.compile_block_expr(body, Some(0), None, true)?;
    c.emit(Op::Return)?;
    let meta = ChunkMeta { local_names, n_params: 0, captured_slots, captured_cells: Vec::new() };
    Some(c.finish(meta))
}

/// An expression the debugger prompt compiles: it holds no method call, no
/// subscript or slice and no control flow (block, `if`, `match`, `for` or
/// `while` expression), at any depth.
pub open spec fn debug_expr_ok(e: Expr) -> bool
    decreases e,
{
    match e {
        Expr::Subscript { .. } => false,
        Expr::Slice { .. } => false,
        Expr::IfExpr { .. } => false,
        Expr::MatchExpr { .. } => false,
        Expr::ForExpr { .. } => false,
        Expr::WhileExpr { .. } => false,
        Expr::Block { .. } => false,
        Expr::Call { func, args, .. } => {
            &&& !(*func is Attr || *func is TraitAccess)
            &&& debug_expr_ok(*func)
            &&& forall|i: int| 0 <= i < args@.len() ==> debug_arg_ok(#[trigger] args@[i])
        },
        Expr::BinOp { left, right, .. } => debug_expr_ok(*left) && debug_expr_ok(*right),
        Expr::UnaryOp { operand, .. } => debug_expr_ok(*operand),
        Expr::Attr { object, .. } | Expr::TraitAccess { object, .. } | Expr::Cast { object, .. } => debug_expr_ok(*object),
        Expr::IsType { expr, .. } | Expr::MustBe { expr, .. } => debug_expr_ok(*expr),
        Expr::TemplateInstantiate { base, .. } => debug_expr_ok(*base),
        Expr::List(items) => forall|k: int| 0 <= k < items@.len() ==> debug_expr_ok(#[trigger] items@[k]),
        Expr::Tuple(items) => forall|k: int| 0 <= k < items@.len() ==> debug_expr_ok(#[trigger] items@[k]),
        Expr::SetLit(items) => forall|k: int| 0 <= k < items@.len() ==> debug_expr_ok(#[trigger] items@[k]),
        Expr::Dict(pairs) => forall|k: int| 0 <= k < pairs@.len() ==> debug_expr_ok((#[trigger] pairs@[k]).0) && debug_expr_ok(pairs@[k].1),
        _ => true,
    }
}

/// Whether every expression of `xs` is `debug_expr_ok`.
fn debug_exprs_ok(xs: &Vec<Expr>) -> (r: bool)
    ensures
        r == forall|k: int| 0 <= k < xs@.len() ==> debug_expr_ok(#[trigger] xs@[k]),
    decreases xs,
{
    let mut k: usize = 0;
    while k < xs.len()
        invariant
            k <= xs@.len(),
            forall|q: int| 0 <= q < k ==> debug_expr_ok(#[trigger] xs@[q]),
        decreases xs@.len() - k,
    {
        assert(decreases_to!(xs => xs@[k as int]));
        if !debug_expr_ok_exec(&xs[k]) {
            return false;
        }
        k = k + 1;
    }
    true
}

/// The `debug_expr_ok` condition on the arguments of a call.
pub open spec fn debug_arg_ok(a: CallArg) -> bool
    decreases a,
{
    match a {
        CallArg::Positional(x) => debug_expr_ok(x),
        CallArg::Keyword { value, .. } => debug_expr_ok(value),
        CallArg::Variadic(xs) => forall|k: int| 0 <= k < xs@.len() ==> debug_expr_ok(#[trigger] xs@[k]),
    }
}

/// Whether every argument of a call is `debug_expr_ok`.
fn debug_args_ok(args: &Vec<CallArg>) -> (r: bool)
    ensures
        r == forall|i: int| 0 <= i < args@.len() ==> debug_arg_ok(#[trigger] args@[i]),
    decreases args,
{
    let mut i: usize = 0;
    while i < args.len()
        invariant
            i <= args@.len(),
            forall|q: int| 0 <= q < i ==> debug_arg_ok(#[trigger] args@[q]),
        decreases args@.len() - i,
    {
        assert(decreases_to!(args => args@[i as int]));
        let ok = match &args[i] {
            CallArg::Positional(x) => debug_expr_ok_exec(x),
            CallArg::Keyword { value, .. } => debug_expr_ok_exec(value),
            CallArg::Variadic(xs) => debug_exprs_ok(xs),
        };
        if !ok {
            return false;
        }
        i = i + 1;
    }
    true
}

/// Whether every key and value of a dictionary literal is `debug_expr_ok`.
fn debug_pairs_ok(pairs: &Vec<(Expr, Expr)>) -> (r: bool)
    ensures
        r == forall|k: int| 0 <= k < pairs@.len() ==> debug_expr_ok((#[trigger] pairs@[k]).0) && debug_expr_ok(pairs@[k].1),
    decreases pairs,
{
    let mut k: usize = 0;
    while k < pairs.len()
        invariant
            k <= pairs@.len(),
            forall|q: int| 0 <= q < k ==> debug_expr_ok((#[trigger] pairs@[q]).0) && debug_expr_ok(pairs@[q].1),
        decreases pairs@.len() - k,
    {
        assert(decreases_to!(pairs => pairs@[k as int].0));
        assert(decreases_to!(pairs => pairs@[k as int].1));
        if !debug_expr_ok_exec(&pairs[k].0) || !debug_expr_ok_exec(&pairs[k].1) {
            return false;
        }
        k = k + 1;
    }
    true
}

/// Computes `debug_expr_ok`.
fn debug_expr_ok_exec(e: &Expr) -> (r: bool)
    ensures
        r == debug_expr_ok(*e),
    decreases e,
{
    match e {
        Expr::Subscript { .. } | Expr::Slice { .. } | Expr::IfExpr { .. } | Expr::MatchExpr { .. }
        | Expr::ForExpr { .. } | Expr::WhileExpr { .. } | Expr::Block { .. } => false,
        Expr::Call { func, args, .. } => {
            if matches!(**func, Expr::Attr { .. } | Expr::TraitAccess { .. }) || !debug_expr_ok_exec(func) {
                return false;
            }
            debug_args_ok(args)
        },
        Expr::BinOp { left, right, .. } => debug_expr_ok_exec(left) && debug_expr_ok_exec(right),
        Expr::UnaryOp { operand, .. } => debug_expr_ok_exec(operand),
        Expr::Attr { object, .. } | Expr::TraitAccess { object, .. } | Expr::Cast { object, .. } => debug_expr_ok_exec(object),
        Expr::IsType { expr, .. } | Expr::MustBe { expr, .. } => debug_expr_ok_exec(expr),
        Expr::TemplateInstantiate { base, .. } => debug_expr_ok_exec(base),
        Expr::List(items) => debug_exprs_ok(items),
        Expr::Tuple(items) => debug_exprs_ok(items),
        Expr::SetLit(items) => debug_exprs_ok(items),
        Expr::Dict(pairs) => debug_pairs_ok(pairs),
        _ => true,
    }
}

/// Compiles one statement typed at the debugger prompt: variables are read
/// by name in the paused scope. An expression statement returns its value;
/// `let`/`const name = e` declares `name` there. Method calls, subscripts
/// and control flow are not compiled (`None`: the caller evaluates the
/// statement itself), nor is any other statement. The chunk is not optimised, marks no statement start (it is
/// no stopping point) and assigns no variable.
pub fn compile_debug(stmt: &Stmt) -> (r: Option<Chunk>)
    ensures
        r matches Some(c) ==> c.wf() && c.ends_with_return() && c.n_params == 0,
        r matches Some(c) ==> forall|k: int| 0 <= k < c.stmt_spans@.len() ==> #[trigger] c.stmt_spans@[k] == NOT_STMT,
        r matches Some(c) ==> forall|k: int| 0 <= k < c.code@.len() ==> !assigns_scope(#[trigger] c.code@[k]),
        (*stmt matches Stmt::Expr(e) && is_literal(e)) ==> (r matches Some(c)
            && c.code@ == literal_code(stmt->Expr_0, 0).push(Op::Return) && c.consts@ == literal_pool(stmt->Expr_0)),
        (*stmt matches Stmt::Let(name, _, e) && is_literal(e) && !is_wildcard(name@)) ==> (r matches Some(c)
            && c.code@ == literal_code(stmt->Let_2, 0).push(Op::DeclareName(0)).push(Op::ReturnNil)
            && c.consts@ == literal_pool(stmt->Let_2) && c.names@.len() == 1 && c.names@[0]@ == stmt->Let_0@),
        !(stmt is Expr || (stmt is Let && !is_wildcard(stmt->Let_0@)) || (stmt is Const && !is_wildcard(stmt->Const_0@))) ==> r is None,
        (*stmt matches Stmt::Expr(e) && !debug_expr_ok(e)) ==> r is None,
        (*stmt matches Stmt::Expr(e) && is_literal(e)) ==> (r matches Some(c) && c.names@.len() == 0
            && c.n_locals == 0 && c.local_names@.len() == 0),
        *stmt matches Stmt::Expr(Expr::Ident { name, res: crate::ast::Resolution::Unresolved, .. }) ==> (r matches Some(c)
            && c.code@ == seq![Op::LoadName(0), Op::Return] && c.names@.len() == 1 && c.names@[0]@ == name@),
        (*stmt matches Stmt::Let(_, _, e) && !debug_expr_ok(e)) ==> r is None,
        (*stmt matches Stmt::Const(_, _, e) && !debug_expr_ok(e)) ==> r is None,
        r matches Some(c) ==> c.code@.len() >= 1,
        r matches Some(c) ==> (stmt is Expr ==> c.code@.last() == Op::Return),
        r matches Some(c) ==> ((stmt is Let || stmt is Const) ==> {
            &&& c.code@.len() >= 2
            &&& c.code@.last() == Op::ReturnNil
            &&& c.code@[c.code@.len() - 2] matches Op::DeclareName(k)
            &&& k < c.names@.len()
            &&& c.names@[k as int]@ == (if stmt is Let { stmt->Let_0@ } else { stmt->Const_0@ })
        }),
{
    let mut c = Compiler::base(CompileMode::DebugRepl, Rc::new(AstAnnotations::empty()));
    match stmt {
        Stmt::Expr(e) => {
            if !debug_expr_ok_exec(e) {
                return None;
            }
            let ghost c0 = c;
            c.compile_expr(e)?;
            proof {
                if let Expr::Ident { name, res: crate::ast::Resolution::Unresolved, .. } = e {
                    assert(c0.cells.get_spec(name@) is None);
                    assert(c0.statics.get_spec(name@) is None);
                    assert(c.chunk.code@ =~= seq![Op::LoadName(0)]);
                }
            }
            c.emit(Op::Return)?;
            proof {
                if let Expr::Ident { res: crate::ast::Resolution::Unresolved, .. } = e {
                    assert(c.chunk.code@ =~= seq![Op::LoadName(0), Op::Return]);
                }
            }
        },
        Stmt::Let(name, _, e) | Stmt::Const(name, _, e) => {
            if is_wildcard_name(name) || !debug_expr_ok_exec(e) {
                return None;
            }
            c.compile_expr(e)?;
            let ni = c.add_name(name.as_str())?;
            let ghost names = c.chunk.names@;
            c.emit(Op::DeclareName(ni))?;
            let ghost code1 = c.chunk.code@;
            c.emit(Op::ReturnNil)?;
            assert(c.chunk.code@[c.chunk.code@.len() - 2] == code1.last());
            assert(c.chunk.names@ == names);
            assert(names[ni as int]@ == name@);
            proof {
                if is_literal(*e) {
                    assert(ni == 0);
                    assert(c.chunk.code@ =~= literal_code(*e, 0).push(Op::DeclareName(0)).push(Op::ReturnNil));
                }
            }
        },
        _ => {
            return None;
        },
    }
    Some(c.into_chunk(ChunkMeta::empty()))
}

} // verus!

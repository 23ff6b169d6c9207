//! Calls (arguments, keyword arguments, foreign-call information), nested
//! function definitions and async submission.

use vstd::prelude::*;
use vstd::string::StringExecFns;

use crate::ast::{clone_params, clone_stmts, clone_opt_string, clone_strings, CallArg, Expr, Param, Resolution, Span, Stmt};
use crate::chunk::{AsyncBlock, ChunkFnDef, KwCall, SharedFnChunk};
use crate::compiler::decls::{collect_declared_names, collect_referenced_names};
use crate::compiler::diag::{has_named_args, is_vm_builtin, is_vm_builtin_kw, str_eq};
use crate::compiler::{Compiler, MAX_FINALLY_NEST, POOL_LIMIT};
use crate::names::{set_contains, set_insert, sort_captures_by_slot, sort_pairs_by_value, sort_strings};
use crate::op::Op;

verus! {

/// Captures of a nested `fn`: immutable locals `(name, slot)`, cells
/// `(name, cell)` and `static`s `(name, span index)`.
pub(crate) struct FnCaptures {
    pub(crate) slots: Vec<(String, u16)>,
    pub(crate) cells: Vec<(String, u16)>,
    pub(crate) statics: Vec<(String, u32)>,
}

/// The name a method call is shown under by the foreign-call checks:
/// `base.attr` when the receiver is an identifier, else `attr`.
pub(crate) open spec fn ffi_display(object: Expr, attr: Seq<char>) -> Seq<char> {
    match object {
        Expr::Ident { name, .. } => name@ + "."@ + attr,
        _ => attr,
    }
}

/// The name a call argument is passed under: none for a positional one, its
/// keyword, or `...` for the variadic list.
pub(crate) open spec fn arg_name_view(a: CallArg) -> Option<Seq<char>> {
    match a {
        CallArg::Positional(_) => None,
        CallArg::Keyword { name, .. } => Some(name@),
        CallArg::Variadic(_) => Some("..."@),
    }
}

impl Compiler {
    /// Adds a keyword-call record; returns its index.
    pub(crate) fn add_kw_call(&mut self, kc: KwCall) -> (r: Option<u32>)
        requires
            old(self).inv(),
            kc.name_idx < old(self).chunk.names@.len(),
            kc.arg_names@.len() == kc.argc,
        ensures
            r matches Some(i) ==> final(self).inv() && old(self).grown_into(final(self)) && old(self).same_state(final(self))
                && i < final(self).chunk.kw_calls@.len(),
            r is None <==> old(self).chunk.kw_calls@.len() >= POOL_LIMIT,
            r matches Some(i) ==> i == old(self).chunk.kw_calls@.len() && final(self).chunk.kw_calls@ == old(self).chunk.kw_calls@.push(kc)
                && final(self).chunk.code@ == old(self).chunk.code@ && final(self).chunk.names@ == old(self).chunk.names@,
    {
        if self.chunk.kw_calls.len() >= POOL_LIMIT {
            return None;
        }
        let ghost p0 = self.chunk.pools();
        let i = self.chunk.kw_calls.len() as u32;
        self.chunk.kw_calls.push(kc);
        proof { crate::compiler::emit::lemma_code_wf_mono(self.chunk.code@, p0, self.chunk.pools()); }
        Some(i)
    }

    /// Records the display name (`base.attr` for `ident.attr`, else `attr`)
    /// and position of a method call for the foreign-call checks; node 0 has
    /// no key and is skipped.
    pub(crate) fn record_ffi_call_info(&mut self, node_id: u32, object: &Expr, attr: &String, span: Span) -> (r: Option<()>)
        requires
            old(self).inv(),
        ensures
            r is Some ==> final(self).inv() && old(self).grown_into(final(self)) && old(self).same_frame(final(self)),
            node_id == 0 ==> r is Some && *final(self) == *old(self),
            node_id != 0 && old(self).chunk.names@.len() < POOL_LIMIT && old(self).chunk.spans@.len() < POOL_LIMIT ==> r is Some,
            node_id != 0 && r is Some ==> {
                &&& final(self).chunk.ffi_call_info@ == old(self).chunk.ffi_call_info@.insert(
                    node_id,
                    (old(self).chunk.names@.len() as u32, old(self).chunk.spans@.len() as u32),
                )
                &&& final(self).chunk.names@.len() == old(self).chunk.names@.len() + 1
                &&& final(self).chunk.names@.last()@ == ffi_display(*object, attr@)
                &&& final(self).chunk.spans@ == old(self).chunk.spans@.push(span)
                &&& final(self).chunk.code@ == old(self).chunk.code@
            },
    {
        broadcast use vstd::std_specs::hash::group_hash_axioms;
        if node_id == 0 {
            return Some(());
        }
        let display = match object {
            Expr::Ident { name, .. } => name.clone().concat(".").concat(attr.as_str()),
            _ => attr.clone(),
        };
        assert(display@ == ffi_display(*object, attr@));
        let ni = self.add_name(display.as_str())?;
        let si = self.add_span(span)?;
        let ghost names1 = self.chunk.names@;
        self.chunk.ffi_call_info.insert(node_id, (ni, si));
        assert(self.chunk.names@ == names1);
        Some(())
    }

    /// Pushes the arguments; returns the mutability mask (bit `i`: argument
    /// `i` may be written back) and, when any argument is named (keyword or
    /// variadic), the name of each (`"..."` for the variadic list). More than
    /// 32 arguments are not compiled.
    pub(crate) fn compile_call_args(&mut self, args: &Vec<CallArg>) -> (r: Option<(u32, Option<Vec<Option<String>>>)>)
        requires
            old(self).inv(),
        ensures
            r is Some ==> final(self).inv() && old(self).grown_into(final(self)) && args@.len() <= 32,
            r matches Some((_, Some(names))) ==> names@.len() == args@.len(),
            r is Some ==> final(self).chunk.code@.len() >= old(self).chunk.code@.len() + args@.len(),
            r matches Some((_, names)) ==> (names is Some <==> exists|i: int| 0 <= i < args@.len() && !(#[trigger] args@[i] is Positional)),
            r matches Some((_, Some(names))) ==> forall|i: int| 0 <= i < args@.len()
                ==> (match #[trigger] names@[i] { Some(n) => Some(n@), None => None }) == arg_name_view(args@[i]),
            args@.len() == 0 ==> r == Some((0u32, None::<Vec<Option<String>>>)) && *final(self) == *old(self),
        decreases MAX_FINALLY_NEST + 1 - old(self).in_finally, 1int, *args, 0int,
    {
        if args.len() > 32 {
            return None;
        }
        let mut mask: u32 = 0;
        let mut names: Vec<Option<String>> = Vec::new();
        let mut any_named = false;
        let mut i: usize = 0;
        while i < args.len()
            invariant
                self.inv(),
                old(self).grown_into(self),
                i <= args@.len(),
                args@.len() <= 32,
                names@.len() == i,
                self.chunk.code@.len() >= old(self).chunk.code@.len() + i,
                i == 0 ==> *self == *old(self) && mask == 0,
                any_named <==> exists|j: int| 0 <= j < i && !(#[trigger] args@[j] is Positional),
                forall|j: int| 0 <= j < i ==> (match #[trigger] names@[j] { Some(n) => Some(n@), None => None }) == arg_name_view(args@[j]),
            decreases args@.len() - i,
        {
            assert(decreases_to!(args => args@[i as int]));
            let bit: u32 = 1u32 << (i as u32);
            match &args[i] {
                CallArg::Positional(e) => {
                    if self.arg_is_mutable(e) {
                        mask = mask | bit;
                    }
                    self.compile_expr(e)?;
                    names.push(None);
                },
                CallArg::Keyword { name, value } => {
                    if self.arg_is_mutable(value) {
                        mask = mask | bit;
                    }
                    self.compile_expr(value)?;
                    names.push(Some(name.clone()));
                    any_named = true;
                },
                // The values are folded into one list; conservatively mutable.
                CallArg::Variadic(exprs) => {
                    let n = Self::count_u16(exprs.len())?;
                    self.compile_exprs(exprs)?;
                    self.emit(Op::BuildList(n))?;
                    mask = mask | bit;
                    names.push(Some(String::from_str("...")));
                    any_named = true;
                },
            }
            i = i + 1;
        }
        if any_named {
            Some((mask, Some(names)))
        } else {
            Some((mask, None))
        }
    }

    /// A call of the callee on the stack: `Call`, or `CallKw` when some
    /// argument is named.
    pub(crate) fn emit_call(&mut self, argc: usize, mask: u32, name_idx: u32, span_idx: u32, node_id: u32, kw: Option<Vec<Option<String>>>) -> (r: Option<()>)
        requires
            old(self).inv(),
            argc <= 32,
            name_idx < old(self).chunk.names@.len(),
            span_idx < old(self).chunk.spans@.len(),
            kw matches Some(names) ==> names@.len() == argc,
        ensures
            r is Some ==> old(self).chunk.code@.len() < final(self).chunk.code@.len(),
            r is Some ==> final(self).inv() && old(self).grown_into(final(self)),
    {
        match kw {
            None => {
                self.emit(Op::Call(argc as u16, mask, name_idx, span_idx, node_id))?;
            },
            Some(arg_names) => {
                let i = self.add_kw_call(KwCall { argc: argc as u16, mut_mask: mask, name_idx, span_idx, node_id, arg_names })?;
                self.emit(Op::CallKw(i))?;
            },
        }
        Some(())
    }

    /// Function and method calls.
    pub(crate) fn compile_call(&mut self, e: &Expr) -> (r: Option<()>)
        requires
            old(self).inv(),
        ensures
            r is Some ==> old(self).chunk.code@.len() < final(self).chunk.code@.len(),
            r is Some ==> final(self).inv() && old(self).grown_into(final(self)),
        decreases MAX_FINALLY_NEST + 1 - old(self).in_finally, 1int, *e, 1int,
    {
        let (func, args, span, node_id) = match e {
            Expr::Call { func, args, span, node_id } => (func, args, *span, *node_id),
            _ => {
                return None;
            },
        };
        if let Expr::Attr { .. } = &**func {
            return self.compile_method_call(e);
        }
        // The call site, for tracebacks.
        let site = self.add_span(span)?;
        match &**func {
            Expr::Ident { name, res: Resolution::Unresolved, .. } => {
                if is_vm_builtin(name.as_str()) && !self.slots.contains_key(name) {
                    // A builtin called with evaluated arguments.
                    let (_, kw) = self.compile_call_args(args)?;
                    let ni = self.add_name(name.as_str())?;
                    match kw {
                        None => {
                            self.emit(Op::CallBuiltin(ni, args.len() as u16))?;
                        },
                        Some(arg_names) => {
                            if !is_vm_builtin_kw(name.as_str()) {
                                return None;
                            }
                            let i = self.add_kw_call(
                                KwCall { argc: args.len() as u16, mut_mask: 0, name_idx: ni, span_idx: site, node_id, arg_names },
                            )?;
                            self.emit(Op::CallBuiltinKw(i))?;
                        },
                    }
                } else if self.mode.is_debug_repl() {
                    // The callee is looked up by name in the paused scope.
                    let cn = self.add_name(name.as_str())?;
                    self.emit(Op::LoadName(cn))?;
                    let (mask, kw) = self.compile_call_args(args)?;
                    self.emit_call(args.len(), mask, cn, site, node_id, kw)?;
                } else if let Some(slot) = self.slot_of_name(name) {
                    self.emit(Op::LoadLocal(slot))?;
                    let (mask, kw) = self.compile_call_args(args)?;
                    let ni = self.add_name(name.as_str())?;
                    self.emit_call(args.len(), mask, ni, site, node_id, kw)?;
                } else if str_eq(name.as_str(), "Self") {
                    // `Self(...)` instantiates the receiver's class in a method
                    // body; elsewhere it is not compiled.
                    if self.self_slot.is_none() {
                        return None;
                    }
                    self.emit(Op::LoadSelfClass)?;
                    let (mask, kw) = self.compile_call_args(args)?;
                    let ni = self.add_name(name.as_str())?;
                    self.emit_call(args.len(), mask, ni, site, node_id, kw)?;
                } else {
                    // A global function, through a lookup cache.
                    let ni = self.add_name(name.as_str())?;
                    let ci = self.add_cache()?;
                    self.emit(Op::LoadGlobal(ni, ci))?;
                    let (mask, kw) = self.compile_call_args(args)?;
                    self.emit_call(args.len(), mask, ni, site, node_id, kw)?;
                }
            },
            Expr::Ident { name, res: Resolution::Global(_), .. } => {
                let ni = self.add_name(name.as_str())?;
                if self.mode.is_debug_repl() {
                    self.emit(Op::LoadName(ni))?;
                } else {
                    self.emit_load_global(name.as_str())?;
                }
                let (mask, kw) = self.compile_call_args(args)?;
                self.emit_call(args.len(), mask, ni, site, node_id, kw)?;
            },
            Expr::Ident { name, res: Resolution::Local(slot), .. } => {
                if *slot > 0xffff || (*slot as usize) >= self.chunk.n_locals {
                    return None;
                }
                self.emit(Op::LoadLocal(*slot as u16))?;
                let (mask, kw) = self.compile_call_args(args)?;
                let ni = self.add_name(name.as_str())?;
                self.emit_call(args.len(), mask, ni, site, node_id, kw)?;
            },
            // `Tmpl[T](args)`: keyword arguments are not supported there.
            Expr::TemplateInstantiate { base, type_args } => {
                self.compile_expr(base)?;
                let (mask, kw) = self.compile_call_args(args)?;
                if kw.is_some() {
                    return None;
                }
                let ti = self.add_type_args(type_args)?;
                self.emit(Op::CallTemplate(ti, args.len() as u16, mask))?;
            },
            // Any other callee expression is evaluated, then called; its
            // traceback name is `<anonymous>`.
            _ => {
                self.compile_expr(func)?;
                let (mask, kw) = self.compile_call_args(args)?;
                let ni = self.add_name("<anonymous>")?;
                self.emit_call(args.len(), mask, ni, site, node_id, kw)?;
            },
        }
        Some(())
    }

    /// Adds a template argument list; returns its index.
    pub(crate) fn add_type_args(&mut self, type_args: &Vec<String>) -> (r: Option<u32>)
        requires
            old(self).inv(),
        ensures
            r matches Some(i) ==> final(self).inv() && old(self).grown_into(final(self)) && old(self).same_state(final(self))
                && i < final(self).chunk.type_arg_lists@.len(),
            r is None <==> old(self).chunk.type_arg_lists@.len() >= POOL_LIMIT,
            r matches Some(i) ==> i == old(self).chunk.type_arg_lists@.len()
                && final(self).chunk.type_arg_lists@ == old(self).chunk.type_arg_lists@.push(final(self).chunk.type_arg_lists@.last())
                && final(self).chunk.type_arg_lists@.last()@ == type_args@
                && final(self).chunk.code@ == old(self).chunk.code@,
    {
        if self.chunk.type_arg_lists.len() >= POOL_LIMIT {
            return None;
        }
        let ghost p0 = self.chunk.pools();
        let i = self.chunk.type_arg_lists.len() as u32;
        self.chunk.type_arg_lists.push(clone_strings(type_args));
        proof { crate::compiler::emit::lemma_code_wf_mono(self.chunk.code@, p0, self.chunk.pools()); }
        Some(i)
    }

    /// `obj.method(args)`: a local receiver without named arguments is read
    /// in place (`CallMethodLocal`); otherwise the receiver is pushed first.
    pub(crate) fn compile_method_call(&mut self, e: &Expr) -> (r: Option<()>)
        requires
            old(self).inv(),
        ensures
            r is Some ==> old(self).chunk.code@.len() < final(self).chunk.code@.len(),
            r is Some ==> final(self).inv() && old(self).grown_into(final(self)),
        decreases MAX_FINALLY_NEST + 1 - old(self).in_finally, 1int, *e, 0int,
    {
        let (object, attr, args, span, node_id) = match e {
            Expr::Call { func, args, span, node_id } => match &**func {
                Expr::Attr { object, attr, .. } => (object, attr, args, *span, *node_id),
                _ => {
                    return None;
                },
            },
            _ => {
                return None;
            },
        };
        self.record_ffi_call_info(node_id, object, attr, span)?;
        // Whether the receiver is pushed must be decided before the
        // arguments are compiled.
        let fuse_slot = if has_named_args(args) {
            None
        } else {
            self.as_local(object)
        };
        match fuse_slot {
            Some(slot) => {
                let (mask, _) = self.compile_call_args(args)?;
                let ni = self.add_name(attr.as_str())?;
                self.emit(Op::CallMethodLocal(slot, ni, args.len() as u16, mask, node_id))?;
            },
            None => {
                self.compile_expr(object)?;
                let (mask, kw) = self.compile_call_args(args)?;
                let ni = self.add_name(attr.as_str())?;
                match kw {
                    None => {
                        self.emit(Op::CallMethod(ni, args.len() as u16, mask, node_id))?;
                    },
                    // Methods are called without a call site, so no span.
                    Some(arg_names) => {
                        let i = self.add_kw_call(
                            KwCall { argc: args.len() as u16, mut_mask: mask, name_idx: ni, span_idx: 0, node_id, arg_names },
                        )?;
                        self.emit(Op::CallMethodKw(i))?;
                    },
                }
            },
        }
        Some(())
    }
}

impl Compiler {
    /// What a nested `fn` (with `params` and `body`) captures of this frame:
    /// its free names (referenced, not declared by it) that are `static`s,
    /// cells or immutable locals, visited in name order; immutable locals by
    /// slot and cells by index. A mutable local that is not in a cell cannot
    /// be shared, so the definition is not compiled (`None`).
    pub(crate) fn nested_fn_captures(&mut self, params: &Vec<Param>, body: &Vec<Stmt>) -> (r: Option<FnCaptures>)
        requires
            old(self).inv(),
        ensures
            r matches Some(c) ==> {
                &&& final(self).inv()
                &&& old(self).grown_into(final(self))
                &&& old(self).same_frame(final(self))
                &&& forall|j: int| 0 <= j < c.slots@.len() ==> (#[trigger] c.slots@[j]).1 < final(self).chunk.n_locals
                &&& forall|j: int| 0 <= j < c.cells@.len() ==> (#[trigger] c.cells@[j]).1 < final(self).chunk.n_cells
                &&& forall|j: int| 0 <= j < c.statics@.len() ==> (#[trigger] c.statics@[j]).1 < final(self).chunk.spans@.len()
            },
            body@.len() == 0 ==> (r matches Some(c) && c.slots@.len() == 0 && c.cells@.len() == 0 && c.statics@.len() == 0),
    {
        let mut own: Vec<String> = Vec::new();
        let mut k: usize = 0;
        while k < params.len()
            invariant
                k <= params@.len(),
            decreases params@.len() - k,
        {
            set_insert(&mut own, params[k].name.clone());
            k = k + 1;
        }
        collect_declared_names(body, &mut own);
        let mut referenced: Vec<String> = Vec::new();
        collect_referenced_names(body, &mut referenced);
        sort_strings(&mut referenced);
        let mut caps: Vec<(String, u16)> = Vec::new();
        let mut cell_caps: Vec<(String, u16)> = Vec::new();
        let mut static_caps: Vec<(String, u32)> = Vec::new();
        let mut i: usize = 0;
        while i < referenced.len()
            invariant
                self.inv(),
                old(self).grown_into(self),
                old(self).same_frame(self),
                i <= referenced@.len(),
                forall|j: int| 0 <= j < caps@.len() ==> (#[trigger] caps@[j]).1 < self.chunk.n_locals,
                forall|j: int| 0 <= j < cell_caps@.len() ==> (#[trigger] cell_caps@[j]).1 < self.chunk.n_cells,
                forall|j: int| 0 <= j < static_caps@.len() ==> (#[trigger] static_caps@[j]).1 < self.chunk.spans@.len(),
                body@.len() == 0 ==> referenced@.len() == 0 && caps@.len() == 0 && cell_caps@.len() == 0 && static_caps@.len() == 0,
            decreases referenced@.len() - i,
        {
            let n = &referenced[i];
            i = i + 1;
            if set_contains(&own, n) {
                continue;
            }
            if let Some(span) = self.statics.get(n) {
                let si = self.add_span(span)?;
                static_caps.push((n.clone(), si));
                continue;
            }
            if let Some(c) = self.cells.get(n) {
                proof {
                    let q = choose|q: int| 0 <= q < self.cells.entries@.len() && self.cells.entries@[q].1 == c;
                    assert(self.cells.entries@[q].1 < self.chunk.n_cells);
                }
                cell_caps.push((n.clone(), c));
                continue;
            }
            let slot = match self.slot_of_name(n) {
                Some(s) => s,
                None => {
                    continue;
                },
            };
            let mutable = if (slot as usize) < self.slot_mut.len() {
                self.slot_mut[slot as usize]
            } else {
                true
            };
            if mutable {
                return None;
            }
            caps.push((n.clone(), slot));
        }
        sort_pairs_by_value(&mut caps);
        sort_pairs_by_value(&mut cell_caps);
        Some(FnCaptures { slots: caps, cells: cell_caps, statics: static_caps })
    }

    /// A nested `fn` definition: its closure value is built at run time
    /// (`MakeFn`) and stored in its slot. Templates and decorated functions
    /// are not compiled.
    pub(crate) fn compile_nested_fn(&mut self, stmt: &Stmt) -> (r: Option<()>)
        requires
            old(self).inv(),
        ensures
            r is Some ==> old(self).chunk.code@.len() < final(self).chunk.code@.len(),
            r is Some ==> final(self).inv() && old(self).grown_into(final(self)),
    {
        let (name, template_params, params, body, decorators, return_type) = match stmt {
            Stmt::FnDef { name, template_params, params, body, decorators, return_type } => (
                name,
                template_params,
                params,
                body,
                decorators,
                return_type,
            ),
            _ => {
                return None;
            },
        };
        if template_params.len() > 0 || decorators.len() > 0 {
            return None;
        }
        let caps = self.nested_fn_captures(params, body)?;
        let slot = self.slot_of(name)?;
        if self.chunk.fn_defs.len() >= POOL_LIMIT {
            return None;
        }
        let ghost s1 = *self;
        let ghost p0 = self.chunk.pools();
        let idx = self.chunk.fn_defs.len() as u32;
        self.chunk.fn_defs.push(ChunkFnDef {
            name: name.clone(),
            params: clone_params(params),
            body: clone_stmts(body),
            return_type: clone_opt_string(return_type),
            slot,
            captures: caps.slots,
            cell_captures: caps.cells,
            static_captures: caps.statics,
            compiled: SharedFnChunk::new(),
        });
        proof {
            crate::compiler::emit::lemma_code_wf_mono(self.chunk.code@, p0, self.chunk.pools());
            assert forall|q: int| 0 <= q < self.chunk.fn_defs@.len() implies (#[trigger] self.chunk.fn_defs@[q]).wf(
                self.chunk.n_locals as nat,
                self.chunk.n_cells as nat,
                self.chunk.spans@.len(),
            ) by {
                if q < self.chunk.fn_defs@.len() - 1 {
                    assert(self.chunk.fn_defs@[q] == s1.chunk.fn_defs@[q]);
                }
            }
        }
        self.emit(Op::MakeFn(idx))?;
        Some(())
    }

    /// `target <- async->T: body`: records the task body with the slots of
    /// this frame that it reads (in slot order), loads the manager (a local,
    /// else a global) and submits.
    pub(crate) fn compile_async_assign(&mut self, stmt: &Stmt) -> (r: Option<()>)
        requires
            old(self).inv(),
        ensures
            r is Some ==> old(self).chunk.code@.len() < final(self).chunk.code@.len(),
            r is Some ==> final(self).inv() && old(self).grown_into(final(self)),
    {
        let (target, stmts) = match stmt {
            Stmt::AsyncAssign { target, stmts } => (target, stmts),
            _ => {
                return None;
            },
        };
        let mut refs: Vec<String> = Vec::new();
        collect_referenced_names(stmts, &mut refs);
        let mut captures: Vec<(String, u16, bool)> = Vec::new();
        let mut i: usize = 0;
        while i < refs.len()
            invariant
                self.inv(),
                *self == *old(self),
                i <= refs@.len(),
                forall|j: int| 0 <= j < captures@.len() ==> (#[trigger] captures@[j]).1 < self.chunk.n_locals,
            decreases refs@.len() - i,
        {
            if let Some(slot) = self.slot_of_name(&refs[i]) {
                let is_mut = if (slot as usize) < self.slot_mut.len() {
                    self.slot_mut[slot as usize]
                } else {
                    false
                };
                captures.push((refs[i].clone(), slot, is_mut));
            }
            i = i + 1;
        }
        let ghost unsorted = captures@;
        sort_captures_by_slot(&mut captures);
        proof {
            assert forall|j: int| 0 <= j < captures@.len() implies (#[trigger] captures@[j]).1 < self.chunk.n_locals by {
                let k = choose|k: int| 0 <= k < unsorted.len() && unsorted[k] == captures@[j];
                assert(unsorted[k].1 < self.chunk.n_locals);
            }
        }
        let ghost sorted = captures@;
        if self.chunk.async_blocks.len() >= POOL_LIMIT {
            return None;
        }
        let ghost s1 = *self;
        let ghost p0 = self.chunk.pools();
        let idx = self.chunk.async_blocks.len() as u32;
        self.chunk.async_blocks.push(AsyncBlock { body: clone_stmts(stmts), captures });
        proof {
            crate::compiler::emit::lemma_code_wf_mono(self.chunk.code@, p0, self.chunk.pools());
            assert forall|a: int, b: int| 0 <= a < self.chunk.async_blocks@.len() && 0 <= b < self.chunk.async_blocks@[a].captures@.len()
                implies (#[trigger] self.chunk.async_blocks@[a].captures@[b]).1 < self.chunk.n_locals by {
                assert(self.chunk.n_locals == s1.chunk.n_locals);
                if a < self.chunk.async_blocks@.len() - 1 {
                    assert(self.chunk.async_blocks@[a] == s1.chunk.async_blocks@[a]);
                    assert(s1.chunk.wf());
                    assert(s1.chunk.async_blocks@[a].captures@[b].1 < s1.chunk.n_locals);
                } else {
                    assert(self.chunk.async_blocks@[a].captures@ == sorted);
                    assert(sorted[b].1 < s1.chunk.n_locals);
                }
            }
        }
        match self.slot_of_name(target) {
            Some(slot) => {
                self.emit(Op::LoadLocal(slot))?;
            },
            None => {
                self.emit_load_global(target.as_str())?;
            },
        }
        self.emit(Op::AsyncSubmit(idx))?;
        Some(())
    }
}

} // verus!

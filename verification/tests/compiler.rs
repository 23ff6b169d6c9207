use std::rc::Rc;

use lib::annotations::AstAnnotations;
use lib::ast::{BinOp, Expr, Param, Resolution, Stmt, TupleTarget};
use lib::chunk::{Value, NOT_STMT, STMT_NO_SPAN};
use lib::compiler::entry::{
    compile_async_body, compile_debug, compile_definition_expr, compile_fn, compile_module_stmt,
    compile_toplevel_stmt, is_toplevel_compile_target,
};
use lib::compiler::CompileMode;
use lib::compiler::CompileMode::{AsyncBody, DebugRepl, DefinitionExpr, Function, Module, Toplevel};
use lib::op::{DeclKind, Op};

fn ident(name: &str, res: Resolution) -> Expr {
    Expr::Ident { name: name.to_string(), res, node_id: 0 }
}

fn param(name: &str, ty: Option<&str>) -> Param {
    Param { name: name.to_string(), type_ann: ty.map(|t| t.to_string()), mutable: false, variadic: false }
}

fn annotations() -> Rc<AstAnnotations> {
    Rc::new(AstAnnotations::empty())
}

/// The three predicates match the entry points' former flags
/// (module body / name lookup / debugger prompt).
#[test]
fn mode_predicates_match_the_pre_52_flags() {
    let expected: &[(CompileMode, bool, bool, bool)] = &[
        (Function, false, false, false),
        (Toplevel, false, false, false),
        (Module, true, false, false),
        (DefinitionExpr, false, true, false),
        (AsyncBody, false, false, false),
        (DebugRepl, false, true, true),
    ];
    for &(m, module_body, name_lookup, debug_repl) in expected {
        assert_eq!(m.is_module_body(), module_body, "is_module_body for {m:?}");
        assert_eq!(m.uses_name_lookup(), name_lookup, "uses_name_lookup for {m:?}");
        assert_eq!(m.is_debug_repl(), debug_repl, "is_debug_repl for {m:?}");
    }
}

/// The debugger prompt reads names by name.
#[test]
fn debug_repl_implies_name_lookup() {
    assert!(DebugRepl.uses_name_lookup());
}

#[test]
fn debug_expression_returns_its_value() {
    let c = compile_debug(&Stmt::Expr(Expr::Int(5))).expect("compiles");
    assert_eq!(c.code.len(), 2);
    assert!(matches!(c.code[0], Op::Const(0)));
    assert!(matches!(c.code[1], Op::Return));
    assert!(matches!(c.consts[0], Value::Int(5)));
    assert_eq!(c.stmt_spans, vec![NOT_STMT, NOT_STMT]);
}

#[test]
fn debug_let_declares_by_name() {
    let stmt = Stmt::Let("x".to_string(), None, ident("y", Resolution::Unresolved));
    let c = compile_debug(&stmt).expect("compiles");
    assert_eq!(c.names, vec!["y".to_string(), "x".to_string()]);
    assert!(matches!(c.code[0], Op::LoadName(0)));
    assert!(matches!(c.code[1], Op::DeclareName(1)));
    assert!(matches!(c.code[2], Op::ReturnNil));
}

#[test]
fn debug_rejects_other_statements() {
    assert!(compile_debug(&Stmt::Pass).is_none());
    assert!(compile_debug(&Stmt::Let("_".to_string(), None, Expr::Int(1))).is_none());
    assert!(compile_debug(&Stmt::While { cond: Expr::Bool(true), body: vec![] }).is_none());
}

#[test]
fn typed_locals_fuse_into_one_int_instruction() {
    let params = vec![param("a", Some("int")), param("b", Some("int"))];
    let sum = Expr::BinOp {
        op: BinOp::Add,
        left: Box::new(ident("a", Resolution::Local(0))),
        right: Box::new(ident("b", Resolution::Local(1))),
        node_id: 7,
    };
    let body = vec![Stmt::Return(Some(sum))];
    let c = compile_fn(&params, &body, annotations(), &vec![], &vec![]).expect("compiles");
    assert_eq!(c.code.len(), 3);
    assert!(matches!(c.code[0], Op::IntBinLL(0, 1, BinOp::Add)));
    assert!(matches!(c.code[1], Op::Return));
    assert!(matches!(c.code[2], Op::ReturnNil));
    assert_eq!(c.stmt_spans, vec![STMT_NO_SPAN, NOT_STMT, NOT_STMT]);
    assert_eq!(c.n_params, 2);
    assert_eq!(c.n_locals, 2);
    assert_eq!(c.local_names, vec!["a".to_string(), "b".to_string()]);
}

#[test]
fn untyped_locals_fuse_into_generic_instruction() {
    let params = vec![param("a", None)];
    let e = Expr::BinOp {
        op: BinOp::Mul,
        left: Box::new(ident("a", Resolution::Local(0))),
        right: Box::new(Expr::Int(2)),
        node_id: 0,
    };
    let c = compile_fn(&params, &vec![Stmt::Return(Some(e))], annotations(), &vec![], &vec![]).expect("compiles");
    assert!(matches!(c.code[0], Op::BinLocalConst(0, 0, BinOp::Mul)));
    assert!(matches!(c.consts[0], Value::Int(2)));
}

#[test]
fn if_without_else_loses_its_jump_to_next() {
    let params = vec![param("x", None)];
    let body = vec![Stmt::If {
        branches: vec![(ident("x", Resolution::Local(0)), vec![Stmt::Return(Some(Expr::Int(1)))])],
        else_body: None,
    }];
    let c = compile_fn(&params, &body, annotations(), &vec![], &vec![]).expect("compiles");
    assert_eq!(c.code.len(), 5, "{:?}", c.code);
    assert!(matches!(c.code[0], Op::LoadLocal(0)));
    assert!(matches!(c.code[1], Op::JumpIfFalse(4)));
    assert!(matches!(c.code[2], Op::Const(0)));
    assert!(matches!(c.code[3], Op::Return));
    assert!(matches!(c.code[4], Op::ReturnNil));
    assert_eq!(c.stmt_spans, vec![STMT_NO_SPAN, NOT_STMT, STMT_NO_SPAN, NOT_STMT, NOT_STMT]);
}

#[test]
fn while_break_jumps_to_the_loop_end() {
    let params = vec![param("x", None)];
    let body = vec![Stmt::While { cond: ident("x", Resolution::Local(0)), body: vec![Stmt::Break] }];
    let c = compile_fn(&params, &body, annotations(), &vec![], &vec![]).expect("compiles");
    assert_eq!(c.code.len(), 5, "{:?}", c.code);
    assert!(matches!(c.code[0], Op::LoadLocal(0)));
    assert!(matches!(c.code[1], Op::JumpIfFalse(4)));
    assert!(matches!(c.code[2], Op::Jump(4)));
    assert!(matches!(c.code[3], Op::Jump(0)));
    assert!(matches!(c.code[4], Op::ReturnNil));
}

#[test]
fn break_outside_a_loop_fails_at_run_time() {
    let c = compile_fn(&vec![], &vec![Stmt::Break], annotations(), &vec![], &vec![]).expect("compiles");
    assert!(matches!(c.code[0], Op::Fail(0)));
    assert_eq!(c.names[0], "SyntaxError: 'break' outside for/while loop");
}

#[test]
fn return_runs_the_finally_copy_first() {
    let body = vec![Stmt::Try {
        body: vec![Stmt::Return(Some(Expr::Int(1)))],
        handlers: vec![],
        finally_body: Some(vec![Stmt::Expr(Expr::Int(2))]),
    }];
    let c = compile_fn(&vec![], &body, annotations(), &vec![], &vec![]).expect("compiles");
    let expected = [
        "SetupTry(10)", "Const(0)", "PopTry", "Const(1)", "Pop", "Return", "PopTry", "Const(2)", "Pop", "Jump(14)",
        "Const(3)", "Pop", "Pop", "Reraise", "ReturnNil",
    ];
    let got: Vec<String> = c.code.iter().map(|op| format!("{op:?}")).collect();
    assert_eq!(got, expected);
}

#[test]
fn variadic_parameter_must_be_last() {
    let mut first = param("rest", None);
    first.variadic = true;
    let params = vec![first, param("x", None)];
    assert!(compile_fn(&params, &vec![], annotations(), &vec![], &vec![]).is_none());
}

#[test]
fn tuple_declaration_at_function_top_is_not_compiled() {
    let body = vec![Stmt::LetTuple {
        targets: vec![TupleTarget::Let("a".to_string()), TupleTarget::Wildcard],
        value: Expr::Tuple(vec![Expr::Int(1), Expr::Int(2)]),
    }];
    assert!(compile_fn(&vec![], &body, annotations(), &vec![], &vec![]).is_none());
}

#[test]
fn captures_take_the_last_slots_in_name_order() {
    let body = vec![Stmt::Return(Some(ident("b", Resolution::Unresolved)))];
    let caps = vec!["b".to_string(), "a".to_string()];
    let c = compile_fn(&vec![param("p", None)], &body, annotations(), &caps, &vec![]).expect("compiles");
    assert_eq!(c.captured_slots, vec![("a".to_string(), 1), ("b".to_string(), 2)]);
    assert!(matches!(c.code[0], Op::LoadLocal(2)));
}

#[test]
fn toplevel_let_declares_a_global() {
    let stmt = Stmt::Let("x".to_string(), None, Expr::Int(3));
    let c = compile_toplevel_stmt(&stmt, annotations(), &vec!["x".to_string()]).expect("compiles");
    assert!(matches!(c.code[0], Op::Const(0)));
    assert!(matches!(c.code[1], Op::DeclareGlobal(1, DeclKind::LetPlain)));
    assert!(matches!(c.code[2], Op::ReturnNil));
    assert_eq!(c.names, vec!["x".to_string(), "x".to_string()]);
}

#[test]
fn module_assignment_goes_through_the_scope_chain() {
    let stmt = Stmt::Assign { name: "y".to_string(), value: Expr::Int(2) };
    let m = compile_module_stmt(&stmt, annotations(), &vec!["y".to_string()]).expect("compiles");
    assert!(matches!(m.code[1], Op::StoreName(0)));
    let t = compile_toplevel_stmt(&stmt, annotations(), &vec!["y".to_string()]).expect("compiles");
    assert!(matches!(t.code[1], Op::StoreGlobal(0, 0)));
}

#[test]
fn definitions_are_not_toplevel_targets() {
    let def = Stmt::ClassDef { name: "C".to_string() };
    assert!(!is_toplevel_compile_target(&def));
    assert!(is_toplevel_compile_target(&Stmt::Pass));
    assert!(compile_toplevel_stmt(&def, annotations(), &vec![]).is_none());
}

#[test]
fn definition_expression_reads_free_names_by_name() {
    let c = compile_definition_expr(&ident("z", Resolution::Unresolved), annotations()).expect("compiles");
    assert!(matches!(c.code[0], Op::LoadName(0)));
    assert!(matches!(c.code[1], Op::Return));
    assert_eq!(c.names[0], "z");
}

#[test]
fn definition_expression_cannot_assign_free_names() {
    let e = Expr::Block {
        stmts: vec![Stmt::Assign { name: "g".to_string(), value: Expr::Int(1) }],
        return_type: None,
    };
    assert!(compile_definition_expr(&e, annotations()).is_none());
}

#[test]
fn mutable_captures_take_cells_in_name_order() {
    let body = vec![Stmt::Pass];
    let muts = vec!["q".to_string(), "m".to_string(), "a".to_string()];
    let c = compile_fn(&vec![], &body, annotations(), &vec![], &muts).expect("compiles");
    assert_eq!(c.captured_cells, vec![("a".to_string(), 0), ("m".to_string(), 1), ("q".to_string(), 2)]);
    assert_eq!(c.n_cells, 3);
}

#[test]
fn async_body_captures_take_the_last_slots_in_name_order() {
    let body = vec![Stmt::Expr(ident("y", Resolution::Unresolved))];
    let caps = vec!["y".to_string(), "x".to_string()];
    let c = compile_async_body(&body, annotations(), &caps).expect("compiles");
    assert_eq!(c.captured_slots, vec![("x".to_string(), 0), ("y".to_string(), 1)]);
    assert!(matches!(c.code.last(), Some(Op::Return)));
}

#[test]
fn async_body_that_declares_a_captured_name_is_not_compiled() {
    let body = vec![Stmt::Let("x".to_string(), None, Expr::Int(1))];
    assert!(compile_async_body(&body, annotations(), &vec!["x".to_string()]).is_none());
}

#[test]
fn every_chunk_ends_in_a_return_after_optimisation() {
    let params = vec![param("x", None)];
    let body = vec![Stmt::If {
        branches: vec![(ident("x", Resolution::Local(0)), vec![Stmt::Return(Some(Expr::Int(1)))])],
        else_body: Some(vec![Stmt::Return(Some(Expr::Int(2)))]),
    }];
    let f = compile_fn(&params, &body, annotations(), &vec![], &vec![]).expect("compiles");
    assert!(matches!(f.code.last(), Some(Op::ReturnNil)), "{:?}", f.code);
    let t = compile_toplevel_stmt(&Stmt::While { cond: Expr::Bool(false), body: vec![] }, annotations(), &vec![])
        .expect("compiles");
    assert!(matches!(t.code.last(), Some(Op::ReturnNil)), "{:?}", t.code);
    let d = compile_definition_expr(&Expr::Int(7), annotations()).expect("compiles");
    assert!(matches!(d.code.last(), Some(Op::Return)));
}

#[test]
fn capture_named_like_a_parameter_is_not_compiled() {
    let body = vec![Stmt::Pass];
    let params = vec![param("a", None)];
    assert!(compile_fn(&params, &body, annotations(), &vec!["a".to_string()], &vec![]).is_none());
    assert!(compile_fn(&params, &body, annotations(), &vec![], &vec!["a".to_string()]).is_none());
    assert!(compile_fn(&params, &body, annotations(), &vec!["b".to_string()], &vec![]).is_some());
}

#[test]
fn capture_named_like_a_body_declaration_is_not_compiled() {
    let body = vec![Stmt::Let("v".to_string(), None, Expr::Int(1))];
    assert!(compile_fn(&vec![], &body, annotations(), &vec!["v".to_string()], &vec![]).is_none());
    let wild = vec![Stmt::Let("_".to_string(), None, Expr::Int(1))];
    assert!(compile_fn(&vec![], &wild, annotations(), &vec!["_".to_string()], &vec![]).is_some());
}

#[test]
fn definition_expression_writes_only_its_own_slots() {
    let e = Expr::Block {
        stmts: vec![
            Stmt::Mut("t".to_string(), None, Expr::Int(1)),
            Stmt::Assign { name: "t".to_string(), value: Expr::Int(2) },
            Stmt::BlockReturn(ident("t", Resolution::Unresolved), lib::ast::Span { line: 1, col: 1 }),
        ],
        return_type: None,
    };
    let c = compile_definition_expr(&e, annotations()).expect("compiles");
    assert!(c.code.iter().all(|op| !matches!(
        op,
        Op::StoreGlobal(..) | Op::StoreName(_) | Op::DeclareGlobal(..) | Op::DeclareName(_)
    )), "{:?}", c.code);
    assert!(c.code.iter().any(|op| matches!(op, Op::StoreLocalDeepCopy(0) | Op::StoreLocal(0))), "{:?}", c.code);
}

#[test]
fn debug_prompt_cannot_assign_a_variable() {
    let e = Expr::Block {
        stmts: vec![Stmt::Assign { name: "x".to_string(), value: Expr::Int(1) }],
        return_type: None,
    };
    assert!(compile_debug(&Stmt::Expr(e)).is_none());
}

#[test]
fn debug_method_call_is_left_to_the_caller() {
    let call = Expr::Call {
        func: Box::new(Expr::Attr { object: Box::new(ident("o", Resolution::Unresolved)), attr: "m".to_string(), node_id: 0 }),
        args: vec![],
        span: lib::ast::Span { line: 1, col: 1 },
        node_id: 0,
    };
    assert!(compile_debug(&Stmt::Expr(call)).is_none());
}

#[test]
fn debug_subscript_is_left_to_the_caller() {
    let e = Expr::Subscript { object: Box::new(ident("xs", Resolution::Unresolved)), index: Box::new(Expr::Int(0)) };
    assert!(compile_debug(&Stmt::Let("v".to_string(), None, e)).is_none());
}

#[test]
fn debug_identifier_is_read_by_name() {
    let c = compile_debug(&Stmt::Expr(ident("x", Resolution::Unresolved))).expect("compiles");
    assert!(matches!(c.code[0], Op::LoadName(0)));
    assert!(matches!(c.code[1], Op::Return));
    assert_eq!(c.code.len(), 2);
    assert_eq!(c.names, vec!["x".to_string()]);
}

#[test]
fn debug_literal_has_no_names_or_locals() {
    let c = compile_debug(&Stmt::Expr(Expr::Int(7))).expect("compiles");
    assert!(c.names.is_empty());
    assert_eq!(c.n_locals, 0);
    assert!(c.local_names.is_empty());
}

#[test]
fn definition_expression_identifier_is_read_by_name() {
    let c = compile_definition_expr(&ident("k", Resolution::Unresolved), annotations()).expect("compiles");
    assert_eq!(c.code.len(), 2);
    assert!(matches!(c.code[0], Op::LoadName(0)));
    assert!(matches!(c.code[1], Op::Return));
    assert_eq!(c.names, vec!["k".to_string()]);
}

#[test]
fn cast_without_a_directive_is_refused() {
    let e = Expr::Cast { object: Box::new(Expr::Int(1)), ty_name: "int".to_string(), node_id: 9 };
    assert!(compile_definition_expr(&e, annotations()).is_none());
}

#[test]
fn while_loop_over_literals_compiles_to_a_loop() {
    let body = vec![Stmt::While { cond: Expr::Bool(true), body: vec![Stmt::Expr(Expr::Int(1))] }];
    let c = compile_fn(&vec![], &body, annotations(), &vec![], &vec![]).expect("compiles");
    let got: Vec<String> = c.code.iter().map(|op| format!("{op:?}")).collect();
    assert_eq!(got, ["Const(0)", "JumpIfFalse(5)", "Const(1)", "Pop", "Jump(0)", "ReturnNil"]);
    assert_eq!(c.stmt_spans, vec![STMT_NO_SPAN, NOT_STMT, STMT_NO_SPAN, NOT_STMT, NOT_STMT, NOT_STMT]);
    assert!(matches!(c.consts[0], Value::Bool(true)));
    assert!(matches!(c.consts[1], Value::Int(1)));
}

#[test]
fn free_identifier_in_a_function_is_a_global() {
    let body = vec![Stmt::Expr(ident("g", Resolution::Unresolved))];
    let c = compile_fn(&vec![param("p", None)], &body, annotations(), &vec![], &vec![]).expect("compiles");
    assert!(matches!(c.code[0], Op::LoadGlobal(0, 0)));
    assert!(matches!(c.code[1], Op::Pop));
    assert!(matches!(c.code[2], Op::ReturnNil));
    assert_eq!(c.names, vec!["g".to_string()]);
    assert_eq!(c.global_caches.len(), 1);
}

#[test]
fn toplevel_if_without_else_compiles() {
    let stmt = Stmt::If { branches: vec![(Expr::Bool(true), vec![])], else_body: None };
    let c = compile_toplevel_stmt(&stmt, annotations(), &vec![]).expect("compiles");
    let got: Vec<String> = c.code.iter().map(|op| format!("{op:?}")).collect();
    assert_eq!(got, ["Const(0)", "JumpIfFalse(2)", "ReturnNil"]);
}

#[test]
fn async_body_with_a_return_inside_a_loop_is_not_compiled() {
    let body = vec![Stmt::While { cond: Expr::Bool(true), body: vec![Stmt::Return(None)] }];
    assert!(compile_async_body(&body, annotations(), &vec![]).is_none());
}

#[test]
fn let_from_a_mutable_local_copies_and_freezes() {
    let mut x = param("x", None);
    x.mutable = true;
    let body = vec![Stmt::Let("y".to_string(), None, ident("x", Resolution::Local(0)))];
    let c = compile_fn(&vec![x], &body, annotations(), &vec![], &vec![]).expect("compiles");
    assert!(matches!(c.code[0], Op::LoadLocal(0)));
    assert!(matches!(c.code[1], Op::StoreLocalCopyFreeze(1)));
    assert!(matches!(c.code[2], Op::ReturnNil));
}

#[test]
fn mut_declaration_deep_copies_into_its_slot() {
    let body = vec![Stmt::Mut("m".to_string(), None, Expr::Int(4))];
    let c = compile_fn(&vec![], &body, annotations(), &vec![], &vec![]).expect("compiles");
    assert!(matches!(c.code[0], Op::Const(0)));
    assert!(matches!(c.code[1], Op::StoreLocalDeepCopy(0)));
}

#[test]
fn repeated_capture_is_not_compiled() {
    let caps = vec!["a".to_string(), "a".to_string()];
    assert!(compile_fn(&vec![], &vec![Stmt::Pass], annotations(), &caps, &vec![]).is_none());
}

#[test]
fn name_in_both_capture_lists_is_not_compiled() {
    let caps = vec!["a".to_string()];
    let muts = vec!["a".to_string()];
    assert!(compile_fn(&vec![], &vec![Stmt::Pass], annotations(), &caps, &muts).is_none());
}

#[test]
fn frame_of_a_flow_body_holds_parameters_and_captures() {
    let body = vec![Stmt::While { cond: ident("c", Resolution::Unresolved), body: vec![Stmt::Pass] }];
    let caps = vec!["c".to_string()];
    let muts = vec!["m".to_string()];
    let c = compile_fn(&vec![param("p", None)], &body, annotations(), &caps, &muts).expect("compiles");
    assert_eq!(c.n_locals, 2);
    assert_eq!(c.n_cells, 1);
    assert!(matches!(c.code[0], Op::LoadLocal(1)));
}

#[test]
fn immutable_captures_of_an_empty_body_take_slots_in_name_order() {
    let caps = vec!["b".to_string(), "a".to_string()];
    let c = compile_fn(&vec![], &vec![], annotations(), &caps, &vec![]).expect("compiles");
    assert_eq!(c.captured_slots, vec![("a".to_string(), 0), ("b".to_string(), 1)]);
    assert_eq!(c.n_locals, 2);
    assert_eq!(c.local_names, vec!["a".to_string(), "b".to_string()]);
    assert_eq!(c.code.len(), 1);
    assert!(matches!(c.code[0], Op::ReturnNil));
}

#[test]
fn mutable_captures_of_an_empty_body_take_cells_in_name_order() {
    let muts = vec!["y".to_string(), "x".to_string()];
    let c = compile_fn(&vec![], &vec![], annotations(), &vec![], &muts).expect("compiles");
    assert_eq!(c.captured_cells, vec![("x".to_string(), 0), ("y".to_string(), 1)]);
    assert_eq!(c.n_cells, 2);
    assert_eq!(c.n_locals, 0);
    assert!(c.captured_slots.is_empty());
    assert_eq!(c.code.len(), 1);
    assert!(matches!(c.code[0], Op::ReturnNil));
}

#[test]
fn module_assignment_of_a_literal_stores_by_name() {
    let stmt = Stmt::Assign { name: "z".to_string(), value: Expr::Int(8) };
    let m = compile_module_stmt(&stmt, annotations(), &vec![]).expect("compiles");
    let got: Vec<String> = m.code.iter().map(|op| format!("{op:?}")).collect();
    assert_eq!(got, ["Const(0)", "StoreName(0)", "ReturnNil"]);
    assert_eq!(m.names, vec!["z".to_string()]);
}

#[test]
fn definition_expression_literal_has_an_empty_frame() {
    let c = compile_definition_expr(&Expr::Int(3), annotations()).expect("compiles");
    assert_eq!(c.stmt_spans, vec![NOT_STMT, NOT_STMT]);
    assert_eq!(c.n_locals, 0);
    assert!(c.names.is_empty());
}

#[test]
fn literal_operands_are_compiled_left_then_right() {
    let e = Expr::BinOp { op: BinOp::Sub, left: Box::new(Expr::Int(5)), right: Box::new(Expr::Int(2)), node_id: 0 };
    let c = compile_fn(&vec![], &vec![Stmt::Return(Some(e))], annotations(), &vec![], &vec![]).expect("compiles");
    assert!(matches!(c.code[0], Op::Const(0)));
    assert!(matches!(c.code[1], Op::Const(1)));
    assert!(matches!(c.code[2], Op::Bin(BinOp::Sub) | Op::IntBinSS(BinOp::Sub) | Op::FloatBinSS(BinOp::Sub)));
    assert!(matches!(c.consts[0], Value::Int(5)));
    assert!(matches!(c.consts[1], Value::Int(2)));
}

#[test]
fn nested_declarations_take_slots_in_resolver_order() {
    let body = vec![
        Stmt::Let("a".to_string(), None, Expr::Int(1)),
        Stmt::If {
            branches: vec![(Expr::Bool(true), vec![Stmt::Let("b".to_string(), None, Expr::Int(2))])],
            else_body: Some(vec![Stmt::Let("a".to_string(), None, Expr::Int(3)), Stmt::Mut("c".to_string(), None, Expr::Int(4))]),
        },
        Stmt::Let("d".to_string(), None, Expr::Int(5)),
    ];
    let c = compile_fn(&vec![param("p", None)], &body, annotations(), &vec![], &vec![]).expect("compiles");
    // Parameters, then the body's top-level declarations, then the nested ones in order.
    assert_eq!(c.local_names[..5].to_vec(), vec!["p", "a", "d", "b", "c"]);
}

#[test]
fn async_body_frame_holds_its_declarations_then_its_captures() {
    let body = vec![
        Stmt::Let("v".to_string(), None, Expr::Int(1)),
        Stmt::Block(vec![Stmt::Let("w".to_string(), None, Expr::Int(2)), Stmt::Let("v".to_string(), None, Expr::Int(3))]),
    ];
    let caps = vec!["c".to_string()];
    let c = compile_async_body(&body, annotations(), &caps).expect("compiles");
    assert_eq!(c.local_names.len(), 3);
    assert_eq!(c.captured_slots, vec![("c".to_string(), 2)]);
}

#[test]
fn and_of_literals_jumps_past_the_right_operand() {
    let e = Expr::BinOp { op: BinOp::And, left: Box::new(Expr::Bool(true)), right: Box::new(Expr::Int(7)), node_id: 0 };
    let c = compile_fn(&vec![], &vec![Stmt::Return(Some(e))], annotations(), &vec![], &vec![]).expect("compiles");
    assert!(matches!(c.code[0], Op::Const(0)));
    assert!(matches!(c.code[1], Op::JumpIfFalseOrPop(3)));
    assert!(matches!(c.code[2], Op::Const(1)));
    assert!(matches!(c.consts[0], Value::Bool(true)));
    assert!(matches!(c.consts[1], Value::Int(7)));
}

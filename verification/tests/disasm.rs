use std::rc::Rc;

use lib::annotations::AstAnnotations;
use lib::ast::{CallArg, Expr, Resolution, Span, Stmt};
use lib::chunk::{Chunk, Value};
use lib::compiler::entry::{compile_debug, compile_fn};
use lib::disasm::{disassemble, fmt_base, fmt_int, fmt_op, fmt_pad4};
use lib::op::{DeclKind, Op};

fn empty_chunk() -> Chunk {
    compile_debug(&Stmt::Expr(Expr::NoneLit)).unwrap()
}

#[test]
fn lists_a_debugger_chunk() {
    let c = compile_debug(&Stmt::Expr(Expr::Int(5))).unwrap();
    assert_eq!(
        disassemble(&c, "<dbg>"),
        "== chunk <dbg> (n_locals=0) ==\n   0  CONST 0 = Some(Int(5))\n   1  RETURN\n"
    );
}

#[test]
fn names_are_shown_quoted() {
    let stmt = Stmt::Let("x".to_string(), None, Expr::Str("a\"b".to_string()));
    let c = compile_debug(&stmt).unwrap();
    let text = disassemble(&c, "d");
    assert!(text.contains("CONST 0 = Some(Str(\"a\\\"b\"))"), "{text}");
    assert!(text.contains("DECLARE_NAME Some(\"x\")"), "{text}");
    assert!(text.ends_with("   2  RETURN_NIL\n"), "{text}");
}

#[test]
fn call_shows_mask_in_hex() {
    let call = Expr::Call {
        func: Box::new(Expr::Ident { name: "f".to_string(), res: Resolution::Global(0), node_id: 0 }),
        args: vec![CallArg::Positional(Expr::Int(1))],
        span: Span { line: 1, col: 1 },
        node_id: 0,
    };
    let c = compile_fn(&vec![], &vec![Stmt::Expr(call)], Rc::new(AstAnnotations::empty()), &vec![], &vec![]).unwrap();
    let text = disassemble(&c, "f");
    assert!(text.contains("CALL Some(\"f\") argc=1 mut_mask=0x1"), "{text}");
    assert!(text.contains("LOAD_GLOBAL Some(\"f\")"), "{text}");
}

#[test]
fn out_of_range_operands_show_none() {
    let c = empty_chunk();
    assert_eq!(fmt_op(&Op::LoadName(9), &c), "LOAD_NAME None");
    assert_eq!(fmt_op(&Op::Const(9), &c), "CONST 9 = None");
}

#[test]
fn operand_forms() {
    let c = empty_chunk();
    assert_eq!(fmt_op(&Op::ForIter(1, 2, 30), &c), "FOR_ITER iter=1 target=2 exit=30");
    assert_eq!(fmt_op(&Op::CallMethodLocal(0, 3, 2, 5, 0), &c), "CALL_METHOD_L 0 name[3] argc=2 mut=101");
    assert_eq!(fmt_op(&Op::DeclareGlobal(7, DeclKind::LetFromIdent(4)), &c), "DECLARE_GLOBAL None LetFromIdent(4)");
    assert_eq!(fmt_op(&Op::BinLocalConst(1, 2, lib::ast::BinOp::FloorDiv), &c), "BIN_LC 1 const[2] FloorDiv");
}

#[test]
fn numbers() {
    assert_eq!(fmt_base(0, 10), "0");
    assert_eq!(fmt_base(1234567890, 10), "1234567890");
    assert_eq!(fmt_base(255, 16), "ff");
    assert_eq!(fmt_base(6, 2), "110");
    assert_eq!(fmt_int(-42), "-42");
    assert_eq!(fmt_int(i64::MIN), "-9223372036854775808");
    assert_eq!(fmt_pad4("7".to_string()), "   7");
    assert_eq!(fmt_pad4("12345".to_string()), "12345");
}

#[test]
fn constants_show_their_variant() {
    let mut c = empty_chunk();
    c.consts = vec![Value::Bool(true), Value::Complex(0, 3), Value::Undefined, Value::Int(-1)];
    assert_eq!(fmt_op(&Op::Const(0), &c), "CONST 0 = Some(Bool(true))");
    assert_eq!(fmt_op(&Op::Const(1), &c), "CONST 1 = Some(Complex(0, 3))");
    assert_eq!(fmt_op(&Op::Const(2), &c), "CONST 2 = Some(Undefined)");
    assert_eq!(fmt_op(&Op::Const(3), &c), "CONST 3 = Some(Int(-1))");
}

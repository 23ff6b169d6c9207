use std::rc::Rc;

use lib::annotations::AstAnnotations;
use lib::ast::{Expr, Param, Stmt};
use lib::compiler::entry::compile_fn;
use lib::op::Op;
use lib::run::declared_slots;

fn two_lets() -> lib::chunk::Chunk {
    let params = vec![Param { name: "p".to_string(), type_ann: None, mutable: false, variadic: false }];
    let body = vec![
        Stmt::Let("a".to_string(), None, Expr::Int(1)),
        Stmt::Let("b".to_string(), None, Expr::Int(2)),
    ];
    compile_fn(&params, &body, Rc::new(AstAnnotations::empty()), &vec![], &vec![]).expect("compiles")
}

#[test]
fn parameters_are_declared_from_the_start() {
    let c = two_lets();
    assert!(matches!(c.code[1], Op::StoreLocal(1)));
    assert!(matches!(c.code[3], Op::StoreLocal(2)));
    assert_eq!(declared_slots(&c, 0), vec![true, false, false]);
}

#[test]
fn a_local_is_declared_once_a_store_to_it_lies_before_the_stop() {
    let c = two_lets();
    assert_eq!(declared_slots(&c, 1), vec![true, false, false]);
    assert_eq!(declared_slots(&c, 2), vec![true, true, false]);
    assert_eq!(declared_slots(&c, 4), vec![true, true, true]);
}

#[test]
fn a_stop_past_the_end_scans_the_whole_code() {
    let c = two_lets();
    assert_eq!(declared_slots(&c, 1000), vec![true, true, true]);
}

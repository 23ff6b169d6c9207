use std::rc::Rc;

use lib::annotations::{AstAnnotations, BinOperandKind};
use lib::chunk::{SharedFnChunk};
use lib::compiler::entry::compile_debug;
use lib::ast::{Expr, Stmt};

#[test]
fn new_cache_finds_nothing() {
    let s = SharedFnChunk::new();
    assert!(s.lookup(&Rc::new(AstAnnotations::empty())).is_none());
}

#[test]
fn lookup_after_store_gives_the_chunk_back() {
    let mut s = SharedFnChunk::new();
    let chunk = Rc::new(compile_debug(&Stmt::Expr(Expr::Int(1))).unwrap());
    let a = Rc::new(AstAnnotations::empty());
    s.store(a.clone(), Some(chunk.clone()));
    let found = s.lookup(&a).expect("cached");
    assert!(Rc::ptr_eq(&found.unwrap(), &chunk));
}

#[test]
fn replaced_table_with_the_same_facts_never_hits() {
    let mut s = SharedFnChunk::new();
    let chunk = Rc::new(compile_debug(&Stmt::Expr(Expr::Int(1))).unwrap());
    let a = Rc::new(AstAnnotations::empty());
    s.store(a.clone(), Some(chunk));
    assert!(s.lookup(&Rc::new(AstAnnotations::empty())).is_none());
    assert!(s.lookup(&a).is_some());
}

#[test]
fn store_replaces_the_earlier_entry() {
    let mut s = SharedFnChunk::new();
    let a0 = Rc::new(AstAnnotations::empty());
    let a = Rc::new(AstAnnotations::empty());
    s.store(a0.clone(), None);
    s.store(a.clone(), None);
    assert!(matches!(s.lookup(&a), Some(None)));
    assert!(s.lookup(&a0).is_none());
}

#[test]
fn lookup_with_other_facts_finds_nothing() {
    let mut s = SharedFnChunk::new();
    s.store(Rc::new(AstAnnotations::empty()), None);
    let mut other = AstAnnotations::empty();
    other.binop_kinds.push((3, BinOperandKind::Int));
    assert!(s.lookup(&Rc::new(other)).is_none());
}

#[test]
fn unsupported_body_is_remembered() {
    let mut s = SharedFnChunk::new();
    let a = Rc::new(AstAnnotations::empty());
    s.store(a.clone(), None);
    assert!(matches!(s.lookup(&a), Some(None)));
}

#[test]
fn debug_text_shows_the_state() {
    let mut s = SharedFnChunk::new();
    assert_eq!(s.debug_text(), "SharedFnChunk(uncompiled)");
    s.store(Rc::new(AstAnnotations::empty()), None);
    assert_eq!(s.debug_text(), "SharedFnChunk(ineligible)");
    let chunk = Rc::new(compile_debug(&Stmt::Expr(Expr::Int(1))).unwrap());
    s.store(Rc::new(AstAnnotations::empty()), Some(chunk));
    assert_eq!(s.debug_text(), "SharedFnChunk(compiled)");
}

use lib::op::{DeclKind, Op};

/// The size of `Op` is the cache density of the code.
#[test]
fn op_size_is_pinned() {
    assert_eq!(std::mem::size_of::<Op>(), 20, "the size of Op changed");
}

#[test]
fn decl_kind_compares_by_value() {
    assert_eq!(DeclKind::LetFromIdent(3), DeclKind::LetFromIdent(3));
    assert_ne!(DeclKind::LetFromIdent(3), DeclKind::LetFromIdent(4));
    assert_ne!(DeclKind::Const, DeclKind::Mut);
}

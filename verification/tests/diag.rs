use lib::ast::{Expr, Resolution};
use lib::compiler::diag::expr_kind;

#[test]
fn expression_kinds_name_the_variant() {
    assert_eq!(expr_kind(&Expr::Int(1)), "Int");
    assert_eq!(expr_kind(&Expr::NoneLit), "None");
    assert_eq!(expr_kind(&Expr::SetLit(vec![])), "Set");
    let id = Expr::Ident { name: "x".to_string(), res: Resolution::Unresolved, node_id: 0 };
    assert_eq!(expr_kind(&id), "Ident");
    assert_eq!(expr_kind(&Expr::Block { stmts: vec![], return_type: None }), "Block");
}

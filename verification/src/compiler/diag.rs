//! Builtin names the VM calls directly, and small syntax predicates.
use vstd::prelude::*;

use crate::ast::{CallArg, Expr};

verus! {

/// Character-wise string equality.
pub(crate) fn str_eq(s: &str, t: &str) -> (r: bool)
    ensures
        r == (s@ == t@),
{
    let n = s.unicode_len();
    if n != t.unicode_len() {
        return false;
    }
    let mut i: usize = 0;
    while i < n
        invariant
            n == s@.len(),
            n == t@.len(),
            i <= n,
            forall|j: int| 0 <= j < i ==> s@[j] == t@[j],
        decreases n - i,
    {
        if s.get_char(i) != t.get_char(i) {
            return false;
        }
        i = i + 1;
    }
    assert(s@ =~= t@);
    true
}

/// Name of the variant of `e` (diagnostics).
pub open spec fn expr_kind_spec(e: Expr) -> Seq<char> {
    match e {
        Expr::Int(..) => "Int"@,
        Expr::Float(..) => "Float"@,
        Expr::ImaginaryLit(..) => "ImaginaryLit"@,
        Expr::Str(..) => "Str"@,
        Expr::Bool(..) => "Bool"@,
        Expr::NoneLit => "None"@,
        Expr::Undefined => "Undefined"@,
        Expr::Ident { .. } => "Ident"@,
        Expr::LocalVar(..) => "LocalVar"@,
        Expr::DebugVar { .. } => "DebugVar"@,
        Expr::BinOp { .. } => "BinOp"@,
        Expr::UnaryOp { .. } => "UnaryOp"@,
        Expr::Call { .. } => "Call"@,
        Expr::Attr { .. } => "Attr"@,
        Expr::TraitAccess { .. } => "TraitAccess"@,
        Expr::Subscript { .. } => "Subscript"@,
        Expr::Slice { .. } => "Slice"@,
        Expr::List(..) => "List"@,
        Expr::Tuple(..) => "Tuple"@,
        Expr::Dict(..) => "Dict"@,
        Expr::SetLit(..) => "Set"@,
        Expr::IfExpr { .. } => "IfExpr"@,
        Expr::MatchExpr { .. } => "MatchExpr"@,
        Expr::ForExpr { .. } => "ForExpr"@,
        Expr::WhileExpr { .. } => "WhileExpr"@,
        Expr::Block { .. } => "Block"@,
        Expr::Cast { .. } => "Cast"@,
        Expr::IsType { .. } => "IsType"@,
        Expr::MustBe { .. } => "MustBe"@,
        Expr::TemplateInstantiate { .. } => "TemplateInstantiate"@,
    }
}

/// Name of the variant of `expr` (used by the compile-failure diagnostics).
pub fn expr_kind(expr: &Expr) -> (r: &'static str)
    ensures
        r@ == expr_kind_spec(*expr),
{
    match expr {
        Expr::Int(..) => "Int",
        Expr::Float(..) => "Float",
        Expr::ImaginaryLit(..) => "ImaginaryLit",
        Expr::Str(..) => "Str",
        Expr::Bool(..) => "Bool",
        Expr::NoneLit => "None",
        Expr::Undefined => "Undefined",
        Expr::Ident { .. } => "Ident",
        Expr::LocalVar(..) => "LocalVar",
        Expr::DebugVar { .. } => "DebugVar",
        Expr::BinOp { .. } => "BinOp",
        Expr::UnaryOp { .. } => "UnaryOp",
        Expr::Call { .. } => "Call",
        Expr::Attr { .. } => "Attr",
        Expr::TraitAccess { .. } => "TraitAccess",
        Expr::Subscript { .. } => "Subscript",
        Expr::Slice { .. } => "Slice",
        Expr::List(..) => "List",
        Expr::Tuple(..) => "Tuple",
        Expr::Dict(..) => "Dict",
        Expr::SetLit(..) => "Set",
        Expr::IfExpr { .. } => "IfExpr",
        Expr::MatchExpr { .. } => "MatchExpr",
        Expr::ForExpr { .. } => "ForExpr",
        Expr::WhileExpr { .. } => "WhileExpr",
        Expr::Block { .. } => "Block",
        Expr::Cast { .. } => "Cast",
        Expr::IsType { .. } => "IsType",
        Expr::MustBe { .. } => "MustBe",
        Expr::TemplateInstantiate { .. } => "TemplateInstantiate",
    }
}

/// Builtins that the VM calls with evaluated positional arguments
/// (`CallBuiltin`); each is handled by the interpreter's evaluated-builtin entry.
pub(crate) open spec fn vm_builtin_name(s: Seq<char>) -> bool {
    ||| s == "print"@
    ||| s == "range"@
    ||| s == "len"@
    ||| s == "next"@
    ||| s == "repr"@
    ||| s == "id"@
    ||| s == "enumerate"@
    ||| s == "zip"@
    ||| s == "getenv"@
    ||| s == "open"@
    ||| s == "close"@
    ||| s == "create_flat_int_list"@
    ||| s == "flat_get_int"@
    ||| s == "flat_set_int"@
    ||| s == "parse_ar"@
}

/// Whether `name` is a builtin the VM calls directly.
pub(crate) fn is_vm_builtin(name: &str) -> (r: bool)
    ensures
        r == vm_builtin_name(name@),
{
    str_eq(name, "print") || str_eq(name, "range") || str_eq(name, "len") || str_eq(name, "next")
        || str_eq(name, "repr") || str_eq(name, "id") || str_eq(name, "enumerate") || str_eq(
        name,
        "zip",
    ) || str_eq(name, "getenv") || str_eq(name, "open") || str_eq(name, "close") || str_eq(
        name,
        "create_flat_int_list",
    ) || str_eq(name, "flat_get_int") || str_eq(name, "flat_set_int") || str_eq(name, "parse_ar")
}

/// Builtins whose keyword arguments the VM passes on (`CallBuiltinKw`): only
/// those whose keyword handling matches the tree walker.
pub(crate) open spec fn vm_builtin_kw_name(s: Seq<char>) -> bool {
    s == "enumerate"@ || s == "open"@
}

/// Whether `name` accepts keyword arguments through `CallBuiltinKw`.
pub(crate) fn is_vm_builtin_kw(name: &str) -> (r: bool)
    ensures
        r == vm_builtin_kw_name(name@),
{
    str_eq(name, "enumerate") || str_eq(name, "open")
}

/// The argument is named (keyword or variadic).
pub(crate) open spec fn is_named_arg(a: CallArg) -> bool {
    a is Keyword || a is Variadic
}

/// Whether any argument is a keyword or variadic argument.
pub(crate) fn has_named_args(args: &Vec<CallArg>) -> (r: bool)
    ensures
        r == (exists|i: int| 0 <= i < args@.len() && is_named_arg(#[trigger] args@[i])),
{
    let mut i: usize = 0;
    while i < args.len()
        invariant
            i <= args.len(),
            forall|j: int| 0 <= j < i ==> !is_named_arg(#[trigger] args@[j]),
        decreases args.len() - i,
    {
        match &args[i] {
            CallArg::Keyword { .. } | CallArg::Variadic(_) => return true,
            CallArg::Positional(_) => {},
        }
        i = i + 1;
    }
    false
}

} // verus!

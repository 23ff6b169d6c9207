//! The resolved syntax tree that the compiler takes as input.
//!
//! Floating-point literals are carried by their IEEE-754 bit pattern, so the
//! compiler moves them into the constant pool without interpreting them.
use vstd::prelude::*;

verus! {

/// Source position of a node.
#[derive(Debug, Clone, Copy, PartialEq, Eq)]
pub struct Span {
    pub line: u32,
    pub col: u32,
}

/// Binary operators.
#[derive(Debug, Clone, Copy, PartialEq, Eq)]
pub enum BinOp {
    Add,
    Sub,
    Mul,
    Div,
    FloorDiv,
    Mod,
    Pow,
    BitAnd,
    BitOr,
    BitXor,
    LShift,
    RShift,
    Lt,
    Gt,
    LtEq,
    GtEq,
    Eq,
    NotEq,
    And,
    Or,
}

/// Unary operators.
#[derive(Debug, Clone, Copy, PartialEq, Eq)]
pub enum UnaryOp {
    Neg,
    Not,
    BitNot,
}

/// What the resolver found an identifier to refer to.
#[derive(Debug, Clone, Copy, PartialEq, Eq)]
pub enum Resolution {
    /// A frame slot (parameter or base local) of the enclosing function.
    Local(u32),
    /// A top-level declaration, with its declaration index.
    Global(u32),
    /// Not resolved statically.
    Unresolved,
}

/// A call argument.
pub enum CallArg {
    Positional(Expr),
    Keyword { name: String, value: Expr },
    /// `f(... = a, b, c)`: the values are folded into one list.
    Variadic(Vec<Expr>),
}

/// A function parameter.
#[derive(Debug, Clone)]
pub struct Param {
    pub name: String,
    pub type_ann: Option<String>,
    pub mutable: bool,
    pub variadic: bool,
}

/// Pattern of a `match` arm.
pub enum MatchPattern {
    /// Equality with an expression (`case _` when it is the identifier `_`).
    Case(Expr),
    /// `is TypeName`.
    IsType(String),
}

/// One `match` arm.
pub struct MatchArm {
    pub pattern: MatchPattern,
    pub body: Vec<Stmt>,
}

/// One `except` clause.
pub struct ExceptHandler {
    /// `None` for a bare `except:`.
    pub exc_type: Option<String>,
    /// `except E as name`.
    pub name: Option<String>,
    pub body: Vec<Stmt>,
}

/// One target of `let a, b = t`.
#[derive(Debug, Clone)]
pub enum TupleTarget {
    Let(String),
    Mut(String),
    Bare(String),
    Wildcard,
}

/// Expressions.
pub enum Expr {
    Int(i64),
    /// IEEE-754 bit pattern of the literal.
    Float(u64),
    /// Imaginary literal, bit pattern of the imaginary part.
    ImaginaryLit(u64),
    Str(String),
    Bool(bool),
    NoneLit,
    Undefined,
    Ident { name: String, res: Resolution, node_id: u32 },
    /// `local::name` (the variadic argument list).
    LocalVar(String),
    /// `dbg::name` in the debugger REPL.
    DebugVar { name: String },
    BinOp { op: BinOp, left: Box<Expr>, right: Box<Expr>, node_id: u32 },
    UnaryOp { op: UnaryOp, operand: Box<Expr> },
    Call { func: Box<Expr>, args: Vec<CallArg>, span: Span, node_id: u32 },
    Attr { object: Box<Expr>, attr: String, node_id: u32 },
    TraitAccess { object: Box<Expr>, trait_name: String, attr: String },
    Subscript { object: Box<Expr>, index: Box<Expr> },
    Slice { begin: Option<Box<Expr>>, end: Option<Box<Expr>>, step: Option<Box<Expr>> },
    List(Vec<Expr>),
    Tuple(Vec<Expr>),
    Dict(Vec<(Expr, Expr)>),
    SetLit(Vec<Expr>),
    IfExpr { branches: Vec<(Expr, Vec<Stmt>)>, else_body: Option<Vec<Stmt>>, return_type: Option<String> },
    MatchExpr { subject: Box<Expr>, arms: Vec<MatchArm>, return_type: Option<String> },
    ForExpr { target: String, iter: Box<Expr>, body: Vec<Stmt>, return_type: Option<String> },
    WhileExpr { cond: Box<Expr>, body: Vec<Stmt>, return_type: Option<String> },
    Block { stmts: Vec<Stmt>, return_type: Option<String> },
    Cast { object: Box<Expr>, ty_name: String, node_id: u32 },
    IsType { expr: Box<Expr>, ty_name: String, negated: bool },
    MustBe { expr: Box<Expr>, guard_type: String, span: Span, node_id: u32 },
    TemplateInstantiate { base: Box<Expr>, type_args: Vec<String> },
}

/// Statements.
pub enum Stmt {
    Expr(Expr),
    /// `let name: ty = e`
    Let(String, Option<String>, Expr),
    /// `mut name: ty = e`
    Mut(String, Option<String>, Expr),
    /// `const name: ty = e`
    Const(String, Option<String>, Expr),
    LetTuple { targets: Vec<TupleTarget>, value: Expr },
    /// `static mut name = e`, with its declaration position.
    Static(String, Expr, Span),
    Assign { name: String, value: Expr },
    CompoundAssign { name: String, op: BinOp, value: Expr, node_id: u32 },
    AttrAssign { target: Expr, value: Expr },
    AttrCompoundAssign { target: Expr, op: BinOp, value: Expr },
    If { branches: Vec<(Expr, Vec<Stmt>)>, else_body: Option<Vec<Stmt>> },
    While { cond: Expr, body: Vec<Stmt> },
    For { targets: Vec<String>, iter: Expr, body: Vec<Stmt> },
    Match { subject: Expr, arms: Vec<MatchArm> },
    Return(Option<Expr>),
    Break,
    Continue,
    Pass,
    Block(Vec<Stmt>),
    BlockReturn(Expr, Span),
    LoopYield(Expr),
    Yield(Expr),
    Raise { exc: Option<Expr>, span: Span },
    Try { body: Vec<Stmt>, handlers: Vec<ExceptHandler>, finally_body: Option<Vec<Stmt>> },
    AsyncAssign { target: String, stmts: Vec<Stmt> },
    FnDef {
        name: String,
        template_params: Vec<String>,
        params: Vec<Param>,
        body: Vec<Stmt>,
        decorators: Vec<Expr>,
        return_type: Option<String>,
    },
    BreakPoint { span: Span },
    Freeze(String, Span),
    EventSubscribe { source: Expr, handler: Expr, is_once: bool, is_async: bool },
    EventUnsubscribe { source: Expr, handler: Expr },
    GenDef { name: String },
    ClassDef { name: String },
    TraitDef { name: String },
    ProtocolDef { name: String },
    NewTypeDef { name: String },
    EnumDef { name: String },
    Import { module: String },
    FromImport { module: String, names: Vec<String> },
    Field { name: String },
}

/// Copy of an optional string.
pub(crate) fn clone_opt_string(s: &Option<String>) -> (r: Option<String>)
    ensures
        r == *s,
{
    match s {
        Some(x) => Some(x.clone()),
        None => None,
    }
}

/// Copy of a list of strings.
pub(crate) fn clone_strings(v: &Vec<String>) -> (r: Vec<String>)
    ensures
        r@ == v@,
{
    let mut r: Vec<String> = Vec::new();
    let mut i: usize = 0;
    while i < v.len()
        invariant
            i <= v.len(),
            r@ == v@.take(i as int),
        decreases v.len() - i,
    {
        r.push(v[i].clone());
        i = i + 1;
        assert(r@ =~= v@.take(i as int));
    }
    assert(v@.take(v.len() as int) =~= v@);
    r
}

/// Copy of a list of parameters.
pub(crate) fn clone_params(v: &Vec<Param>) -> (r: Vec<Param>)
    ensures
        r@ == v@,
{
    let mut r: Vec<Param> = Vec::new();
    let mut i: usize = 0;
    while i < v.len()
        invariant
            i <= v.len(),
            r@ == v@.take(i as int),
        decreases v.len() - i,
    {
        let p = &v[i];
        r.push(Param {
            name: p.name.clone(),
            type_ann: clone_opt_string(&p.type_ann),
            mutable: p.mutable,
            variadic: p.variadic,
        });
        i = i + 1;
        assert(r@ =~= v@.take(i as int));
    }
    assert(v@.take(v.len() as int) =~= v@);
    r
}

/// Copy of a list of tuple-declaration targets.
pub(crate) fn clone_tuple_targets(v: &Vec<TupleTarget>) -> (r: Vec<TupleTarget>)
    ensures
        r@ == v@,
{
    let mut r: Vec<TupleTarget> = Vec::new();
    let mut i: usize = 0;
    while i < v.len()
        invariant
            i <= v.len(),
            r@ == v@.take(i as int),
        decreases v.len() - i,
    {
        let t = match &v[i] {
            TupleTarget::Let(n) => TupleTarget::Let(n.clone()),
            TupleTarget::Mut(n) => TupleTarget::Mut(n.clone()),
            TupleTarget::Bare(n) => TupleTarget::Bare(n.clone()),
            TupleTarget::Wildcard => TupleTarget::Wildcard,
        };
        r.push(t);
        i = i + 1;
        assert(r@ =~= v@.take(i as int));
    }
    assert(v@.take(v.len() as int) =~= v@);
    r
}

/// The expression holds no vector (no list of sub-expressions, statements
/// or names at any depth); its copy is then equal to it.
pub open spec fn vec_free_expr(e: Expr) -> bool
    decreases e,
{
    match e {
        Expr::Int(_) | Expr::Float(_) | Expr::ImaginaryLit(_) | Expr::Str(_) | Expr::Bool(_) | Expr::NoneLit
        | Expr::Undefined | Expr::Ident { .. } | Expr::LocalVar(_) | Expr::DebugVar { .. } => true,
        Expr::BinOp { left, right, .. } => vec_free_expr(*left) && vec_free_expr(*right),
        Expr::UnaryOp { operand, .. } => vec_free_expr(*operand),
        Expr::Attr { object, .. } => vec_free_expr(*object),
        Expr::TraitAccess { object, .. } => vec_free_expr(*object),
        Expr::Subscript { object, index } => vec_free_expr(*object) && vec_free_expr(*index),
        Expr::Slice { begin, end, step } => vec_free_opt(begin) && vec_free_opt(end) && vec_free_opt(step),
        Expr::Cast { object, .. } => vec_free_expr(*object),
        Expr::IsType { expr, .. } => vec_free_expr(*expr),
        Expr::MustBe { expr, .. } => vec_free_expr(*expr),
        _ => false,
    }
}

/// An optional boxed expression that holds no vector.
pub open spec fn vec_free_opt(e: Option<Box<Expr>>) -> bool
    decreases e,
{
    match e {
        Some(x) => vec_free_expr(*x),
        None => true,
    }
}

/// The statement holds no vector; its copy is then equal to it.
pub open spec fn vec_free_stmt(s: Stmt) -> bool {
    match s {
        Stmt::Expr(e) | Stmt::Let(_, _, e) | Stmt::Mut(_, _, e) | Stmt::Const(_, _, e) | Stmt::Static(_, e, _)
        | Stmt::Assign { value: e, .. } | Stmt::CompoundAssign { value: e, .. } | Stmt::BlockReturn(e, _)
        | Stmt::LoopYield(e) | Stmt::Yield(e) => vec_free_expr(e),
        Stmt::AttrAssign { target, value } | Stmt::AttrCompoundAssign { target, value, .. } => vec_free_expr(target)
            && vec_free_expr(value),
        Stmt::EventSubscribe { source, handler, .. } | Stmt::EventUnsubscribe { source, handler } => vec_free_expr(
            source,
        ) && vec_free_expr(handler),
        Stmt::Return(Some(e)) | Stmt::Raise { exc: Some(e), .. } => vec_free_expr(e),
        Stmt::Return(None) | Stmt::Raise { exc: None, .. } | Stmt::Break | Stmt::Continue | Stmt::Pass
        | Stmt::BreakPoint { .. } | Stmt::Freeze(..) | Stmt::GenDef { .. } | Stmt::ClassDef { .. } | Stmt::TraitDef { .. }
        | Stmt::ProtocolDef { .. } | Stmt::NewTypeDef { .. } | Stmt::EnumDef { .. } | Stmt::Import { .. }
        | Stmt::Field { .. } => true,
        _ => false,
    }
}

impl Expr {
    /// Structural copy of the expression (a derived `Clone` would make the
    /// trait impls of these mutually recursive types cyclic).
    pub(crate) fn deep_clone(&self) -> (r: Expr)
        ensures
            vec_free_expr(*self) ==> r == *self,
        decreases self,
    {
        match self {
            Expr::Int(n) => Expr::Int(*n),
            Expr::Float(f) => Expr::Float(*f),
            Expr::ImaginaryLit(f) => Expr::ImaginaryLit(*f),
            Expr::Str(s) => Expr::Str(s.clone()),
            Expr::Bool(b) => Expr::Bool(*b),
            Expr::NoneLit => Expr::NoneLit,
            Expr::Undefined => Expr::Undefined,
            Expr::Ident { name, res, node_id } => Expr::Ident { name: name.clone(), res: *res, node_id: *node_id },
            Expr::LocalVar(n) => Expr::LocalVar(n.clone()),
            Expr::DebugVar { name } => Expr::DebugVar { name: name.clone() },
            Expr::BinOp { op, left, right, node_id } => Expr::BinOp {
                op: *op,
                left: Box::new((**left).deep_clone()),
                right: Box::new((**right).deep_clone()),
                node_id: *node_id,
            },
            Expr::UnaryOp { op, operand } => Expr::UnaryOp { op: *op, operand: Box::new((**operand).deep_clone()) },
            Expr::Call { func, args, span, node_id } => Expr::Call {
                func: Box::new((**func).deep_clone()),
                args: clone_call_args(args),
                span: *span,
                node_id: *node_id,
            },
            Expr::Attr { object, attr, node_id } => Expr::Attr {
                object: Box::new((**object).deep_clone()),
                attr: attr.clone(),
                node_id: *node_id,
            },
            Expr::TraitAccess { object, trait_name, attr } => Expr::TraitAccess {
                object: Box::new((**object).deep_clone()),
                trait_name: trait_name.clone(),
                attr: attr.clone(),
            },
            Expr::Subscript { object, index } => Expr::Subscript {
                object: Box::new((**object).deep_clone()),
                index: Box::new((**index).deep_clone()),
            },
            Expr::Slice { begin, end, step } => Expr::Slice {
                begin: clone_opt_box_expr(begin),
                end: clone_opt_box_expr(end),
                step: clone_opt_box_expr(step),
            },
            Expr::List(items) => Expr::List(clone_exprs(items)),
            Expr::Tuple(items) => Expr::Tuple(clone_exprs(items)),
            Expr::Dict(pairs) => Expr::Dict(clone_pairs(pairs)),
            Expr::SetLit(items) => Expr::SetLit(clone_exprs(items)),
            Expr::IfExpr { branches, else_body, return_type } => Expr::IfExpr {
                branches: clone_branches(branches),
                else_body: clone_opt_stmts(else_body),
                return_type: clone_opt_string(return_type),
            },
            Expr::MatchExpr { subject, arms, return_type } => Expr::MatchExpr {
                subject: Box::new((**subject).deep_clone()),
                arms: clone_arms(arms),
                return_type: clone_opt_string(return_type),
            },
            Expr::ForExpr { target, iter, body, return_type } => Expr::ForExpr {
                target: target.clone(),
                iter: Box::new((**iter).deep_clone()),
                body: clone_stmts(body),
                return_type: clone_opt_string(return_type),
            },
            Expr::WhileExpr { cond, body, return_type } => Expr::WhileExpr {
                cond: Box::new((**cond).deep_clone()),
                body: clone_stmts(body),
                return_type: clone_opt_string(return_type),
            },
            Expr::Block { stmts, return_type } => Expr::Block {
                stmts: clone_stmts(stmts),
                return_type: clone_opt_string(return_type),
            },
            Expr::Cast { object, ty_name, node_id } => Expr::Cast {
                object: Box::new((**object).deep_clone()),
                ty_name: ty_name.clone(),
                node_id: *node_id,
            },
            Expr::IsType { expr, ty_name, negated } => Expr::IsType {
                expr: Box::new((**expr).deep_clone()),
                ty_name: ty_name.clone(),
                negated: *negated,
            },
            Expr::MustBe { expr, guard_type, span, node_id } => Expr::MustBe {
                expr: Box::new((**expr).deep_clone()),
                guard_type: guard_type.clone(),
                span: *span,
                node_id: *node_id,
            },
            Expr::TemplateInstantiate { base, type_args } => Expr::TemplateInstantiate {
                base: Box::new((**base).deep_clone()),
                type_args: clone_strings(type_args),
            },
        }
    }
}

/// Copy of an optional boxed expression.
pub(crate) fn clone_opt_box_expr(e: &Option<Box<Expr>>) -> (r: Option<Box<Expr>>)
    ensures
        r is Some == e is Some,
        vec_free_opt(*e) ==> r == *e,
    decreases e,
{
    match e {
        Some(x) => Some(Box::new((**x).deep_clone())),
        None => None,
    }
}

/// Copy of a list of expressions.
pub(crate) fn clone_exprs(v: &Vec<Expr>) -> (r: Vec<Expr>)
    ensures
        r@.len() == v@.len(),
        forall|i: int| 0 <= i < v@.len() && vec_free_expr(#[trigger] v@[i]) ==> r@[i] == v@[i],
    decreases v,
{
    let mut r: Vec<Expr> = Vec::new();
    let mut i: usize = 0;
    while i < v.len()
        invariant
            i <= v.len(),
            r@.len() == i,
            forall|j: int| 0 <= j < i && vec_free_expr(#[trigger] v@[j]) ==> r@[j] == v@[j],
        decreases v.len() - i,
    {
        assert(decreases_to!(v => v@[i as int]));
        r.push(v[i].deep_clone());
        i = i + 1;
    }
    r
}

/// Copy of a list of dictionary entries.
pub(crate) fn clone_pairs(v: &Vec<(Expr, Expr)>) -> (r: Vec<(Expr, Expr)>)
    ensures
        r@.len() == v@.len(),
        forall|i: int| 0 <= i < v@.len() && vec_free_expr((#[trigger] v@[i]).0) && vec_free_expr(v@[i].1) ==> r@[i] == v@[i],
    decreases v,
{
    let mut r: Vec<(Expr, Expr)> = Vec::new();
    let mut i: usize = 0;
    while i < v.len()
        invariant
            i <= v.len(),
            r@.len() == i,
            forall|j: int| 0 <= j < i && vec_free_expr((#[trigger] v@[j]).0) && vec_free_expr(v@[j].1) ==> r@[j] == v@[j],
        decreases v.len() - i,
    {
        assert(decreases_to!(v => v@[i as int].0));
        assert(decreases_to!(v => v@[i as int].1));
        let k = v[i].0.deep_clone();
        let x = v[i].1.deep_clone();
        r.push((k, x));
        i = i + 1;
    }
    r
}

/// Copy of a list of call arguments.
pub(crate) fn clone_call_args(v: &Vec<CallArg>) -> (r: Vec<CallArg>)
    ensures
        r@.len() == v@.len(),
        forall|i: int| 0 <= i < v@.len() && (#[trigger] v@[i] matches CallArg::Positional(e) && vec_free_expr(e)) ==> r@[i] == v@[i],
    decreases v,
{
    let mut r: Vec<CallArg> = Vec::new();
    let mut i: usize = 0;
    while i < v.len()
        invariant
            i <= v.len(),
            r@.len() == i,
            forall|j: int| 0 <= j < i && (#[trigger] v@[j] matches CallArg::Positional(e) && vec_free_expr(e)) ==> r@[j] == v@[j],
        decreases v.len() - i,
    {
        assert(decreases_to!(v => v@[i as int]));
        let a = match &v[i] {
            CallArg::Positional(e) => CallArg::Positional(e.deep_clone()),
            CallArg::Keyword { name, value } => CallArg::Keyword { name: name.clone(), value: value.deep_clone() },
            CallArg::Variadic(es) => CallArg::Variadic(clone_exprs(es)),
        };
        r.push(a);
        i = i + 1;
    }
    r
}

/// Copy of the `(condition, body)` branches of an `if`.
pub(crate) fn clone_branches(v: &Vec<(Expr, Vec<Stmt>)>) -> (r: Vec<(Expr, Vec<Stmt>)>)
    ensures
        r@.len() == v@.len(),
        forall|i: int| 0 <= i < v@.len() ==> (vec_free_expr((#[trigger] v@[i]).0) ==> r@[i].0 == v@[i].0) && r@[i].1@.len() == v@[i].1@.len(),
    decreases v,
{
    let mut r: Vec<(Expr, Vec<Stmt>)> = Vec::new();
    let mut i: usize = 0;
    while i < v.len()
        invariant
            i <= v.len(),
            r@.len() == i,
            forall|j: int| 0 <= j < i ==> (vec_free_expr((#[trigger] v@[j]).0) ==> r@[j].0 == v@[j].0) && r@[j].1@.len() == v@[j].1@.len(),
        decreases v.len() - i,
    {
        assert(decreases_to!(v => v@[i as int].0));
        assert(decreases_to!(v => v@[i as int].1));
        let c = v[i].0.deep_clone();
        let b = clone_stmts(&v[i].1);
        r.push((c, b));
        i = i + 1;
    }
    r
}

/// Copy of the arms of a `match`.
pub(crate) fn clone_arms(v: &Vec<MatchArm>) -> (r: Vec<MatchArm>)
    ensures
        r@.len() == v@.len(),
        forall|i: int| 0 <= i < v@.len() ==> (#[trigger] r@[i]).body@.len() == v@[i].body@.len(),
    decreases v,
{
    let mut r: Vec<MatchArm> = Vec::new();
    let mut i: usize = 0;
    while i < v.len()
        invariant
            i <= v.len(),
            r@.len() == i,
            forall|j: int| 0 <= j < i ==> (#[trigger] r@[j]).body@.len() == v@[j].body@.len(),
        decreases v.len() - i,
    {
        assert(decreases_to!(v => v@[i as int]));
        let a = &v[i];
        let pattern = match &a.pattern {
            MatchPattern::Case(e) => MatchPattern::Case(e.deep_clone()),
            MatchPattern::IsType(t) => MatchPattern::IsType(t.clone()),
        };
        r.push(MatchArm { pattern, body: clone_stmts(&a.body) });
        i = i + 1;
    }
    r
}

/// Copy of the `except` clauses of a `try`.
pub(crate) fn clone_handlers(v: &Vec<ExceptHandler>) -> (r: Vec<ExceptHandler>)
    ensures
        r@.len() == v@.len(),
        forall|i: int| 0 <= i < v@.len() ==> (#[trigger] r@[i]).exc_type == v@[i].exc_type && r@[i].name == v@[i].name
            && r@[i].body@.len() == v@[i].body@.len(),
    decreases v,
{
    let mut r: Vec<ExceptHandler> = Vec::new();
    let mut i: usize = 0;
    while i < v.len()
        invariant
            i <= v.len(),
            r@.len() == i,
            forall|j: int| 0 <= j < i ==> (#[trigger] r@[j]).exc_type == v@[j].exc_type && r@[j].name == v@[j].name
                && r@[j].body@.len() == v@[j].body@.len(),
        decreases v.len() - i,
    {
        assert(decreases_to!(v => v@[i as int]));
        let h = &v[i];
        r.push(ExceptHandler {
            exc_type: clone_opt_string(&h.exc_type),
            name: clone_opt_string(&h.name),
            body: clone_stmts(&h.body),
        });
        i = i + 1;
    }
    r
}

/// Copy of an optional statement list.
pub(crate) fn clone_opt_stmts(v: &Option<Vec<Stmt>>) -> (r: Option<Vec<Stmt>>)
    ensures
        r is Some == v is Some,
        v matches Some(b) ==> r->0@.len() == b@.len(),
    decreases v,
{
    match v {
        Some(b) => Some(clone_stmts(b)),
        None => None,
    }
}

/// Copy of a statement list.
pub(crate) fn clone_stmts(v: &Vec<Stmt>) -> (r: Vec<Stmt>)
    ensures
        r@.len() == v@.len(),
        forall|i: int| 0 <= i < v@.len() && vec_free_stmt(#[trigger] v@[i]) ==> r@[i] == v@[i],
    decreases v,
{
    let mut r: Vec<Stmt> = Vec::new();
    let mut i: usize = 0;
    while i < v.len()
        invariant
            i <= v.len(),
            r@.len() == i,
            forall|j: int| 0 <= j < i && vec_free_stmt(#[trigger] v@[j]) ==> r@[j] == v@[j],
        decreases v.len() - i,
    {
        assert(decreases_to!(v => v@[i as int]));
        r.push(v[i].deep_clone());
        i = i + 1;
    }
    r
}

impl Stmt {
    /// Structural copy of the statement.
    pub(crate) fn deep_clone(&self) -> (r: Stmt)
        ensures
            vec_free_stmt(*self) ==> r == *self,
        decreases self,
    {
        match self {
            Stmt::Expr(e) => Stmt::Expr(e.deep_clone()),
            Stmt::Let(n, t, e) => Stmt::Let(n.clone(), clone_opt_string(t), e.deep_clone()),
            Stmt::Mut(n, t, e) => Stmt::Mut(n.clone(), clone_opt_string(t), e.deep_clone()),
            Stmt::Const(n, t, e) => Stmt::Const(n.clone(), clone_opt_string(t), e.deep_clone()),
            Stmt::LetTuple { targets, value } => Stmt::LetTuple {
                targets: clone_tuple_targets(targets),
                value: value.deep_clone(),
            },
            Stmt::Static(n, e, sp) => Stmt::Static(n.clone(), e.deep_clone(), *sp),
            Stmt::Assign { name, value } => Stmt::Assign { name: name.clone(), value: value.deep_clone() },
            Stmt::CompoundAssign { name, op, value, node_id } => Stmt::CompoundAssign {
                name: name.clone(),
                op: *op,
                value: value.deep_clone(),
                node_id: *node_id,
            },
            Stmt::AttrAssign { target, value } => Stmt::AttrAssign {
                target: target.deep_clone(),
                value: value.deep_clone(),
            },
            Stmt::AttrCompoundAssign { target, op, value } => Stmt::AttrCompoundAssign {
                target: target.deep_clone(),
                op: *op,
                value: value.deep_clone(),
            },
            Stmt::If { branches, else_body } => Stmt::If {
                branches: clone_branches(branches),
                else_body: clone_opt_stmts(else_body),
            },
            Stmt::While { cond, body } => Stmt::While { cond: cond.deep_clone(), body: clone_stmts(body) },
            Stmt::For { targets, iter, body } => Stmt::For {
                targets: clone_strings(targets),
                iter: iter.deep_clone(),
                body: clone_stmts(body),
            },
            Stmt::Match { subject, arms } => Stmt::Match { subject: subject.deep_clone(), arms: clone_arms(arms) },
            Stmt::Return(e) => Stmt::Return(
                match e {
                    Some(x) => Some(x.deep_clone()),
                    None => None,
                },
            ),
            Stmt::Break => Stmt::Break,
            Stmt::Continue => Stmt::Continue,
            Stmt::Pass => Stmt::Pass,
            Stmt::Block(b) => Stmt::Block(clone_stmts(b)),
            Stmt::BlockReturn(e, sp) => Stmt::BlockReturn(e.deep_clone(), *sp),
            Stmt::LoopYield(e) => Stmt::LoopYield(e.deep_clone()),
            Stmt::Yield(e) => Stmt::Yield(e.deep_clone()),
            Stmt::Raise { exc, span } => Stmt::Raise {
                exc: match exc {
                    Some(x) => Some(x.deep_clone()),
                    None => None,
                },
                span: *span,
            },
            Stmt::Try { body, handlers, finally_body } => Stmt::Try {
                body: clone_stmts(body),
                handlers: clone_handlers(handlers),
                finally_body: clone_opt_stmts(finally_body),
            },
            Stmt::AsyncAssign { target, stmts } => Stmt::AsyncAssign {
                target: target.clone(),
                stmts: clone_stmts(stmts),
            },
            Stmt::FnDef { name, template_params, params, body, decorators, return_type } => Stmt::FnDef {
                name: name.clone(),
                template_params: clone_strings(template_params),
                params: clone_params(params),
                body: clone_stmts(body),
                decorators: clone_exprs(decorators),
                return_type: clone_opt_string(return_type),
            },
            Stmt::BreakPoint { span } => Stmt::BreakPoint { span: *span },
            Stmt::Freeze(n, sp) => Stmt::Freeze(n.clone(), *sp),
            Stmt::EventSubscribe { source, handler, is_once, is_async } => Stmt::EventSubscribe {
                source: source.deep_clone(),
                handler: handler.deep_clone(),
                is_once: *is_once,
                is_async: *is_async,
            },
            Stmt::EventUnsubscribe { source, handler } => Stmt::EventUnsubscribe {
                source: source.deep_clone(),
                handler: handler.deep_clone(),
            },
            Stmt::GenDef { name } => Stmt::GenDef { name: name.clone() },
            Stmt::ClassDef { name } => Stmt::ClassDef { name: name.clone() },
            Stmt::TraitDef { name } => Stmt::TraitDef { name: name.clone() },
            Stmt::ProtocolDef { name } => Stmt::ProtocolDef { name: name.clone() },
            Stmt::NewTypeDef { name } => Stmt::NewTypeDef { name: name.clone() },
            Stmt::EnumDef { name } => Stmt::EnumDef { name: name.clone() },
            Stmt::Import { module } => Stmt::Import { module: module.clone() },
            Stmt::FromImport { module, names } => Stmt::FromImport {
                module: module.clone(),
                names: clone_strings(names),
            },
            Stmt::Field { name } => Stmt::Field { name: name.clone() },
        }
    }
}

} // verus!

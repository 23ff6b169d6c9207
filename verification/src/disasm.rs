//! Human-readable listing of a chunk (development aid).
use vstd::prelude::*;
use vstd::string::StringExecFns;

use crate::ast::{BinOp, UnaryOp};
use crate::chunk::{Chunk, Value};
use crate::op::{DeclKind, Op};

verus! {

/// The decimal digit `d` (`d < 10`).
pub open spec fn digit_text(d: nat) -> Seq<char> {
    if d == 0 {
        "0"@
    } else if d == 1 {
        "1"@
    } else if d == 2 {
        "2"@
    } else if d == 3 {
        "3"@
    } else if d == 4 {
        "4"@
    } else if d == 5 {
        "5"@
    } else if d == 6 {
        "6"@
    } else if d == 7 {
        "7"@
    } else if d == 8 {
        "8"@
    } else if d == 9 {
        "9"@
    } else if d == 10 {
        "a"@
    } else if d == 11 {
        "b"@
    } else if d == 12 {
        "c"@
    } else if d == 13 {
        "d"@
    } else if d == 14 {
        "e"@
    } else {
        "f"@
    }
}

/// `n` written in base `b` (2, 10 or 16), lowercase, without prefix.
pub open spec fn base_text(n: nat, b: nat) -> Seq<char>
    decreases n,
{
    if b < 2 || n < b {
        digit_text(n)
    } else {
        proof {
            assert(n / b < n) by (nonlinear_arith)
                requires
                    b >= 2,
                    n >= b,
            ;
        }
        base_text(n / b, b) + digit_text(n % b)
    }
}

/// `n` in decimal.
pub open spec fn dec_text(n: nat) -> Seq<char> {
    base_text(n, 10)
}

/// A signed integer in decimal.
pub open spec fn int_text(n: int) -> Seq<char> {
    if n < 0 {
        "-"@ + dec_text((-n) as nat)
    } else {
        dec_text(n as nat)
    }
}

/// `s` right-aligned in a field of four characters.
pub open spec fn pad4(s: Seq<char>) -> Seq<char> {
    if s.len() >= 4 {
        s
    } else if s.len() == 3 {
        " "@ + s
    } else if s.len() == 2 {
        "  "@ + s
    } else {
        "   "@ + s
    }
}

fn digit_str(d: u64) -> (r: &'static str)
    requires
        d < 16,
    ensures
        r@ == digit_text(d as nat),
{
    if d == 0 {
        "0"
    } else if d == 1 {
        "1"
    } else if d == 2 {
        "2"
    } else if d == 3 {
        "3"
    } else if d == 4 {
        "4"
    } else if d == 5 {
        "5"
    } else if d == 6 {
        "6"
    } else if d == 7 {
        "7"
    } else if d == 8 {
        "8"
    } else if d == 9 {
        "9"
    } else if d == 10 {
        "a"
    } else if d == 11 {
        "b"
    } else if d == 12 {
        "c"
    } else if d == 13 {
        "d"
    } else if d == 14 {
        "e"
    } else {
        "f"
    }
}

/// `n` written in base `b`.
pub fn fmt_base(n: u64, b: u64) -> (r: String)
    requires
        b == 2 || b == 10 || b == 16,
    ensures
        r@ == base_text(n as nat, b as nat),
    decreases n,
{
    if n < b {
        String::from_str(digit_str(n))
    } else {
        let head = fmt_base(n / b, b);
        head.concat(digit_str(n % b))
    }
}

/// A signed integer in decimal.
pub fn fmt_int(n: i64) -> (r: String)
    ensures
        r@ == int_text(n as int),
{
    if n < 0 {
        let m: u64 = (0i128 - n as i128) as u64;
        String::from_str("-").concat(fmt_base(m, 10).as_str())
    } else {
        fmt_base(n as u64, 10)
    }
}

/// Right-aligns `s` in a field of four characters.
pub fn fmt_pad4(s: String) -> (r: String)
    ensures
        r@ == pad4(s@),
{
    let n = s.as_str().unicode_len();
    if n >= 4 {
        s
    } else if n == 3 {
        String::from_str(" ").concat(s.as_str())
    } else if n == 2 {
        String::from_str("  ").concat(s.as_str())
    } else {
        String::from_str("   ").concat(s.as_str())
    }
}

/// The text `{:?}` gives a string: quoted, with quotes, backslashes and
/// unprintable characters escaped.
pub uninterp spec fn debug_str_text(s: Seq<char>) -> Seq<char>;

/// Trusted: `<str as core::fmt::Debug>::fmt` (std), through `format!`. The
/// contract only names the result, which depends on the characters of `s`
/// alone; the escaping rules (Unicode printability tables) are not stated.
#[verifier::external_body]
fn debug_str(s: &str) -> (r: String)
    ensures
        r@ == debug_str_text(s@),
{
    format!("{:?}", s)
}

/// `{:?}` of the name at `n` (`Some("...")`, or `None` out of range).
pub open spec fn name_text(names: Seq<String>, n: u32) -> Seq<char> {
    if (n as int) < names.len() {
        "Some("@ + debug_str_text(names[n as int]@) + ")"@
    } else {
        "None"@
    }
}

fn name_str(names: &Vec<String>, n: u32) -> (r: String)
    ensures
        r@ == name_text(names@, n),
{
    if (n as usize) < names.len() {
        String::from_str("Some(").concat(debug_str(names[n as usize].as_str()).as_str()).concat(")")
    } else {
        String::from_str("None")
    }
}

/// `{:?}` of a constant (floats show their bit pattern).
pub open spec fn value_text(v: Value) -> Seq<char> {
    match v {
        Value::Int(i) => "Int("@ + int_text(i as int) + ")"@,
        Value::Float(b) => "Float("@ + dec_text(b as nat) + ")"@,
        Value::Bool(b) => "Bool("@ + bool_text(b) + ")"@,
        Value::Str(s) => "Str("@ + debug_str_text(s@) + ")"@,
        Value::Complex(a, b) => "Complex("@ + dec_text(a as nat) + ", "@ + dec_text(b as nat) + ")"@,
        Value::Undefined => "Undefined"@,
    }
}

/// `{:?}` of the constant at `i` (`Some(...)`, or `None` out of range).
pub open spec fn const_text(consts: Seq<Value>, i: u32) -> Seq<char> {
    if (i as int) < consts.len() {
        "Some("@ + value_text(consts[i as int]) + ")"@
    } else {
        "None"@
    }
}

fn value_str(v: &Value) -> (r: String)
    ensures
        r@ == value_text(*v),
{
    match v {
        Value::Int(i) => String::from_str("Int(").concat(fmt_int(*i).as_str()).concat(")"),
        Value::Float(b) => String::from_str("Float(").concat(fmt_base(*b, 10).as_str()).concat(")"),
        Value::Bool(b) => String::from_str("Bool(").concat(bool_str(*b)).concat(")"),
        Value::Str(s) => String::from_str("Str(").concat(debug_str(s.as_str()).as_str()).concat(")"),
        Value::Complex(a, b) => String::from_str("Complex(").concat(fmt_base(*a, 10).as_str()).concat(", ").concat(
            fmt_base(*b, 10).as_str(),
        ).concat(")"),
        Value::Undefined => String::from_str("Undefined"),
    }
}

fn const_str(consts: &Vec<Value>, i: u32) -> (r: String)
    ensures
        r@ == const_text(consts@, i),
{
    if (i as usize) < consts.len() {
        String::from_str("Some(").concat(value_str(&consts[i as usize]).as_str()).concat(")")
    } else {
        String::from_str("None")
    }
}

/// `true` / `false`.
pub open spec fn bool_text(b: bool) -> Seq<char> {
    if b {
        "true"@
    } else {
        "false"@
    }
}

fn bool_str(b: bool) -> (r: &'static str)
    ensures
        r@ == bool_text(b),
{
    if b {
        "true"
    } else {
        "false"
    }
}

/// Name of a binary operator.
pub open spec fn binop_text(op: BinOp) -> Seq<char> {
    match op {
        BinOp::Add => "Add"@,
        BinOp::Sub => "Sub"@,
        BinOp::Mul => "Mul"@,
        BinOp::Div => "Div"@,
        BinOp::FloorDiv => "FloorDiv"@,
        BinOp::Mod => "Mod"@,
        BinOp::Pow => "Pow"@,
        BinOp::BitAnd => "BitAnd"@,
        BinOp::BitOr => "BitOr"@,
        BinOp::BitXor => "BitXor"@,
        BinOp::LShift => "LShift"@,
        BinOp::RShift => "RShift"@,
        BinOp::Lt => "Lt"@,
        BinOp::Gt => "Gt"@,
        BinOp::LtEq => "LtEq"@,
        BinOp::GtEq => "GtEq"@,
        BinOp::Eq => "Eq"@,
        BinOp::NotEq => "NotEq"@,
        BinOp::And => "And"@,
        BinOp::Or => "Or"@,
    }
}

fn binop_str(op: BinOp) -> (r: &'static str)
    ensures
        r@ == binop_text(op),
{
    match op {
        BinOp::Add => "Add",
        BinOp::Sub => "Sub",
        BinOp::Mul => "Mul",
        BinOp::Div => "Div",
        BinOp::FloorDiv => "FloorDiv",
        BinOp::Mod => "Mod",
        BinOp::Pow => "Pow",
        BinOp::BitAnd => "BitAnd",
        BinOp::BitOr => "BitOr",
        BinOp::BitXor => "BitXor",
        BinOp::LShift => "LShift",
        BinOp::RShift => "RShift",
        BinOp::Lt => "Lt",
        BinOp::Gt => "Gt",
        BinOp::LtEq => "LtEq",
        BinOp::GtEq => "GtEq",
        BinOp::Eq => "Eq",
        BinOp::NotEq => "NotEq",
        BinOp::And => "And",
        BinOp::Or => "Or",
    }
}

/// Name of a unary operator.
pub open spec fn unop_text(op: UnaryOp) -> Seq<char> {
    match op {
        UnaryOp::Neg => "Neg"@,
        UnaryOp::Not => "Not"@,
        UnaryOp::BitNot => "BitNot"@,
    }
}

fn unop_str(op: UnaryOp) -> (r: &'static str)
    ensures
        r@ == unop_text(op),
{
    match op {
        UnaryOp::Neg => "Neg",
        UnaryOp::Not => "Not",
        UnaryOp::BitNot => "BitNot",
    }
}

/// Name of a declaration kind.
pub open spec fn decl_kind_text(k: DeclKind) -> Seq<char> {
    match k {
        DeclKind::Const => "Const"@,
        DeclKind::Mut => "Mut"@,
        DeclKind::LetPlain => "LetPlain"@,
        DeclKind::LetFreezeInstance => "LetFreezeInstance"@,
        DeclKind::LetFromIdent(n) => "LetFromIdent("@ + dec_text(n as nat) + ")"@,
    }
}

fn decl_kind_str(k: DeclKind) -> (r: String)
    ensures
        r@ == decl_kind_text(k),
{
    match k {
        DeclKind::Const => String::from_str("Const"),
        DeclKind::Mut => String::from_str("Mut"),
        DeclKind::LetPlain => String::from_str("LetPlain"),
        DeclKind::LetFreezeInstance => String::from_str("LetFreezeInstance"),
        DeclKind::LetFromIdent(n) => String::from_str("LetFromIdent(").concat(fmt_base(n as u64, 10).as_str()).concat(")"),
    }
}

/// One instruction as text (names and constants shown as `{:?}` shows them).
pub open spec fn op_text(op: Op, c: Chunk) -> Seq<char> {
    match op {
        Op::Const(i) => "CONST "@ + dec_text(i as nat) + " = "@ + const_text(c.consts@, i),
        Op::Nil => "NIL"@,
        Op::LoadLocal(x) => "LOAD_LOCAL "@ + dec_text(x as nat),
        Op::LoadGlobal(n, _) => "LOAD_GLOBAL "@ + name_text(c.names@, n),
        Op::StoreGlobal(n, _) => "STORE_GLOBAL "@ + name_text(c.names@, n),
        Op::StoreName(n) => "STORE_NAME "@ + name_text(c.names@, n),
        Op::StoreLocal(x) => "STORE_LOCAL "@ + dec_text(x as nat),
        Op::StoreLocalDeepCopy(x) => "STORE_LOCAL_DEEPCOPY "@ + dec_text(x as nat),
        Op::StoreLocalCopyFreeze(x) => "STORE_LOCAL_COPYFREEZE "@ + dec_text(x as nat),
        Op::StoreLocalFreezeInstance(x) => "STORE_LOCAL_FREEZE_INST "@ + dec_text(x as nat),
        Op::StoreLocalFromIdent(x, n) => "STORE_LOCAL_FROM_IDENT "@ + dec_text(x as nat) + " "@ + name_text(c.names@, n),
        Op::CallBuiltinKw(k) => "CALL_BUILTIN_KW kw["@ + dec_text(k as nat) + "]"@,
        Op::CallMethodKw(k) => "CALL_METHOD_KW kw["@ + dec_text(k as nat) + "]"@,
        Op::StaticInit(x, t) => "STATIC_INIT span="@ + dec_text(x as nat) + " after="@ + dec_text(t as nat),
        Op::StaticStore(x) => "STATIC_STORE span="@ + dec_text(x as nat),
        Op::LoadStatic(x) => "LOAD_STATIC span="@ + dec_text(x as nat),
        Op::StoreStatic(x) => "STORE_STATIC span="@ + dec_text(x as nat),
        Op::LoadCell(x) => "LOAD_CELL "@ + dec_text(x as nat),
        Op::StoreCell(x) => "STORE_CELL "@ + dec_text(x as nat),
        Op::StoreCellDeepCopy(x) => "STORE_CELL_DEEPCOPY "@ + dec_text(x as nat),
        Op::Pop => "POP"@,
        Op::Bin(o) => "BIN "@ + binop_text(o),
        Op::BinLocalLocal(a, b, o) => "BIN_LL "@ + dec_text(a as nat) + " "@ + dec_text(b as nat) + " "@ + binop_text(o),
        Op::BinLocalConst(a, k, o) => "BIN_LC "@ + dec_text(a as nat) + " const["@ + dec_text(k as nat) + "] "@ + binop_text(o),
        Op::IntBinLL(a, b, o) => "IBIN_LL "@ + dec_text(a as nat) + " "@ + dec_text(b as nat) + " "@ + binop_text(o),
        Op::IntBinLC(a, k, o) => "IBIN_LC "@ + dec_text(a as nat) + " const["@ + dec_text(k as nat) + "] "@ + binop_text(o),
        Op::FloatBinLL(a, b, o) => "FBIN_LL "@ + dec_text(a as nat) + " "@ + dec_text(b as nat) + " "@ + binop_text(o),
        Op::FloatBinLC(a, k, o) => "FBIN_LC "@ + dec_text(a as nat) + " const["@ + dec_text(k as nat) + "] "@ + binop_text(o),
        Op::IntBinSS(o) => "IBIN_SS "@ + binop_text(o),
        Op::FloatBinSS(o) => "FBIN_SS "@ + binop_text(o),
        Op::Un(o) => "UN "@ + unop_text(o),
        Op::GetAttr(n, _) => "GET_ATTR "@ + name_text(c.names@, n),
        Op::SetAttr(n) => "SET_ATTR "@ + name_text(c.names@, n),
        Op::Swap => "SWAP"@,
        Op::CallMethodLocal(x, n, a, m, _) => "CALL_METHOD_L "@ + dec_text(x as nat) + " name["@ + dec_text(n as nat) + "] argc="@ + dec_text(a as nat) + " mut="@ + base_text(m as nat, 2),
        Op::GetAttrLocal(x, n, k) => "GET_ATTR_L "@ + dec_text(x as nat) + " name["@ + dec_text(n as nat) + "] cache["@ + dec_text(k as nat) + "]"@,
        Op::IsType(n) => "IS_TYPE "@ + name_text(c.names@, n),
        Op::MustBe(t, x) => "MUSTBE name["@ + dec_text(t as nat) + "] span["@ + dec_text(x as nat) + "]"@,
        Op::Cast(t) => "CAST name["@ + dec_text(t as nat) + "]"@,
        Op::CallBuiltin(n, a) => "CALL_BUILTIN "@ + name_text(c.names@, n) + " argc="@ + dec_text(a as nat),
        Op::GetIter => "GET_ITER"@,
        Op::ForIter(it, tg, ex) => "FOR_ITER iter="@ + dec_text(it as nat) + " target="@ + dec_text(tg as nat) + " exit="@ + dec_text(ex as nat),
        Op::Jump(t) => "JUMP "@ + dec_text(t as nat),
        Op::JumpIfFalse(t) => "JUMP_IF_FALSE "@ + dec_text(t as nat),
        Op::JumpIfFalseOrPop(t) => "JUMP_IF_FALSE_OR_POP "@ + dec_text(t as nat),
        Op::JumpIfTrueOrPop(t) => "JUMP_IF_TRUE_OR_POP "@ + dec_text(t as nat),
        Op::Call(a, m, n, _, _) => "CALL "@ + name_text(c.names@, n) + " argc="@ + dec_text(a as nat) + " mut_mask="@ + "0x"@ + base_text(m as nat, 16),
        Op::CallMethod(n, a, m, _) => "CALL_METHOD "@ + name_text(c.names@, n) + " argc="@ + dec_text(a as nat) + " mut_mask="@ + "0x"@ + base_text(m as nat, 16),
        Op::Return => "RETURN"@,
        Op::ReturnNil => "RETURN_NIL"@,
        Op::SetupTry(h) => "SETUP_TRY "@ + dec_text(h as nat),
        Op::PopTry => "POP_TRY"@,
        Op::Raise(x) => "RAISE span="@ + dec_text(x as nat),
        Op::Reraise => "RERAISE"@,
        Op::Dup => "DUP"@,
        Op::ExcMatch(n) => "EXC_MATCH "@ + name_text(c.names@, n),
        Op::Fail(n) => "FAIL "@ + name_text(c.names@, n),
        Op::BuildEmptyList => "BUILD_EMPTY_LIST"@,
        Op::ListAppendLocal(x) => "LIST_APPEND_LOCAL "@ + dec_text(x as nat),
        Op::ListOrNone => "LIST_OR_NONE"@,
        Op::CheckBlockReturn(n) => "CHECK_BLOCK_RETURN "@ + name_text(c.names@, n),
        Op::CheckLoopYield(n) => "CHECK_LOOP_YIELD "@ + name_text(c.names@, n),
        Op::LoadName(n) => "LOAD_NAME "@ + name_text(c.names@, n),
        Op::DeclareName(n) => "DECLARE_NAME "@ + name_text(c.names@, n),
        Op::MakeFn(i) => "MAKE_FN def["@ + dec_text(i as nat) + "]"@,
        Op::UnpackTuple(x, n) => "UNPACK_TUPLE slot="@ + dec_text(x as nat) + " n="@ + dec_text(n as nat),
        Op::LetTuple(i) => "LET_TUPLE decl["@ + dec_text(i as nat) + "]"@,
        Op::FreezeVar(n, x) => "FREEZE "@ + name_text(c.names@, n) + " span="@ + dec_text(x as nat),
        Op::EventSubscribe(once, asy) => "EVENT_SUBSCRIBE once="@ + bool_text(once) + " async="@ + bool_text(asy),
        Op::EventUnsubscribe => "EVENT_UNSUBSCRIBE"@,
        Op::CallKw(k) => "CALL_KW kw["@ + dec_text(k as nat) + "]"@,
        Op::CallTemplate(i, a, m) => "CALL_TEMPLATE types["@ + dec_text(i as nat) + "] argc="@ + dec_text(a as nat) + " mut_mask="@ + "0x"@ + base_text(m as nat, 16),
        Op::BuildSlice => "BUILD_SLICE"@,
        Op::DeclareGlobal(n, k) => "DECLARE_GLOBAL "@ + name_text(c.names@, n) + " "@ + decl_kind_text(k),
        Op::LoadSelfClass => "LOAD_SELF_CLASS"@,
        Op::GetTraitAttr(t, a) => "GET_TRAIT_ATTR "@ + name_text(c.names@, t) + "::"@ + name_text(c.names@, a),
        Op::SetTraitAttr(t, a) => "SET_TRAIT_ATTR "@ + name_text(c.names@, t) + "::"@ + name_text(c.names@, a),
        Op::BreakPoint(x) => "BREAK_POINT span="@ + dec_text(x as nat),
        Op::Subscript => "SUBSCRIPT"@,
        Op::SetIndex => "SET_INDEX"@,
        Op::BuildList(n) => "BUILD_LIST "@ + dec_text(n as nat),
        Op::BuildTuple(n) => "BUILD_TUPLE "@ + dec_text(n as nat),
        Op::BuildSet(n) => "BUILD_SET "@ + dec_text(n as nat),
        Op::BuildDict(n) => "BUILD_DICT "@ + dec_text(n as nat),
        Op::Yield => "YIELD"@,
        Op::AsyncSubmit(i) => "ASYNC_SUBMIT block="@ + dec_text(i as nat),
    }
}

/// One instruction as text.
#[verifier::rlimit(40)]
pub fn fmt_op(op: &Op, chunk: &Chunk) -> (r: String)
    ensures
        r@ == op_text(*op, *chunk),
{
    match op {
        Op::Const(i) => String::from_str("CONST ").concat(fmt_base(*i as u64, 10).as_str()).concat(String::from_str(" = ").as_str()).concat(const_str(&chunk.consts, *i).as_str()),
        Op::Nil => String::from_str("NIL"),
        Op::LoadLocal(x) => String::from_str("LOAD_LOCAL ").concat(fmt_base(*x as u64, 10).as_str()),
        Op::LoadGlobal(n, _) => String::from_str("LOAD_GLOBAL ").concat(name_str(&chunk.names, *n).as_str()),
        Op::StoreGlobal(n, _) => String::from_str("STORE_GLOBAL ").concat(name_str(&chunk.names, *n).as_str()),
        Op::StoreName(n) => String::from_str("STORE_NAME ").concat(name_str(&chunk.names, *n).as_str()),
        Op::StoreLocal(x) => String::from_str("STORE_LOCAL ").concat(fmt_base(*x as u64, 10).as_str()),
        Op::StoreLocalDeepCopy(x) => String::from_str("STORE_LOCAL_DEEPCOPY ").concat(fmt_base(*x as u64, 10).as_str()),
        Op::StoreLocalCopyFreeze(x) => String::from_str("STORE_LOCAL_COPYFREEZE ").concat(fmt_base(*x as u64, 10).as_str()),
        Op::StoreLocalFreezeInstance(x) => String::from_str("STORE_LOCAL_FREEZE_INST ").concat(fmt_base(*x as u64, 10).as_str()),
        Op::StoreLocalFromIdent(x, n) => String::from_str("STORE_LOCAL_FROM_IDENT ").concat(fmt_base(*x as u64, 10).as_str()).concat(String::from_str(" ").as_str()).concat(name_str(&chunk.names, *n).as_str()),
        Op::CallBuiltinKw(k) => String::from_str("CALL_BUILTIN_KW kw[").concat(fmt_base(*k as u64, 10).as_str()).concat(String::from_str("]").as_str()),
        Op::CallMethodKw(k) => String::from_str("CALL_METHOD_KW kw[").concat(fmt_base(*k as u64, 10).as_str()).concat(String::from_str("]").as_str()),
        Op::StaticInit(x, t) => String::from_str("STATIC_INIT span=").concat(fmt_base(*x as u64, 10).as_str()).concat(String::from_str(" after=").as_str()).concat(fmt_base(*t as u64, 10).as_str()),
        Op::StaticStore(x) => String::from_str("STATIC_STORE span=").concat(fmt_base(*x as u64, 10).as_str()),
        Op::LoadStatic(x) => String::from_str("LOAD_STATIC span=").concat(fmt_base(*x as u64, 10).as_str()),
        Op::StoreStatic(x) => String::from_str("STORE_STATIC span=").concat(fmt_base(*x as u64, 10).as_str()),
        Op::LoadCell(x) => String::from_str("LOAD_CELL ").concat(fmt_base(*x as u64, 10).as_str()),
        Op::StoreCell(x) => String::from_str("STORE_CELL ").concat(fmt_base(*x as u64, 10).as_str()),
        Op::StoreCellDeepCopy(x) => String::from_str("STORE_CELL_DEEPCOPY ").concat(fmt_base(*x as u64, 10).as_str()),
        Op::Pop => String::from_str("POP"),
        Op::Bin(o) => String::from_str("BIN ").concat(String::from_str(binop_str(*o)).as_str()),
        Op::BinLocalLocal(a, b, o) => String::from_str("BIN_LL ").concat(fmt_base(*a as u64, 10).as_str()).concat(String::from_str(" ").as_str()).concat(fmt_base(*b as u64, 10).as_str()).concat(String::from_str(" ").as_str()).concat(String::from_str(binop_str(*o)).as_str()),
        Op::BinLocalConst(a, k, o) => String::from_str("BIN_LC ").concat(fmt_base(*a as u64, 10).as_str()).concat(String::from_str(" const[").as_str()).concat(fmt_base(*k as u64, 10).as_str()).concat(String::from_str("] ").as_str()).concat(String::from_str(binop_str(*o)).as_str()),
        Op::IntBinLL(a, b, o) => String::from_str("IBIN_LL ").concat(fmt_base(*a as u64, 10).as_str()).concat(String::from_str(" ").as_str()).concat(fmt_base(*b as u64, 10).as_str()).concat(String::from_str(" ").as_str()).concat(String::from_str(binop_str(*o)).as_str()),
        Op::IntBinLC(a, k, o) => String::from_str("IBIN_LC ").concat(fmt_base(*a as u64, 10).as_str()).concat(String::from_str(" const[").as_str()).concat(fmt_base(*k as u64, 10).as_str()).concat(String::from_str("] ").as_str()).concat(String::from_str(binop_str(*o)).as_str()),
        Op::FloatBinLL(a, b, o) => String::from_str("FBIN_LL ").concat(fmt_base(*a as u64, 10).as_str()).concat(String::from_str(" ").as_str()).concat(fmt_base(*b as u64, 10).as_str()).concat(String::from_str(" ").as_str()).concat(String::from_str(binop_str(*o)).as_str()),
        Op::FloatBinLC(a, k, o) => String::from_str("FBIN_LC ").concat(fmt_base(*a as u64, 10).as_str()).concat(String::from_str(" const[").as_str()).concat(fmt_base(*k as u64, 10).as_str()).concat(String::from_str("] ").as_str()).concat(String::from_str(binop_str(*o)).as_str()),
        Op::IntBinSS(o) => String::from_str("IBIN_SS ").concat(String::from_str(binop_str(*o)).as_str()),
        Op::FloatBinSS(o) => String::from_str("FBIN_SS ").concat(String::from_str(binop_str(*o)).as_str()),
        Op::Un(o) => String::from_str("UN ").concat(String::from_str(unop_str(*o)).as_str()),
        Op::GetAttr(n, _) => String::from_str("GET_ATTR ").concat(name_str(&chunk.names, *n).as_str()),
        Op::SetAttr(n) => String::from_str("SET_ATTR ").concat(name_str(&chunk.names, *n).as_str()),
        Op::Swap => String::from_str("SWAP"),
        Op::CallMethodLocal(x, n, a, m, _) => String::from_str("CALL_METHOD_L ").concat(fmt_base(*x as u64, 10).as_str()).concat(String::from_str(" name[").as_str()).concat(fmt_base(*n as u64, 10).as_str()).concat(String::from_str("] argc=").as_str()).concat(fmt_base(*a as u64, 10).as_str()).concat(String::from_str(" mut=").as_str()).concat(fmt_base(*m as u64, 2).as_str()),
        Op::GetAttrLocal(x, n, k) => String::from_str("GET_ATTR_L ").concat(fmt_base(*x as u64, 10).as_str()).concat(String::from_str(" name[").as_str()).concat(fmt_base(*n as u64, 10).as_str()).concat(String::from_str("] cache[").as_str()).concat(fmt_base(*k as u64, 10).as_str()).concat(String::from_str("]").as_str()),
        Op::IsType(n) => String::from_str("IS_TYPE ").concat(name_str(&chunk.names, *n).as_str()),
        Op::MustBe(t, x) => String::from_str("MUSTBE name[").concat(fmt_base(*t as u64, 10).as_str()).concat(String::from_str("] span[").as_str()).concat(fmt_base(*x as u64, 10).as_str()).concat(String::from_str("]").as_str()),
        Op::Cast(t) => String::from_str("CAST name[").concat(fmt_base(*t as u64, 10).as_str()).concat(String::from_str("]").as_str()),
        Op::CallBuiltin(n, a) => String::from_str("CALL_BUILTIN ").concat(name_str(&chunk.names, *n).as_str()).concat(String::from_str(" argc=").as_str()).concat(fmt_base(*a as u64, 10).as_str()),
        Op::GetIter => String::from_str("GET_ITER"),
        Op::ForIter(it, tg, ex) => String::from_str("FOR_ITER iter=").concat(fmt_base(*it as u64, 10).as_str()).concat(String::from_str(" target=").as_str()).concat(fmt_base(*tg as u64, 10).as_str()).concat(String::from_str(" exit=").as_str()).concat(fmt_base(*ex as u64, 10).as_str()),
        Op::Jump(t) => String::from_str("JUMP ").concat(fmt_base(*t as u64, 10).as_str()),
        Op::JumpIfFalse(t) => String::from_str("JUMP_IF_FALSE ").concat(fmt_base(*t as u64, 10).as_str()),
        Op::JumpIfFalseOrPop(t) => String::from_str("JUMP_IF_FALSE_OR_POP ").concat(fmt_base(*t as u64, 10).as_str()),
        Op::JumpIfTrueOrPop(t) => String::from_str("JUMP_IF_TRUE_OR_POP ").concat(fmt_base(*t as u64, 10).as_str()),
        Op::Call(a, m, n, _, _) => String::from_str("CALL ").concat(name_str(&chunk.names, *n).as_str()).concat(String::from_str(" argc=").as_str()).concat(fmt_base(*a as u64, 10).as_str()).concat(String::from_str(" mut_mask=").as_str()).concat(String::from_str("0x").concat(fmt_base(*m as u64, 16).as_str()).as_str()),
        Op::CallMethod(n, a, m, _) => String::from_str("CALL_METHOD ").concat(name_str(&chunk.names, *n).as_str()).concat(String::from_str(" argc=").as_str()).concat(fmt_base(*a as u64, 10).as_str()).concat(String::from_str(" mut_mask=").as_str()).concat(String::from_str("0x").concat(fmt_base(*m as u64, 16).as_str()).as_str()),
        Op::Return => String::from_str("RETURN"),
        Op::ReturnNil => String::from_str("RETURN_NIL"),
        Op::SetupTry(h) => String::from_str("SETUP_TRY ").concat(fmt_base(*h as u64, 10).as_str()),
        Op::PopTry => String::from_str("POP_TRY"),
        Op::Raise(x) => String::from_str("RAISE span=").concat(fmt_base(*x as u64, 10).as_str()),
        Op::Reraise => String::from_str("RERAISE"),
        Op::Dup => String::from_str("DUP"),
        Op::ExcMatch(n) => String::from_str("EXC_MATCH ").concat(name_str(&chunk.names, *n).as_str()),
        Op::Fail(n) => String::from_str("FAIL ").concat(name_str(&chunk.names, *n).as_str()),
        Op::BuildEmptyList => String::from_str("BUILD_EMPTY_LIST"),
        Op::ListAppendLocal(x) => String::from_str("LIST_APPEND_LOCAL ").concat(fmt_base(*x as u64, 10).as_str()),
        Op::ListOrNone => String::from_str("LIST_OR_NONE"),
        Op::CheckBlockReturn(n) => String::from_str("CHECK_BLOCK_RETURN ").concat(name_str(&chunk.names, *n).as_str()),
        Op::CheckLoopYield(n) => String::from_str("CHECK_LOOP_YIELD ").concat(name_str(&chunk.names, *n).as_str()),
        Op::LoadName(n) => String::from_str("LOAD_NAME ").concat(name_str(&chunk.names, *n).as_str()),
        Op::DeclareName(n) => String::from_str("DECLARE_NAME ").concat(name_str(&chunk.names, *n).as_str()),
        Op::MakeFn(i) => String::from_str("MAKE_FN def[").concat(fmt_base(*i as u64, 10).as_str()).concat(String::from_str("]").as_str()),
        Op::UnpackTuple(x, n) => String::from_str("UNPACK_TUPLE slot=").concat(fmt_base(*x as u64, 10).as_str()).concat(String::from_str(" n=").as_str()).concat(fmt_base(*n as u64, 10).as_str()),
        Op::LetTuple(i) => String::from_str("LET_TUPLE decl[").concat(fmt_base(*i as u64, 10).as_str()).concat(String::from_str("]").as_str()),
        Op::FreezeVar(n, x) => String::from_str("FREEZE ").concat(name_str(&chunk.names, *n).as_str()).concat(String::from_str(" span=").as_str()).concat(fmt_base(*x as u64, 10).as_str()),
        Op::EventSubscribe(once, asy) => String::from_str("EVENT_SUBSCRIBE once=").concat(String::from_str(bool_str(*once)).as_str()).concat(String::from_str(" async=").as_str()).concat(String::from_str(bool_str(*asy)).as_str()),
        Op::EventUnsubscribe => String::from_str("EVENT_UNSUBSCRIBE"),
        Op::CallKw(k) => String::from_str("CALL_KW kw[").concat(fmt_base(*k as u64, 10).as_str()).concat(String::from_str("]").as_str()),
        Op::CallTemplate(i, a, m) => String::from_str("CALL_TEMPLATE types[").concat(fmt_base(*i as u64, 10).as_str()).concat(String::from_str("] argc=").as_str()).concat(fmt_base(*a as u64, 10).as_str()).concat(String::from_str(" mut_mask=").as_str()).concat(String::from_str("0x").concat(fmt_base(*m as u64, 16).as_str()).as_str()),
        Op::BuildSlice => String::from_str("BUILD_SLICE"),
        Op::DeclareGlobal(n, k) => String::from_str("DECLARE_GLOBAL ").concat(name_str(&chunk.names, *n).as_str()).concat(String::from_str(" ").as_str()).concat(decl_kind_str(*k).as_str()),
        Op::LoadSelfClass => String::from_str("LOAD_SELF_CLASS"),
        Op::GetTraitAttr(t, a) => String::from_str("GET_TRAIT_ATTR ").concat(name_str(&chunk.names, *t).as_str()).concat(String::from_str("::").as_str()).concat(name_str(&chunk.names, *a).as_str()),
        Op::SetTraitAttr(t, a) => String::from_str("SET_TRAIT_ATTR ").concat(name_str(&chunk.names, *t).as_str()).concat(String::from_str("::").as_str()).concat(name_str(&chunk.names, *a).as_str()),
        Op::BreakPoint(x) => String::from_str("BREAK_POINT span=").concat(fmt_base(*x as u64, 10).as_str()),
        Op::Subscript => String::from_str("SUBSCRIPT"),
        Op::SetIndex => String::from_str("SET_INDEX"),
        Op::BuildList(n) => String::from_str("BUILD_LIST ").concat(fmt_base(*n as u64, 10).as_str()),
        Op::BuildTuple(n) => String::from_str("BUILD_TUPLE ").concat(fmt_base(*n as u64, 10).as_str()),
        Op::BuildSet(n) => String::from_str("BUILD_SET ").concat(fmt_base(*n as u64, 10).as_str()),
        Op::BuildDict(n) => String::from_str("BUILD_DICT ").concat(fmt_base(*n as u64, 10).as_str()),
        Op::Yield => String::from_str("YIELD"),
        Op::AsyncSubmit(i) => String::from_str("ASYNC_SUBMIT block=").concat(fmt_base(*i as u64, 10).as_str()),
    }
}

/// The listing of the first `k` instructions: index (right-aligned in four
/// columns), two spaces, the instruction, a newline.
pub open spec fn listing(c: Chunk, k: nat) -> Seq<char>
    decreases k,
{
    if k == 0 || k > c.code@.len() {
        Seq::empty()
    } else {
        listing(c, (k - 1) as nat) + pad4(dec_text((k - 1) as nat)) + "  "@ + op_text(c.code@[k - 1], c) + "\n"@
    }
}

/// The whole listing: a header with the chunk's name and frame size, then
/// every instruction.
pub open spec fn disasm_text(c: Chunk, name: Seq<char>) -> Seq<char> {
    "== chunk "@ + name + " (n_locals="@ + dec_text(c.n_locals as nat) + ") ==\n"@ + listing(c, c.code@.len())
}

/// Human-readable listing of `chunk`, headed by `name`.
pub fn disassemble(chunk: &Chunk, name: &str) -> (r: String)
    ensures
        r@ == disasm_text(*chunk, name@),
{
    let mut out = String::from_str("== chunk ").concat(name).concat(" (n_locals=").concat(
        fmt_base(chunk.n_locals as u64, 10).as_str(),
    ).concat(") ==\n");
    let ghost head = out@;
    let mut i: usize = 0;
    while i < chunk.code.len()
        invariant
            i <= chunk.code@.len(),
            out@ == head + listing(*chunk, i as nat),
            head == "== chunk "@ + name@ + " (n_locals="@ + dec_text(chunk.n_locals as nat) + ") ==\n"@,
        decreases chunk.code@.len() - i,
    {
        let line = fmt_pad4(fmt_base(i as u64, 10)).concat("  ").concat(fmt_op(&chunk.code[i], chunk).as_str()).concat("\n");
        out = out.concat(line.as_str());
        i = i + 1;
    }
    out
}

} // verus!

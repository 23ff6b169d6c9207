//! Instruction set of the stack machine.
//!
//! Instructions are laid out linearly in `Chunk::code`; jump destinations are
//! absolute indices into that vector (back-patched by the compiler).
use vstd::prelude::*;

use crate::ast::{BinOp, UnaryOp};

verus! {

/// One VM instruction.
#[derive(Debug, Clone, Copy)]
pub enum Op {
    /// Push `consts[idx]`.
    Const(u32),
    /// Push `None`.
    Nil,
    /// Push `locals[slot]`.
    LoadLocal(u16),
    /// Read a global: `(name_idx, cache_idx)`.
    LoadGlobal(u32, u32),
    /// Pop and assign to an existing global: `(name_idx, cache_idx)`.
    StoreGlobal(u32, u32),
    /// Pop and assign through the scope chain (module bodies): `name_idx`.
    StoreName(u32),
    /// Pop into `locals[slot]` as is.
    StoreLocal(u16),
    /// Pop, deep-copy, store (`mut` declarations).
    StoreLocalDeepCopy(u16),
    /// Pop, deep-copy and freeze, store (`let` from a mutable source).
    StoreLocalCopyFreeze(u16),
    /// Pop, copy+freeze only instances, store (`let` from a non-identifier).
    StoreLocalFreezeInstance(u16),
    /// Pop and decide the `let x = <ident>` copy rule at run time: `(slot, source name_idx)`.
    StoreLocalFromIdent(u16, u32),
    /// Builtin call with keyword arguments: index into `kw_calls`.
    CallBuiltinKw(u32),
    /// Method call with keyword / variadic arguments: index into `kw_calls`.
    CallMethodKw(u32),
    /// `static mut` initialisation guard: `(span_idx, ip after the initialiser)`.
    StaticInit(u32, u32),
    /// Create the `static` cell from the popped value: `span_idx`.
    StaticStore(u32),
    /// Read a `static` variable: `span_idx`.
    LoadStatic(u32),
    /// Write a `static` variable: `span_idx`.
    StoreStatic(u32),
    /// Read a cell variable: cell index.
    LoadCell(u16),
    /// Write a cell variable: cell index.
    StoreCell(u16),
    /// Initialise a cell variable with a deep copy (`mut x = e`): cell index.
    StoreCellDeepCopy(u16),
    /// Discard the top of the stack.
    Pop,
    /// Binary operation on the two topmost values.
    Bin(BinOp),
    /// Fused `local[a] <op> local[b]`.
    BinLocalLocal(u16, u16, BinOp),
    /// Fused `local[a] <op> consts[idx]`.
    BinLocalConst(u16, u32, BinOp),
    /// `local[a] <op> local[b]`, both known to be int.
    IntBinLL(u16, u16, BinOp),
    /// `local[a] <op> consts[idx]`, both known to be int.
    IntBinLC(u16, u32, BinOp),
    /// `local[a] <op> local[b]`, both known to be float.
    FloatBinLL(u16, u16, BinOp),
    /// `local[a] <op> consts[idx]`, both known to be float.
    FloatBinLC(u16, u32, BinOp),
    /// Two stack values, both known to be int.
    IntBinSS(BinOp),
    /// Two stack values, both known to be float.
    FloatBinSS(BinOp),
    /// Unary operation on the top of the stack.
    Un(UnaryOp),
    /// Attribute read: `(name_idx, cache_idx)`.
    GetAttr(u32, u32),
    /// Attribute write (stack `[obj, value]`): `name_idx`.
    SetAttr(u32),
    /// Swap the two topmost values.
    Swap,
    /// Fused `local[slot].method(args)`: `(slot, name_idx, argc, mut_mask, node_id)`.
    CallMethodLocal(u16, u32, u16, u32, u32),
    /// Fused `local[slot].attr`: `(slot, name_idx, cache_idx)`.
    GetAttrLocal(u16, u32, u32),
    /// Type test against `names[idx]`.
    IsType(u32),
    /// `expr mustbe T`: `(type name_idx, span_idx)`.
    MustBe(u32, u32),
    /// `expr => T`: type name_idx.
    Cast(u32),
    /// Builtin call with positional arguments: `(name_idx, argc)`.
    CallBuiltin(u32, u16),
    /// Replace the iterable on the stack by its iterator.
    GetIter,
    /// Advance the iterator in `locals[iter_slot]`: `(iter_slot, target_slot, exit_ip)`.
    ForIter(u16, u16, u32),
    /// Unconditional jump.
    Jump(u32),
    /// Pop; jump when falsy.
    JumpIfFalse(u32),
    /// Jump keeping the value when falsy, else pop (`and`).
    JumpIfFalseOrPop(u32),
    /// Jump keeping the value when truthy, else pop (`or`).
    JumpIfTrueOrPop(u32),
    /// Call: `(argc, mut_mask, name_idx, span_idx, node_id)`.
    Call(u16, u32, u32, u32, u32),
    /// Method call: `(name_idx, argc, mut_mask, node_id)`.
    CallMethod(u32, u16, u32, u32),
    /// Return the top of the stack.
    Return,
    /// Return `None`.
    ReturnNil,
    /// Enter a `try` body: handler ip.
    SetupTry(u32),
    /// Leave a `try` body normally.
    PopTry,
    /// `raise expr`: span_idx.
    Raise(u32),
    /// Re-raise the current exception.
    Reraise,
    /// Duplicate the top of the stack.
    Dup,
    /// Does the popped exception match `names[idx]`.
    ExcMatch(u32),
    /// Stop with the internal error message `names[idx]`.
    Fail(u32),
    /// Push an empty list.
    BuildEmptyList,
    /// Append the popped value to the list in `locals[slot]`.
    ListAppendLocal(u16),
    /// Replace an empty list by `None`.
    ListOrNone,
    /// Run-time check of a `block_return` value against `names[idx]`.
    CheckBlockReturn(u32),
    /// Run-time check of a `loop_yield` value against `names[idx]`.
    CheckLoopYield(u32),
    /// Push a variable looked up by name: name_idx.
    LoadName(u32),
    /// Declare the popped value under `names[idx]` in the current scope.
    DeclareName(u32),
    /// Build a nested function from `fn_defs[idx]`.
    MakeFn(u32),
    /// Unpack the tuple in `locals[src_slot]`: `(src_slot, count)`.
    UnpackTuple(u16, u16),
    /// `let a, b = t`: index into `tuple_decls`.
    LetTuple(u32),
    /// `freeze x`: `(name_idx, span_idx)`.
    FreezeVar(u32, u32),
    /// `src on/once handler`: `(is_once, is_async)`.
    EventSubscribe(bool, bool),
    /// `src off handler`.
    EventUnsubscribe,
    /// Call with keyword / variadic arguments: index into `kw_calls`.
    CallKw(u32),
    /// Template call: `(type_arg_lists idx, argc, mut_mask)`.
    CallTemplate(u32, u16, u32),
    /// Build a slice value from `[begin, end, step]`.
    BuildSlice,
    /// Declare a new global from the popped value: `(name_idx, kind)`.
    DeclareGlobal(u32, DeclKind),
    /// Push the class of the method receiver (`Self`).
    LoadSelfClass,
    /// `obj::Trait.attr` read: `(trait name_idx, attr name_idx)`.
    GetTraitAttr(u32, u32),
    /// `obj::Trait.attr = v`: `(trait name_idx, attr name_idx)`.
    SetTraitAttr(u32, u32),
    /// Enter the debugger REPL at `spans[idx]`.
    BreakPoint(u32),
    /// `obj[key]`.
    Subscript,
    /// `obj[key] = value`.
    SetIndex,
    /// Build a list from the top `n` values.
    BuildList(u16),
    /// Build a tuple from the top `n` values.
    BuildTuple(u16),
    /// Build a set from the top `n` values.
    BuildSet(u16),
    /// Build a dict from the top `2n` values.
    BuildDict(u16),
    /// `yield expr`.
    Yield,
    /// Submit `async_blocks[idx]` to the popped manager.
    AsyncSubmit(u32),
}

/// Kind of a top-level declaration (operand of `Op::DeclareGlobal`).
#[derive(Debug, Clone, Copy, PartialEq, Eq)]
pub enum DeclKind {
    /// `const x = e`
    Const,
    /// `mut x = e`
    Mut,
    /// `let x = e` from an immutable source or a literal.
    LetPlain,
    /// `let x = e` from a non-identifier expression.
    LetFreezeInstance,
    /// `let x = <identifier>`: name index of the source.
    LetFromIdent(u32),
}

} // verus!

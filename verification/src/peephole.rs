//! Peephole optimisation of generated code (meaning-preserving).
//!
//! Runs once after code generation. Two rewrites:
//!
//! 1. **Jump-chain collapsing**: a code target that lands on an unconditional
//!    `Jump` is redirected along the chain of jumps (at most `MAX_CHAIN` steps).
//! 2. **Removal of jumps to the next instruction**: `i: Jump(i + 1)` does
//!    nothing and is deleted, unless it starts a statement; every code index
//!    and the statement line table are renumbered with the same map.
use vstd::prelude::*;

use crate::chunk::{code_target, code_wf, op_wf, with_target, Pools, NOT_STMT};
use crate::op::Op;

verus! {

/// How many jumps a chain is followed (guards against jump cycles).
pub const MAX_CHAIN: usize = 64;

/// How many rounds of both rewrites are run at most.
pub const MAX_PASSES: usize = 8;

// ---------------------------------------------------------------------------
// Specification
// ---------------------------------------------------------------------------

/// Where control arriving at `t` goes next without doing anything: the
/// destination of an unconditional jump at `t` (a jump to itself, a position
/// outside the code and any other instruction stay put).
pub open spec fn jump_step(code: Seq<Op>, t: int) -> int {
    if 0 <= t < code.len() {
        match code[t] {
            Op::Jump(next) => if next != t {
                next as int
            } else {
                t
            },
            _ => t,
        }
    } else {
        t
    }
}

/// Position after following `k` jump steps from `t`.
pub open spec fn chain(code: Seq<Op>, t: int, k: nat) -> int
    decreases k,
{
    if k == 0 {
        t
    } else {
        jump_step(code, chain(code, t, (k - 1) as nat))
    }
}

/// `op` with its code target (if any) moved to the end of its jump chain.
pub open spec fn collapse_op(code: Seq<Op>, op: Op) -> Op {
    match code_target(op) {
        Some(t) => with_target(op, chain(code, t as int, MAX_CHAIN as nat) as u32),
        None => op,
    }
}

/// Result of jump-chain collapsing: chains are read in the input code.
pub open spec fn collapse_code(code: Seq<Op>) -> Seq<Op> {
    code.map_values(|op: Op| collapse_op(code, op))
}

/// Instruction `i` is a jump to the next instruction that does not start a
/// statement (the line table is empty or marks `i` as `NOT_STMT`).
pub open spec fn removable(code: Seq<Op>, spans: Seq<u32>, i: int) -> bool {
    &&& !(i < spans.len() && spans[i] != NOT_STMT)
    &&& code[i] == Op::Jump((i + 1) as u32)
}

/// Number of instructions before `i` that survive the removal; this is also
/// the new index of instruction `i` (and of the end of the code for `i == len`).
pub open spec fn kept_count(code: Seq<Op>, spans: Seq<u32>, i: int) -> int
    decreases i,
{
    if i <= 0 {
        0
    } else if removable(code, spans, i - 1) {
        kept_count(code, spans, i - 1)
    } else {
        kept_count(code, spans, i - 1) + 1
    }
}

/// The surviving instructions among the first `i`, in order, not yet renumbered.
pub open spec fn compact_code(code: Seq<Op>, spans: Seq<u32>, i: int) -> Seq<Op>
    decreases i,
{
    if i <= 0 {
        Seq::empty()
    } else if removable(code, spans, i - 1) {
        compact_code(code, spans, i - 1)
    } else {
        compact_code(code, spans, i - 1).push(code[i - 1])
    }
}

/// The line-table entries of the surviving instructions among the first `i`.
pub open spec fn compact_spans(code: Seq<Op>, spans: Seq<u32>, i: int) -> Seq<u32>
    decreases i,
{
    if i <= 0 {
        Seq::empty()
    } else if removable(code, spans, i - 1) {
        compact_spans(code, spans, i - 1)
    } else {
        compact_spans(code, spans, i - 1).push(spans[i - 1])
    }
}

/// `op` with its code target renumbered (targets past the end stay as they are).
pub open spec fn renumber_op(code: Seq<Op>, spans: Seq<u32>, op: Op) -> Op {
    match code_target(op) {
        Some(t) => if t <= code.len() {
            with_target(op, kept_count(code, spans, t as int) as u32)
        } else {
            op
        },
        None => op,
    }
}

/// Code after removing the jumps to the next instruction.
pub open spec fn remove_code(code: Seq<Op>, spans: Seq<u32>) -> Seq<Op> {
    compact_code(code, spans, code.len() as int).map_values(|op: Op| renumber_op(code, spans, op))
}

/// Line table after the removal (an empty table stays empty).
pub open spec fn remove_spans(code: Seq<Op>, spans: Seq<u32>) -> Seq<u32> {
    if spans.len() == 0 {
        spans
    } else {
        compact_spans(code, spans, code.len() as int)
    }
}

/// Some instruction can be removed.
pub open spec fn any_removable(code: Seq<Op>, spans: Seq<u32>) -> bool {
    exists|i: int| 0 <= i < code.len() && removable(code, spans, i)
}

/// The whole optimisation: rounds of collapsing then removal, until a round
/// changes nothing or `fuel` rounds have run.
pub open spec fn optimize_spec(code: Seq<Op>, spans: Seq<u32>, fuel: nat) -> (Seq<Op>, Seq<u32>)
    decreases fuel,
{
    if fuel == 0 {
        (code, spans)
    } else {
        let c1 = collapse_code(code);
        let c2 = remove_code(c1, spans);
        let s2 = remove_spans(c1, spans);
        if c1 == code && !any_removable(c1, spans) {
            (c2, s2)
        } else {
            optimize_spec(c2, s2, (fuel - 1) as nat)
        }
    }
}

// ---------------------------------------------------------------------------
// Lemmas
// ---------------------------------------------------------------------------

proof fn lemma_chain_fixed(code: Seq<Op>, t: int, j: nat, k: nat)
    requires
        j <= k,
        jump_step(code, chain(code, t, j)) == chain(code, t, j),
    ensures
        chain(code, t, k) == chain(code, t, j),
    decreases k,
{
    if k > j {
        lemma_chain_fixed(code, t, j, (k - 1) as nat);
    }
}

proof fn lemma_chain_u32(code: Seq<Op>, t: int, k: nat)
    requires
        0 <= t <= u32::MAX,
    ensures
        0 <= chain(code, t, k) <= u32::MAX,
    decreases k,
{
    if k > 0 {
        lemma_chain_u32(code, t, (k - 1) as nat);
    }
}

proof fn lemma_chain_outside(code: Seq<Op>, t: int, k: nat)
    requires
        t >= code.len(),
    ensures
        chain(code, t, k) == t,
    decreases k,
{
    if k > 0 {
        lemma_chain_outside(code, t, (k - 1) as nat);
    }
}

proof fn lemma_with_target_same(op: Op)
    requires
        code_target(op) is Some,
    ensures
        with_target(op, code_target(op)->0) == op,
{
}

proof fn lemma_with_target_target(op: Op, t: u32)
    requires
        code_target(op) is Some,
    ensures
        code_target(with_target(op, t)) == Some(t),
{
}


proof fn lemma_kept_count_step(code: Seq<Op>, spans: Seq<u32>, i: int)
    requires
        0 <= i,
    ensures
        kept_count(code, spans, i + 1) == kept_count(code, spans, i) + (if removable(code, spans, i) {
            0int
        } else {
            1int
        }),
        0 <= kept_count(code, spans, i) <= i,
    decreases i,
{
    if i > 0 {
        lemma_kept_count_step(code, spans, i - 1);
    }
}

proof fn lemma_kept_count_mono(code: Seq<Op>, spans: Seq<u32>, i: int, j: int)
    requires
        0 <= i <= j,
    ensures
        kept_count(code, spans, i) <= kept_count(code, spans, j),
    decreases j - i,
{
    if i < j {
        lemma_kept_count_mono(code, spans, i, j - 1);
        lemma_kept_count_step(code, spans, j - 1);
    }
}

proof fn lemma_compact_code(code: Seq<Op>, spans: Seq<u32>, i: int)
    requires
        0 <= i <= code.len(),
    ensures
        compact_code(code, spans, i).len() == kept_count(code, spans, i),
        forall|j: int|
            0 <= j < i && !removable(code, spans, j) ==> compact_code(code, spans, i)[kept_count(
                code,
                spans,
                j,
            )] == code[j],
    decreases i,
{
    if i > 0 {
        lemma_compact_code(code, spans, i - 1);
        lemma_kept_count_step(code, spans, i - 1);
        assert forall|j: int|
            0 <= j < i && !removable(code, spans, j) implies compact_code(code, spans, i)[kept_count(
            code,
            spans,
            j,
        )] == code[j] by {
            if j < i - 1 {
                lemma_kept_count_mono(code, spans, j + 1, i - 1);
                lemma_kept_count_step(code, spans, j);
            }
        }
    }
}

proof fn lemma_compact_spans(code: Seq<Op>, spans: Seq<u32>, i: int)
    requires
        0 <= i <= code.len(),
        i <= spans.len(),
    ensures
        compact_spans(code, spans, i).len() == kept_count(code, spans, i),
        forall|j: int|
            0 <= j < i && !removable(code, spans, j) ==> compact_spans(code, spans, i)[kept_count(
                code,
                spans,
                j,
            )] == spans[j],
    decreases i,
{
    if i > 0 {
        lemma_compact_spans(code, spans, i - 1);
        lemma_kept_count_step(code, spans, i - 1);
        assert forall|j: int|
            0 <= j < i && !removable(code, spans, j) implies compact_spans(code, spans, i)[kept_count(
            code,
            spans,
            j,
        )] == spans[j] by {
            if j < i - 1 {
                lemma_kept_count_mono(code, spans, j + 1, i - 1);
                lemma_kept_count_step(code, spans, j);
            }
        }
    }
}

/// Without a removable instruction the removal is the identity.
proof fn lemma_nothing_removable(code: Seq<Op>, spans: Seq<u32>, i: int)
    requires
        0 <= i <= code.len(),
        !any_removable(code, spans),
    ensures
        kept_count(code, spans, i) == i,
        compact_code(code, spans, i) == code.take(i),
        i <= spans.len() ==> compact_spans(code, spans, i) == spans.take(i),
    decreases i,
{
    if i > 0 {
        assert(!removable(code, spans, i - 1));
        lemma_nothing_removable(code, spans, i - 1);
        assert(compact_code(code, spans, i) =~= code.take(i));
        if i <= spans.len() {
            assert(compact_spans(code, spans, i) =~= spans.take(i));
        }
    }
}


/// Lengths after one removal round.
proof fn lemma_remove_lengths(code: Seq<Op>, spans: Seq<u32>)
    requires
        spans.len() == 0 || spans.len() == code.len(),
    ensures
        remove_code(code, spans).len() == kept_count(code, spans, code.len() as int),
        remove_code(code, spans).len() <= code.len(),
        spans.len() == 0 ==> remove_spans(code, spans).len() == 0,
        spans.len() != 0 ==> remove_spans(code, spans).len() == remove_code(code, spans).len(),
{
    lemma_compact_code(code, spans, code.len() as int);
    lemma_kept_count_step(code, spans, code.len() as int);
    if spans.len() != 0 {
        lemma_compact_spans(code, spans, code.len() as int);
    }
}


// ---------------------------------------------------------------------------
// Laws
// ---------------------------------------------------------------------------

/// The instruction is an unconditional jump.
pub open spec fn is_jump(op: Op) -> bool {
    op is Jump
}

/// The instruction with its code target (if any) blanked out.
pub open spec fn strip_target(op: Op) -> Op {
    with_target(op, 0)
}

/// What the optimiser must leave alone: every instruction other than an
/// unconditional jump, in order, up to its code target.
pub open spec fn skeleton(code: Seq<Op>) -> Seq<Op> {
    code.filter(|op: Op| !is_jump(op)).map_values(|op: Op| strip_target(op))
}

/// The statement starts recorded in a line table, in order.
pub open spec fn statement_starts(spans: Seq<u32>) -> Seq<u32> {
    spans.filter(|s: u32| s != NOT_STMT)
}

proof fn lemma_skeleton_push(s: Seq<Op>, x: Op)
    ensures
        skeleton(s.push(x)) == (if is_jump(x) {
            skeleton(s)
        } else {
            skeleton(s).push(strip_target(x))
        }),
{
    reveal(Seq::filter);
    assert(s.push(x).drop_last() =~= s);
    if !is_jump(x) {
        assert(skeleton(s.push(x)) =~= skeleton(s).push(strip_target(x)));
    }
}

proof fn lemma_starts_push(s: Seq<u32>, x: u32)
    ensures
        statement_starts(s.push(x)) == (if x == NOT_STMT {
            statement_starts(s)
        } else {
            statement_starts(s).push(x)
        }),
{
    reveal(Seq::filter);
    assert(s.push(x).drop_last() =~= s);
}

proof fn lemma_strip_with_target(op: Op, t: u32)
    ensures
        strip_target(with_target(op, t)) == strip_target(op),
        is_jump(with_target(op, t)) == is_jump(op),
{
}

/// Two sequences that agree instruction by instruction up to targets have the
/// same skeleton.
proof fn lemma_skeleton_pointwise(a: Seq<Op>, b: Seq<Op>)
    requires
        a.len() == b.len(),
        forall|i: int|
            0 <= i < a.len() ==> strip_target(#[trigger] a[i]) == strip_target(b[i]) && is_jump(a[i])
                == is_jump(b[i]),
    ensures
        skeleton(a) == skeleton(b),
    decreases a.len(),
{
    if a.len() > 0 {
        let n = a.len() - 1;
        lemma_skeleton_pointwise(a.take(n), b.take(n));
        assert(a =~= a.take(n).push(a[n]));
        assert(b =~= b.take(n).push(b[n]));
        lemma_skeleton_push(a.take(n), a[n]);
        lemma_skeleton_push(b.take(n), b[n]);
    } else {
        assert(a =~= b);
    }
}

proof fn lemma_collapse_skeleton(code: Seq<Op>)
    ensures
        skeleton(collapse_code(code)) == skeleton(code),
        collapse_code(code).len() == code.len(),
{
    assert forall|i: int| 0 <= i < code.len() implies strip_target(#[trigger] collapse_code(code)[i])
        == strip_target(code[i]) && is_jump(collapse_code(code)[i]) == is_jump(code[i]) by {
        match code_target(code[i]) {
            Some(t) => lemma_strip_with_target(code[i], chain(code, t as int, MAX_CHAIN as nat) as u32),
            None => {},
        }
    }
    lemma_skeleton_pointwise(collapse_code(code), code);
}

proof fn lemma_remove_skeleton(code: Seq<Op>, spans: Seq<u32>, i: int)
    requires
        0 <= i <= code.len(),
    ensures
        skeleton(compact_code(code, spans, i).map_values(|op: Op| renumber_op(code, spans, op)))
            == skeleton(code.take(i)),
    decreases i,
{
    let f = |op: Op| renumber_op(code, spans, op);
    if i == 0 {
        assert(compact_code(code, spans, i).map_values(f) =~= Seq::<Op>::empty());
        assert(code.take(0) =~= Seq::<Op>::empty());
    } else {
        lemma_remove_skeleton(code, spans, i - 1);
        assert(code.take(i) =~= code.take(i - 1).push(code[i - 1]));
        lemma_skeleton_push(code.take(i - 1), code[i - 1]);
        if !removable(code, spans, i - 1) {
            let prev = compact_code(code, spans, i - 1);
            assert(prev.push(code[i - 1]).map_values(f) =~= prev.map_values(f).push(f(code[i - 1])));
            lemma_skeleton_push(prev.map_values(f), f(code[i - 1]));
            match code_target(code[i - 1]) {
                Some(t) => {
                    if t <= code.len() {
                        lemma_strip_with_target(code[i - 1], kept_count(code, spans, t as int) as u32);
                    }
                },
                None => {},
            }
        }
    }
}

proof fn lemma_remove_starts(code: Seq<Op>, spans: Seq<u32>, i: int)
    requires
        0 <= i <= code.len(),
        i <= spans.len(),
    ensures
        statement_starts(compact_spans(code, spans, i)) == statement_starts(spans.take(i)),
    decreases i,
{
    if i == 0 {
        assert(spans.take(0) =~= Seq::<u32>::empty());
    } else {
        lemma_remove_starts(code, spans, i - 1);
        assert(spans.take(i) =~= spans.take(i - 1).push(spans[i - 1]));
        lemma_starts_push(spans.take(i - 1), spans[i - 1]);
        if !removable(code, spans, i - 1) {
            lemma_starts_push(compact_spans(code, spans, i - 1), spans[i - 1]);
        }
    }
}

/// Operand well-formedness does not depend on the code target once it is in range.
proof fn lemma_op_wf_retarget(op: Op, t: u32, p: Pools, q: Pools)
    requires
        op_wf(op, p),
        code_target(op) is Some,
        t <= q.code,
        q.consts == p.consts && q.names == p.names && q.spans == p.spans && q.locals == p.locals
            && q.cells == p.cells && q.caches == p.caches && q.kw_calls == p.kw_calls
            && q.fn_defs == p.fn_defs && q.type_args == p.type_args && q.tuple_decls == p.tuple_decls
            && q.async_blocks == p.async_blocks,
    ensures
        op_wf(with_target(op, t), q),
{
}

proof fn lemma_op_wf_no_target(op: Op, p: Pools, q: Pools)
    requires
        op_wf(op, p),
        code_target(op) is None,
        q.consts == p.consts && q.names == p.names && q.spans == p.spans && q.locals == p.locals
            && q.cells == p.cells && q.caches == p.caches && q.kw_calls == p.kw_calls
            && q.fn_defs == p.fn_defs && q.type_args == p.type_args && q.tuple_decls == p.tuple_decls
            && q.async_blocks == p.async_blocks,
    ensures
        op_wf(op, q),
{
}

proof fn lemma_chain_in_code(code: Seq<Op>, t: int, k: nat, p: Pools)
    requires
        code_wf(code, p),
        p.code == code.len(),
        0 <= t <= code.len(),
    ensures
        0 <= chain(code, t, k) <= code.len(),
    decreases k,
{
    if k > 0 {
        lemma_chain_in_code(code, t, (k - 1) as nat, p);
        let c = chain(code, t, (k - 1) as nat);
        if 0 <= c < code.len() {
            assert(op_wf(code[c], p));
        }
    }
}

/// Pools with another code length.
pub open spec fn with_code_len(p: Pools, n: nat) -> Pools {
    Pools { code: n, ..p }
}

proof fn lemma_collapse_wf(code: Seq<Op>, p: Pools)
    requires
        code_wf(code, p),
        p.code == code.len(),
    ensures
        code_wf(collapse_code(code), p),
{
    assert forall|i: int| 0 <= i < code.len() implies #[trigger] op_wf(collapse_code(code)[i], p) by {
        assert(op_wf(code[i], p));
        match code_target(code[i]) {
            Some(t) => {
                lemma_chain_in_code(code, t as int, MAX_CHAIN as nat, p);
                lemma_op_wf_retarget(code[i], chain(code, t as int, MAX_CHAIN as nat) as u32, p, p);
            },
            None => {},
        }
    }
}

proof fn lemma_remove_wf(code: Seq<Op>, spans: Seq<u32>, p: Pools)
    requires
        code_wf(code, p),
        p.code == code.len(),
        spans.len() == 0 || spans.len() == code.len(),
    ensures
        code_wf(remove_code(code, spans), with_code_len(p, remove_code(code, spans).len())),
{
    let n = code.len() as int;
    lemma_remove_lengths(code, spans);
    lemma_compact_code(code, spans, n);
    let q = with_code_len(p, remove_code(code, spans).len());
    let raw = compact_code(code, spans, n);
    assert forall|j: int| 0 <= j < raw.len() implies #[trigger] op_wf(remove_code(code, spans)[j], q) by {
        // `raw[j]` is some surviving instruction of `code`.
        lemma_compact_members(code, spans, n, j);
        let op = raw[j];
        assert(op_wf(op, p));
        match code_target(op) {
            Some(t) => {
                if t <= code.len() {
                    lemma_kept_count_mono(code, spans, t as int, n);
                    lemma_kept_count_step(code, spans, t as int);
                    lemma_op_wf_retarget(op, kept_count(code, spans, t as int) as u32, p, q);
                }
            },
            None => lemma_op_wf_no_target(op, p, q),
        }
    }
}

proof fn lemma_compact_members(code: Seq<Op>, spans: Seq<u32>, i: int, j: int)
    requires
        0 <= i <= code.len(),
        0 <= j < compact_code(code, spans, i).len(),
    ensures
        exists|m: int| 0 <= m < i && compact_code(code, spans, i)[j] == code[m],
    decreases i,
{
    if i > 0 {
        if removable(code, spans, i - 1) {
            lemma_compact_members(code, spans, i - 1, j);
        } else if j < compact_code(code, spans, i - 1).len() {
            lemma_compact_members(code, spans, i - 1, j);
        } else {
            assert(compact_code(code, spans, i)[j] == code[i - 1]);
        }
    }
}

/// **The optimiser only touches unconditional jumps and code targets**: every
/// other instruction survives, in order, with its operands unchanged.
pub proof fn law_optimize_keeps_non_jumps(code: Seq<Op>, spans: Seq<u32>, fuel: nat)
    requires
        spans.len() == 0 || spans.len() == code.len(),
    ensures
        skeleton(optimize_spec(code, spans, fuel).0) == skeleton(code),
    decreases fuel,
{
    if fuel > 0 {
        let c1 = collapse_code(code);
        lemma_collapse_skeleton(code);
        lemma_remove_skeleton(c1, spans, c1.len() as int);
        assert(c1.take(c1.len() as int) =~= c1);
        lemma_remove_lengths(c1, spans);
        law_optimize_keeps_non_jumps(remove_code(c1, spans), remove_spans(c1, spans), (fuel - 1) as nat);
    }
}

/// **Statement starts survive**: the debugger's stopping points are the same
/// before and after optimisation, in order, and the line table stays one
/// entry per instruction (or empty).
pub proof fn law_optimize_keeps_statement_starts(code: Seq<Op>, spans: Seq<u32>, fuel: nat)
    requires
        spans.len() == 0 || spans.len() == code.len(),
    ensures
        statement_starts(optimize_spec(code, spans, fuel).1) == statement_starts(spans),
        spans.len() == 0 ==> optimize_spec(code, spans, fuel).1.len() == 0,
        spans.len() != 0 ==> optimize_spec(code, spans, fuel).1.len() == optimize_spec(code, spans, fuel).0.len(),
        optimize_spec(code, spans, fuel).0.len() <= code.len(),
    decreases fuel,
{
    if fuel > 0 {
        let c1 = collapse_code(code);
        assert(c1.len() == code.len());
        lemma_remove_lengths(c1, spans);
        let c2 = remove_code(c1, spans);
        let s2 = remove_spans(c1, spans);
        if spans.len() != 0 {
            assert(s2.len() == c2.len());
        }
        if spans.len() != 0 {
            lemma_remove_starts(c1, spans, c1.len() as int);
            assert(spans.take(spans.len() as int) =~= spans);
        }
        law_optimize_keeps_statement_starts(remove_code(c1, spans), remove_spans(c1, spans), (fuel - 1) as nat);
    }
}

/// **Optimisation keeps a chunk safe to run**: if every operand and code target
/// was in range, it still is, against the new code length.
pub proof fn law_optimize_keeps_code_wf(code: Seq<Op>, spans: Seq<u32>, p: Pools, fuel: nat)
    requires
        code_wf(code, p),
        p.code == code.len(),
        spans.len() == 0 || spans.len() == code.len(),
    ensures
        code_wf(optimize_spec(code, spans, fuel).0, with_code_len(p, optimize_spec(code, spans, fuel).0.len())),
    decreases fuel,
{
    if fuel == 0 {
        assert(with_code_len(p, code.len()) == p);
    } else {
        let c1 = collapse_code(code);
        lemma_collapse_wf(code, p);
        lemma_remove_wf(c1, spans, p);
        lemma_remove_lengths(c1, spans);
        let c2 = remove_code(c1, spans);
        law_optimize_keeps_code_wf(c2, remove_spans(c1, spans), with_code_len(p, c2.len()), (fuel - 1) as nat);
    }
}

/// **The last instruction stays last**: when the code ends in an instruction
/// that is neither a jump nor has a code target (such as a return), the
/// optimised code ends in that same instruction.
pub proof fn law_optimize_keeps_last_op(code: Seq<Op>, spans: Seq<u32>, fuel: nat)
    requires
        spans.len() == 0 || spans.len() == code.len(),
        code.len() > 0,
        code_target(code.last()) is None,
    ensures
        optimize_spec(code, spans, fuel).0.len() > 0,
        optimize_spec(code, spans, fuel).0.last() == code.last(),
    decreases fuel,
{
    if fuel > 0 {
        let n = code.len() as int;
        let c1 = collapse_code(code);
        assert(c1[n - 1] == code[n - 1]);
        assert(!removable(c1, spans, n - 1));
        let cc = compact_code(c1, spans, n);
        assert(cc == compact_code(c1, spans, n - 1).push(c1[n - 1]));
        let c2 = remove_code(c1, spans);
        assert(c2.len() == cc.len());
        assert(c2[c2.len() - 1] == renumber_op(c1, spans, cc[cc.len() - 1]));
        lemma_remove_lengths(c1, spans);
        law_optimize_keeps_last_op(c2, remove_spans(c1, spans), (fuel - 1) as nat);
    }
}

/// **The optimiser adds no instruction**: every instruction without a code
/// target in the optimised code occurs in the input code.
pub proof fn law_optimize_adds_no_instruction(code: Seq<Op>, spans: Seq<u32>, fuel: nat)
    requires
        spans.len() == 0 || spans.len() == code.len(),
    ensures
        forall|k: int| 0 <= k < optimize_spec(code, spans, fuel).0.len()
            && code_target(#[trigger] optimize_spec(code, spans, fuel).0[k]) is None
            ==> code.contains(optimize_spec(code, spans, fuel).0[k]),
    decreases fuel,
{
    if fuel > 0 {
        let c1 = collapse_code(code);
        assert forall|k: int| 0 <= k < c1.len() && code_target(#[trigger] c1[k]) is None implies code.contains(c1[k]) by {
            assert(c1[k] == collapse_op(code, code[k]));
            if code_target(code[k]) is Some {
                lemma_with_target_target(code[k], chain(code, code_target(code[k])->0 as int, MAX_CHAIN as nat) as u32);
            }
            assert(code[k] == c1[k]);
        }
        let c2 = remove_code(c1, spans);
        lemma_remove_lengths(c1, spans);
        lemma_compact_code(c1, spans, c1.len() as int);
        assert forall|k: int| 0 <= k < c2.len() && code_target(#[trigger] c2[k]) is None implies code.contains(c2[k]) by {
            let cc = compact_code(c1, spans, c1.len() as int);
            lemma_compact_members(c1, spans, c1.len() as int, k);
            let m = choose|m: int| 0 <= m < c1.len() && cc[k] == c1[m];
            assert(c2[k] == renumber_op(c1, spans, cc[k]));
            if code_target(cc[k]) is Some {
                let t = code_target(cc[k])->0;
                if t <= c1.len() {
                    lemma_with_target_target(cc[k], kept_count(c1, spans, t as int) as u32);
                }
            }
            assert(c2[k] == c1[m]);
        }
        let s2 = remove_spans(c1, spans);
        law_optimize_adds_no_instruction(c2, s2, (fuel - 1) as nat);
        let r = optimize_spec(code, spans, fuel);
        if c1 == code && !any_removable(c1, spans) {
            assert(r.0 == c2);
        } else {
            assert(r == optimize_spec(c2, s2, (fuel - 1) as nat));
            assert forall|k: int| 0 <= k < r.0.len() && code_target(#[trigger] r.0[k]) is None implies code.contains(r.0[k]) by {
                assert(c2.contains(r.0[k]));
                let j = choose|j: int| 0 <= j < c2.len() && c2[j] == r.0[k];
                assert(code_target(c2[j]) is None);
            }
        }
    }
}

/// **Code without code targets is left as it is.**
pub proof fn law_optimize_keeps_code_without_targets(code: Seq<Op>, spans: Seq<u32>, fuel: nat)
    requires
        spans.len() == 0 || spans.len() == code.len(),
        forall|k: int| 0 <= k < code.len() ==> code_target(#[trigger] code[k]) is None,
    ensures
        optimize_spec(code, spans, fuel).0 == code,
{
    if fuel > 0 {
        let c1 = collapse_code(code);
        assert(c1 =~= code) by {
            assert forall|k: int| 0 <= k < code.len() implies c1[k] == code[k] by {
                assert(c1[k] == collapse_op(code, code[k]));
            }
        }
        assert(!any_removable(c1, spans)) by {
            assert forall|i: int| 0 <= i < c1.len() implies !removable(c1, spans, i) by {
                assert(code_target(c1[i]) is None);
            }
        }
        lemma_kept_count_identity(c1, spans, c1.len() as int);
        lemma_compact_code(c1, spans, c1.len() as int);
        let c2 = remove_code(c1, spans);
        assert(c2 =~= code) by {
            assert forall|k: int| 0 <= k < code.len() implies c2[k] == code[k] by {
                lemma_kept_count_identity(c1, spans, k);
            }
        }
    }
}

/// **Code without unconditional jumps is left as it is**, and so is its
/// line table: there is no jump chain to collapse and no jump to remove.
pub proof fn law_optimize_keeps_code_without_jumps(code: Seq<Op>, spans: Seq<u32>, fuel: nat)
    requires
        spans.len() == 0 || spans.len() == code.len(),
        forall|k: int| 0 <= k < code.len() ==> !(#[trigger] code[k] is Jump),
    ensures
        optimize_spec(code, spans, fuel) == (code, spans),
{
    if fuel > 0 {
        let c1 = collapse_code(code);
        assert(c1 =~= code) by {
            assert forall|k: int| 0 <= k < code.len() implies c1[k] == code[k] by {
                assert(c1[k] == collapse_op(code, code[k]));
                if let Some(t) = code_target(code[k]) {
                    assert(jump_step(code, chain(code, t as int, 0)) == chain(code, t as int, 0));
                    lemma_chain_fixed(code, t as int, 0, MAX_CHAIN as nat);
                    lemma_with_target_same(code[k]);
                }
            }
        }
        assert(!any_removable(c1, spans)) by {
            assert forall|i: int| 0 <= i < c1.len() implies !removable(c1, spans, i) by {
                assert(!(c1[i] is Jump));
            }
        }
        lemma_nothing_removable(c1, spans, c1.len() as int);
        assert(code.take(code.len() as int) =~= code);
        assert(spans.take(spans.len() as int) =~= spans);
        let c2 = remove_code(c1, spans);
        assert(c2 =~= code) by {
            assert forall|k: int| 0 <= k < code.len() implies c2[k] == code[k] by {
                if let Some(t) = code_target(code[k]) {
                    if t <= code.len() {
                        lemma_nothing_removable(c1, spans, t as int);
                        lemma_with_target_same(code[k]);
                    }
                }
            }
        }
        assert(remove_spans(c1, spans) =~= spans);
    }
}

/// With nothing removable, `kept_count` is the identity.
proof fn lemma_kept_count_identity(code: Seq<Op>, spans: Seq<u32>, i: int)
    requires
        0 <= i <= code.len(),
        !any_removable(code, spans),
    ensures
        kept_count(code, spans, i) == i,
    decreases i,
{
    if i > 0 {
        lemma_kept_count_identity(code, spans, i - 1);
        assert(!removable(code, spans, i - 1));
    }
}

/// **Removing jumps keeps every destination**: the removed instructions
/// between `t` and the first kept one `u` are jumps to the next instruction,
/// so control entering at `t` does nothing until `u`. A code target `t`
/// is renumbered to `kept_count(t)`, which is the new index of `u`, and the
/// instruction there is `u`'s (renumbered); past the last kept instruction
/// it is the end of the new code.
pub proof fn law_remove_keeps_destinations(code: Seq<Op>, spans: Seq<u32>, t: int, u: int)
    requires
        spans.len() == 0 || spans.len() == code.len(),
        0 <= t <= u <= code.len(),
        forall|i: int| t <= i < u ==> removable(code, spans, i),
        u == code.len() || !removable(code, spans, u),
    ensures
        forall|i: int| t <= i < u ==> code[i] == Op::Jump((i + 1) as u32),
        kept_count(code, spans, t) == kept_count(code, spans, u),
        u < code.len() ==> remove_code(code, spans)[kept_count(code, spans, t)] == renumber_op(code, spans, code[u]),
        u == code.len() ==> kept_count(code, spans, t) == remove_code(code, spans).len(),
    decreases u - t,
{
    if t < u {
        law_remove_keeps_destinations(code, spans, t + 1, u);
        lemma_kept_count_step(code, spans, t);
    }
    lemma_remove_lengths(code, spans);
    if u < code.len() {
        lemma_compact_code(code, spans, code.len() as int);
        lemma_kept_count_step(code, spans, u);
        lemma_kept_count_mono(code, spans, u + 1, code.len() as int);
    }
}

/// **Collapsing follows the input jumps**: every path of unconditional
/// jumps in the collapsed code is a path of jumps in the input code, so
/// control reaches the same instructions.
pub proof fn law_collapse_paths_are_input_paths(code: Seq<Op>, t: int, k: nat)
    ensures
        exists|m: nat| chain(collapse_code(code), t, k) == chain(code, t, m),
    decreases k,
{
    if k == 0 {
        assert(chain(collapse_code(code), t, 0) == chain(code, t, 0));
    } else {
        law_collapse_paths_are_input_paths(code, t, (k - 1) as nat);
        let m = choose|m: nat| chain(collapse_code(code), t, (k - 1) as nat) == chain(code, t, m);
        let a = chain(code, t, m);
        lemma_collapse_step(code, a);
        let m2 = choose|m2: nat| jump_step(collapse_code(code), a) == chain(code, a, m2);
        lemma_chain_add(code, t, m, m2);
        assert(chain(collapse_code(code), t, k) == chain(code, t, m + m2));
    }
}

/// **Every code target moves along its jump chain**: after collapsing, each
/// instruction that has a code target (unconditional and conditional jumps,
/// loop exits, exception handlers, `static` initialisers) still has one, and
/// it is a position that control reaches from the old target by following
/// unconditional jumps of the input code, and where that chain of jumps ends
/// (within `MAX_CHAIN` steps) it is the end; instructions without a target
/// are unchanged, and no instruction changes other than in its target.
pub proof fn law_collapse_targets_follow_jumps(code: Seq<Op>, i: int)
    requires
        0 <= i < code.len(),
    ensures
        strip_target(collapse_code(code)[i]) == strip_target(code[i]),
        code_target(code[i]) is None ==> collapse_code(code)[i] == code[i],
        code_target(code[i]) matches Some(t) ==> {
            &&& code_target(collapse_code(code)[i]) is Some
            &&& exists|m: nat| code_target(collapse_code(code)[i])->0 as int == #[trigger] chain(code, t as int, m)
            &&& forall|m: nat| m <= MAX_CHAIN && jump_step(code, #[trigger] chain(code, t as int, m)) == chain(code, t as int, m)
                ==> code_target(collapse_code(code)[i])->0 as int == chain(code, t as int, m)
        },
{
    let op = code[i];
    assert(collapse_code(code)[i] == collapse_op(code, op));
    lemma_strip_target_collapse(code, op);
    if let Some(t) = code_target(op) {
        let m = MAX_CHAIN as nat;
        lemma_chain_u32(code, t as int, m);
        lemma_with_target_target(op, chain(code, t as int, m) as u32);
        assert(code_target(collapse_code(code)[i])->0 as int == chain(code, t as int, m));
        assert forall|m2: nat| m2 <= MAX_CHAIN && jump_step(code, #[trigger] chain(code, t as int, m2)) == chain(code, t as int, m2)
            implies code_target(collapse_code(code)[i])->0 as int == chain(code, t as int, m2) by {
            lemma_chain_fixed(code, t as int, m2, MAX_CHAIN as nat);
        }
    }
}

/// Collapsing changes an instruction in its target only.
proof fn lemma_strip_target_collapse(code: Seq<Op>, op: Op)
    ensures
        strip_target(collapse_op(code, op)) == strip_target(op),
{
    if let Some(t) = code_target(op) {
        lemma_strip_with_target(op, chain(code, t as int, MAX_CHAIN as nat) as u32);
    }
}

proof fn lemma_chain_add(code: Seq<Op>, t: int, m: nat, m2: nat)
    ensures
        chain(code, chain(code, t, m), m2) == chain(code, t, m + m2),
    decreases m2,
{
    if m2 > 0 {
        lemma_chain_add(code, t, m, (m2 - 1) as nat);
    }
}

proof fn lemma_chain_shift(code: Seq<Op>, t: int, k: nat)
    ensures
        chain(code, jump_step(code, t), k) == chain(code, t, k + 1),
    decreases k,
{
    if k > 0 {
        lemma_chain_shift(code, t, (k - 1) as nat);
        assert(chain(code, jump_step(code, t), k) == jump_step(code, chain(code, jump_step(code, t), (k - 1) as nat)));
        assert(chain(code, t, k + 1) == jump_step(code, chain(code, t, k)));
    } else {
        assert(chain(code, t, 1) == jump_step(code, chain(code, t, 0)));
    }
}

proof fn lemma_collapse_step(code: Seq<Op>, a: int)
    ensures
        exists|m: nat| jump_step(collapse_code(code), a) == chain(code, a, m),
{
    let c = collapse_code(code);
    if 0 <= a < code.len() {
        match code[a] {
            Op::Jump(next) => {
                let dest = chain(code, next as int, MAX_CHAIN as nat);
                lemma_chain_u32(code, next as int, MAX_CHAIN as nat);
                assert(c[a] == Op::Jump(dest as u32));
                if next != a {
                    lemma_chain_shift(code, a, MAX_CHAIN as nat);
                    if dest != a {
                        assert(jump_step(c, a) == chain(code, a, (MAX_CHAIN + 1) as nat));
                    } else {
                        assert(jump_step(c, a) == chain(code, a, 0));
                    }
                } else {
                    lemma_chain_fixed(code, a, 0, MAX_CHAIN as nat);
                    assert(jump_step(c, a) == chain(code, a, 0));
                }
            },
            _ => {
                assert(jump_step(c, a) == chain(code, a, 0));
            },
        }
    } else {
        assert(jump_step(c, a) == chain(code, a, 0));
    }
}

// ---------------------------------------------------------------------------
// Implementation
// ---------------------------------------------------------------------------

/// The code index `op` may transfer control to.
fn code_target_of(op: &Op) -> (r: Option<u32>)
    ensures
        r == code_target(*op),
{
    match op {
        Op::Jump(t) => Some(*t),
        Op::JumpIfFalse(t) => Some(*t),
        Op::JumpIfFalseOrPop(t) => Some(*t),
        Op::JumpIfTrueOrPop(t) => Some(*t),
        Op::SetupTry(t) => Some(*t),
        Op::StaticInit(_, t) => Some(*t),
        Op::ForIter(_, _, t) => Some(*t),
        _ => None,
    }
}

/// `op` with its code target replaced (the single place that rewrites targets).
pub(crate) fn code_target_mut(op: &mut Op, t: u32)
    ensures
        *final(op) == with_target(*old(op), t),
{
    match op {
        Op::Jump(x) => *x = t,
        Op::JumpIfFalse(x) => *x = t,
        Op::JumpIfFalseOrPop(x) => *x = t,
        Op::JumpIfTrueOrPop(x) => *x = t,
        Op::SetupTry(x) => *x = t,
        Op::StaticInit(_, x) => *x = t,
        Op::ForIter(_, _, x) => *x = t,
        _ => {},
    }
}

/// End of the jump chain from every index, read in the input code.
fn chain_ends(code: &Vec<Op>) -> (ends: Vec<u32>)
    requires
        code.len() <= u32::MAX,
    ensures
        ends@.len() == code@.len(),
        forall|i: int| 0 <= i < code@.len() ==> ends@[i] == chain(code@, i, MAX_CHAIN as nat),
{
    let n = code.len();
    let mut ends: Vec<u32> = Vec::new();
    let mut i: usize = 0;
    while i < n
        invariant
            n == code.len(),
            n <= u32::MAX,
            i <= n,
            ends@.len() == i,
            forall|j: int| 0 <= j < i ==> ends@[j] == chain(code@, j, MAX_CHAIN as nat),
        decreases n - i,
    {
        let mut t: usize = i;
        let mut k: usize = 0;
        proof { lemma_chain_u32(code@, i as int, 0); }
        loop
            invariant_except_break
                k <= MAX_CHAIN,
                t == chain(code@, i as int, k as nat),
                n == code.len(),
                i < n,
                n <= u32::MAX,
            ensures
                t == chain(code@, i as int, MAX_CHAIN as nat),
                t <= u32::MAX,
            decreases MAX_CHAIN - k,
        {
            proof { lemma_chain_u32(code@, i as int, k as nat); }
            if k >= MAX_CHAIN {
                break;
            }
            let mut advanced = false;
            if t < n {
                if let Op::Jump(next) = code[t] {
                    if next as usize != t {
                        t = next as usize;
                        advanced = true;
                    }
                }
            }
            if !advanced {
                proof { lemma_chain_fixed(code@, i as int, k as nat, MAX_CHAIN as nat); }
                break;
            }
            k = k + 1;
        }
        ends.push(t as u32);
        i = i + 1;
    }
    ends
}

/// Redirects every code target to the end of its jump chain. Returns whether
/// anything changed.
fn collapse_jump_chains(code: &mut Vec<Op>) -> (changed: bool)
    requires
        old(code).len() <= u32::MAX,
    ensures
        final(code)@ == collapse_code(old(code)@),
        changed == (final(code)@ != old(code)@),
{
    let ghost orig = code@;
    let n = code.len();
    let ends = chain_ends(code);
    let mut changed = false;
    let mut j: usize = 0;
    while j < n
        invariant
            n == code.len(),
            n == orig.len(),
            n <= u32::MAX,
            j <= n,
            ends@.len() == n,
            forall|i: int| 0 <= i < n ==> ends@[i] == chain(orig, i, MAX_CHAIN as nat),
            forall|m: int| 0 <= m < j ==> code@[m] == collapse_op(orig, orig[m]),
            forall|m: int| j <= m < n ==> code@[m] == orig[m],
            changed == (exists|m: int| 0 <= m < j && code@[m] != orig[m]),
        decreases n - j,
    {
        let op = code[j];
        match code_target_of(&op) {
            Some(t) => {
                if (t as usize) < n {
                    let dest = ends[t as usize];
                    if dest != t {
                        let mut new_op = op;
                        code_target_mut(&mut new_op, dest);
                        proof { lemma_with_target_target(op, dest); }
                        code.set(j, new_op);
                        changed = true;
                    } else {
                        proof { lemma_with_target_same(op); }
                    }
                } else {
                    proof {
                        lemma_chain_outside(orig, t as int, MAX_CHAIN as nat);
                        lemma_with_target_same(op);
                    }
                }
            },
            None => {},
        }
        j = j + 1;
    }
    proof {
        assert(code@ =~= collapse_code(orig));
        if changed {
            let m = choose|m: int| 0 <= m < n && code@[m] != orig[m];
            assert(code@[m] != orig[m]);
        } else {
            assert(code@ =~= orig);
        }
    }
    changed
}

/// Deletes every jump to the next instruction that does not start a statement,
/// renumbering all code targets and the line table. Returns whether anything
/// was removed.
fn remove_jumps_to_next(code: &mut Vec<Op>, stmt_spans: &mut Vec<u32>) -> (removed: bool)
    requires
        old(code).len() <= u32::MAX,
        old(stmt_spans).len() == 0 || old(stmt_spans).len() == old(code).len(),
    ensures
        final(code)@ == remove_code(old(code)@, old(stmt_spans)@),
        final(stmt_spans)@ == remove_spans(old(code)@, old(stmt_spans)@),
        removed == any_removable(old(code)@, old(stmt_spans)@),
{
    let ghost c0 = code@;
    let ghost s0 = stmt_spans@;
    let n = code.len();
    let mut remove: Vec<bool> = Vec::new();
    let mut any = false;
    let mut i: usize = 0;
    while i < n
        invariant
            n == code.len(),
            n <= u32::MAX,
            code@ == c0,
            stmt_spans@ == s0,
            i <= n,
            remove@.len() == i,
            forall|j: int| 0 <= j < i ==> remove@[j] == removable(c0, s0, j),
            any == (exists|j: int| 0 <= j < i && removable(c0, s0, j)),
        decreases n - i,
    {
        // A statement's first instruction is kept, so the debugger still stops there.
        let starts_stmt = i < stmt_spans.len() && stmt_spans[i] != NOT_STMT;
        let is_jump_next = match code[i] {
            Op::Jump(t) => t as usize == i + 1,
            _ => false,
        };
        let r = !starts_stmt && is_jump_next;
        remove.push(r);
        if r {
            any = true;
        }
        proof {
            assert(r == removable(c0, s0, i as int));
            if !r {
                assert forall|j: int| 0 <= j < i + 1 && removable(c0, s0, j) implies j < i by {}
            }
        }
        i = i + 1;
    }
    if !any {
        proof {
            lemma_nothing_removable(c0, s0, n as int);
            assert(c0.take(n as int) =~= c0);
            assert forall|k: int| 0 <= k < c0.len() implies renumber_op(c0, s0, c0[k]) == c0[k] by {
                match code_target(c0[k]) {
                    Some(t) => {
                        if t <= c0.len() {
                            lemma_nothing_removable(c0, s0, t as int);
                            lemma_with_target_same(c0[k]);
                        }
                    },
                    None => {},
                }
            }
            assert(remove_code(c0, s0) =~= c0);
            if s0.len() > 0 {
                assert(s0.take(n as int) =~= s0);
            }
        }
        return false;
    }
    // old index -> new index; a removed instruction maps to the next survivor.
    let mut new_idx: Vec<u32> = Vec::new();
    let mut k: u32 = 0;
    let mut i: usize = 0;
    while i < n
        invariant
            n == c0.len(),
            n <= u32::MAX,
            i <= n,
            remove@.len() == n,
            forall|j: int| 0 <= j < n ==> remove@[j] == removable(c0, s0, j),
            new_idx@.len() == i,
            k == kept_count(c0, s0, i as int),
            forall|j: int| 0 <= j < i ==> new_idx@[j] == kept_count(c0, s0, j),
        decreases n - i,
    {
        proof { lemma_kept_count_step(c0, s0, i as int); }
        new_idx.push(k);
        if !remove[i] {
            k = k + 1;
        }
        i = i + 1;
    }
    new_idx.push(k);
    proof { lemma_kept_count_step(c0, s0, n as int); }
    let mut out: Vec<Op> = Vec::new();
    let mut i: usize = 0;
    while i < n
        invariant
            n == c0.len(),
            code@ == c0,
            i <= n,
            remove@.len() == n,
            forall|j: int| 0 <= j < n ==> remove@[j] == removable(c0, s0, j),
            out@ == compact_code(c0, s0, i as int),
        decreases n - i,
    {
        if !remove[i] {
            out.push(code[i]);
        }
        i = i + 1;
    }
    if stmt_spans.len() > 0 {
        let mut spans_out: Vec<u32> = Vec::new();
        let mut i: usize = 0;
        while i < n
            invariant
                n == c0.len(),
                stmt_spans@ == s0,
                s0.len() == n,
                i <= n,
                remove@.len() == n,
                forall|j: int| 0 <= j < n ==> remove@[j] == removable(c0, s0, j),
                spans_out@ == compact_spans(c0, s0, i as int),
            decreases n - i,
        {
            if !remove[i] {
                spans_out.push(stmt_spans[i]);
            }
            i = i + 1;
        }
        *stmt_spans = spans_out;
    }
    let ghost raw = out@;
    let m = out.len();
    let mut j: usize = 0;
    while j < m
        invariant
            m == out.len(),
            raw.len() == m,
            raw == compact_code(c0, s0, n as int),
            n == c0.len(),
            new_idx@.len() == n + 1,
            forall|t: int| 0 <= t <= n ==> new_idx@[t] == kept_count(c0, s0, t),
            j <= m,
            forall|q: int| 0 <= q < j ==> out@[q] == renumber_op(c0, s0, raw[q]),
            forall|q: int| j <= q < m ==> out@[q] == raw[q],
        decreases m - j,
    {
        let op = out[j];
        match code_target_of(&op) {
            Some(t) => {
                // A target past the end is left alone rather than pointed at another instruction.
                if (t as usize) < new_idx.len() {
                    let mut new_op = op;
                    code_target_mut(&mut new_op, new_idx[t as usize]);
                    out.set(j, new_op);
                }
            },
            None => {},
        }
        j = j + 1;
    }
    proof {
        assert(out@ =~= remove_code(c0, s0));
    }
    *code = out;
    true
}

/// Optimises `code` in place (meaning-preserving). `stmt_spans` is the
/// statement line table, one entry per instruction, or empty when the caller
/// keeps none; it is compacted with the same index map.
pub fn optimize(code: &mut Vec<Op>, stmt_spans: &mut Vec<u32>)
    requires
        old(code).len() <= u32::MAX,
        old(stmt_spans).len() == 0 || old(stmt_spans).len() == old(code).len(),
    ensures
        (final(code)@, final(stmt_spans)@) == optimize_spec(old(code)@, old(stmt_spans)@, MAX_PASSES as nat),
        final(code).len() <= old(code).len(),
        old(stmt_spans).len() == 0 ==> final(stmt_spans).len() == 0,
        old(stmt_spans).len() != 0 ==> final(stmt_spans).len() == final(code).len(),
{
    let ghost c0 = code@;
    let ghost s0 = stmt_spans@;
    let mut pass: usize = 0;
    loop
        invariant_except_break
            pass <= MAX_PASSES,
            optimize_spec(code@, stmt_spans@, (MAX_PASSES - pass) as nat) == optimize_spec(c0, s0, MAX_PASSES as nat),
            code.len() <= c0.len(),
            c0.len() <= u32::MAX,
            s0.len() == 0 ==> stmt_spans.len() == 0,
            s0.len() != 0 ==> stmt_spans.len() == code.len(),
        ensures
            (code@, stmt_spans@) == optimize_spec(c0, s0, MAX_PASSES as nat),
            code.len() <= c0.len(),
            s0.len() == 0 ==> stmt_spans.len() == 0,
            s0.len() != 0 ==> stmt_spans.len() == code.len(),
        decreases MAX_PASSES - pass,
    {
        if pass >= MAX_PASSES {
            break;
        }
        let ghost before = code@;
        let ghost before_spans = stmt_spans@;
        let collapsed = collapse_jump_chains(code);
        let ghost mid = code@;
        proof {
            assert(mid.len() == before.len());
        }
        let removed = remove_jumps_to_next(code, stmt_spans);
        proof {
            lemma_remove_lengths(mid, before_spans);
        }
        if !collapsed && !removed {
            break;
        }
        pass = pass + 1;
    }
}

} // verus!

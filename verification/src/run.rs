//! What the VM's run loop reads from a chunk without executing it: the
//! locals that count as declared at a stopping point of the debugger.
use vstd::prelude::*;

use crate::chunk::Chunk;
use crate::op::Op;

verus! {

/// The local slot an instruction writes, if it writes one.
pub open spec fn written_slot(op: Op) -> Option<u16> {
    match op {
        Op::StoreLocal(s) => Some(s),
        Op::StoreLocalDeepCopy(s) => Some(s),
        Op::StoreLocalCopyFreeze(s) => Some(s),
        Op::StoreLocalFreezeInstance(s) => Some(s),
        Op::StoreLocalFromIdent(s, _) => Some(s),
        Op::ListAppendLocal(s) => Some(s),
        Op::ForIter(_, target, _) => Some(target),
        _ => None,
    }
}

/// The instruction writes local slot `s`.
pub open spec fn writes_slot(op: Op, s: int) -> bool {
    written_slot(op) matches Some(w) && w as int == s
}

/// Slot `s` is declared before instruction `ip`: it is a parameter, or an
/// instruction before `ip` may have written it.
pub open spec fn declared_before(chunk: Chunk, ip: int, s: int) -> bool {
    ||| s < chunk.n_params
    ||| exists|i: int| 0 <= i < ip && i < chunk.code@.len() && #[trigger] writes_slot(chunk.code@[i], s)
}

/// The instruction stores into local slot `s`: a store to a local (of any
/// copy rule), an append to a local list, or a `for` loop binding its
/// variable.
pub open spec fn slot_stored_by(op: Op, s: int) -> bool {
    match op {
        Op::StoreLocal(t) => t as int == s,
        Op::StoreLocalDeepCopy(t) => t as int == s,
        Op::StoreLocalCopyFreeze(t) => t as int == s,
        Op::StoreLocalFreezeInstance(t) => t as int == s,
        Op::StoreLocalFromIdent(t, _) => t as int == s,
        Op::ListAppendLocal(t) => t as int == s,
        Op::ForIter(_, target, _) => target as int == s,
        _ => false,
    }
}

/// **A store before the stopping point declares its slot**: a `for` loop
/// that binds its variable in slot `s`, or a store or append to local `s`,
/// at an instruction before `ip`, makes `s` declared at `ip`; so does being
/// a parameter.
pub proof fn law_stored_slot_is_declared(chunk: Chunk, ip: int, i: int, s: int)
    requires
        0 <= i < ip,
        i < chunk.code@.len(),
        slot_stored_by(chunk.code@[i], s),
    ensures
        declared_before(chunk, ip, s),
{
    assert(writes_slot(chunk.code@[i], s));
}

/// **Parameters are declared everywhere.**
pub proof fn law_parameters_are_declared(chunk: Chunk, ip: int, s: int)
    requires
        0 <= s < chunk.n_params,
    ensures
        declared_before(chunk, ip, s),
{
}

/// The written slot of one instruction, executably.
fn written_slot_of(op: &Op) -> (r: Option<u16>)
    ensures
        r == written_slot(*op),
{
    match op {
        Op::StoreLocal(s) | Op::StoreLocalDeepCopy(s) | Op::StoreLocalCopyFreeze(s) | Op::StoreLocalFreezeInstance(s)
        | Op::StoreLocalFromIdent(s, _) | Op::ListAppendLocal(s) => Some(*s),
        Op::ForIter(_, target, _) => Some(*target),
        _ => None,
    }
}

/// The local slots that are already declared when execution stops at `ip`
/// (for the debugger's view of a frame). A frame's slots all start as
/// `None`, so the value cannot tell "not declared yet" from "assigned
/// `None`": the code before `ip` is scanned for the slots it may have
/// written (a declaration on a branch not taken counts too). Parameters are
/// bound by the caller.
pub fn declared_slots(chunk: &Chunk, ip: usize) -> (r: Vec<bool>)
    ensures
        r@.len() == chunk.n_locals,
        forall|s: int| 0 <= s < r@.len() ==> r@[s] == declared_before(*chunk, ip as int, s),
        forall|s: int| 0 <= s < r@.len() && s < chunk.n_params ==> r@[s],
        forall|i: int, s: int| 0 <= i < ip && i < chunk.code@.len() && 0 <= s < r@.len()
            && #[trigger] slot_stored_by(chunk.code@[i], s) ==> r@[s],
{
    proof {
        assert forall|i: int, s: int| 0 <= i < ip && i < chunk.code@.len() && 0 <= s
            && #[trigger] slot_stored_by(chunk.code@[i], s) implies declared_before(*chunk, ip as int, s) by {
            law_stored_slot_is_declared(*chunk, ip as int, i, s);
        }
    }
    let mut declared: Vec<bool> = Vec::new();
    let mut s: usize = 0;
    while s < chunk.n_locals
        invariant
            s <= chunk.n_locals,
            declared@.len() == s,
            forall|j: int| 0 <= j < s ==> declared@[j] == (j < chunk.n_params),
        decreases chunk.n_locals - s,
    {
        declared.push(s < chunk.n_params);
        s = s + 1;
    }
    let end: usize = if ip < chunk.code.len() {
        ip
    } else {
        chunk.code.len()
    };
    let mut i: usize = 0;
    while i < end
        invariant
            end <= chunk.code@.len(),
            end as int == (if ip < chunk.code@.len() { ip as int } else { chunk.code@.len() as int }),
            i <= end,
            declared@.len() == chunk.n_locals,
            forall|j: int| 0 <= j < declared@.len() ==> declared@[j] == declared_before(*chunk, i as int, j),
        decreases end - i,
    {
        let w = written_slot_of(&chunk.code[i]);
        let ghost before = declared@;
        if let Some(slot) = w {
            if (slot as usize) < declared.len() {
                declared.set(slot as usize, true);
            }
        }
        proof {
            assert forall|j: int| 0 <= j < declared@.len() implies declared@[j] == declared_before(*chunk, i + 1, j) by {
                if writes_slot(chunk.code@[i as int], j) {
                    assert(declared@[j] == true);
                } else {
                    if declared_before(*chunk, i + 1, j) && !(j < chunk.n_params) {
                        let k = choose|k: int| 0 <= k < i + 1 && k < chunk.code@.len() && #[trigger] writes_slot(chunk.code@[k], j);
                        assert(k != i);
                        assert(declared_before(*chunk, i as int, j));
                    }
                    assert(declared@[j] == before[j]);
                }
            }
        }
        i = i + 1;
    }
    proof {
        assert forall|j: int| 0 <= j < declared@.len() implies declared@[j] == declared_before(*chunk, ip as int, j) by {
            if declared_before(*chunk, ip as int, j) && !(j < chunk.n_params) {
                let k = choose|k: int| 0 <= k < ip && k < chunk.code@.len() && #[trigger] writes_slot(chunk.code@[k], j);
                assert(declared_before(*chunk, end as int, j));
            }
            if declared_before(*chunk, end as int, j) && !(j < chunk.n_params) {
                let k = choose|k: int| 0 <= k < end && k < chunk.code@.len() && #[trigger] writes_slot(chunk.code@[k], j);
                assert(declared_before(*chunk, ip as int, j));
            }
        }
    }
    declared
}

} // verus!

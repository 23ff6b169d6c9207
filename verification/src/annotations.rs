//! Facts that the type checker attached to syntax nodes, keyed by node id.
//!
//! The compiler only reads them to choose type-specialised instructions and to
//! decide whether a dynamic check is required; they never change what a
//! program means.
use vstd::prelude::*;

verus! {

/// Both operands of a binary operation are known to be of this primitive type.
#[derive(Debug, Clone, Copy, PartialEq, Eq, Structural)]
pub enum BinOperandKind {
    Int,
    Float,
}

/// Inferred result type of a node, as far as the compiler cares.
#[derive(Debug, Clone, Copy, PartialEq, Eq, Structural)]
pub enum InferredType {
    Int,
    Float,
    Other,
}

/// Annotation table of one program.
pub struct AstAnnotations {
    /// Operand kind of binary operations.
    pub binop_kinds: Vec<(u32, BinOperandKind)>,
    /// Result type of nodes.
    pub resolved_types: Vec<(u32, InferredType)>,
    /// Nodes that carry a "check before use" directive (`mustbe`, `=>`).
    pub check_before: Vec<u32>,
}

/// First entry for `key` in an association list.
pub open spec fn assoc_get<V>(s: Seq<(u32, V)>, key: u32) -> Option<V>
    decreases s.len(),
{
    if s.len() == 0 {
        None
    } else if s[0].0 == key {
        Some(s[0].1)
    } else {
        assoc_get(s.drop_first(), key)
    }
}

proof fn lemma_assoc_get_step<V>(s: Seq<(u32, V)>, i: int, key: u32)
    requires
        0 <= i < s.len(),
        assoc_get(s.skip(i), key) == assoc_get(s, key),
        s[i].0 != key,
    ensures
        assoc_get(s.skip(i + 1), key) == assoc_get(s, key),
{
    assert(s.skip(i).drop_first() =~= s.skip(i + 1));
}

fn lookup_kind(s: &Vec<(u32, BinOperandKind)>, key: u32) -> (r: Option<BinOperandKind>)
    ensures
        r == assoc_get(s@, key),
{
    let mut i: usize = 0;
    assert(s@.skip(0) =~= s@);
    while i < s.len()
        invariant
            i <= s.len(),
            assoc_get(s@.skip(i as int), key) == assoc_get(s@, key),
        decreases s.len() - i,
    {
        if s[i].0 == key {
            return Some(s[i].1);
        }
        proof { lemma_assoc_get_step(s@, i as int, key); }
        i = i + 1;
    }
    None
}

fn lookup_type(s: &Vec<(u32, InferredType)>, key: u32) -> (r: Option<InferredType>)
    ensures
        r == assoc_get(s@, key),
{
    let mut i: usize = 0;
    assert(s@.skip(0) =~= s@);
    while i < s.len()
        invariant
            i <= s.len(),
            assoc_get(s@.skip(i as int), key) == assoc_get(s@, key),
        decreases s.len() - i,
    {
        if s[i].0 == key {
            return Some(s[i].1);
        }
        proof { lemma_assoc_get_step(s@, i as int, key); }
        i = i + 1;
    }
    None
}

impl AstAnnotations {
    /// An empty table (nothing is specialised, every dynamic check is unknown).
    pub fn empty() -> (r: AstAnnotations)
        ensures
            r.binop_kinds@.len() == 0,
            r.resolved_types@.len() == 0,
            r.check_before@.len() == 0,
    {
        AstAnnotations { binop_kinds: Vec::new(), resolved_types: Vec::new(), check_before: Vec::new() }
    }

    /// Operand kind recorded for a binary operation node.
    pub fn binop_kind(&self, node_id: u32) -> (r: Option<BinOperandKind>)
        ensures
            r == assoc_get(self.binop_kinds@, node_id),
    {
        lookup_kind(&self.binop_kinds, node_id)
    }

    /// Result type recorded for a node.
    pub fn resolved_type(&self, node_id: u32) -> (r: Option<InferredType>)
        ensures
            r == assoc_get(self.resolved_types@, node_id),
    {
        lookup_type(&self.resolved_types, node_id)
    }

    /// Whether the node carries a "check before use" directive.
    pub fn check_before(&self, node_id: u32) -> (r: bool)
        ensures
            r == self.check_before@.contains(node_id),
    {
        let mut i: usize = 0;
        while i < self.check_before.len()
            invariant
                i <= self.check_before.len(),
                forall|j: int| 0 <= j < i ==> self.check_before@[j] != node_id,
            decreases self.check_before.len() - i,
        {
            if self.check_before[i] == node_id {
                return true;
            }
            i = i + 1;
        }
        false
    }
}

} // verus!

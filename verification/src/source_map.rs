//! Model of the semantic containers and their source maps.
//!
//! A container ("body") owns its own semantic-node-id space and a partial
//! source map from node ids back to syntax-node provenance; desugared or
//! synthesized nodes have no entry. A snapshot is one generation's
//! internally consistent, read-only view: the syntax trees (one per file)
//! together with the containers. Resolution is a pure function of a snapshot
//! and a chain; a later generation is simply a different snapshot value.

use vstd::prelude::*;

use crate::syntax::{tree_wf, SyntaxTree};

verus! {

/// A semantic pattern-node id, unique within its owning container.
#[derive(Clone, Copy, Debug, PartialEq, Eq, Hash)]
pub struct PatId(pub usize);

/// A handle to a semantic container; it indexes the snapshot's container
/// table. A rebuilt container gets a fresh handle, so a handle pins one
/// generation's id space.
#[derive(Clone, Copy, Debug, PartialEq, Eq, Hash)]
pub struct Body(pub usize);

/// Per-node data of a container: the enclosing semantic node, and the source
/// map entry (the index of the originating syntax node, absent for
/// synthesized nodes).
#[derive(Clone, Copy, Debug, PartialEq, Eq)]
pub struct PatData {
    pub parent: Option<usize>,
    pub origin: Option<usize>,
}

/// One container's materialized data: the file its syntax tree lives in, and
/// its node table. Nodes are arena-ordered: a parent is allocated before its
/// children, so parent indices strictly decrease on the way up.
pub struct BodyData {
    pub file: usize,
    pub pats: Vec<PatData>,
}

/// A consistent, versioned snapshot: syntax trees addressed by file index and
/// containers addressed by `Body` handle.
pub struct Snapshot {
    pub trees: Vec<SyntaxTree>,
    pub bodies: Vec<BodyData>,
}

/// Every tree of the snapshot is well formed.
pub open spec fn snapshot_wf(s: Snapshot) -> bool {
    forall|f: int| 0 <= f < s.trees@.len() ==> tree_wf(#[trigger] s.trees@[f])
}

impl Snapshot {
    /// Decide whether every tree of this snapshot is well formed. The
    /// incremental layer that materializes snapshots can establish with this
    /// that narrowing only ever shrinks resolved ranges.
    pub fn well_formed(&self) -> (r: bool)
        ensures
            r == snapshot_wf(*self),
    {
        let mut i: usize = 0;
        while i < self.trees.len()
            invariant
                i <= self.trees@.len(),
                forall|j: int| 0 <= j < i ==> tree_wf(#[trigger] self.trees@[j]),
            decreases self.trees@.len() - i,
        {
            if !self.trees[i].well_formed() {
                return false;
            }
            i = i + 1;
        }
        true
    }
}

/// The nearest strict ancestor of `pat` that has a source map entry. The
/// walk follows parent links only while they decrease, which every
/// arena-ordered container satisfies; a link that fails to decrease ends the
/// walk as if the node had no parent.
pub open spec fn spec_nearest_mapped(b: BodyData, pat: usize) -> Option<usize>
    decreases pat,
{
    if (pat as int) < b.pats@.len() {
        match b.pats@[pat as int].parent {
            None => None,
            Some(p) => if p < pat {
                if b.pats@[p as int].origin is Some {
                    Some(p)
                } else {
                    spec_nearest_mapped(b, p)
                }
            } else {
                None
            },
        }
    } else {
        None
    }
}

/// What the ancestor walk returns is always an in-range node with a source
/// map entry.
pub proof fn lemma_nearest_mapped_props(b: BodyData, pat: usize)
    ensures
        (spec_nearest_mapped(b, pat) matches Some(a) ==> (a as int) < b.pats@.len()
            && b.pats@[a as int].origin is Some),
    decreases pat,
{
    if (pat as int) < b.pats@.len() {
        match b.pats@[pat as int].parent {
            None => {},
            Some(p) => {
                if p < pat && !(b.pats@[p as int].origin is Some) {
                    lemma_nearest_mapped_props(b, p);
                }
            },
        }
    }
}

impl BodyData {
    /// Walk the parent links of `pat` to the nearest mapped strict ancestor.
    pub fn nearest_mapped(&self, pat: usize) -> (r: Option<usize>)
        ensures
            r == spec_nearest_mapped(*self, pat),
        decreases pat,
    {
        if pat < self.pats.len() {
            match self.pats[pat].parent {
                None => None,
                Some(p) => {
                    if p < pat {
                        if self.pats[p].origin.is_some() {
                            Some(p)
                        } else {
                            self.nearest_mapped(p)
                        }
                    } else {
                        None
                    }
                },
            }
        } else {
            None
        }
    }
}

} // verus!

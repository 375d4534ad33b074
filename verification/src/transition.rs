//! Span transitions and the transition chain.
//!
//! A transition is a pure descriptor of one narrowing step; declaring it
//! walks no tree. A chain is a root (the semantic node whose origin starts
//! resolution) plus an ordered sequence of transitions. Chains are immutable
//! by append: extending one copies it, so shared parents are never mutated,
//! and the root is fixed for the chain's whole life.

use vstd::prelude::*;

use crate::pat::PatRoot;
use crate::resolver::{spec_resolve, SpanFailure};
use crate::source_map::Snapshot;
use crate::syntax::{FieldName, Span, TokenName};

verus! {

/// One declarative narrowing step.
#[derive(Clone, Copy, Debug, PartialEq, Eq)]
pub enum SpanTransition {
    /// Fetch the child under a syntactically named field.
    NamedField(FieldName),
    /// Fetch the i-th element of the ordered child list.
    IndexedChild(usize),
    /// Fetch a leaf token by its declared role.
    NamedToken(TokenName),
}

/// The kind of a transition, as named by a step failure.
#[derive(Clone, Copy, Debug, PartialEq, Eq, Structural)]
pub enum StepKind {
    NamedField,
    IndexedChild,
    NamedToken,
}

impl SpanTransition {
    /// The kind of this transition.
    pub open spec fn spec_kind(self) -> StepKind {
        match self {
            SpanTransition::NamedField(_) => StepKind::NamedField,
            SpanTransition::IndexedChild(_) => StepKind::IndexedChild,
            SpanTransition::NamedToken(_) => StepKind::NamedToken,
        }
    }

    /// The kind of this transition.
    pub fn kind(&self) -> (k: StepKind)
        ensures
            k == self.spec_kind(),
    {
        match self {
            SpanTransition::NamedField(_) => StepKind::NamedField,
            SpanTransition::IndexedChild(_) => StepKind::IndexedChild,
            SpanTransition::NamedToken(_) => StepKind::NamedToken,
        }
    }
}

/// The outcome of root resolution: the origin a chain's transitions start
/// from.
#[derive(Clone, Copy, Debug, PartialEq, Eq)]
pub enum ResolvedOrigin {
    /// An exact origin: a syntax node of one file's tree.
    Concrete { file: usize, node: usize },
    /// A desugared or synthesized origin with no direct syntax node, carrying
    /// the nearest mapped ancestor's range when one exists.
    Indirect { fallback: Option<Span> },
    /// No origin can be produced at all.
    Unresolvable,
}

/// A root plus an ordered sequence of transitions; never evaluated until
/// resolution is demanded.
#[derive(Clone)]
pub struct SpanTransitionChain {
    pub root: PatRoot,
    pub steps: Vec<SpanTransition>,
}

impl SpanTransitionChain {
    /// A chain with no transitions yet, rooted at `root`.
    pub fn new(root: PatRoot) -> (r: Self)
        ensures
            r.root == root,
            r.steps@ =~= Seq::<SpanTransition>::empty(),
    {
        SpanTransitionChain { root, steps: Vec::new() }
    }

    /// Copy this chain and extend the copy with one more transition. The
    /// root is untouched: appending never changes where a chain starts.
    pub fn append(&self, step: SpanTransition) -> (r: Self)
        ensures
            r.root == self.root,
            r.steps@ =~= self.steps@.push(step),
    {
        let mut steps: Vec<SpanTransition> = Vec::new();
        let mut i: usize = 0;
        while i < self.steps.len()
            invariant
                i <= self.steps@.len(),
                steps@ =~= self.steps@.take(i as int),
            decreases self.steps@.len() - i,
        {
            steps.push(self.steps[i]);
            proof {
                assert(steps@ =~= self.steps@.take(i as int + 1));
            }
            i = i + 1;
        }
        proof {
            assert(self.steps@.take(self.steps@.len() as int) =~= self.steps@);
        }
        steps.push(step);
        SpanTransitionChain { root: self.root, steps }
    }
}

/// A lazy span handle already narrowed to a single leaf token; it has no
/// accessors left.
#[derive(Clone)]
pub struct LazySpanAtom(pub SpanTransitionChain);

impl LazySpanAtom {
    /// Evaluate this handle's chain against a snapshot.
    pub fn resolve(&self, s: &Snapshot) -> (r: Result<Span, SpanFailure>)
        ensures
            r == spec_resolve(*s, self.0.root, self.0.steps@),
    {
        self.0.resolve(s)
    }
}

} // verus!

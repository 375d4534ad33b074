//! The lazy span handle for paths.
//!
//! Pattern shapes that carry a path (path patterns, path tuple patterns,
//! record patterns) narrow to this handle; further narrowing into path
//! segments belongs to the path family itself and is not part of the pattern
//! family's accessor tables.

use vstd::prelude::*;

use crate::resolver::{spec_resolve, SpanFailure};
use crate::source_map::Snapshot;
use crate::syntax::Span;
use crate::transition::SpanTransitionChain;

verus! {

/// A lazy span handle for a path.
#[derive(Clone)]
pub struct LazyPathSpan(pub SpanTransitionChain);

impl LazyPathSpan {
    /// Evaluate this handle's chain against a snapshot.
    pub fn resolve(&self, s: &Snapshot) -> (r: Result<Span, SpanFailure>)
        ensures
            r == spec_resolve(*s, self.0.root, self.0.steps@),
    {
        self.0.resolve(s)
    }
}

} // verus!

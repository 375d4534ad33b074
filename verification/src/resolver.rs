//! Chain evaluation.
//!
//! Resolution runs a chain end-to-end: the root is resolved to an origin,
//! then the transitions are applied left to right. Evaluation is all or
//! nothing: the first step whose target is gone short-circuits the rest, and
//! the outcome is either a concrete range or a typed failure naming the step
//! and the reason. Resolution reads the snapshot and mutates nothing, so the
//! same chain may be resolved any number of times, from any number of
//! callers, with the same result.

use vstd::prelude::*;

use crate::pat::PatRoot;
use crate::source_map::Snapshot;
use crate::syntax::{
    spec_find_field, spec_find_token, Span, SyntaxTree,
};
use crate::transition::{ResolvedOrigin, SpanTransition, SpanTransitionChain, StepKind};

verus! {

/// Why one transition failed.
#[derive(Clone, Copy, Debug, PartialEq, Eq, Structural)]
pub enum StepReason {
    /// The concrete node no longer has a field of that name.
    MissingField,
    /// The ordered child list is shorter than the requested index.
    IndexOutOfRange,
    /// The concrete node has no token of that role.
    MissingToken,
}

/// A typed resolution failure; every failure is a value, never a panic.
#[derive(Clone, Copy, Debug, PartialEq, Eq)]
pub enum SpanFailure {
    /// The root produced no origin at all.
    UnresolvableOrigin,
    /// The root is desugared or synthesized: there is no direct span, only
    /// the nearest mapped ancestor's range when one exists.
    DesugaredNoDirectSpan { fallback: Option<Span> },
    /// A transition failed; the index, kind and reason name the step.
    StepFailed { index: usize, kind: StepKind, reason: StepReason },
}

/// Where evaluation currently stands within one tree: on a node, or on a
/// leaf token that has already been pinned to a range.
#[derive(Clone, Copy, Debug, PartialEq, Eq)]
pub enum Cursor {
    Node(usize),
    Token(u32, u32),
}

/// A node cursor must point into the tree; a token cursor carries its range
/// and is always valid.
pub open spec fn cursor_valid(t: SyntaxTree, c: Cursor) -> bool {
    match c {
        Cursor::Node(n) => (n as int) < t.nodes@.len(),
        Cursor::Token(_, _) => true,
    }
}

/// The start offset of the text the cursor stands on.
pub open spec fn spec_cursor_start(t: SyntaxTree, c: Cursor) -> u32 {
    match c {
        Cursor::Node(n) => t.nodes@[n as int].start,
        Cursor::Token(start, _) => start,
    }
}

/// The end offset of the text the cursor stands on.
pub open spec fn spec_cursor_end(t: SyntaxTree, c: Cursor) -> u32 {
    match c {
        Cursor::Node(n) => t.nodes@[n as int].end,
        Cursor::Token(_, end) => end,
    }
}

/// The concrete range of a cursor, placed in `file`.
pub open spec fn spec_cursor_span(t: SyntaxTree, file: usize, c: Cursor) -> Span {
    Span { file, start: spec_cursor_start(t, c), end: spec_cursor_end(t, c) }
}

/// The reason reported when a transition is applied to something that no
/// longer has the requested shape at all.
pub open spec fn spec_stale_reason(step: SpanTransition) -> StepReason {
    match step {
        SpanTransition::NamedField(_) => StepReason::MissingField,
        SpanTransition::IndexedChild(_) => StepReason::IndexOutOfRange,
        SpanTransition::NamedToken(_) => StepReason::MissingToken,
    }
}

/// Apply one transition to a cursor. Every lookup is checked: a missing
/// field, a shrunken child list, an absent token or a dangling edge turns
/// into a reason, never an out-of-bounds access.
pub open spec fn spec_apply(t: SyntaxTree, c: Cursor, step: SpanTransition) -> Result<Cursor, StepReason> {
    match c {
        Cursor::Token(_, _) => Err(spec_stale_reason(step)),
        Cursor::Node(n) => {
            if (n as int) >= t.nodes@.len() {
                Err(spec_stale_reason(step))
            } else {
                match step {
                    SpanTransition::NamedField(name) => match spec_find_field(
                        t.nodes@[n as int].fields@,
                        name,
                    ) {
                        Some(j) => if (j as int) < t.nodes@.len() {
                            Ok(Cursor::Node(j))
                        } else {
                            Err(StepReason::MissingField)
                        },
                        None => Err(StepReason::MissingField),
                    },
                    SpanTransition::IndexedChild(k) => if (k as int) < t.nodes@[n as int].children@.len() {
                        if (t.nodes@[n as int].children@[k as int] as int) < t.nodes@.len() {
                            Ok(Cursor::Node(t.nodes@[n as int].children@[k as int]))
                        } else {
                            Err(StepReason::IndexOutOfRange)
                        }
                    } else {
                        Err(StepReason::IndexOutOfRange)
                    },
                    SpanTransition::NamedToken(name) => match spec_find_token(
                        t.nodes@[n as int].tokens@,
                        name,
                    ) {
                        Some(tok) => Ok(Cursor::Token(tok.start, tok.end)),
                        None => Err(StepReason::MissingToken),
                    },
                }
            }
        },
    }
}

/// Run the transitions of `steps` from position `i` onward, left to right,
/// starting at cursor `c`. The first failing step ends the run with a
/// `StepFailed` naming it.
pub open spec fn spec_run_from(
    t: SyntaxTree,
    c: Cursor,
    steps: Seq<SpanTransition>,
    i: int,
) -> Result<Cursor, SpanFailure>
    decreases steps.len() - i,
{
    if i < 0 || i >= steps.len() {
        Ok(c)
    } else {
        match spec_apply(t, c, steps[i]) {
            Ok(c2) => spec_run_from(t, c2, steps, i + 1),
            Err(reason) => Err(
                SpanFailure::StepFailed { index: i as usize, kind: steps[i].spec_kind(), reason },
            ),
        }
    }
}

/// End-to-end evaluation of a chain against a snapshot: resolve the root,
/// apply every transition in order, and read off the final cursor's range.
pub open spec fn spec_resolve(
    s: Snapshot,
    root: PatRoot,
    steps: Seq<SpanTransition>,
) -> Result<Span, SpanFailure> {
    match root.spec_init(s) {
        ResolvedOrigin::Unresolvable => Err(SpanFailure::UnresolvableOrigin),
        ResolvedOrigin::Indirect { fallback } => Err(SpanFailure::DesugaredNoDirectSpan { fallback }),
        ResolvedOrigin::Concrete { file, node } => match spec_run_from(
            s.trees@[file as int],
            Cursor::Node(node),
            steps,
            0,
        ) {
            Ok(c) => Ok(spec_cursor_span(s.trees@[file as int], file, c)),
            Err(f) => Err(f),
        },
    }
}

/// A successfully applied transition lands on a valid cursor.
pub proof fn lemma_apply_valid(t: SyntaxTree, c: Cursor, step: SpanTransition)
    ensures
        (spec_apply(t, c, step) matches Ok(c2) ==> cursor_valid(t, c2)),
{
}

/// Apply one transition to a cursor.
fn apply_step(t: &SyntaxTree, c: Cursor, step: SpanTransition) -> (r: Result<Cursor, StepReason>)
    ensures
        r == spec_apply(*t, c, step),
{
    match c {
        Cursor::Token(_, _) => Err(stale_reason(step)),
        Cursor::Node(n) => {
            if n >= t.nodes.len() {
                Err(stale_reason(step))
            } else {
                match step {
                    SpanTransition::NamedField(name) => match t.nodes[n].find_field(name) {
                        Some(j) => if j < t.nodes.len() {
                            Ok(Cursor::Node(j))
                        } else {
                            Err(StepReason::MissingField)
                        },
                        None => Err(StepReason::MissingField),
                    },
                    SpanTransition::IndexedChild(k) => if k < t.nodes[n].children.len() {
                        let j = t.nodes[n].children[k];
                        if j < t.nodes.len() {
                            Ok(Cursor::Node(j))
                        } else {
                            Err(StepReason::IndexOutOfRange)
                        }
                    } else {
                        Err(StepReason::IndexOutOfRange)
                    },
                    SpanTransition::NamedToken(name) => match t.nodes[n].find_token(name) {
                        Some(tok) => Ok(Cursor::Token(tok.start, tok.end)),
                        None => Err(StepReason::MissingToken),
                    },
                }
            }
        },
    }
}

/// The stale-shape reason matching a transition's kind.
fn stale_reason(step: SpanTransition) -> (r: StepReason)
    ensures
        r == spec_stale_reason(step),
{
    match step {
        SpanTransition::NamedField(_) => StepReason::MissingField,
        SpanTransition::IndexedChild(_) => StepReason::IndexOutOfRange,
        SpanTransition::NamedToken(_) => StepReason::MissingToken,
    }
}

/// The concrete range of a valid cursor, placed in `file`.
fn cursor_span(t: &SyntaxTree, file: usize, c: Cursor) -> (r: Span)
    requires
        cursor_valid(*t, c),
    ensures
        r == spec_cursor_span(*t, file, c),
{
    match c {
        Cursor::Node(n) => Span { file, start: t.nodes[n].start, end: t.nodes[n].end },
        Cursor::Token(start, end) => Span { file, start, end },
    }
}

impl SpanTransitionChain {
    /// Evaluate this chain against a snapshot: a concrete range, or a typed
    /// failure. The chain is only read; repeated evaluation against the same
    /// snapshot returns the same value.
    pub fn resolve(&self, s: &Snapshot) -> (r: Result<Span, SpanFailure>)
        ensures
            r == spec_resolve(*s, self.root, self.steps@),
    {
        let origin = self.root.init(s);
        match origin {
            ResolvedOrigin::Unresolvable => Err(SpanFailure::UnresolvableOrigin),
            ResolvedOrigin::Indirect { fallback } => Err(
                SpanFailure::DesugaredNoDirectSpan { fallback },
            ),
            ResolvedOrigin::Concrete { file, node } => {
                proof {
                    crate::pat::lemma_init_concrete(self.root, *s);
                }
                let t = &s.trees[file];
                let mut cur = Cursor::Node(node);
                let mut i: usize = 0;
                while i < self.steps.len()
                    invariant
                        i <= self.steps@.len(),
                        self.root.spec_init(*s) == (ResolvedOrigin::Concrete { file, node }),
                        (file as int) < s.trees@.len(),
                        *t == s.trees@[file as int],
                        cursor_valid(*t, cur),
                        spec_run_from(*t, Cursor::Node(node), self.steps@, 0) == spec_run_from(
                            *t,
                            cur,
                            self.steps@,
                            i as int,
                        ),
                    decreases self.steps@.len() - i,
                {
                    let step = self.steps[i];
                    match apply_step(t, cur, step) {
                        Ok(c2) => {
                            proof {
                                lemma_apply_valid(*t, cur, step);
                            }
                            cur = c2;
                            i = i + 1;
                        },
                        Err(reason) => {
                            return Err(
                                SpanFailure::StepFailed { index: i, kind: step.kind(), reason },
                            );
                        },
                    }
                }
                Ok(cursor_span(t, file, cur))
            },
        }
    }
}

} // verus!

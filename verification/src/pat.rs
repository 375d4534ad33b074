//! The lazy span-node family for patterns.
//!
//! Each shape variant is a thin typed wrapper over a chain and statically
//! declares exactly the accessors its node kind has; an accessor appends one
//! transition and returns the next, more specific wrapper. The
//! reinterpretation operations (`into_*`) rewrap the identical chain under a
//! more specific variant without touching it: they are caller-asserted type
//! refinements for a caller that has already established the concrete shape
//! by semantic inspection, not runtime checks, and reinterpreting as the
//! wrong shape is a caller contract violation.

use vstd::prelude::*;

use crate::path::LazyPathSpan;
use crate::resolver::{spec_resolve, SpanFailure};
use crate::source_map::{lemma_nearest_mapped_props, spec_nearest_mapped, Body, PatId, Snapshot};
use crate::syntax::{FieldName, Span, TokenName};
use crate::transition::{LazySpanAtom, ResolvedOrigin, SpanTransition, SpanTransitionChain};

verus! {

/// The chain initiator for patterns: a semantic pattern node and its owning
/// container.
#[derive(Clone, Copy, Debug, PartialEq, Eq, Hash)]
pub struct PatRoot {
    pub pat: PatId,
    pub body: Body,
}

impl PatRoot {
    /// The origin this root resolves to against snapshot `s`: the mapped
    /// syntax node when the source map has an entry; for an unmapped node,
    /// an indirect origin carrying the nearest mapped ancestor's range when
    /// such an ancestor exists; otherwise unresolvable. An unknown container,
    /// file or node id — a superseded generation — is unresolvable too.
    pub open spec fn spec_init(self, s: Snapshot) -> ResolvedOrigin {
        if (self.body.0 as int) < s.bodies@.len() {
            let b = s.bodies@[self.body.0 as int];
            if (b.file as int) < s.trees@.len() {
                let t = s.trees@[b.file as int];
                if (self.pat.0 as int) < b.pats@.len() {
                    match b.pats@[self.pat.0 as int].origin {
                        Some(n) => if (n as int) < t.nodes@.len() {
                            ResolvedOrigin::Concrete { file: b.file, node: n }
                        } else {
                            ResolvedOrigin::Unresolvable
                        },
                        None => match spec_nearest_mapped(b, self.pat.0) {
                            Some(a) => match b.pats@[a as int].origin {
                                Some(n) => if (n as int) < t.nodes@.len() {
                                    ResolvedOrigin::Indirect {
                                        fallback: Some(
                                            Span {
                                                file: b.file,
                                                start: t.nodes@[n as int].start,
                                                end: t.nodes@[n as int].end,
                                            },
                                        ),
                                    }
                                } else {
                                    ResolvedOrigin::Indirect { fallback: None }
                                },
                                None => ResolvedOrigin::Unresolvable,
                            },
                            None => ResolvedOrigin::Unresolvable,
                        },
                    }
                } else {
                    ResolvedOrigin::Unresolvable
                }
            } else {
                ResolvedOrigin::Unresolvable
            }
        } else {
            ResolvedOrigin::Unresolvable
        }
    }

    /// Query the owning container's source map and anchor the outcome into
    /// the container's file.
    pub fn init(&self, s: &Snapshot) -> (r: ResolvedOrigin)
        ensures
            r == self.spec_init(*s),
    {
        if self.body.0 >= s.bodies.len() {
            return ResolvedOrigin::Unresolvable;
        }
        let b = &s.bodies[self.body.0];
        if b.file >= s.trees.len() {
            return ResolvedOrigin::Unresolvable;
        }
        let t = &s.trees[b.file];
        if self.pat.0 >= b.pats.len() {
            return ResolvedOrigin::Unresolvable;
        }
        match b.pats[self.pat.0].origin {
            Some(n) => if n < t.nodes.len() {
                ResolvedOrigin::Concrete { file: b.file, node: n }
            } else {
                ResolvedOrigin::Unresolvable
            },
            None => match b.nearest_mapped(self.pat.0) {
                Some(a) => {
                    proof {
                        lemma_nearest_mapped_props(*b, self.pat.0);
                    }
                    match b.pats[a].origin {
                        Some(n) => if n < t.nodes.len() {
                            ResolvedOrigin::Indirect {
                                fallback: Some(
                                    Span {
                                        file: b.file,
                                        start: t.nodes[n].start,
                                        end: t.nodes[n].end,
                                    },
                                ),
                            }
                        } else {
                            ResolvedOrigin::Indirect { fallback: None }
                        },
                        None => ResolvedOrigin::Unresolvable,
                    }
                },
                None => ResolvedOrigin::Unresolvable,
            },
        }
    }
}

/// A concrete origin always points into the snapshot: its file has a tree
/// and its node is in that tree.
pub proof fn lemma_init_concrete(root: PatRoot, s: Snapshot)
    ensures
        (root.spec_init(s) matches ResolvedOrigin::Concrete { file, node } ==> (file as int)
            < s.trees@.len() && (node as int) < s.trees@[file as int].nodes@.len()),
{
}

/// A lazy span handle for a pattern of any shape.
#[derive(Clone)]
pub struct LazyPatSpan(pub SpanTransitionChain);

impl LazyPatSpan {
    /// Root a fresh chain at pattern `pat` of container `body`.
    pub fn new(pat: PatId, body: Body) -> (r: Self)
        ensures
            r.0.root == (PatRoot { pat, body }),
            r.0.steps@ =~= Seq::<SpanTransition>::empty(),
    {
        let root = PatRoot { pat, body };
        LazyPatSpan(SpanTransitionChain::new(root))
    }

    /// Reinterpret as a path pattern; the chain is forwarded unchanged.
    pub fn into_path_pat(self) -> (r: LazyPathPatSpan)
        ensures
            r.0 == self.0,
    {
        LazyPathPatSpan(self.0)
    }

    /// Reinterpret as a path tuple pattern; the chain is forwarded unchanged.
    pub fn into_path_tuple_pat(self) -> (r: LazyPathTuplePatSpan)
        ensures
            r.0 == self.0,
    {
        LazyPathTuplePatSpan(self.0)
    }

    /// Reinterpret as a record pattern; the chain is forwarded unchanged.
    pub fn into_record_pat(self) -> (r: LazyRecordPatSpan)
        ensures
            r.0 == self.0,
    {
        LazyRecordPatSpan(self.0)
    }

    /// Evaluate this handle's chain against a snapshot.
    pub fn resolve(&self, s: &Snapshot) -> (r: Result<Span, SpanFailure>)
        ensures
            r == spec_resolve(*s, self.0.root, self.0.steps@),
    {
        self.0.resolve(s)
    }
}

/// A lazy span handle for a path pattern.
#[derive(Clone)]
pub struct LazyPathPatSpan(pub SpanTransitionChain);

impl LazyPathPatSpan {
    /// Narrow to the pattern's path.
    pub fn path(&self) -> (r: LazyPathSpan)
        ensures
            r.0.root == self.0.root,
            r.0.steps@ =~= self.0.steps@.push(SpanTransition::NamedField(FieldName::Path)),
    {
        LazyPathSpan(self.0.append(SpanTransition::NamedField(FieldName::Path)))
    }

    /// Evaluate this handle's chain against a snapshot.
    pub fn resolve(&self, s: &Snapshot) -> (r: Result<Span, SpanFailure>)
        ensures
            r == spec_resolve(*s, self.0.root, self.0.steps@),
    {
        self.0.resolve(s)
    }
}

/// A lazy span handle for a path tuple pattern.
#[derive(Clone)]
pub struct LazyPathTuplePatSpan(pub SpanTransitionChain);

impl LazyPathTuplePatSpan {
    /// Narrow to the pattern's path.
    pub fn path(&self) -> (r: LazyPathSpan)
        ensures
            r.0.root == self.0.root,
            r.0.steps@ =~= self.0.steps@.push(SpanTransition::NamedField(FieldName::Path)),
    {
        LazyPathSpan(self.0.append(SpanTransition::NamedField(FieldName::Path)))
    }

    /// Evaluate this handle's chain against a snapshot.
    pub fn resolve(&self, s: &Snapshot) -> (r: Result<Span, SpanFailure>)
        ensures
            r == spec_resolve(*s, self.0.root, self.0.steps@),
    {
        self.0.resolve(s)
    }
}

/// A lazy span handle for a record pattern.
#[derive(Clone)]
pub struct LazyRecordPatSpan(pub SpanTransitionChain);

impl LazyRecordPatSpan {
    /// Narrow to the pattern's path.
    pub fn path(&self) -> (r: LazyPathSpan)
        ensures
            r.0.root == self.0.root,
            r.0.steps@ =~= self.0.steps@.push(SpanTransition::NamedField(FieldName::Path)),
    {
        LazyPathSpan(self.0.append(SpanTransition::NamedField(FieldName::Path)))
    }

    /// Narrow to the pattern's record-field list.
    pub fn field(&self) -> (r: LazyRecordPatFieldListSpan)
        ensures
            r.0.root == self.0.root,
            r.0.steps@ =~= self.0.steps@.push(SpanTransition::NamedField(FieldName::Fields)),
    {
        LazyRecordPatFieldListSpan(self.0.append(SpanTransition::NamedField(FieldName::Fields)))
    }

    /// Evaluate this handle's chain against a snapshot.
    pub fn resolve(&self, s: &Snapshot) -> (r: Result<Span, SpanFailure>)
        ensures
            r == spec_resolve(*s, self.0.root, self.0.steps@),
    {
        self.0.resolve(s)
    }
}

/// A lazy span handle for the field list of a record pattern.
#[derive(Clone)]
pub struct LazyRecordPatFieldListSpan(pub SpanTransitionChain);

impl LazyRecordPatFieldListSpan {
    /// Narrow to the `idx`-th record-pattern field.
    pub fn field(&self, idx: usize) -> (r: LazyRecordPatFieldSpan)
        ensures
            r.0.root == self.0.root,
            r.0.steps@ =~= self.0.steps@.push(SpanTransition::IndexedChild(idx)),
    {
        LazyRecordPatFieldSpan(self.0.append(SpanTransition::IndexedChild(idx)))
    }

    /// Evaluate this handle's chain against a snapshot.
    pub fn resolve(&self, s: &Snapshot) -> (r: Result<Span, SpanFailure>)
        ensures
            r == spec_resolve(*s, self.0.root, self.0.steps@),
    {
        self.0.resolve(s)
    }
}

/// A lazy span handle for one field of a record pattern.
#[derive(Clone)]
pub struct LazyRecordPatFieldSpan(pub SpanTransitionChain);

impl LazyRecordPatFieldSpan {
    /// Narrow to the field's name token.
    pub fn name(&self) -> (r: LazySpanAtom)
        ensures
            r.0.root == self.0.root,
            r.0.steps@ =~= self.0.steps@.push(SpanTransition::NamedToken(TokenName::Name)),
    {
        LazySpanAtom(self.0.append(SpanTransition::NamedToken(TokenName::Name)))
    }

    /// Evaluate this handle's chain against a snapshot.
    pub fn resolve(&self, s: &Snapshot) -> (r: Result<Span, SpanFailure>)
        ensures
            r == spec_resolve(*s, self.0.root, self.0.steps@),
    {
        self.0.resolve(s)
    }
}

} // verus!

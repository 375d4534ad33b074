//! Global guarantees of chain resolution.
//!
//! These proof functions state, over the same spec functions that the
//! executable resolver's contracts use, what holds of resolution as a whole:
//! it is deterministic per snapshot, a legal narrowing step only shrinks a
//! resolved range, appending a step to a chain that resolves can only fail
//! with a `StepFailed` naming that very step, and an unmapped node falls back
//! to its nearest mapped ancestor or is unresolvable.

use vstd::prelude::*;

use crate::pat::{lemma_init_concrete, PatRoot};
use crate::resolver::{
    cursor_valid, spec_apply, spec_cursor_end, spec_cursor_start, spec_resolve, spec_run_from,
    Cursor, SpanFailure,
};
use crate::source_map::{snapshot_wf, spec_nearest_mapped, Snapshot};
use crate::syntax::{
    child_wf, field_wf, lemma_find_field_from_found, lemma_find_token_from_found, node_wf,
    token_wf, tree_wf, Span, SyntaxTree,
};
use crate::transition::{ResolvedOrigin, SpanTransition};

verus! {

/// A run that ends on a valid cursor started on one: every applied step
/// lands in bounds.
pub proof fn lemma_run_from_valid(t: SyntaxTree, c: Cursor, steps: Seq<SpanTransition>, i: int)
    requires
        cursor_valid(t, c),
    ensures
        (spec_run_from(t, c, steps, i) matches Ok(c2) ==> cursor_valid(t, c2)),
    decreases steps.len() - i,
{
    if i < 0 || i >= steps.len() {
    } else {
        match spec_apply(t, c, steps[i]) {
            Ok(c2) => {
                lemma_run_from_valid(t, c2, steps, i + 1);
            },
            Err(_) => {},
        }
    }
}

/// Running the steps of `steps.push(st)` is running those of `steps` and
/// then, on success, applying `st`; a failure of `st` is reported at index
/// `steps.len()`.
pub proof fn lemma_run_from_push(
    t: SyntaxTree,
    c: Cursor,
    steps: Seq<SpanTransition>,
    st: SpanTransition,
    i: int,
)
    requires
        0 <= i <= steps.len(),
    ensures
        (spec_run_from(t, c, steps, i) matches Ok(c2) ==> spec_run_from(t, c, steps.push(st), i)
            == (match spec_apply(t, c2, st) {
            Ok(c3) => Result::<Cursor, SpanFailure>::Ok(c3),
            Err(reason) => Result::<Cursor, SpanFailure>::Err(
                SpanFailure::StepFailed {
                    index: steps.len() as usize,
                    kind: st.spec_kind(),
                    reason,
                },
            ),
        })),
        (spec_run_from(t, c, steps, i) matches Err(f) ==> spec_run_from(t, c, steps.push(st), i)
            == Result::<Cursor, SpanFailure>::Err(f)),
    decreases steps.len() - i,
{
    if i == steps.len() {
        assert(steps.push(st)[i] == st);
    } else {
        assert(steps.push(st)[i] == steps[i]);
        match spec_apply(t, c, steps[i]) {
            Ok(c2) => {
                lemma_run_from_push(t, c2, steps, st, i + 1);
            },
            Err(_) => {},
        }
    }
}

/// In a well-formed tree, one applied step lands within the range it
/// started from.
pub proof fn lemma_apply_narrows(t: SyntaxTree, c: Cursor, step: SpanTransition)
    requires
        tree_wf(t),
        cursor_valid(t, c),
    ensures
        (spec_apply(t, c, step) matches Ok(c2) ==> {
            &&& cursor_valid(t, c2)
            &&& spec_cursor_start(t, c) <= spec_cursor_start(t, c2)
            &&& spec_cursor_end(t, c2) <= spec_cursor_end(t, c)
        }),
{
    match c {
        Cursor::Token(_, _) => {},
        Cursor::Node(n) => {
            assert(node_wf(t, t.nodes@[n as int]));
            let nd = t.nodes@[n as int];
            match step {
                SpanTransition::NamedField(name) => {
                    lemma_find_field_from_found(nd.fields@, name, 0);
                    if spec_apply(t, c, step) is Ok {
                        let j = choose|j: int|
                            0 <= j < nd.fields@.len() && (#[trigger] nd.fields@[j]).name == name
                                && Some(nd.fields@[j].node) == crate::syntax::spec_find_field(
                                nd.fields@,
                                name,
                            );
                        assert(field_wf(t, nd, nd.fields@[j]));
                    }
                },
                SpanTransition::IndexedChild(k) => {
                    if (k as int) < nd.children@.len() {
                        assert(child_wf(t, nd, nd.children@[k as int]));
                    }
                },
                SpanTransition::NamedToken(name) => {
                    lemma_find_token_from_found(nd.tokens@, name, 0);
                    if spec_apply(t, c, step) is Ok {
                        let tok = crate::syntax::spec_find_token(nd.tokens@, name)->Some_0;
                        let j = choose|j: int|
                            0 <= j < nd.tokens@.len() && #[trigger] nd.tokens@[j] == tok;
                        assert(token_wf(nd, nd.tokens@[j]));
                    }
                },
            }
        },
    }
}

/// Determinism: resolving the same chain twice against the same snapshot
/// yields the same outcome; resolution is a pure function of the snapshot
/// and the chain.
pub proof fn lemma_resolve_deterministic(
    s: Snapshot,
    root: PatRoot,
    steps: Seq<SpanTransition>,
    r1: Result<Span, SpanFailure>,
    r2: Result<Span, SpanFailure>,
)
    requires
        r1 == spec_resolve(s, root, steps),
        r2 == spec_resolve(s, root, steps),
    ensures
        r1 == r2,
{
}

/// Monotonic narrowing: when a chain and the chain extended by one more step
/// both resolve against a well-formed snapshot, the longer chain's range is
/// a sub-range of (or equal to) the shorter one's, in the same file.
pub proof fn lemma_monotonic_narrowing(
    s: Snapshot,
    root: PatRoot,
    steps: Seq<SpanTransition>,
    st: SpanTransition,
    r1: Span,
    r2: Span,
)
    requires
        snapshot_wf(s),
        spec_resolve(s, root, steps) == Result::<Span, SpanFailure>::Ok(r1),
        spec_resolve(s, root, steps.push(st)) == Result::<Span, SpanFailure>::Ok(r2),
    ensures
        r2.file == r1.file,
        r1.start <= r2.start,
        r2.end <= r1.end,
{
    lemma_init_concrete(root, s);
    match root.spec_init(s) {
        ResolvedOrigin::Concrete { file, node } => {
            let t = s.trees@[file as int];
            assert(tree_wf(t));
            match spec_run_from(t, Cursor::Node(node), steps, 0) {
                Ok(cf) => {
                    lemma_run_from_valid(t, Cursor::Node(node), steps, 0);
                    lemma_run_from_push(t, Cursor::Node(node), steps, st, 0);
                    lemma_apply_narrows(t, cf, st);
                },
                Err(_) => {
                    assert(false);
                },
            }
        },
        _ => {
            assert(false);
        },
    }
}

/// Shape-loss safety: appending one step to a chain that resolves can only
/// fail as a `StepFailed` that names the appended step — never as an origin
/// failure, and (the resolver being verified) never as an out-of-bounds
/// access.
pub proof fn lemma_shape_loss_safe(
    s: Snapshot,
    root: PatRoot,
    steps: Seq<SpanTransition>,
    st: SpanTransition,
    r1: Span,
)
    requires
        spec_resolve(s, root, steps) == Result::<Span, SpanFailure>::Ok(r1),
        steps.len() < usize::MAX,
    ensures
        (spec_resolve(s, root, steps.push(st)) matches Err(f) ==> f matches
            SpanFailure::StepFailed { index, kind, reason } && index == steps.len() && kind
            == st.spec_kind()),
{
    lemma_init_concrete(root, s);
    match root.spec_init(s) {
        ResolvedOrigin::Concrete { file, node } => {
            let t = s.trees@[file as int];
            match spec_run_from(t, Cursor::Node(node), steps, 0) {
                Ok(_) => {
                    lemma_run_from_push(t, Cursor::Node(node), steps, st, 0);
                },
                Err(_) => {
                    assert(false);
                },
            }
        },
        _ => {
            assert(false);
        },
    }
}

/// Synthetic fallback: a node id the source map has no entry for resolves to
/// `DesugaredNoDirectSpan` carrying the nearest mapped ancestor's range when
/// such an ancestor exists (and that ancestor's syntax node still does), and
/// to `UnresolvableOrigin` when no mapped ancestor exists — whatever the
/// chain's transitions say.
pub proof fn lemma_synthetic_fallback(s: Snapshot, root: PatRoot, steps: Seq<SpanTransition>)
    requires
        (root.body.0 as int) < s.bodies@.len(),
        (s.bodies@[root.body.0 as int].file as int) < s.trees@.len(),
        (root.pat.0 as int) < s.bodies@[root.body.0 as int].pats@.len(),
        s.bodies@[root.body.0 as int].pats@[root.pat.0 as int].origin is None,
    ensures
        (spec_nearest_mapped(s.bodies@[root.body.0 as int], root.pat.0) is None ==> spec_resolve(
            s,
            root,
            steps,
        ) == Result::<Span, SpanFailure>::Err(SpanFailure::UnresolvableOrigin)),
        (spec_nearest_mapped(s.bodies@[root.body.0 as int], root.pat.0) matches Some(a) ==> ({
            let b = s.bodies@[root.body.0 as int];
            let t = s.trees@[b.file as int];
            b.pats@[a as int].origin matches Some(n) ==> spec_resolve(s, root, steps) == (if (n
                as int) < t.nodes@.len() {
                Result::<Span, SpanFailure>::Err(
                    SpanFailure::DesugaredNoDirectSpan {
                        fallback: Some(
                            Span {
                                file: b.file,
                                start: t.nodes@[n as int].start,
                                end: t.nodes@[n as int].end,
                            },
                        ),
                    },
                )
            } else {
                Result::<Span, SpanFailure>::Err(
                    SpanFailure::DesugaredNoDirectSpan { fallback: None },
                )
            })
        })),
{
    crate::source_map::lemma_nearest_mapped_props(s.bodies@[root.body.0 as int], root.pat.0);
}

} // verus!

use lazy_span::pat::LazyPatSpan;
use lazy_span::resolver::{SpanFailure, StepReason};
use lazy_span::source_map::{Body, BodyData, PatData, PatId, Snapshot};
use lazy_span::syntax::{FieldName, Span, SyntaxField, SyntaxNode, SyntaxToken, TokenName};
use lazy_span::transition::StepKind;

fn node(start: u32, end: u32) -> SyntaxNode {
    SyntaxNode { start, end, fields: vec![], children: vec![], tokens: vec![] }
}

/// The record pattern `Point { x, y }` at file offsets [10,26):
/// node 0 is the record pattern, node 1 its path, node 2 the field list at
/// [12,24), node 3 the field `x` whose name token is at [17,18), node 4 the
/// field `y` (with no name token, so a missing-token lookup can be probed).
fn point_snapshot() -> Snapshot {
    let mut record = node(10, 26);
    record.fields = vec![
        SyntaxField { name: FieldName::Path, node: 1 },
        SyntaxField { name: FieldName::Fields, node: 2 },
    ];
    let path = node(10, 15);
    let mut field_list = node(12, 24);
    field_list.children = vec![3, 4];
    let mut field_x = node(17, 19);
    field_x.tokens = vec![SyntaxToken { name: TokenName::Name, start: 17, end: 18 }];
    let field_y = node(20, 23);

    let tree = lazy_span::syntax::SyntaxTree {
        nodes: vec![record, path, field_list, field_x, field_y],
    };

    // pat 0: the record pattern, mapped to node 0.
    // pat 1: synthesized from desugaring, child of pat 0, no map entry.
    // pat 2: synthesized below pat 1, so its nearest mapped ancestor is pat 0.
    // pat 3: synthesized with no parent at all.
    // pat 4: the sub-pattern for field x, mapped to node 3.
    let body = BodyData {
        file: 0,
        pats: vec![
            PatData { parent: None, origin: Some(0) },
            PatData { parent: Some(0), origin: None },
            PatData { parent: Some(1), origin: None },
            PatData { parent: None, origin: None },
            PatData { parent: Some(0), origin: Some(3) },
        ],
    };

    // A second container whose only pattern is mapped to a node that no
    // longer exists, and a third where the mapped ancestor's node is gone.
    let stale_body = BodyData { file: 0, pats: vec![PatData { parent: None, origin: Some(99) }] };
    let stale_ancestor_body = BodyData {
        file: 0,
        pats: vec![
            PatData { parent: None, origin: Some(99) },
            PatData { parent: Some(0), origin: None },
        ],
    };

    Snapshot { trees: vec![tree], bodies: vec![body, stale_body, stale_ancestor_body] }
}

#[test]
fn record_pattern_resolves_to_its_own_range() {
    let s = point_snapshot();
    let r = LazyPatSpan::new(PatId(0), Body(0)).resolve(&s);
    assert_eq!(r, Ok(Span { file: 0, start: 10, end: 26 }));
}

#[test]
fn field_list_resolves_to_its_range() {
    let s = point_snapshot();
    let h = LazyPatSpan::new(PatId(0), Body(0)).into_record_pat();
    let r = h.field().resolve(&s);
    assert_eq!(r, Ok(Span { file: 0, start: 12, end: 24 }));
}

#[test]
fn field_name_token_resolves_to_its_range() {
    let s = point_snapshot();
    let h = LazyPatSpan::new(PatId(0), Body(0)).into_record_pat();
    let r = h.field().field(0).name().resolve(&s);
    assert_eq!(r, Ok(Span { file: 0, start: 17, end: 18 }));
}

#[test]
fn record_pattern_path_resolves() {
    let s = point_snapshot();
    let h = LazyPatSpan::new(PatId(0), Body(0)).into_record_pat();
    let r = h.path().resolve(&s);
    assert_eq!(r, Ok(Span { file: 0, start: 10, end: 15 }));
}

#[test]
fn path_pat_reinterpretations_share_the_path_accessor() {
    let s = point_snapshot();
    let r1 = LazyPatSpan::new(PatId(0), Body(0)).into_path_pat().path().resolve(&s);
    let r2 = LazyPatSpan::new(PatId(0), Body(0)).into_path_tuple_pat().path().resolve(&s);
    assert_eq!(r1, Ok(Span { file: 0, start: 10, end: 15 }));
    assert_eq!(r1, r2);
}

#[test]
fn resolving_twice_is_deterministic() {
    let s = point_snapshot();
    let h = LazyPatSpan::new(PatId(0), Body(0)).into_record_pat();
    let once = h.field().field(0).name().resolve(&s);
    let again = h.field().field(0).name().resolve(&s);
    assert_eq!(once, again);
}

#[test]
fn each_appended_step_narrows_the_range() {
    let s = point_snapshot();
    let h = LazyPatSpan::new(PatId(0), Body(0)).into_record_pat();
    let whole = h.resolve(&s).unwrap();
    let list = h.field().resolve(&s).unwrap();
    let field = h.field().field(0).resolve(&s).unwrap();
    let token = h.field().field(0).name().resolve(&s).unwrap();
    assert!(whole.start <= list.start && list.end <= whole.end);
    assert!(list.start <= field.start && field.end <= list.end);
    assert!(field.start <= token.start && token.end <= field.end);
}

#[test]
fn reinterpreted_handle_resolves_identically() {
    let s = point_snapshot();
    let generic = LazyPatSpan::new(PatId(0), Body(0)).resolve(&s);
    let refined = LazyPatSpan::new(PatId(0), Body(0)).into_record_pat().resolve(&s);
    assert_eq!(generic, refined);
}

#[test]
fn out_of_range_child_index_is_a_step_failure() {
    let s = point_snapshot();
    let h = LazyPatSpan::new(PatId(0), Body(0)).into_record_pat();
    let r = h.field().field(5).resolve(&s);
    assert_eq!(
        r,
        Err(SpanFailure::StepFailed {
            index: 1,
            kind: StepKind::IndexedChild,
            reason: StepReason::IndexOutOfRange,
        })
    );
}

#[test]
fn missing_field_is_a_step_failure() {
    // pat 4 is mapped to the field node, which has no path child.
    let s = point_snapshot();
    let h = LazyPatSpan::new(PatId(4), Body(0)).into_record_pat();
    let r = h.path().resolve(&s);
    assert_eq!(
        r,
        Err(SpanFailure::StepFailed {
            index: 0,
            kind: StepKind::NamedField,
            reason: StepReason::MissingField,
        })
    );
}

#[test]
fn missing_token_is_a_step_failure() {
    // field y has no name token.
    let s = point_snapshot();
    let h = LazyPatSpan::new(PatId(0), Body(0)).into_record_pat();
    let r = h.field().field(1).name().resolve(&s);
    assert_eq!(
        r,
        Err(SpanFailure::StepFailed {
            index: 2,
            kind: StepKind::NamedToken,
            reason: StepReason::MissingToken,
        })
    );
}

#[test]
fn desugared_pattern_falls_back_to_enclosing_range() {
    let s = point_snapshot();
    let r = LazyPatSpan::new(PatId(1), Body(0)).resolve(&s);
    assert_eq!(
        r,
        Err(SpanFailure::DesugaredNoDirectSpan {
            fallback: Some(Span { file: 0, start: 10, end: 26 }),
        })
    );
}

#[test]
fn fallback_walks_to_the_nearest_mapped_ancestor() {
    // pat 2's parent is itself unmapped; the walk continues to pat 0.
    let s = point_snapshot();
    let r = LazyPatSpan::new(PatId(2), Body(0)).resolve(&s);
    assert_eq!(
        r,
        Err(SpanFailure::DesugaredNoDirectSpan {
            fallback: Some(Span { file: 0, start: 10, end: 26 }),
        })
    );
}

#[test]
fn unmapped_pattern_without_mapped_ancestor_is_unresolvable() {
    let s = point_snapshot();
    let r = LazyPatSpan::new(PatId(3), Body(0)).resolve(&s);
    assert_eq!(r, Err(SpanFailure::UnresolvableOrigin));
}

#[test]
fn unknown_ids_are_unresolvable() {
    let s = point_snapshot();
    assert_eq!(
        LazyPatSpan::new(PatId(99), Body(0)).resolve(&s),
        Err(SpanFailure::UnresolvableOrigin)
    );
    assert_eq!(
        LazyPatSpan::new(PatId(0), Body(99)).resolve(&s),
        Err(SpanFailure::UnresolvableOrigin)
    );
}

#[test]
fn stale_origin_node_is_unresolvable() {
    let s = point_snapshot();
    let r = LazyPatSpan::new(PatId(0), Body(1)).resolve(&s);
    assert_eq!(r, Err(SpanFailure::UnresolvableOrigin));
}

#[test]
fn stale_ancestor_node_gives_fallback_free_desugared_failure() {
    let s = point_snapshot();
    let r = LazyPatSpan::new(PatId(1), Body(2)).resolve(&s);
    assert_eq!(r, Err(SpanFailure::DesugaredNoDirectSpan { fallback: None }));
}

#[test]
fn cloned_handle_resolves_identically() {
    let s = point_snapshot();
    let h = LazyPatSpan::new(PatId(0), Body(0)).into_record_pat().field();
    let copy = h.clone();
    assert_eq!(h.resolve(&s), copy.resolve(&s));
}

#[test]
fn scenario_snapshot_is_well_formed() {
    let s = point_snapshot();
    assert!(s.well_formed());
}

#[test]
fn escaping_child_range_is_not_well_formed() {
    let mut s = point_snapshot();
    // Stretch the field list past its parent's end.
    s.trees[0].nodes[2].end = 30;
    assert!(!s.well_formed());
}

#[test]
fn dangling_field_edge_is_not_well_formed() {
    let mut s = point_snapshot();
    s.trees[0].nodes[0].fields[0].node = 99;
    assert!(!s.well_formed());
}

#[test]
fn appending_never_changes_the_root() {
    let s = point_snapshot();
    let h = LazyPatSpan::new(PatId(0), Body(0)).into_record_pat();
    let narrowed = h.field().field(0);
    assert_eq!(narrowed.0.root, h.0.root);
    assert_eq!(narrowed.0.steps.len(), 2);
}

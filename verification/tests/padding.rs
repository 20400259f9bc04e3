use knuffel::ast::{Literal, SpannedNode, Value};
use knuffel::span::Span as KnuffelSpan;
use niri_overview::kdl::{
    DecodeError, ElementKind, KdlLiteral, KdlName, KdlNode, KdlValue, Message, Span,
};
use niri_overview::padding::{
    assemble_padding, padding_steps, GridOverviewPadding, GridOverviewPaddingPart, PaddingStep,
    Side,
};

fn span(s: &KnuffelSpan) -> Span {
    Span { start: s.0, end: s.1 }
}

fn value(v: &Value<KnuffelSpan>) -> KdlValue {
    KdlValue {
        type_annotation: None,
        literal: match &*v.literal {
            Literal::Null => KdlLiteral::Null,
            Literal::Bool(b) => KdlLiteral::Bool(*b),
            Literal::Int(_) => KdlLiteral::Int,
            Literal::Decimal(_) => KdlLiteral::Decimal,
            Literal::String(s) => KdlLiteral::String(s.to_string()),
        },
        literal_span: span(v.literal.span()),
    }
}

fn node(n: &SpannedNode<KnuffelSpan>) -> KdlNode {
    KdlNode {
        span: span(n.span()),
        type_annotation: None,
        name: KdlName { name: n.node_name.to_string(), span: span(n.node_name.span()) },
        arguments: n.arguments.iter().map(value).collect(),
        properties: n
            .properties
            .keys()
            .map(|k| KdlName { name: k.to_string(), span: span(k.span()) })
            .collect(),
        children: n.children().map(node).collect(),
    }
}

fn padding_node(text: &str) -> KdlNode {
    let doc = knuffel::parse_ast::<KnuffelSpan>("test.kdl", text).unwrap();
    node(&doc.nodes[0])
}

fn sides(left: Option<f64>, right: Option<f64>, top: Option<f64>, bottom: Option<f64>) -> GridOverviewPaddingPart<f64> {
    GridOverviewPaddingPart::Sides { left, right, top, bottom }
}

#[test]
fn uniform_padding_sets_every_side() {
    let p = GridOverviewPadding::uniform(80.0);
    assert_eq!(p, GridOverviewPadding { left: 80.0, right: 80.0, top: 80.0, bottom: 80.0 });
}

#[test]
fn uniform_part_replaces_every_side() {
    let mut p = GridOverviewPadding { left: 1.0, right: 2.0, top: 3.0, bottom: 4.0 };
    GridOverviewPaddingPart::Uniform(10.0).merge_into(&mut p);
    assert_eq!(p, GridOverviewPadding::uniform(10.0));
}

#[test]
fn per_side_part_keeps_unset_sides() {
    let mut p = GridOverviewPadding::uniform(80.0);
    sides(Some(5.0), None, Some(0.0), None).merge_into(&mut p);
    assert_eq!(p, GridOverviewPadding { left: 5.0, right: 80.0, top: 0.0, bottom: 80.0 });
}

#[test]
fn empty_per_side_part_changes_nothing() {
    let mut p = GridOverviewPadding { left: 1.0, right: 2.0, top: 3.0, bottom: 4.0 };
    sides(None, None, None, None).merge_into(&mut p);
    assert_eq!(p, GridOverviewPadding { left: 1.0, right: 2.0, top: 3.0, bottom: 4.0 });
}

#[test]
fn single_argument_is_decoded_once() {
    let n = padding_node("padding 20");
    let steps = padding_steps(&n);
    assert_eq!(steps.len(), 1);
    assert!(matches!(steps[0], PaddingStep::DecodeArgument(0)));
}

#[test]
fn argument_with_extras_reports_each_in_order() {
    let n = padding_node("padding 20 30 foo=1 {\n    left 4\n}\n");
    let steps = padding_steps(&n);
    assert_eq!(steps.len(), 4);
    assert!(matches!(steps[0], PaddingStep::DecodeArgument(0)));
    let arg_span = n.arguments[1].literal_span;
    assert!(matches!(
        &steps[1],
        PaddingStep::Emit(DecodeError::Unexpected {
            span,
            kind: ElementKind::Argument,
            message: Message::UnexpectedArgument,
        }) if *span == arg_span
    ));
    let child_span = n.children[0].span;
    assert!(matches!(
        &steps[2],
        PaddingStep::Emit(DecodeError::Unexpected {
            span,
            kind: ElementKind::Node,
            message: Message::NoChildNodesWithPaddingArgument,
        }) if *span == child_span
    ));
    let prop_span = n.properties[0].span;
    assert!(matches!(
        &steps[3],
        PaddingStep::Emit(DecodeError::Unexpected {
            span,
            kind: ElementKind::Property,
            message: Message::NoPropertiesExpected,
        }) if *span == prop_span
    ));
}

#[test]
fn children_name_sides_or_are_reported() {
    let n = padding_node("padding bar=2 {\n    left 4\n    top 8\n    middle 3\n    left 6\n}\n");
    let steps = padding_steps(&n);
    assert_eq!(steps.len(), 5);
    assert!(matches!(steps[0], PaddingStep::DecodeSide(Side::Left, 0)));
    assert!(matches!(steps[1], PaddingStep::DecodeSide(Side::Top, 1)));
    let unknown_span = n.children[2].span;
    assert!(matches!(
        &steps[2],
        PaddingStep::Emit(DecodeError::UnknownPaddingSide { span, name })
            if *span == unknown_span && name == "middle"
    ));
    assert!(matches!(steps[3], PaddingStep::DecodeSide(Side::Left, 3)));
    assert!(matches!(
        &steps[4],
        PaddingStep::Emit(DecodeError::Unexpected {
            kind: ElementKind::Property,
            message: Message::NoPropertiesExpected,
            ..
        })
    ));
}

#[test]
fn all_four_sides_are_recognised() {
    let n = padding_node("padding {\n    right 1\n    bottom 2\n    top 3\n    left 4\n}\n");
    let steps = padding_steps(&n);
    assert_eq!(steps.len(), 4);
    assert!(matches!(steps[0], PaddingStep::DecodeSide(Side::Right, 0)));
    assert!(matches!(steps[1], PaddingStep::DecodeSide(Side::Bottom, 1)));
    assert!(matches!(steps[2], PaddingStep::DecodeSide(Side::Top, 2)));
    assert!(matches!(steps[3], PaddingStep::DecodeSide(Side::Left, 3)));
}

#[test]
fn empty_padding_node_has_no_steps() {
    let n = padding_node("padding");
    assert!(padding_steps(&n).is_empty());
    assert_eq!(assemble_padding::<f64>(&n, &vec![]), sides(None, None, None, None));
}

#[test]
fn argument_value_pads_every_side() {
    let n = padding_node("padding 20");
    assert_eq!(assemble_padding(&n, &vec![Some(20.0)]), GridOverviewPaddingPart::Uniform(20.0));
}

#[test]
fn last_child_naming_a_side_wins() {
    let n = padding_node("padding {\n    left 4\n    top 8\n    middle 3\n    left 6\n}\n");
    let values = vec![Some(4.0), Some(8.0), None, Some(6.0)];
    assert_eq!(assemble_padding(&n, &values), sides(Some(6.0), None, Some(8.0), None));
}

#[test]
fn decoded_padding_merges_into_the_default() {
    let n = padding_node("padding {\n    top 0\n}\n");
    let part = assemble_padding(&n, &vec![Some(0.0)]);
    let mut p = GridOverviewPadding::uniform(80.0);
    part.merge_into(&mut p);
    assert_eq!(p, GridOverviewPadding { left: 80.0, right: 80.0, top: 0.0, bottom: 80.0 });
}

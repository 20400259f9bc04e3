use knuffel::ast::{Literal, SpannedNode, Value};
use knuffel::span::Span as KnuffelSpan;
use niri_overview::gestures::{HotCornerAction, HotCorners};
use niri_overview::kdl::{
    DecodeContext, DecodeError, ElementKind, KdlLiteral, KdlName, KdlNode, KdlValue, LiteralKind,
    Message, Span,
};

fn span(s: &KnuffelSpan) -> Span {
    Span { start: s.0, end: s.1 }
}

/// Converts a parsed value; type annotations are left out (the tests that
/// need one add it to the converted node).
fn value(v: &Value<KnuffelSpan>) -> KdlValue {
    KdlValue {
        type_annotation: None,
        literal: match &*v.literal {
            Literal::Null => KdlLiteral::Null,
            Literal::Bool(b) => KdlLiteral::Bool(*b),
            Literal::Int(_) => KdlLiteral::Int,
            Literal::Decimal(_) => KdlLiteral::Decimal,
            Literal::String(s) => KdlLiteral::String(s.to_string()),
        },
        literal_span: span(v.literal.span()),
    }
}

fn node(n: &SpannedNode<KnuffelSpan>) -> KdlNode {
    KdlNode {
        span: span(n.span()),
        type_annotation: None,
        name: KdlName { name: n.node_name.to_string(), span: span(n.node_name.span()) },
        arguments: n.arguments.iter().map(value).collect(),
        properties: n
            .properties
            .keys()
            .map(|k| KdlName { name: k.to_string(), span: span(k.span()) })
            .collect(),
        children: n.children().map(node).collect(),
    }
}

/// Parses `text`, decodes its `hot-corners` node, and asserts that nothing
/// was reported.
fn parse_hot_corners(text: &str) -> HotCorners {
    let (result, errors) = decode_hot_corners(text);
    assert!(errors.is_empty(), "unexpected errors: {errors:?}");
    result.unwrap()
}

fn hot_corners_node(text: &str) -> KdlNode {
    let doc = knuffel::parse_ast::<KnuffelSpan>("test.kdl", text).unwrap();
    let hot = doc.nodes.iter().find(|n| &**n.node_name == "hot-corners").unwrap();
    node(hot)
}

fn decode_node(n: &KdlNode) -> (Result<HotCorners, DecodeError>, Vec<DecodeError>) {
    let mut ctx = DecodeContext::new();
    let result = HotCorners::decode_node(n, &mut ctx);
    (result, ctx.errors)
}

fn decode_hot_corners(text: &str) -> (Result<HotCorners, DecodeError>, Vec<DecodeError>) {
    decode_node(&hot_corners_node(text))
}

fn annotation(name: &str) -> Option<KdlName> {
    Some(KdlName { name: name.to_string(), span: Span { start: 0, end: 0 } })
}

#[test]
fn hot_corner_without_action_defaults_to_overview() {
    let hot_corners = parse_hot_corners(
        r#"
            hot-corners {
                top-left
            }
            "#,
    );

    assert_eq!(hot_corners.top_left, Some(HotCornerAction::Overview));
    assert_eq!(hot_corners.bottom_left, None);
}

#[test]
fn hot_corner_can_bind_grid_overview_with_child_action() {
    let hot_corners = parse_hot_corners(
        r#"
            hot-corners {
                bottom-left { grid-overview; }
            }
            "#,
    );

    assert_eq!(hot_corners.top_left, None);
    assert_eq!(hot_corners.bottom_left, Some(HotCornerAction::GridOverview));
}

#[test]
fn hot_corner_can_bind_grid_overview_with_string_argument() {
    let hot_corners = parse_hot_corners(
        r#"
            hot-corners {
                bottom-left "grid-overview"
            }
            "#,
    );

    assert_eq!(hot_corners.top_left, None);
    assert_eq!(hot_corners.bottom_left, Some(HotCornerAction::GridOverview));
}

#[test]
fn hot_corner_defaults_to_top_left_and_bottom_left() {
    let hot_corners = HotCorners::default().with_default_corners();

    assert_eq!(hot_corners.top_left, Some(HotCornerAction::Overview));
    assert_eq!(hot_corners.top_right, None);
    assert_eq!(hot_corners.bottom_left, Some(HotCornerAction::GridOverview));
    assert_eq!(hot_corners.bottom_right, None);
}

#[test]
fn explicit_hot_corner_disables_implicit_defaults() {
    let hot_corners = parse_hot_corners(
        r#"
            hot-corners {
                top-right { overview; }
            }
            "#,
    )
    .with_default_corners();

    assert_eq!(hot_corners.top_left, None);
    assert_eq!(hot_corners.top_right, Some(HotCornerAction::Overview));
    assert_eq!(hot_corners.bottom_left, None);
    assert_eq!(hot_corners.bottom_right, None);
}

#[test]
fn off_disables_implicit_defaults() {
    let hot_corners = parse_hot_corners("hot-corners { off; }").with_default_corners();
    assert!(hot_corners.off);
    assert!(!hot_corners.has_any_corner());
}

#[test]
fn defaults_are_idempotent() {
    let once = HotCorners::default().with_default_corners();
    assert_eq!(once.with_default_corners(), once);
}

#[test]
fn has_any_corner_sees_each_corner() {
    assert!(!HotCorners::default().has_any_corner());
    let h = HotCorners { bottom_right: Some(HotCornerAction::GridOverview), ..HotCorners::default() };
    assert!(h.has_any_corner());
    assert_eq!(h.with_default_corners(), h);
}

#[test]
fn later_corner_overrides_earlier() {
    let h = parse_hot_corners(r#"hot-corners { top-left "grid-overview"; top-left "overview"; }"#);
    assert_eq!(h.top_left, Some(HotCornerAction::Overview));
}

#[test]
fn unknown_corner_is_reported_and_skipped() {
    let text = "hot-corners { middle; top-left; }";
    let (result, errors) = decode_hot_corners(text);
    let h = result.unwrap();
    assert_eq!(h.top_left, Some(HotCornerAction::Overview));
    assert_eq!(errors.len(), 1);
    match &errors[0] {
        DecodeError::UnknownHotCorner { span, name } => {
            assert_eq!(name, "middle");
            assert_eq!(&text[span.start..span.end], "middle;");
        }
        other => panic!("unexpected error {other:?}"),
    }
}

#[test]
fn unknown_action_node_is_reported_and_defaults_to_overview() {
    let (result, errors) = decode_hot_corners("hot-corners { top-right { spin; }; }");
    assert_eq!(result.unwrap().top_right, Some(HotCornerAction::Overview));
    assert_eq!(errors.len(), 1);
    assert!(matches!(&errors[0], DecodeError::UnknownHotCornerAction { name, .. } if name == "spin"));
}

#[test]
fn bad_action_string_fails() {
    let (result, errors) = decode_hot_corners(r#"hot-corners { top-left "spin"; }"#);
    assert!(matches!(result, Err(DecodeError::ExpectedHotCornerAction { .. })));
    assert!(errors.is_empty());
}

#[test]
fn action_of_wrong_kind_fails() {
    let (result, _) = decode_hot_corners("hot-corners { top-left 3; }");
    match result {
        Err(DecodeError::ScalarKind { expected, found, .. }) => {
            assert_eq!(expected, LiteralKind::String);
            assert_eq!(found, LiteralKind::Int);
        }
        other => panic!("unexpected result {other:?}"),
    }
}

#[test]
fn failure_stops_at_the_failing_corner() {
    let (result, errors) =
        decode_hot_corners(r#"hot-corners { foo; top-left 3; bar; }"#);
    assert!(result.is_err());
    // The unknown corner before the failure is reported, the one after is not.
    assert_eq!(errors.len(), 1);
}

#[test]
fn misplaced_elements_are_reported() {
    let mut n = hot_corners_node(
        r#"hot-corners 1 k=2 { off 3 { x; }; bottom-left "overview" "extra" { y; }; }"#,
    );
    n.type_annotation = annotation("t");
    let (result, errors) = decode_node(&n);
    let h = result.unwrap();
    assert!(h.off);
    assert_eq!(h.bottom_left, Some(HotCornerAction::Overview));
    let kinds: Vec<(ElementKind, Message)> = errors
        .iter()
        .map(|e| match e {
            DecodeError::Unexpected { kind, message, .. } => (*kind, *message),
            other => panic!("unexpected error {other:?}"),
        })
        .collect();
    assert_eq!(
        kinds,
        vec![
            (ElementKind::TypeName, Message::NoTypeNameExpected),
            (ElementKind::Argument, Message::NoArgumentsExpected),
            (ElementKind::Property, Message::NoPropertiesExpected),
            (ElementKind::Argument, Message::NoArgumentsExpected),
            (ElementKind::Node, Message::NoChildNodesExpected),
            (ElementKind::Argument, Message::UnexpectedArgument),
            (ElementKind::Node, Message::UnexpectedNode),
        ]
    );
}

#[test]
fn typed_action_argument_is_reported() {
    let mut n = hot_corners_node(r#"hot-corners { top-left "overview"; }"#);
    n.children[0].arguments[0].type_annotation = annotation("ty");
    let (result, errors) = decode_node(&n);
    assert_eq!(result.unwrap().top_left, Some(HotCornerAction::Overview));
    assert!(matches!(&errors[0], DecodeError::TypeName { found, .. } if found == "ty"));
}

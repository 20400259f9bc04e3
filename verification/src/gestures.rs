//! Hot corners: which screen corners trigger which overview, their implicit
//! defaults, and how a `hot-corners` configuration node is decoded.

use vstd::prelude::*;
use crate::kdl::{
    argument_errors, node_errors, property_errors, type_annotation_errors, DecodeContext,
    DecodeError, ElementKind, KdlLiteral, KdlNode, KdlValue, LiteralKind, Message,
};
use crate::text::text_eq;

verus! {

/// What a hot corner opens.
#[derive(Clone, Copy, Debug, PartialEq, Eq, Structural)]
pub enum HotCornerAction {
    Overview,
    GridOverview,
}

/// One of the four screen corners.
#[derive(Clone, Copy, Debug, PartialEq, Eq, Structural)]
pub enum Corner {
    TopLeft,
    TopRight,
    BottomLeft,
    BottomRight,
}

/// The hot-corner configuration: whether hot corners are off, and the action
/// bound to each corner.
#[derive(Clone, Copy, Debug, PartialEq, Eq, Structural)]
pub struct HotCorners {
    pub off: bool,
    pub top_left: Option<HotCornerAction>,
    pub top_right: Option<HotCornerAction>,
    pub bottom_left: Option<HotCornerAction>,
    pub bottom_right: Option<HotCornerAction>,
}

/// The corner that a child node of `hot-corners` names, if any.
pub open spec fn corner_named(name: Seq<char>) -> Option<Corner> {
    if name == "top-left"@ {
        Some(Corner::TopLeft)
    } else if name == "top-right"@ {
        Some(Corner::TopRight)
    } else if name == "bottom-left"@ {
        Some(Corner::BottomLeft)
    } else if name == "bottom-right"@ {
        Some(Corner::BottomRight)
    } else {
        None
    }
}

impl HotCorners {
    pub open spec fn spec_default() -> HotCorners {
        HotCorners {
            off: false,
            top_left: None,
            top_right: None,
            bottom_left: None,
            bottom_right: None,
        }
    }

    pub open spec fn spec_has_any_corner(self) -> bool {
        self.top_left is Some || self.top_right is Some || self.bottom_left is Some
            || self.bottom_right is Some
    }

    /// The configuration with the implicit defaults filled in: unless hot
    /// corners are off or some corner is bound, the top-left corner opens
    /// the overview and the bottom-left corner the grid overview.
    pub open spec fn spec_with_default_corners(self) -> HotCorners {
        if self.off || self.spec_has_any_corner() {
            self
        } else {
            HotCorners {
                top_left: Some(HotCornerAction::Overview),
                bottom_left: Some(HotCornerAction::GridOverview),
                ..self
            }
        }
    }

    /// The action bound to `corner`.
    pub open spec fn corner(self, corner: Corner) -> Option<HotCornerAction> {
        match corner {
            Corner::TopLeft => self.top_left,
            Corner::TopRight => self.top_right,
            Corner::BottomLeft => self.bottom_left,
            Corner::BottomRight => self.bottom_right,
        }
    }

    /// The configuration with `corner` bound to `action`.
    pub open spec fn with_corner(self, corner: Corner, action: HotCornerAction) -> HotCorners {
        match corner {
            Corner::TopLeft => HotCorners { top_left: Some(action), ..self },
            Corner::TopRight => HotCorners { top_right: Some(action), ..self },
            Corner::BottomLeft => HotCorners { bottom_left: Some(action), ..self },
            Corner::BottomRight => HotCorners { bottom_right: Some(action), ..self },
        }
    }

    /// Whether any corner is bound.
    pub fn has_any_corner(self) -> (b: bool)
        ensures
            b == self.spec_has_any_corner(),
    {
        self.top_left.is_some() || self.top_right.is_some() || self.bottom_left.is_some()
            || self.bottom_right.is_some()
    }

    /// Fills in the implicit default corners, see `spec_with_default_corners`.
    pub fn with_default_corners(self) -> (r: HotCorners)
        ensures
            r == self.spec_with_default_corners(),
    {
        if self.off || self.has_any_corner() {
            return self;
        }
        HotCorners {
            top_left: Some(HotCornerAction::Overview),
            bottom_left: Some(HotCornerAction::GridOverview),
            ..self
        }
    }
}

impl Default for HotCorners {
    fn default() -> (r: HotCorners)
        ensures
            r == HotCorners::spec_default(),
    {
        HotCorners {
            off: false,
            top_left: None,
            top_right: None,
            bottom_left: None,
            bottom_right: None,
        }
    }
}

/// The errors that decoding an action from `v` emits before deciding.
pub open spec fn action_value_errors(v: KdlValue) -> Seq<DecodeError> {
    match v.type_annotation {
        Some(t) => seq![DecodeError::TypeName { span: t.span, found: t.name }],
        None => seq![],
    }
}

/// The action that a scalar names: the string `overview` or
/// `grid-overview`.
pub open spec fn action_value(v: KdlValue) -> Result<HotCornerAction, DecodeError> {
    match v.literal {
        KdlLiteral::String(s) => {
            if s@ == "overview"@ {
                Ok(HotCornerAction::Overview)
            } else if s@ == "grid-overview"@ {
                Ok(HotCornerAction::GridOverview)
            } else {
                Err(DecodeError::ExpectedHotCornerAction { span: v.literal_span })
            }
        },
        _ => Err(
            DecodeError::ScalarKind {
                span: v.literal_span,
                expected: LiteralKind::String,
                found: v.literal.spec_kind(),
            },
        ),
    }
}

impl HotCornerAction {
    /// Decodes an action from a scalar argument. A type name on the scalar
    /// is reported and decoding goes on; a scalar of another kind, or a
    /// string that names no action, fails.
    pub fn decode(v: &KdlValue, ctx: &mut DecodeContext) -> (r: Result<HotCornerAction, DecodeError>)
        ensures
            final(ctx).errors@ == old(ctx).errors@ + action_value_errors(*v),
            r == action_value(*v),
    {
        if let Some(t) = &v.type_annotation {
            ctx.emit_error(DecodeError::TypeName { span: t.span, found: t.name.clone() });
        }
        assert(final(ctx).errors@ =~= old(ctx).errors@ + action_value_errors(*v));
        match &v.literal {
            KdlLiteral::String(s) => {
                if text_eq(s.as_str(), "overview") {
                    Ok(HotCornerAction::Overview)
                } else if text_eq(s.as_str(), "grid-overview") {
                    Ok(HotCornerAction::GridOverview)
                } else {
                    Err(DecodeError::ExpectedHotCornerAction { span: v.literal_span })
                }
            },
            _ => Err(
                DecodeError::ScalarKind {
                    span: v.literal_span,
                    expected: LiteralKind::String,
                    found: v.literal.kind(),
                },
            ),
        }
    }
}

/// What one child of a `hot-corners` node does to the configuration.
pub enum ChildEffect {
    /// `off`: hot corners are off.
    SetOff,
    /// A corner bound to an action.
    Bind(Corner, HotCornerAction),
    /// An unknown child, reported and skipped.
    Skip,
    /// Decoding fails with this error.
    Fail(DecodeError),
}

/// The action of a corner child given by its first child node, with the
/// error for an unknown action name (the action is then `Overview`).
pub open spec fn action_node(gc: KdlNode) -> (HotCornerAction, Seq<DecodeError>) {
    if gc.name.name@ == "overview"@ {
        (HotCornerAction::Overview, seq![])
    } else if gc.name.name@ == "grid-overview"@ {
        (HotCornerAction::GridOverview, seq![])
    } else {
        (
            HotCornerAction::Overview,
            seq![DecodeError::UnknownHotCornerAction { span: gc.span, name: gc.name.name }],
        )
    }
}

/// The errors that a corner child emits (up to a failure, if it fails).
pub open spec fn corner_child_errors(c: KdlNode) -> Seq<DecodeError> {
    let header = type_annotation_errors(c.type_annotation) + property_errors(c.properties@);
    if c.arguments@.len() > 0 {
        let a0 = c.arguments@[0];
        let decoded = header + action_value_errors(a0);
        match action_value(a0) {
            Err(_) => decoded,
            Ok(_) => decoded + (if c.arguments@.len() > 1 {
                seq![
                    DecodeError::Unexpected {
                        span: c.arguments@[1].literal_span,
                        kind: ElementKind::Argument,
                        message: Message::UnexpectedArgument,
                    },
                ]
            } else {
                seq![]
            }) + node_errors(c.children@, Message::UnexpectedNode),
        }
    } else if c.children@.len() > 0 {
        let gc = c.children@[0];
        header + action_node(gc).1 + type_annotation_errors(gc.type_annotation) + argument_errors(
            gc.arguments@,
            Message::NoArgumentsExpected,
        ) + property_errors(gc.properties@) + node_errors(
            gc.children@,
            Message::NoChildNodesExpected,
        ) + node_errors(c.children@.skip(1), Message::UnexpectedNode)
    } else {
        header
    }
}

/// The action of a corner child: its first argument, else its first child
/// node, else `Overview`.
pub open spec fn corner_child_action(c: KdlNode) -> Result<HotCornerAction, DecodeError> {
    if c.arguments@.len() > 0 {
        action_value(c.arguments@[0])
    } else if c.children@.len() > 0 {
        Ok(action_node(c.children@[0]).0)
    } else {
        Ok(HotCornerAction::Overview)
    }
}

/// The errors that one child of `hot-corners` emits.
pub open spec fn child_errors(c: KdlNode) -> Seq<DecodeError> {
    if c.name.name@ == "off"@ {
        type_annotation_errors(c.type_annotation) + argument_errors(
            c.arguments@,
            Message::NoArgumentsExpected,
        ) + property_errors(c.properties@) + node_errors(c.children@, Message::NoChildNodesExpected)
    } else if corner_named(c.name.name@) is Some {
        corner_child_errors(c)
    } else {
        seq![DecodeError::UnknownHotCorner { span: c.span, name: c.name.name }]
    }
}

/// What one child of `hot-corners` does.
pub open spec fn child_effect(c: KdlNode) -> ChildEffect {
    if c.name.name@ == "off"@ {
        ChildEffect::SetOff
    } else if let Some(corner) = corner_named(c.name.name@) {
        match corner_child_action(c) {
            Ok(a) => ChildEffect::Bind(corner, a),
            Err(e) => ChildEffect::Fail(e),
        }
    } else {
        ChildEffect::Skip
    }
}

impl HotCorners {
    /// The configuration after one child's effect.
    pub open spec fn after(self, e: ChildEffect) -> HotCorners {
        match e {
            ChildEffect::SetOff => HotCorners { off: true, ..self },
            ChildEffect::Bind(corner, a) => self.with_corner(corner, a),
            _ => self,
        }
    }
}

/// Decoding the children of `hot-corners` in order, starting from `rv`: the
/// errors emitted and the outcome. A failing child ends decoding.
pub open spec fn decode_children(children: Seq<KdlNode>, rv: HotCorners) -> (
    Seq<DecodeError>,
    Result<HotCorners, DecodeError>,
)
    decreases children.len(),
{
    if children.len() == 0 {
        (seq![], Ok(rv))
    } else {
        let c = children[0];
        match child_effect(c) {
            ChildEffect::Fail(e) => (child_errors(c), Err(e)),
            eff => {
                let (rest, r) = decode_children(children.drop_first(), rv.after(eff));
                (child_errors(c) + rest, r)
            },
        }
    }
}

/// The errors that decoding a `hot-corners` node emits.
pub open spec fn hot_corners_errors(node: KdlNode) -> Seq<DecodeError> {
    type_annotation_errors(node.type_annotation) + argument_errors(
        node.arguments@,
        Message::NoArgumentsExpected,
    ) + property_errors(node.properties@) + decode_children(
        node.children@,
        HotCorners::spec_default(),
    ).0
}

/// The corner that a node name names, if any.
fn corner_of(name: &String) -> (r: Option<Corner>)
    ensures
        r == corner_named(name@),
{
    if text_eq(name.as_str(), "top-left") {
        Some(Corner::TopLeft)
    } else if text_eq(name.as_str(), "top-right") {
        Some(Corner::TopRight)
    } else if text_eq(name.as_str(), "bottom-left") {
        Some(Corner::BottomLeft)
    } else if text_eq(name.as_str(), "bottom-right") {
        Some(Corner::BottomRight)
    } else {
        None
    }
}

/// Decodes the action of a corner child `c`, emitting its errors.
fn decode_corner_child(c: &KdlNode, ctx: &mut DecodeContext) -> (r: Result<HotCornerAction, DecodeError>)
    ensures
        final(ctx).errors@ == old(ctx).errors@ + corner_child_errors(*c),
        r == corner_child_action(*c),
{
    ctx.reject_type_annotation(&c.type_annotation);
    ctx.reject_properties(&c.properties);
    let ghost header = ctx.errors@;
    if c.arguments.len() > 0 {
        let action = HotCornerAction::decode(&c.arguments[0], ctx);
        match action {
            Err(e) => {
                assert(final(ctx).errors@ =~= old(ctx).errors@ + corner_child_errors(*c));
                Err(e)
            },
            Ok(a) => {
                if c.arguments.len() > 1 {
                    ctx.emit_error(
                        DecodeError::Unexpected {
                            span: c.arguments[1].literal_span,
                            kind: ElementKind::Argument,
                            message: Message::UnexpectedArgument,
                        },
                    );
                }
                ctx.reject_nodes_from(&c.children, 0, Message::UnexpectedNode);
                assert(c.children@.skip(0) =~= c.children@);
                assert(final(ctx).errors@ =~= old(ctx).errors@ + corner_child_errors(*c));
                Ok(a)
            },
        }
    } else if c.children.len() > 0 {
        let gc = &c.children[0];
        let action = if text_eq(gc.name.name.as_str(), "overview") {
            HotCornerAction::Overview
        } else if text_eq(gc.name.name.as_str(), "grid-overview") {
            HotCornerAction::GridOverview
        } else {
            ctx.emit_error(
                DecodeError::UnknownHotCornerAction { span: gc.span, name: gc.name.name.clone() },
            );
            HotCornerAction::Overview
        };
        assert(ctx.errors@ =~= header + action_node(*gc).1);
        ctx.reject_type_annotation(&gc.type_annotation);
        ctx.reject_arguments(&gc.arguments, Message::NoArgumentsExpected);
        ctx.reject_properties(&gc.properties);
        ctx.reject_nodes_from(&gc.children, 0, Message::NoChildNodesExpected);
        assert(gc.children@.skip(0) =~= gc.children@);
        ctx.reject_nodes_from(&c.children, 1, Message::UnexpectedNode);
        assert(final(ctx).errors@ =~= old(ctx).errors@ + corner_child_errors(*c));
        Ok(action)
    } else {
        assert(final(ctx).errors@ =~= old(ctx).errors@ + corner_child_errors(*c));
        Ok(HotCornerAction::Overview)
    }
}

/// Decodes one child of a `hot-corners` node, emitting its errors.
fn decode_child(c: &KdlNode, ctx: &mut DecodeContext) -> (r: ChildEffect)
    ensures
        final(ctx).errors@ == old(ctx).errors@ + child_errors(*c),
        r == child_effect(*c),
{
    if text_eq(c.name.name.as_str(), "off") {
        ctx.reject_type_annotation(&c.type_annotation);
        ctx.reject_arguments(&c.arguments, Message::NoArgumentsExpected);
        ctx.reject_properties(&c.properties);
        ctx.reject_nodes_from(&c.children, 0, Message::NoChildNodesExpected);
        assert(c.children@.skip(0) =~= c.children@);
        assert(final(ctx).errors@ =~= old(ctx).errors@ + child_errors(*c));
        return ChildEffect::SetOff;
    }
    match corner_of(&c.name.name) {
        Some(corner) => match decode_corner_child(c, ctx) {
            Ok(a) => ChildEffect::Bind(corner, a),
            Err(e) => ChildEffect::Fail(e),
        },
        None => {
            ctx.emit_error(DecodeError::UnknownHotCorner { span: c.span, name: c.name.name.clone() });
            assert(final(ctx).errors@ =~= old(ctx).errors@ + child_errors(*c));
            ChildEffect::Skip
        },
    }
}

impl HotCorners {
    /// Applies one child's effect.
    fn apply(&mut self, e: &ChildEffect)
        ensures
            *final(self) == old(self).after(*e),
    {
        match e {
            ChildEffect::SetOff => self.off = true,
            ChildEffect::Bind(corner, a) => match corner {
                Corner::TopLeft => self.top_left = Some(*a),
                Corner::TopRight => self.top_right = Some(*a),
                Corner::BottomLeft => self.bottom_left = Some(*a),
                Corner::BottomRight => self.bottom_right = Some(*a),
            },
            _ => {},
        }
    }

    /// Decodes a `hot-corners` node. The node itself takes no type name,
    /// arguments or properties. Its children are `off`, which turns hot
    /// corners off, and the four corners, each bound to the action given by
    /// its first argument (a string), else by its first child node's name,
    /// else to `Overview`. Every misplaced element is reported in `ctx` and
    /// decoding goes on; a corner argument that is no action fails.
    pub fn decode_node(node: &KdlNode, ctx: &mut DecodeContext) -> (r: Result<HotCorners, DecodeError>)
        ensures
            final(ctx).errors@ == old(ctx).errors@ + hot_corners_errors(*node),
            r == hot_corners_result(*node),
    {
        ctx.reject_type_annotation(&node.type_annotation);
        ctx.reject_arguments(&node.arguments, Message::NoArgumentsExpected);
        ctx.reject_properties(&node.properties);
        let ghost header = ctx.errors@;
        assert(header =~= old(ctx).errors@ + (type_annotation_errors(node.type_annotation)
            + argument_errors(node.arguments@, Message::NoArgumentsExpected) + property_errors(
            node.properties@,
        )));
        let mut rv = HotCorners::default();
        assert(node.children@.skip(0) =~= node.children@);
        assert(ctx.errors@ + decode_children(node.children@, rv).0 =~= header + decode_children(
            node.children@,
            HotCorners::spec_default(),
        ).0);
        let n = node.children.len();
        let mut i: usize = 0;
        while i < n
            invariant
                n == node.children@.len(),
                i <= n,
                header == old(ctx).errors@ + (type_annotation_errors(node.type_annotation)
                    + argument_errors(node.arguments@, Message::NoArgumentsExpected)
                    + property_errors(node.properties@)),
                ({
                    let (rest, r) = decode_children(node.children@.skip(i as int), rv);
                    &&& ctx.errors@ + rest == header + decode_children(
                        node.children@,
                        HotCorners::spec_default(),
                    ).0
                    &&& r == hot_corners_result(*node)
                }),
            decreases n - i,
        {
            let ghost before = ctx.errors@;
            let ghost rv0 = rv;
            let c = &node.children[i];
            assert(node.children@.skip(i as int)[0] == node.children@[i as int]);
            assert(node.children@.skip(i as int).drop_first() =~= node.children@.skip(i + 1));
            let eff = decode_child(c, ctx);
            match eff {
                ChildEffect::Fail(e) => {
                    proof {
                        assert(ctx.errors@ =~= before + child_errors(*c));
                        assert(decode_children(node.children@.skip(i as int), rv0).0 == child_errors(*c));
                        assert(ctx.errors@ =~= header + decode_children(
                            node.children@,
                            HotCorners::spec_default(),
                        ).0);
                    }
                    assert(ctx.errors@ =~= old(ctx).errors@ + hot_corners_errors(*node));
                    return Err(e);
                },
                _ => {
                    rv.apply(&eff);
                    proof {
                        let (rest, _) = decode_children(node.children@.skip(i + 1), rv);
                        assert(decode_children(node.children@.skip(i as int), rv0).0 == child_errors(*c) + rest);
                        assert(ctx.errors@ + rest =~= before + (child_errors(*c) + rest));
                    }
                },
            }
            i += 1;
        }
        assert(node.children@.skip(n as int) =~= Seq::<KdlNode>::empty());
        assert(ctx.errors@ =~= old(ctx).errors@ + hot_corners_errors(*node));
        Ok(rv)
    }
}

/// The outcome of decoding a `hot-corners` node.
pub open spec fn hot_corners_result(node: KdlNode) -> Result<HotCorners, DecodeError> {
    decode_children(node.children@, HotCorners::spec_default()).1
}

/// Filling in the default corners twice gives what filling them in once
/// gives.
pub proof fn lemma_with_default_corners_idempotent(h: HotCorners)
    ensures
        h.spec_with_default_corners().spec_with_default_corners() == h.spec_with_default_corners(),
{
}

/// Unless hot corners are off, some corner is bound once the defaults are
/// filled in.
pub proof fn lemma_defaults_bind_a_corner(h: HotCorners)
    requires
        !h.off,
    ensures
        h.spec_with_default_corners().spec_has_any_corner(),
{
}

/// A configuration that binds any corner explicitly, or turns hot corners
/// off, gets no implicit defaults.
pub proof fn lemma_explicit_configuration_kept(h: HotCorners)
    requires
        h.off || h.spec_has_any_corner(),
    ensures
        h.spec_with_default_corners() == h,
{
}

/// No corner name is `off`.
proof fn lemma_corner_names_are_not_off(name: Seq<char>)
    requires
        corner_named(name) is Some,
    ensures
        name != "off"@,
{
    reveal_strlit("off");
    reveal_strlit("top-left");
    reveal_strlit("top-right");
    reveal_strlit("bottom-left");
    reveal_strlit("bottom-right");
    if name == "off"@ {
        assert(name.len() == 3);
        assert(name != "top-left"@);
        assert(name != "top-right"@);
        assert(name != "bottom-left"@);
        assert(name != "bottom-right"@);
    }
}

/// Whether some node of `nodes` is named `name`.
pub open spec fn has_child_named(nodes: Seq<KdlNode>, name: Seq<char>) -> bool {
    exists|i: int| 0 <= i < nodes.len() && #[trigger] nodes[i].name.name@ == name
}

/// Whether some node of `nodes` names `corner`.
pub open spec fn has_corner_child(nodes: Seq<KdlNode>, corner: Corner) -> bool {
    exists|i: int| 0 <= i < nodes.len() && corner_named(#[trigger] nodes[i].name.name@) == Some(corner)
}

proof fn lemma_decode_children_binds(children: Seq<KdlNode>, rv: HotCorners, corner: Corner)
    requires
        decode_children(children, rv).1 is Ok,
    ensures
        ({
            let h = decode_children(children, rv).1->Ok_0;
            &&& h.off <==> (rv.off || has_child_named(children, "off"@))
            &&& h.corner(corner) is Some <==> (rv.corner(corner) is Some || has_corner_child(
                children,
                corner,
            ))
        }),
    decreases children.len(),
{
    if children.len() > 0 {
        let c = children[0];
        let rest = children.drop_first();
        let eff = child_effect(c);
        lemma_decode_children_binds(rest, rv.after(eff), corner);
        if corner_named(c.name.name@) is Some {
            lemma_corner_names_are_not_off(c.name.name@);
        }
        assert(has_child_named(children, "off"@) <==> (c.name.name@ == "off"@ || has_child_named(
            rest,
            "off"@,
        ))) by {
            if has_child_named(children, "off"@) {
                let i = choose|i: int| 0 <= i < children.len() && #[trigger] children[i].name.name@ == "off"@;
                if i > 0 {
                    assert(rest[i - 1] == children[i]);
                }
            }
            if has_child_named(rest, "off"@) {
                let i = choose|i: int| 0 <= i < rest.len() && #[trigger] rest[i].name.name@ == "off"@;
                assert(children[i + 1] == rest[i]);
            }
        }
        assert(has_corner_child(children, corner) <==> (corner_named(c.name.name@) == Some(corner)
            || has_corner_child(rest, corner))) by {
            if has_corner_child(children, corner) {
                let i = choose|i: int|
                    0 <= i < children.len() && corner_named(#[trigger] children[i].name.name@) == Some(corner);
                if i > 0 {
                    assert(rest[i - 1] == children[i]);
                }
            }
            if has_corner_child(rest, corner) {
                let i = choose|i: int|
                    0 <= i < rest.len() && corner_named(#[trigger] rest[i].name.name@) == Some(corner);
                assert(children[i + 1] == rest[i]);
            }
        }
    }
}

/// When a `hot-corners` node decodes, hot corners are off exactly when some
/// child is `off`, and a corner is bound exactly when some child names it.
pub proof fn lemma_decoded_corners_are_the_named_ones(node: KdlNode, corner: Corner)
    requires
        hot_corners_result(node) is Ok,
    ensures
        hot_corners_result(node)->Ok_0.off <==> has_child_named(node.children@, "off"@),
        hot_corners_result(node)->Ok_0.corner(corner) is Some <==> has_corner_child(
            node.children@,
            corner,
        ),
{
    lemma_decode_children_binds(node.children@, HotCorners::spec_default(), corner);
}

/// The action that the last child of `children` naming `corner` binds it
/// to, or `current` when none names it.
pub open spec fn last_binding(children: Seq<KdlNode>, corner: Corner, current: Option<HotCornerAction>) -> Option<
    HotCornerAction,
>
    decreases children.len(),
{
    if children.len() == 0 {
        current
    } else {
        let c = children[0];
        let next = if corner_named(c.name.name@) == Some(corner) {
            match corner_child_action(c) {
                Ok(a) => Some(a),
                Err(_) => current,
            }
        } else {
            current
        };
        last_binding(children.drop_first(), corner, next)
    }
}

proof fn lemma_decode_children_last_binding(children: Seq<KdlNode>, rv: HotCorners, corner: Corner)
    requires
        decode_children(children, rv).1 is Ok,
    ensures
        decode_children(children, rv).1->Ok_0.corner(corner) == last_binding(
            children,
            corner,
            rv.corner(corner),
        ),
    decreases children.len(),
{
    if children.len() > 0 {
        let c = children[0];
        if corner_named(c.name.name@) is Some {
            lemma_corner_names_are_not_off(c.name.name@);
        }
        lemma_decode_children_last_binding(children.drop_first(), rv.after(child_effect(c)), corner);
    }
}

/// When a `hot-corners` node decodes, a corner named by several children
/// is bound as the last of them says.
pub proof fn lemma_last_corner_child_wins(node: KdlNode, corner: Corner)
    requires
        hot_corners_result(node) is Ok,
    ensures
        hot_corners_result(node)->Ok_0.corner(corner) == last_binding(node.children@, corner, None),
{
    lemma_decode_children_last_binding(node.children@, HotCorners::spec_default(), corner);
}

/// Each corner is named by exactly one name: `top-left`, `top-right`,
/// `bottom-left` and `bottom-right`.
pub proof fn lemma_corner_names(name: Seq<char>)
    ensures
        corner_named(name) == Some(Corner::TopLeft) <==> name == "top-left"@,
        corner_named(name) == Some(Corner::TopRight) <==> name == "top-right"@,
        corner_named(name) == Some(Corner::BottomLeft) <==> name == "bottom-left"@,
        corner_named(name) == Some(Corner::BottomRight) <==> name == "bottom-right"@,
{
    reveal_strlit("top-left");
    reveal_strlit("top-right");
    reveal_strlit("bottom-left");
    reveal_strlit("bottom-right");
    assert("top-left"@.len() == 8);
    assert("top-right"@.len() == 9);
    assert("bottom-left"@.len() == 11);
    assert("bottom-right"@.len() == 12);
}

proof fn lemma_corner_child_is_named_child(nodes: Seq<KdlNode>, corner: Corner, name: Seq<char>)
    requires
        forall|n: Seq<char>| #[trigger] corner_named(n) == Some(corner) <==> n == name,
    ensures
        has_corner_child(nodes, corner) <==> has_child_named(nodes, name),
{
    if has_corner_child(nodes, corner) {
        let i = choose|i: int| 0 <= i < nodes.len() && corner_named(#[trigger] nodes[i].name.name@) == Some(corner);
        assert(nodes[i].name.name@ == name);
    }
    if has_child_named(nodes, name) {
        let i = choose|i: int| 0 <= i < nodes.len() && #[trigger] nodes[i].name.name@ == name;
        assert(corner_named(nodes[i].name.name@) == Some(corner));
    }
}

/// When a `hot-corners` node decodes, each corner field is bound exactly
/// when some child carries that corner's name: `top_left` by `top-left`,
/// `top_right` by `top-right`, `bottom_left` by `bottom-left` and
/// `bottom_right` by `bottom-right`.
pub proof fn lemma_each_corner_field_follows_its_name(node: KdlNode)
    requires
        hot_corners_result(node) is Ok,
    ensures
        ({
            let h = hot_corners_result(node)->Ok_0;
            let cs = node.children@;
            &&& h.top_left is Some <==> has_child_named(cs, "top-left"@)
            &&& h.top_right is Some <==> has_child_named(cs, "top-right"@)
            &&& h.bottom_left is Some <==> has_child_named(cs, "bottom-left"@)
            &&& h.bottom_right is Some <==> has_child_named(cs, "bottom-right"@)
        }),
{
    assert forall|n: Seq<char>| #[trigger] corner_named(n) == Some(Corner::TopLeft) <==> n == "top-left"@ by {
        lemma_corner_names(n);
    }
    assert forall|n: Seq<char>| #[trigger] corner_named(n) == Some(Corner::TopRight) <==> n == "top-right"@ by {
        lemma_corner_names(n);
    }
    assert forall|n: Seq<char>| #[trigger] corner_named(n) == Some(Corner::BottomLeft) <==> n == "bottom-left"@ by {
        lemma_corner_names(n);
    }
    assert forall|n: Seq<char>| #[trigger] corner_named(n) == Some(Corner::BottomRight) <==> n == "bottom-right"@ by {
        lemma_corner_names(n);
    }
    let cs = node.children@;
    lemma_corner_child_is_named_child(cs, Corner::TopLeft, "top-left"@);
    lemma_corner_child_is_named_child(cs, Corner::TopRight, "top-right"@);
    lemma_corner_child_is_named_child(cs, Corner::BottomLeft, "bottom-left"@);
    lemma_corner_child_is_named_child(cs, Corner::BottomRight, "bottom-right"@);
    lemma_decoded_corners_are_the_named_ones(node, Corner::TopLeft);
    lemma_decoded_corners_are_the_named_ones(node, Corner::TopRight);
    lemma_decoded_corners_are_the_named_ones(node, Corner::BottomLeft);
    lemma_decoded_corners_are_the_named_ones(node, Corner::BottomRight);
}

/// Filling in the defaults: when hot corners are on and no corner is bound,
/// the top-left corner opens the overview and the bottom-left corner the
/// grid overview, the other corners staying unbound; a configuration that is
/// off or binds some corner is kept as it is.
pub proof fn lemma_default_corners(h: HotCorners)
    ensures
        !h.off && h.top_left is None && h.top_right is None && h.bottom_left is None
            && h.bottom_right is None ==> h.spec_with_default_corners() == (HotCorners {
            off: false,
            top_left: Some(HotCornerAction::Overview),
            top_right: None,
            bottom_left: Some(HotCornerAction::GridOverview),
            bottom_right: None,
        }),
        h.off || h.top_left is Some || h.top_right is Some || h.bottom_left is Some
            || h.bottom_right is Some ==> h.spec_with_default_corners() == h,
{
}

/// A scalar names an action exactly when it is the string `overview` or the
/// string `grid-overview`, and names the action it spells.
pub proof fn lemma_action_names(v: KdlValue)
    ensures
        action_value(v) == Ok::<HotCornerAction, DecodeError>(HotCornerAction::Overview) <==> (
        v.literal matches KdlLiteral::String(s) && s@ == "overview"@),
        action_value(v) == Ok::<HotCornerAction, DecodeError>(HotCornerAction::GridOverview) <==> (
        v.literal matches KdlLiteral::String(s) && s@ == "grid-overview"@),
{
    reveal_strlit("overview");
    reveal_strlit("grid-overview");
    assert("overview"@.len() == 8);
    assert("grid-overview"@.len() == 13);
}

/// An action child node binds the action its name spells: `overview` or
/// `grid-overview`; any other name is reported and binds the overview.
pub proof fn lemma_action_node_names(gc: KdlNode)
    ensures
        action_node(gc).0 == HotCornerAction::GridOverview <==> gc.name.name@ == "grid-overview"@,
        gc.name.name@ == "overview"@ ==> action_node(gc) == (HotCornerAction::Overview, Seq::<DecodeError>::empty()),
        gc.name.name@ != "overview"@ && gc.name.name@ != "grid-overview"@ ==> action_node(gc).1.len() == 1,
{
    reveal_strlit("overview");
    reveal_strlit("grid-overview");
    assert("overview"@.len() == 8);
    assert("grid-overview"@.len() == 13);
}

} // verus!

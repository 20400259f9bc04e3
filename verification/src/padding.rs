//! Padding around the grid: one value for every side, or a value per side,
//! and how a `padding` configuration node is decoded.
//!
//! The values are carried through, whatever their type: decoding each value
//! is the caller's step, taken where `padding_steps` says.

use vstd::prelude::*;
use crate::kdl::{
    node_errors, property_errors, DecodeError, ElementKind, KdlNode, Message,
};
use crate::text::text_eq;

verus! {

/// The padding on each side.
#[derive(Clone, Copy, Debug, PartialEq)]
pub struct GridOverviewPadding<V> {
    pub left: V,
    pub right: V,
    pub top: V,
    pub bottom: V,
}

impl<V: Copy> GridOverviewPadding<V> {
    /// The same padding on every side.
    pub fn uniform(value: V) -> (r: GridOverviewPadding<V>)
        ensures
            r == (GridOverviewPadding { left: value, right: value, top: value, bottom: value }),
    {
        GridOverviewPadding { left: value, right: value, top: value, bottom: value }
    }
}

/// A configured padding: one value for every side, or values for some sides.
#[derive(Clone, Copy, Debug, PartialEq)]
pub enum GridOverviewPaddingPart<V> {
    Uniform(V),
    Sides { left: Option<V>, right: Option<V>, top: Option<V>, bottom: Option<V> },
}

/// `value` if set, else `current`.
pub open spec fn or_current<V>(value: Option<V>, current: V) -> V {
    match value {
        Some(v) => v,
        None => current,
    }
}

/// The padding after a configured part: a uniform part sets every side, a
/// per-side part the sides it gives.
pub open spec fn merged_padding<V>(p: GridOverviewPadding<V>, part: GridOverviewPaddingPart<V>) -> GridOverviewPadding<V> {
    match part {
        GridOverviewPaddingPart::Uniform(v) => GridOverviewPadding { left: v, right: v, top: v, bottom: v },
        GridOverviewPaddingPart::Sides { left, right, top, bottom } => GridOverviewPadding {
            left: or_current(left, p.left),
            right: or_current(right, p.right),
            top: or_current(top, p.top),
            bottom: or_current(bottom, p.bottom),
        },
    }
}

impl<V: Copy> GridOverviewPaddingPart<V> {
    /// Applies this part to `padding`.
    pub fn merge_into(&self, padding: &mut GridOverviewPadding<V>)
        ensures
            *final(padding) == merged_padding(*old(padding), *self),
    {
        match *self {
            GridOverviewPaddingPart::Uniform(value) => *padding = GridOverviewPadding::uniform(value),
            GridOverviewPaddingPart::Sides { left, right, top, bottom } => {
                if let Some(left) = left {
                    padding.left = left;
                }
                if let Some(right) = right {
                    padding.right = right;
                }
                if let Some(top) = top {
                    padding.top = top;
                }
                if let Some(bottom) = bottom {
                    padding.bottom = bottom;
                }
            },
        }
    }
}

/// Merging a uniform part puts its value on every side; merging a per-side
/// part sets each side it gives to the given value and keeps each side it
/// leaves out, every side on its own.
pub proof fn lemma_merge_sets_given_sides<V>(p: GridOverviewPadding<V>, part: GridOverviewPaddingPart<V>)
    ensures
        part matches GridOverviewPaddingPart::Uniform(v) ==> ({
            let m = merged_padding(p, part);
            m.left == v && m.right == v && m.top == v && m.bottom == v
        }),
        part matches GridOverviewPaddingPart::Sides { left, .. } ==> merged_padding(p, part).left == (
        match left {
            Some(v) => v,
            None => p.left,
        }),
        part matches GridOverviewPaddingPart::Sides { right, .. } ==> merged_padding(p, part).right
            == (match right {
            Some(v) => v,
            None => p.right,
        }),
        part matches GridOverviewPaddingPart::Sides { top, .. } ==> merged_padding(p, part).top == (
        match top {
            Some(v) => v,
            None => p.top,
        }),
        part matches GridOverviewPaddingPart::Sides { bottom, .. } ==> merged_padding(p, part).bottom
            == (match bottom {
            Some(v) => v,
            None => p.bottom,
        }),
{
}

/// A side of the padding.
#[derive(Clone, Copy, Debug, PartialEq, Eq, Structural)]
pub enum Side {
    Left,
    Right,
    Top,
    Bottom,
}

/// The side that a child of `padding` names, if any.
pub open spec fn side_named(name: Seq<char>) -> Option<Side> {
    if name == "left"@ {
        Some(Side::Left)
    } else if name == "right"@ {
        Some(Side::Right)
    } else if name == "top"@ {
        Some(Side::Top)
    } else if name == "bottom"@ {
        Some(Side::Bottom)
    } else {
        None
    }
}

fn side_of(name: &String) -> (r: Option<Side>)
    ensures
        r == side_named(name@),
{
    if text_eq(name.as_str(), "left") {
        Some(Side::Left)
    } else if text_eq(name.as_str(), "right") {
        Some(Side::Right)
    } else if text_eq(name.as_str(), "top") {
        Some(Side::Top)
    } else if text_eq(name.as_str(), "bottom") {
        Some(Side::Bottom)
    } else {
        None
    }
}

/// One step of decoding a `padding` node.
#[derive(Clone, Debug)]
pub enum PaddingStep {
    /// Decode the node's argument at this index as the value of every side;
    /// decoding stops if it fails.
    DecodeArgument(usize),
    /// Decode the child at this index, a node with a single argument, as
    /// the value of this side; decoding stops if it fails.
    DecodeSide(Side, usize),
    /// Report this error and go on.
    Emit(DecodeError),
}

/// Each error as a step that reports it.
pub open spec fn emit_all(errors: Seq<DecodeError>) -> Seq<PaddingStep> {
    errors.map_values(|e: DecodeError| PaddingStep::Emit(e))
}

/// The step for the child at index `i` of a `padding` node without an
/// argument: decode the side it names, or report its unknown name.
pub open spec fn child_step(c: KdlNode, i: int) -> PaddingStep {
    match side_named(c.name.name@) {
        Some(side) => PaddingStep::DecodeSide(side, i as usize),
        None => PaddingStep::Emit(DecodeError::UnknownPaddingSide { span: c.span, name: c.name.name }),
    }
}

/// The steps of decoding a `padding` node, in order. With an argument: its
/// value for every side, then errors for a second argument, for each child
/// and for each property. Without one: for each child, its side or an
/// error for its unknown name, then errors for each property.
pub open spec fn padding_plan(node: KdlNode) -> Seq<PaddingStep> {
    if node.arguments@.len() > 0 {
        seq![PaddingStep::DecodeArgument(0)] + (if node.arguments@.len() > 1 {
            seq![
                PaddingStep::Emit(
                    DecodeError::Unexpected {
                        span: node.arguments@[1].literal_span,
                        kind: ElementKind::Argument,
                        message: Message::UnexpectedArgument,
                    },
                ),
            ]
        } else {
            seq![]
        }) + emit_all(node_errors(node.children@, Message::NoChildNodesWithPaddingArgument))
            + emit_all(property_errors(node.properties@))
    } else {
        Seq::new(node.children@.len(), |i: int| child_step(node.children@[i], i)) + emit_all(
            property_errors(node.properties@),
        )
    }
}

/// Appends a step that reports each property of `node`.
fn push_property_errors(node: &KdlNode, steps: &mut Vec<PaddingStep>)
    ensures
        final(steps)@ == old(steps)@ + emit_all(property_errors(node.properties@)),
{
    let ghost start = steps@;
    let n = node.properties.len();
    let mut i: usize = 0;
    while i < n
        invariant
            n == node.properties@.len(),
            i <= n,
            steps@ == start + emit_all(property_errors(node.properties@.take(i as int))),
        decreases n - i,
    {
        let e = DecodeError::Unexpected {
            span: node.properties[i].span,
            kind: ElementKind::Property,
            message: Message::NoPropertiesExpected,
        };
        steps.push(PaddingStep::Emit(e));
        assert(node.properties@.take(i + 1) =~= node.properties@.take(i as int).push(
            node.properties@[i as int],
        ));
        assert(emit_all(property_errors(node.properties@.take(i + 1))) =~= emit_all(
            property_errors(node.properties@.take(i as int)),
        ).push(PaddingStep::Emit(e)));
        i += 1;
    }
    assert(node.properties@.take(n as int) =~= node.properties@);
}

/// The steps of decoding `node` as a `padding` node, see `padding_plan`.
pub fn padding_steps(node: &KdlNode) -> (r: Vec<PaddingStep>)
    ensures
        r@ == padding_plan(*node),
{
    let mut steps: Vec<PaddingStep> = Vec::new();
    let n = node.children.len();
    if node.arguments.len() > 0 {
        steps.push(PaddingStep::DecodeArgument(0));
        if node.arguments.len() > 1 {
            steps.push(
                PaddingStep::Emit(
                    DecodeError::Unexpected {
                        span: node.arguments[1].literal_span,
                        kind: ElementKind::Argument,
                        message: Message::UnexpectedArgument,
                    },
                ),
            );
        }
        let ghost head = steps@;
        let mut i: usize = 0;
        while i < n
            invariant
                n == node.children@.len(),
                i <= n,
                steps@ == head + emit_all(
                    node_errors(node.children@.take(i as int), Message::NoChildNodesWithPaddingArgument),
                ),
            decreases n - i,
        {
            let e = DecodeError::Unexpected {
                span: node.children[i].span,
                kind: ElementKind::Node,
                message: Message::NoChildNodesWithPaddingArgument,
            };
            steps.push(PaddingStep::Emit(e));
            assert(node.children@.take(i + 1) =~= node.children@.take(i as int).push(
                node.children@[i as int],
            ));
            assert(emit_all(
                node_errors(node.children@.take(i + 1), Message::NoChildNodesWithPaddingArgument),
            ) =~= emit_all(
                node_errors(node.children@.take(i as int), Message::NoChildNodesWithPaddingArgument),
            ).push(PaddingStep::Emit(e)));
            i += 1;
        }
        assert(node.children@.take(n as int) =~= node.children@);
        push_property_errors(node, &mut steps);
        assert(steps@ =~= padding_plan(*node));
    } else {
        let mut i: usize = 0;
        while i < n
            invariant
                n == node.children@.len(),
                i <= n,
                steps@ =~= Seq::new(i as nat, |j: int| child_step(node.children@[j], j)),
            decreases n - i,
        {
            let c = &node.children[i];
            let step = match side_of(&c.name.name) {
                Some(side) => PaddingStep::DecodeSide(side, i),
                None => PaddingStep::Emit(
                    DecodeError::UnknownPaddingSide { span: c.span, name: c.name.name.clone() },
                ),
            };
            steps.push(step);
            i += 1;
        }
        push_property_errors(node, &mut steps);
        assert(steps@ =~= padding_plan(*node));
    }
    steps
}

/// The value of `side` after the children of a `padding` node, given each
/// child's decoded value (`None` for children that name no side): the last
/// child naming the side decides, else `current`.
pub open spec fn side_value<V>(children: Seq<KdlNode>, values: Seq<Option<V>>, side: Side, current: Option<V>) -> Option<V>
    decreases children.len(),
{
    if children.len() == 0 {
        current
    } else {
        side_value(
            children.drop_first(),
            values.drop_first(),
            side,
            if side_named(children[0].name.name@) == Some(side) {
                values[0]
            } else {
                current
            },
        )
    }
}

/// The padding that a decoded `padding` node configures: with an argument,
/// its value (`values[0]`) on every side; otherwise, per side, the value of
/// the last child naming it (`values[i]` for child `i`).
pub open spec fn assembled_padding<V>(node: KdlNode, values: Seq<Option<V>>) -> GridOverviewPaddingPart<V> {
    if node.arguments@.len() > 0 {
        GridOverviewPaddingPart::Uniform(values[0]->0)
    } else {
        GridOverviewPaddingPart::Sides {
            left: side_value(node.children@, values, Side::Left, None),
            right: side_value(node.children@, values, Side::Right, None),
            top: side_value(node.children@, values, Side::Top, None),
            bottom: side_value(node.children@, values, Side::Bottom, None),
        }
    }
}

/// Builds the configured padding from the values that the decoding steps
/// gave: for a node with an argument, `values[0]` is the argument's value;
/// otherwise `values[i]` is the value of child `i` when it names a side.
pub fn assemble_padding<V: Copy>(node: &KdlNode, values: &Vec<Option<V>>) -> (r: GridOverviewPaddingPart<V>)
    requires
        node.arguments@.len() > 0 ==> values@.len() > 0 && values@[0] is Some,
        node.arguments@.len() == 0 ==> values@.len() == node.children@.len() && forall|i: int|
            0 <= i < values@.len() && side_named(#[trigger] node.children@[i].name.name@) is Some
                ==> values@[i] is Some,
    ensures
        r == assembled_padding(*node, values@),
{
    if node.arguments.len() > 0 {
        return GridOverviewPaddingPart::Uniform(values[0].unwrap());
    }
    let n = node.children.len();
    let mut left: Option<V> = None;
    let mut right: Option<V> = None;
    let mut top: Option<V> = None;
    let mut bottom: Option<V> = None;
    let mut i: usize = 0;
    assert(node.children@.skip(0) =~= node.children@);
    assert(values@.skip(0) =~= values@);
    while i < n
        invariant
            n == node.children@.len(),
            n == values@.len(),
            i <= n,
            side_value(node.children@, values@, Side::Left, None) == side_value(
                node.children@.skip(i as int),
                values@.skip(i as int),
                Side::Left,
                left,
            ),
            side_value(node.children@, values@, Side::Right, None) == side_value(
                node.children@.skip(i as int),
                values@.skip(i as int),
                Side::Right,
                right,
            ),
            side_value(node.children@, values@, Side::Top, None) == side_value(
                node.children@.skip(i as int),
                values@.skip(i as int),
                Side::Top,
                top,
            ),
            side_value(node.children@, values@, Side::Bottom, None) == side_value(
                node.children@.skip(i as int),
                values@.skip(i as int),
                Side::Bottom,
                bottom,
            ),
        decreases n - i,
    {
        assert(node.children@.skip(i as int)[0] == node.children@[i as int]);
        assert(values@.skip(i as int)[0] == values@[i as int]);
        assert(node.children@.skip(i as int).drop_first() =~= node.children@.skip(i + 1));
        assert(values@.skip(i as int).drop_first() =~= values@.skip(i + 1));
        match side_of(&node.children[i].name.name) {
            Some(Side::Left) => left = values[i],
            Some(Side::Right) => right = values[i],
            Some(Side::Top) => top = values[i],
            Some(Side::Bottom) => bottom = values[i],
            None => {},
        }
        i += 1;
    }
    GridOverviewPaddingPart::Sides { left, right, top, bottom }
}

/// A side that a per-side padding sets is named by some child, and takes
/// that child's value.
pub proof fn lemma_side_set_only_by_a_child<V>(children: Seq<KdlNode>, values: Seq<Option<V>>, side: Side)
    requires
        values.len() == children.len(),
    ensures
        side_value(children, values, side, None) matches Some(v) ==> exists|i: int|
            0 <= i < children.len() && side_named(#[trigger] children[i].name.name@) == Some(side)
                && values[i] == Some(v),
{
    lemma_side_value_from(children, values, side, None);
}

proof fn lemma_side_value_from<V>(
    children: Seq<KdlNode>,
    values: Seq<Option<V>>,
    side: Side,
    current: Option<V>,
)
    requires
        values.len() == children.len(),
    ensures
        side_value(children, values, side, current) == current || exists|i: int|
            0 <= i < children.len() && side_named(#[trigger] children[i].name.name@) == Some(side)
                && values[i] == side_value(children, values, side, current),
    decreases children.len(),
{
    if children.len() > 0 {
        let next = if side_named(children[0].name.name@) == Some(side) {
            values[0]
        } else {
            current
        };
        let rest = children.drop_first();
        lemma_side_value_from(rest, values.drop_first(), side, next);
        let r = side_value(children, values, side, current);
        if r != current {
            if r == next {
                assert(side_named(children[0].name.name@) == Some(side) && values[0] == r);
            } else {
                let i = choose|i: int|
                    0 <= i < rest.len() && side_named(#[trigger] rest[i].name.name@) == Some(side)
                        && values.drop_first()[i] == r;
                assert(children[i + 1] == rest[i]);
                assert(side_named(children[i + 1].name.name@) == Some(side));
            }
        }
    }
}

} // verus!

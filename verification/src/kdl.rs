//! A plain model of a decoded KDL node, as a KDL parser hands it to a
//! node decoder, and of the errors that a decoder reports.

use vstd::prelude::*;

verus! {

/// Where an element was written: a range in the configuration text, or
/// any pair of numbers by which the caller finds the element again.
#[derive(Clone, Copy, Debug, PartialEq, Eq, Structural)]
pub struct Span {
    pub start: usize,
    pub end: usize,
}

/// A name together with where it was written: a node name, a type name in
/// parentheses, or a property key.
#[derive(Clone, Debug)]
pub struct KdlName {
    pub name: String,
    pub span: Span,
}

/// The kind of a scalar literal.
#[derive(Clone, Copy, Debug, PartialEq, Eq, Structural)]
pub enum LiteralKind {
    Int,
    Decimal,
    String,
    Bool,
    Null,
}

/// A scalar literal. Numbers keep only their kind: no decoder of this
/// library reads their digits.
#[derive(Clone, Debug)]
pub enum KdlLiteral {
    Null,
    Bool(bool),
    Int,
    Decimal,
    String(String),
}

impl KdlLiteral {
    pub open spec fn spec_kind(&self) -> LiteralKind {
        match self {
            KdlLiteral::Null => LiteralKind::Null,
            KdlLiteral::Bool(_) => LiteralKind::Bool,
            KdlLiteral::Int => LiteralKind::Int,
            KdlLiteral::Decimal => LiteralKind::Decimal,
            KdlLiteral::String(_) => LiteralKind::String,
        }
    }

    /// The kind of this literal.
    pub fn kind(&self) -> (k: LiteralKind)
        ensures
            k == self.spec_kind(),
    {
        match self {
            KdlLiteral::Null => LiteralKind::Null,
            KdlLiteral::Bool(_) => LiteralKind::Bool,
            KdlLiteral::Int => LiteralKind::Int,
            KdlLiteral::Decimal => LiteralKind::Decimal,
            KdlLiteral::String(_) => LiteralKind::String,
        }
    }
}

/// A positional argument of a node.
#[derive(Clone, Debug)]
pub struct KdlValue {
    pub type_annotation: Option<KdlName>,
    pub literal: KdlLiteral,
    pub literal_span: Span,
}

/// A node with its arguments, the keys of its properties in key order, and
/// its children in document order.
#[derive(Debug)]
pub struct KdlNode {
    /// The whole node, children included.
    pub span: Span,
    pub type_annotation: Option<KdlName>,
    pub name: KdlName,
    pub arguments: Vec<KdlValue>,
    pub properties: Vec<KdlName>,
    pub children: Vec<KdlNode>,
}

/// What an `Unexpected` error points at.
#[derive(Clone, Copy, Debug, PartialEq, Eq, Structural)]
pub enum ElementKind {
    TypeName,
    Argument,
    Property,
    Node,
}

/// The fixed messages of `Unexpected` errors.
#[derive(Clone, Copy, Debug, PartialEq, Eq, Structural)]
pub enum Message {
    NoTypeNameExpected,
    NoArgumentsExpected,
    NoPropertiesExpected,
    NoChildNodesExpected,
    UnexpectedArgument,
    UnexpectedNode,
    /// A child of a `padding` node that has an argument.
    NoChildNodesWithPaddingArgument,
}

/// An error found while decoding a node.
#[derive(Clone, Debug)]
pub enum DecodeError {
    /// Something is present that the node does not take.
    Unexpected { span: Span, kind: ElementKind, message: Message },
    /// A hot-corner child node whose name is no corner; holds the name.
    UnknownHotCorner { span: Span, name: String },
    /// A hot-corner action node whose name is no action; holds the name.
    UnknownHotCornerAction { span: Span, name: String },
    /// A child of a `padding` node that names no side; holds the name.
    UnknownPaddingSide { span: Span, name: String },
    /// A scalar carries a type name in parentheses, which it does not take.
    TypeName { span: Span, found: String },
    /// A string that names no hot-corner action.
    ExpectedHotCornerAction { span: Span },
    /// A scalar of the wrong kind.
    ScalarKind { span: Span, expected: LiteralKind, found: LiteralKind },
}

/// The error for a type name where none is taken, if there is one.
pub open spec fn type_annotation_errors(t: Option<KdlName>) -> Seq<DecodeError> {
    match t {
        Some(n) => seq![
            DecodeError::Unexpected {
                span: n.span,
                kind: ElementKind::TypeName,
                message: Message::NoTypeNameExpected,
            },
        ],
        None => seq![],
    }
}

/// One error per argument, each pointing at the argument's literal.
pub open spec fn argument_errors(args: Seq<KdlValue>, message: Message) -> Seq<DecodeError> {
    args.map_values(
        |v: KdlValue|
            DecodeError::Unexpected { span: v.literal_span, kind: ElementKind::Argument, message },
    )
}

/// One error per property key.
pub open spec fn property_errors(props: Seq<KdlName>) -> Seq<DecodeError> {
    props.map_values(
        |p: KdlName|
            DecodeError::Unexpected {
                span: p.span,
                kind: ElementKind::Property,
                message: Message::NoPropertiesExpected,
            },
    )
}

/// One error per node, each pointing at the whole node.
pub open spec fn node_errors(nodes: Seq<KdlNode>, message: Message) -> Seq<DecodeError> {
    nodes.map_values(
        |n: KdlNode| DecodeError::Unexpected { span: n.span, kind: ElementKind::Node, message },
    )
}

/// The errors emitted so far while decoding a document. Decoding goes on
/// after an emitted error; the document is refused if any was emitted.
#[derive(Debug)]
pub struct DecodeContext {
    pub errors: Vec<DecodeError>,
}

impl DecodeContext {
    pub fn new() -> (ctx: DecodeContext)
        ensures
            ctx.errors@ == Seq::<DecodeError>::empty(),
    {
        DecodeContext { errors: Vec::new() }
    }

    /// Records an error and goes on.
    pub fn emit_error(&mut self, err: DecodeError)
        ensures
            final(self).errors@ == old(self).errors@.push(err),
    {
        self.errors.push(err);
    }

    pub fn has_errors(&self) -> (b: bool)
        ensures
            b == (self.errors@.len() > 0),
    {
        self.errors.len() > 0
    }

    /// Reports a type name where none is taken.
    pub fn reject_type_annotation(&mut self, t: &Option<KdlName>)
        ensures
            final(self).errors@ == old(self).errors@ + type_annotation_errors(*t),
    {
        if let Some(n) = t {
            self.errors.push(
                DecodeError::Unexpected {
                    span: n.span,
                    kind: ElementKind::TypeName,
                    message: Message::NoTypeNameExpected,
                },
            );
        }
        assert(final(self).errors@ =~= old(self).errors@ + type_annotation_errors(*t));
    }

    /// Reports every argument, with the given message.
    pub fn reject_arguments(&mut self, args: &Vec<KdlValue>, message: Message)
        ensures
            final(self).errors@ == old(self).errors@ + argument_errors(args@, message),
    {
        let ghost start = self.errors@;
        let n = args.len();
        let mut i: usize = 0;
        while i < n
            invariant
                n == args@.len(),
                i <= n,
                self.errors@ == start + argument_errors(args@.take(i as int), message),
            decreases n - i,
        {
            self.errors.push(
                DecodeError::Unexpected {
                    span: args[i].literal_span,
                    kind: ElementKind::Argument,
                    message,
                },
            );
            assert(args@.take(i + 1) =~= args@.take(i as int).push(args@[i as int]));
            assert(argument_errors(args@.take(i + 1), message) =~= argument_errors(
                args@.take(i as int),
                message,
            ).push(
                DecodeError::Unexpected {
                    span: args@[i as int].literal_span,
                    kind: ElementKind::Argument,
                    message,
                },
            ));
            i += 1;
        }
        assert(args@.take(n as int) =~= args@);
    }

    /// Reports every property key.
    pub fn reject_properties(&mut self, props: &Vec<KdlName>)
        ensures
            final(self).errors@ == old(self).errors@ + property_errors(props@),
    {
        let ghost start = self.errors@;
        let n = props.len();
        let mut i: usize = 0;
        while i < n
            invariant
                n == props@.len(),
                i <= n,
                self.errors@ == start + property_errors(props@.take(i as int)),
            decreases n - i,
        {
            self.errors.push(
                DecodeError::Unexpected {
                    span: props[i].span,
                    kind: ElementKind::Property,
                    message: Message::NoPropertiesExpected,
                },
            );
            assert(props@.take(i + 1) =~= props@.take(i as int).push(props@[i as int]));
            assert(property_errors(props@.take(i + 1)) =~= property_errors(
                props@.take(i as int),
            ).push(
                DecodeError::Unexpected {
                    span: props@[i as int].span,
                    kind: ElementKind::Property,
                    message: Message::NoPropertiesExpected,
                },
            ));
            i += 1;
        }
        assert(props@.take(n as int) =~= props@);
    }

    /// Reports every node of `nodes` from index `from` on, with the given
    /// message.
    pub fn reject_nodes_from(&mut self, nodes: &Vec<KdlNode>, from: usize, message: Message)
        requires
            from <= nodes@.len(),
        ensures
            final(self).errors@ == old(self).errors@ + node_errors(nodes@.skip(from as int), message),
    {
        let ghost start = self.errors@;
        let n = nodes.len();
        let mut i: usize = from;
        while i < n
            invariant
                n == nodes@.len(),
                from <= i <= n,
                self.errors@ == start + node_errors(nodes@.subrange(from as int, i as int), message),
            decreases n - i,
        {
            self.errors.push(
                DecodeError::Unexpected { span: nodes[i].span, kind: ElementKind::Node, message },
            );
            assert(nodes@.subrange(from as int, i + 1) =~= nodes@.subrange(from as int, i as int).push(
                nodes@[i as int],
            ));
            assert(node_errors(nodes@.subrange(from as int, i + 1), message) =~= node_errors(
                nodes@.subrange(from as int, i as int),
                message,
            ).push(DecodeError::Unexpected { span: nodes@[i as int].span, kind: ElementKind::Node, message }));
            i += 1;
        }
        assert(nodes@.subrange(from as int, n as int) =~= nodes@.skip(from as int));
    }
}

} // verus!

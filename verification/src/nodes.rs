//! The syntax-tree node model: a closed set of node kinds, each carrying an
//! optional source span and, for non-leaf kinds, an ordered sequence of
//! children. Partial-reference elements additionally carry a tag name and
//! attributes.

use vstd::prelude::*;

verus! {

/// A zero-based cursor position, as delivered by the editor.
#[derive(Clone, Copy, Debug, PartialEq, Eq)]
pub struct Position {
    pub line: u32,
    pub character: u32,
}

/// A one-based place in the source text.
#[derive(Clone, Copy, Debug, PartialEq, Eq)]
pub struct Point {
    pub line: usize,
    pub column: usize,
}

/// The inclusive source range a node occupies, from its first character to
/// its last, as the grammar reports it.
#[derive(Clone, Copy, Debug, PartialEq, Eq)]
pub struct Span {
    pub start: Point,
    pub end: Point,
}

/// The value of a JSX attribute: either a literal string or an expression,
/// whose contents the resolver never inspects.
#[derive(Debug, PartialEq, Eq)]
pub enum AttributeValue {
    Literal(String),
    Expression,
}

/// One attribute of a partial-reference element: a named property with an
/// optional value, or a spread expression.
#[derive(Debug, PartialEq, Eq)]
pub enum AttributeContent {
    Property(MdxJsxAttribute),
    Expression,
}

/// A named JSX property, such as `src="a.mdx"`.
#[derive(Debug, PartialEq, Eq)]
pub struct MdxJsxAttribute {
    pub name: String,
    pub value: Option<AttributeValue>,
}

/// A JSX flow element: the node kind that can be a partial reference when
/// its tag name equals the reserved marker.
#[derive(Debug, PartialEq, Eq)]
pub struct MdxJsxFlowElement {
    pub children: Vec<Node>,
    pub position: Option<Span>,
    pub name: Option<String>,
    pub attributes: Vec<AttributeContent>,
}

/// One node of a parsed document tree.
#[derive(Debug, PartialEq, Eq)]
pub enum Node {
    Root { children: Vec<Node>, position: Option<Span> },
    Heading { children: Vec<Node>, position: Option<Span> },
    Paragraph { children: Vec<Node>, position: Option<Span> },
    List { children: Vec<Node>, position: Option<Span> },
    ListItem { children: Vec<Node>, position: Option<Span> },
    Text { value: String, position: Option<Span> },
    MdxJsxFlowElement(MdxJsxFlowElement),
    OtherParent { children: Vec<Node>, position: Option<Span> },
    OtherLeaf { position: Option<Span> },
}

/// The inclusive-both-axes containment rule: the converted one-based cursor
/// position lies within the span's line range and within its column range,
/// each compared independently.
pub open spec fn span_contains(span: Span, position: Position) -> bool {
    &&& span.start.line <= position.line + 1
    &&& span.end.line >= position.line + 1
    &&& span.start.column <= position.character + 1
    &&& span.end.column >= position.character + 1
}

impl Node {
    /// The node's span, if the grammar gave it one.
    pub open spec fn spec_position(self) -> Option<Span> {
        match self {
            Node::Root { position, .. } => position,
            Node::Heading { position, .. } => position,
            Node::Paragraph { position, .. } => position,
            Node::List { position, .. } => position,
            Node::ListItem { position, .. } => position,
            Node::Text { position, .. } => position,
            Node::MdxJsxFlowElement(element) => element.position,
            Node::OtherParent { position, .. } => position,
            Node::OtherLeaf { position } => position,
        }
    }

    /// The node's ordered children, or none for leaf kinds.
    pub open spec fn spec_children(self) -> Option<Seq<Node>> {
        match self {
            Node::Root { children, .. } => Some(children@),
            Node::Heading { children, .. } => Some(children@),
            Node::Paragraph { children, .. } => Some(children@),
            Node::List { children, .. } => Some(children@),
            Node::ListItem { children, .. } => Some(children@),
            Node::Text { .. } => None,
            Node::MdxJsxFlowElement(element) => Some(element.children@),
            Node::OtherParent { children, .. } => Some(children@),
            Node::OtherLeaf { .. } => None,
        }
    }

    /// Whether the node's span contains the cursor position; a node without
    /// a span contains nothing.
    pub open spec fn spec_contains(self, position: Position) -> bool {
        match self.spec_position() {
            Some(span) => span_contains(span, position),
            None => false,
        }
    }

    /// Whether the node is a partial reference: a JSX flow element whose tag
    /// name equals the reserved marker.
    pub open spec fn spec_is_partial(self) -> bool {
        match self {
            Node::MdxJsxFlowElement(element) => match element.name {
                Some(name) => name@ == "$Partial"@,
                None => false,
            },
            _ => false,
        }
    }

    pub fn position(&self) -> (r: Option<Span>)
        ensures
            r == self.spec_position(),
    {
        match self {
            Node::Root { position, .. } => *position,
            Node::Heading { position, .. } => *position,
            Node::Paragraph { position, .. } => *position,
            Node::List { position, .. } => *position,
            Node::ListItem { position, .. } => *position,
            Node::Text { position, .. } => *position,
            Node::MdxJsxFlowElement(element) => element.position,
            Node::OtherParent { position, .. } => *position,
            Node::OtherLeaf { position } => *position,
        }
    }

    pub fn children(&self) -> (r: Option<&Vec<Node>>)
        ensures
            match r {
                Some(list) => self.spec_children() == Some(list@),
                None => self.spec_children() is None,
            },
    {
        match self {
            Node::Root { children, .. } => Some(children),
            Node::Heading { children, .. } => Some(children),
            Node::Paragraph { children, .. } => Some(children),
            Node::List { children, .. } => Some(children),
            Node::ListItem { children, .. } => Some(children),
            Node::Text { .. } => None,
            Node::MdxJsxFlowElement(element) => Some(&element.children),
            Node::OtherParent { children, .. } => Some(children),
            Node::OtherLeaf { .. } => None,
        }
    }

    /// True iff the node has a span and the one-based conversion of
    /// `position` (adding one to both line and character) lies within it,
    /// inclusively on both the line and the column axis.
    pub fn contains_position(&self, position: &Position) -> (r: bool)
        ensures
            r == self.spec_contains(*position),
    {
        match self.position() {
            Some(span) => {
                let line: u64 = position.line as u64 + 1;
                let character: u64 = position.character as u64 + 1;
                span.start.line as u64 <= line && span.end.line as u64 >= line
                    && span.start.column as u64 <= character
                    && span.end.column as u64 >= character
            },
            None => false,
        }
    }

    /// True iff the node is a reference element whose tag name equals the
    /// reserved `$Partial` marker; attribute values are irrelevant.
    pub fn is_partial(&self) -> (r: bool)
        ensures
            r == self.spec_is_partial(),
    {
        match self {
            Node::MdxJsxFlowElement(element) => match &element.name {
                Some(name) => name.eq(&String::from_str("$Partial")),
                None => false,
            },
            _ => false,
        }
    }
}

} // verus!

pub mod partials;

//! The tree that a parse produces, its specification-level counterpart, and
//! the view functions connecting the two.

use vstd::prelude::*;

verus! {

/// The value of an attribute: a quoted literal or a braced variable
/// reference.
#[derive(Debug, Clone, PartialEq)]
pub enum Value {
    Literal(String),
    VariableReference(String),
}

/// One attribute of a node. `id` is unique within the owning node, assigned
/// in encounter order starting at 0.
#[derive(Debug, Clone, PartialEq)]
pub struct Attribute {
    pub id: usize,
    pub name: String,
    pub value: Option<Value>,
}

/// One body item of a node: a run of text, or a nested child node that the
/// node exclusively owns.
#[derive(Debug, PartialEq)]
pub enum Body {
    Text(String),
    Child(Box<Node>),
}

/// One node of the parsed tree. `id` is unique across the whole parse and
/// strictly increasing in the order nodes are opened; `parent_id` is the id
/// of the enclosing node, or `None` for the root.
#[derive(Debug, PartialEq)]
pub struct Node {
    pub id: usize,
    pub parent_id: Option<usize>,
    pub name: String,
    pub children: Vec<Body>,
    pub attributes: Vec<Attribute>,
}

/// A fatal parse failure: the whole parse aborts with no partial tree.
#[derive(Debug, Clone, PartialEq)]
pub enum ParseError {
    /// A structural character or a literal appeared in a state that has no
    /// transition for it.
    UnexpectedCharacter,
    /// The closing tag's name does not equal the opening tag's name.
    ClosingTagMismatch { expected: String, found: String },
    /// The input ended while a node was still open.
    UnexpectedEndOfInput,
    /// An `=` outside an attribute name, a quote or brace in the wrong
    /// value-kind context, or a value delimiter mismatch.
    AttributeSyntaxError,
}

/// Specification-level attribute value.
pub enum SpecValue {
    Literal(Seq<char>),
    VariableReference(Seq<char>),
}

/// Specification-level attribute.
pub struct SpecAttribute {
    pub id: int,
    pub name: Seq<char>,
    pub value: Option<SpecValue>,
}

/// Specification-level body item.
pub enum SpecBody {
    Text(Seq<char>),
    Child(SpecNode),
}

/// Specification-level tree node.
pub struct SpecNode {
    pub id: int,
    pub parent_id: Option<int>,
    pub name: Seq<char>,
    pub children: Seq<SpecBody>,
    pub attributes: Seq<SpecAttribute>,
}

/// Specification-level parse failure.
pub enum SpecError {
    UnexpectedCharacter,
    ClosingTagMismatch { expected: Seq<char>, found: Seq<char> },
    UnexpectedEndOfInput,
    AttributeSyntaxError,
}

impl View for Value {
    type V = SpecValue;

    open spec fn view(&self) -> SpecValue {
        match self {
            Value::Literal(s) => SpecValue::Literal(s@),
            Value::VariableReference(s) => SpecValue::VariableReference(s@),
        }
    }
}

impl View for Attribute {
    type V = SpecAttribute;

    open spec fn view(&self) -> SpecAttribute {
        SpecAttribute {
            id: self.id as int,
            name: self.name@,
            value: match self.value {
                Some(v) => Some(v@),
                None => None,
            },
        }
    }
}

impl View for ParseError {
    type V = SpecError;

    open spec fn view(&self) -> SpecError {
        match self {
            ParseError::UnexpectedCharacter => SpecError::UnexpectedCharacter,
            ParseError::ClosingTagMismatch { expected, found } => SpecError::ClosingTagMismatch {
                expected: expected@,
                found: found@,
            },
            ParseError::UnexpectedEndOfInput => SpecError::UnexpectedEndOfInput,
            ParseError::AttributeSyntaxError => SpecError::AttributeSyntaxError,
        }
    }
}

/// The id of an optional parent, at specification level.
pub open spec fn opt_id(p: Option<usize>) -> Option<int> {
    match p {
        Some(v) => Some(v as int),
        None => None,
    }
}

/// Specification-level view of one body item.
pub open spec fn view_body(b: Body) -> SpecBody
    decreases b,
{
    match b {
        Body::Text(s) => SpecBody::Text(s@),
        Body::Child(n) => SpecBody::Child(view_node(*n)),
    }
}

/// Specification-level view of the body items from index `i` on.
pub open spec fn view_bodies_from(bs: Seq<Body>, i: int) -> Seq<SpecBody>
    decreases bs, bs.len() - i,
{
    if i < 0 || i >= bs.len() {
        Seq::empty()
    } else {
        seq![view_body(bs[i])] + view_bodies_from(bs, i + 1)
    }
}

/// Specification-level view of a sequence of body items.
pub open spec fn view_bodies(bs: Seq<Body>) -> Seq<SpecBody> {
    view_bodies_from(bs, 0)
}

/// Specification-level view of a sequence of attributes.
pub open spec fn view_attrs(attrs: Seq<Attribute>) -> Seq<SpecAttribute> {
    attrs.map_values(|a: Attribute| a@)
}

/// Specification-level view of a node.
pub open spec fn view_node(n: Node) -> SpecNode
    decreases n,
{
    SpecNode {
        id: n.id as int,
        parent_id: opt_id(n.parent_id),
        name: n.name@,
        children: view_bodies_from(n.children@, 0),
        attributes: view_attrs(n.attributes@),
    }
}

pub proof fn lemma_view_bodies_from_len(bs: Seq<Body>, i: int)
    requires
        0 <= i <= bs.len(),
    ensures
        view_bodies_from(bs, i).len() == bs.len() - i,
        forall|j: int|
            0 <= j < bs.len() - i ==> #[trigger] view_bodies_from(bs, i)[j] == view_body(
                bs[i + j],
            ),
    decreases bs.len() - i,
{
    if i < bs.len() {
        lemma_view_bodies_from_len(bs, i + 1);
        assert forall|j: int| 0 <= j < bs.len() - i implies #[trigger] view_bodies_from(bs, i)[j]
            == view_body(bs[i + j]) by {
            if j > 0 {
                assert(view_bodies_from(bs, i)[j] == view_bodies_from(bs, i + 1)[j - 1]);
            }
        }
    }
}

/// Appending a body item appends its view.
pub proof fn lemma_view_bodies_push(bs: Seq<Body>, b: Body)
    ensures
        view_bodies(bs.push(b)) == view_bodies(bs).push(view_body(b)),
{
    lemma_view_bodies_from_len(bs, 0);
    lemma_view_bodies_from_len(bs.push(b), 0);
    assert(view_bodies(bs.push(b)) =~= view_bodies(bs).push(view_body(b)));
}

/// Appending an attribute appends its view.
pub proof fn lemma_view_attrs_push(attrs: Seq<Attribute>, a: Attribute)
    ensures
        view_attrs(attrs.push(a)) == view_attrs(attrs).push(a@),
{
    assert(view_attrs(attrs.push(a)) =~= view_attrs(attrs).push(a@));
}

} // verus!

//! The document tree that the schema mappers read, and the parser that
//! builds it from text.

use vstd::prelude::*;

verus! {

/// The five kinds of node that a document tree is made of.
#[derive(Clone, Copy, Debug, PartialEq, Eq, Structural)]
pub enum NodeKind {
    Root,
    Element,
    ProcessingInstruction,
    Comment,
    Text,
}

/// One attribute of an element: its local name and its value.
#[derive(Debug, PartialEq, Eq)]
pub struct Attribute {
    pub name: String,
    pub value: String,
}

/// The mathematical value of an [`Attribute`].
pub ghost struct AttributeView {
    pub name: Seq<char>,
    pub value: Seq<char>,
}

impl View for Attribute {
    type V = AttributeView;

    open spec fn view(&self) -> AttributeView {
        AttributeView { name: self.name@, value: self.value@ }
    }
}

/// A node of a document tree with everything below it.
///
/// `tag` is the local name of an element and empty for any other node.
/// `text` is the content of a text or comment node; for an element it is
/// the content of its first child where that child is a text node.
#[derive(Debug, PartialEq, Eq)]
pub struct XmlNode {
    pub kind: NodeKind,
    pub tag: String,
    pub text: Option<String>,
    pub attributes: Vec<Attribute>,
    pub children: Vec<XmlNode>,
}

/// The mathematical value of an [`XmlNode`]: the same tree over sequences.
pub ghost struct XmlTree {
    pub kind: NodeKind,
    pub tag: Seq<char>,
    pub text: Option<Seq<char>>,
    pub attributes: Seq<AttributeView>,
    pub children: Seq<XmlTree>,
}

/// The tree that `node` stands for.
pub open spec fn tree_of(node: XmlNode) -> XmlTree
    decreases node, 1int,
{
    XmlTree {
        kind: node.kind,
        tag: node.tag@,
        text: match node.text {
            Some(t) => Some(t@),
            None => None,
        },
        attributes: Seq::new(node.attributes.len() as nat, |i: int| node.attributes[i]@),
        children: trees_of(node.children@),
    }
}

/// The trees that `nodes` stand for, in the same order.
pub open spec fn trees_of(nodes: Seq<XmlNode>) -> Seq<XmlTree>
    decreases nodes, 0int,
{
    if nodes.len() == 0 {
        Seq::empty()
    } else {
        trees_of(nodes.drop_last()).push(tree_of(nodes.last()))
    }
}

impl View for XmlNode {
    type V = XmlTree;

    open spec fn view(&self) -> XmlTree {
        tree_of(*self)
    }
}

/// The trees of a sequence of nodes are the views of the nodes, position
/// by position.
pub proof fn lemma_trees_of(nodes: Seq<XmlNode>)
    ensures
        trees_of(nodes).len() == nodes.len(),
        forall|i: int| 0 <= i < nodes.len() ==> #[trigger] trees_of(nodes)[i] == nodes[i]@,
    decreases nodes.len(),
{
    if nodes.len() > 0 {
        lemma_trees_of(nodes.drop_last());
    }
}

/// The view of a node holds the views of its attributes and of its
/// children, position by position.
pub proof fn lemma_view_parts(node: &XmlNode)
    ensures
        node@.kind == node.kind,
        node@.tag == node.tag@,
        node@.attributes.len() == node.attributes.len(),
        node@.children.len() == node.children.len(),
        forall|i: int|
            0 <= i < node.attributes.len() ==> #[trigger] node@.attributes[i]
                == node.attributes[i]@,
        forall|i: int|
            0 <= i < node.children.len() ==> #[trigger] node@.children[i] == node.children[i]@,
{
    lemma_trees_of(node.children@);
}

/// The root element of the document that `roxmltree` reads from `text`, or
/// `None` where it rejects `text`.
pub uninterp spec fn xml_document(text: Seq<char>) -> Option<XmlTree>;

/// A node of a `roxmltree` document, as a value that is only passed on.
#[verifier::external_type_specification]
#[verifier::external_body]
pub struct ExNode<'a, 'input: 'a>(roxmltree::Node<'a, 'input>);

/// Copies a node of a `roxmltree` document, with its subtree, into an
/// [`XmlNode`]: `Node::node_type` gives the kind, `Node::tag_name` the
/// local name, `Node::text` the text, `Node::attributes` the local name and
/// the value of each attribute, and `Node::children` the children, all in
/// document order.
#[verifier::external_body]
fn node_from(node: roxmltree::Node) -> XmlNode {
    XmlNode {
        kind: match node.node_type() {
            roxmltree::NodeType::Root => NodeKind::Root,
            roxmltree::NodeType::Element => NodeKind::Element,
            roxmltree::NodeType::PI => NodeKind::ProcessingInstruction,
            roxmltree::NodeType::Comment => NodeKind::Comment,
            roxmltree::NodeType::Text => NodeKind::Text,
        },
        tag: node.tag_name().name().to_owned(),
        text: node.text().map(str::to_owned),
        attributes: node.attributes().map(
            |a| Attribute { name: a.name().to_owned(), value: a.value().to_owned() },
        ).collect(),
        children: node.children().map(node_from).collect(),
    }
}

/// Calls `roxmltree::Document::parse` on `text` and copies the root element
/// of the document it returns. The contract claims only that the outcome is
/// a function of `text`, which it names `xml_document`.
#[verifier::external_body]
fn parse_document(text: &str) -> (r: Option<XmlNode>)
    ensures
        match r {
            Some(node) => xml_document(text@) == Some(node@),
            None => xml_document(text@) is None,
        },
{
    match roxmltree::Document::parse(text) {
        Ok(document) => Some(node_from(document.root_element())),
        Err(_) => None,
    }
}

impl XmlNode {
    /// Parses `text` as an XML document and returns its root element.
    pub fn parse(text: &str) -> (r: Option<XmlNode>)
        ensures
            match r {
                Some(node) => xml_document(text@) == Some(node@),
                None => xml_document(text@) is None,
            },
    {
        parse_document(text)
    }
}

} // verus!

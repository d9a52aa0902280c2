//! The parsed form of a format string: an ordered tree of nodes.

use vstd::prelude::*;

verus! {

/// A token of a group's style span: a literal keyword (for example `"bold"`)
/// or a `$name` reference into the style resolver.
#[derive(Debug, Clone, PartialEq, Eq)]
pub enum StyleToken {
    Keyword(String),
    Variable(String),
}

/// Ghost model of a style token.
pub enum TokenView {
    Keyword(Seq<char>),
    Variable(Seq<char>),
}

impl DeepView for StyleToken {
    type V = TokenView;

    open spec fn deep_view(&self) -> TokenView {
        match self {
            StyleToken::Keyword(k) => TokenView::Keyword(k@),
            StyleToken::Variable(n) => TokenView::Variable(n@),
        }
    }
}

/// A node of the parsed template tree.
pub enum Node {
    /// Verbatim output text, escapes already resolved.
    Literal(String),
    /// A `$name` reference, resolved through the meta resolver first and the
    /// value resolver second.
    Variable(String),
    /// A `[display](style)` construct: its display span is rendered with the
    /// resolved style, and the whole group is elided when it references at
    /// least one variable and none of them resolves.
    Group { display: Vec<Node>, style: Vec<StyleToken> },
    /// A bare `(display)` construct: unstyled, elided under the same rule as
    /// a styled group.
    Conditional(Vec<Node>),
}

/// Ghost model of a node.
pub enum NodeView {
    Literal(Seq<char>),
    Variable(Seq<char>),
    Group { display: Seq<NodeView>, style: Seq<TokenView> },
    Conditional(Seq<NodeView>),
}

/// Ghost model of a sequence of style tokens.
pub open spec fn tokens_view(tokens: Seq<StyleToken>) -> Seq<TokenView> {
    tokens.map_values(|t: StyleToken| t.deep_view())
}

/// Ghost model of a node.
pub open spec fn node_view(n: Node) -> NodeView
    decreases n,
{
    match n {
        Node::Literal(t) => NodeView::Literal(t@),
        Node::Variable(name) => NodeView::Variable(name@),
        Node::Group { display, style } => NodeView::Group {
            display: nodes_view(display@),
            style: tokens_view(style@),
        },
        Node::Conditional(inner) => NodeView::Conditional(nodes_view(inner@)),
    }
}

/// Ghost model of a sequence of nodes.
pub open spec fn nodes_view(nodes: Seq<Node>) -> Seq<NodeView>
    decreases nodes,
{
    if nodes.len() == 0 {
        Seq::empty()
    } else {
        seq![node_view(nodes[0])] + nodes_view(nodes.drop_first())
    }
}

/// The size of a node: one for the node itself plus the sizes of a group's
/// display children.  Serves as a termination measure for the evaluator.
pub open spec fn node_size(n: NodeView) -> nat
    decreases n,
{
    match n {
        NodeView::Literal(_) => 1,
        NodeView::Variable(_) => 1,
        NodeView::Group { display, style } => 1 + nodes_size(display),
        NodeView::Conditional(inner) => 1 + nodes_size(inner),
    }
}

/// The total size of a sequence of nodes.
pub open spec fn nodes_size(nodes: Seq<NodeView>) -> nat
    decreases nodes,
{
    if nodes.len() == 0 {
        0
    } else {
        node_size(nodes[0]) + nodes_size(nodes.drop_first())
    }
}

/// `nodes_view` preserves length.
pub proof fn lemma_nodes_view_len(v: Seq<Node>)
    ensures
        nodes_view(v).len() == v.len(),
    decreases v.len(),
{
    if v.len() > 0 {
        lemma_nodes_view_len(v.drop_first());
    }
}

/// `nodes_view` maps each node to its view.
pub proof fn lemma_nodes_view_index(v: Seq<Node>, k: int)
    requires
        0 <= k < v.len(),
    ensures
        nodes_view(v).len() == v.len(),
        nodes_view(v)[k] == node_view(v[k]),
    decreases k,
{
    lemma_nodes_view_len(v);
    if k > 0 {
        lemma_nodes_view_index(v.drop_first(), k - 1);
        assert(v.drop_first()[k - 1] == v[k]);
    }
}

} // verus!

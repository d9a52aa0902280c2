//! The engine's public face: parse a format string once, register the
//! resolver tables, and render an ordered segment sequence.
//!
//! Value resolution may be asynchronous on the caller's side: the caller
//! asks for `variable_names`, resolves them however it likes (awaiting a
//! whole batch at once, in any order), hands the outcomes in as a value
//! table, and only then runs the synchronous walk.  The output depends
//! only on the parsed tree and the tables, never on the order in which
//! the lookups completed.

use vstd::prelude::*;
use crate::ast::{Node, NodeView, node_size, node_view, nodes_size, nodes_view};
use crate::ast::{lemma_nodes_view_index, lemma_nodes_view_len};
use crate::eval::{
    eval_tree, lemma_node_size_pos, parts_view, render_nodes, EvalErrView, EvalError,
};
use crate::parser::{parse_chars, parse_spec, ParseError};
use crate::resolve::{ResolvedValue, ResolverTable, TableView};
use crate::segment::{SegView, Segment};
use crate::text::chars_of;

verus! {

/// The variables a single node's display content references, in source
/// order.
pub open spec fn node_variables(n: NodeView) -> Seq<Seq<char>>
    decreases node_size(n), 0int,
{
    match n {
        NodeView::Literal(_) => Seq::empty(),
        NodeView::Variable(name) => seq![name],
        NodeView::Group { display, style } => variables_of(display),
        NodeView::Conditional(inner) => variables_of(inner),
    }
}

/// The variables a tree's display spans reference, in source order.
/// Style-span variables are not included: they are resolved synchronously
/// through the style table.
pub open spec fn variables_of(nodes: Seq<NodeView>) -> Seq<Seq<char>>
    decreases nodes_size(nodes), 1int,
    via variables_of_decreases
{
    if nodes.len() == 0 {
        Seq::empty()
    } else {
        node_variables(nodes[0]) + variables_of(nodes.drop_first())
    }
}

#[via_fn]
proof fn variables_of_decreases(nodes: Seq<NodeView>) {
    if nodes.len() > 0 {
        lemma_node_size_pos(nodes[0]);
    }
}

/// Ghost model of a formatter: the parsed tree and the registered tables.
pub struct FormatterView {
    pub nodes: Seq<NodeView>,
    pub table: TableView,
}

/// A parsed format string together with the registered resolver tables.
pub struct StringFormatter {
    nodes: Vec<Node>,
    table: ResolverTable,
}

impl View for StringFormatter {
    type V = FormatterView;

    closed spec fn view(&self) -> FormatterView {
        FormatterView { nodes: nodes_view(self.nodes@), table: self.table@ }
    }
}

impl StringFormatter {
    /// Parse `format`.  On success the formatter holds the parsed tree and
    /// empty tables; on failure the structured parse error comes back.
    pub fn new(format: &str) -> (r: Result<StringFormatter, ParseError>)
        ensures
            match r {
                Ok(f) => {
                    &&& parse_spec(format@) == Ok::<Seq<NodeView>, ParseError>(f@.nodes)
                    &&& f@.table == ResolverTable::new_view()
                },
                Err(e) => parse_spec(format@) == Err::<Seq<NodeView>, ParseError>(e),
            },
    {
        let cs = chars_of(format);
        match parse_chars(&cs) {
            Ok(nodes) => Ok(StringFormatter { nodes, table: ResolverTable::new() }),
            Err(e) => Err(e),
        }
    }

    /// Register the meta table: names substituted verbatim, unstyled,
    /// before the value table is consulted.
    pub fn map_meta(self, entries: Vec<(String, String)>) -> (r: StringFormatter)
        ensures
            r@.nodes == self@.nodes,
            r@.table.meta == entries@.map_values(|p: (String, String)| (p.0@, p.1@)),
            r@.table.styles == self@.table.styles,
            r@.table.values == self@.table.values,
    {
        StringFormatter {
            nodes: self.nodes,
            table: ResolverTable {
                meta: entries,
                styles: self.table.styles,
                values: self.table.values,
            },
        }
    }

    /// Register the style table: what each `$name` in a style span stands
    /// for, or the error that resolving it reports.
    pub fn map_style(self, entries: Vec<(String, Result<String, String>)>) -> (r: StringFormatter)
        ensures
            r@.nodes == self@.nodes,
            r@.table.meta == self@.table.meta,
            r@.table.styles == entries@.map_values(
                |p: (String, Result<String, String>)|
                    (
                        p.0@,
                        match p.1 {
                            Ok(s) => Ok::<Seq<char>, Seq<char>>(s@),
                            Err(m) => Err::<Seq<char>, Seq<char>>(m@),
                        },
                    ),
            ),
            r@.table.values == self@.table.values,
    {
        StringFormatter {
            nodes: self.nodes,
            table: ResolverTable {
                meta: self.table.meta,
                styles: entries,
                values: self.table.values,
            },
        }
    }

    /// Register the value table: what each content variable resolved to.
    pub fn map(self, entries: Vec<(String, ResolvedValue)>) -> (r: StringFormatter)
        ensures
            r@.nodes == self@.nodes,
            r@.table.meta == self@.table.meta,
            r@.table.styles == self@.table.styles,
            r@.table.values == entries@.map_values(
                |p: (String, ResolvedValue)| (p.0@, p.1.deep_view()),
            ),
    {
        StringFormatter {
            nodes: self.nodes,
            table: ResolverTable {
                meta: self.table.meta,
                styles: self.table.styles,
                values: entries,
            },
        }
    }

    /// The variables the display spans reference, in source order: the
    /// names a caller must resolve (asynchronously if it likes) before the
    /// synchronous walk.
    pub fn variable_names(&self) -> (r: Vec<String>)
        ensures
            parts_view(r@) == variables_of(self@.nodes),
    {
        proof {
            assert(nodes_view(self.nodes@).skip(0) =~= nodes_view(self.nodes@));
        }
        variables_from(&self.nodes, 0)
    }

    /// Run the synchronous walk: evaluate the tree against the registered
    /// tables and return the ordered segments, or the first resolver
    /// failure.
    pub fn parse(&self) -> (r: Result<Vec<Segment>, EvalError>)
        ensures
            match r {
                Ok(segs) => render_nodes(self@.nodes, self@.table) == Ok::<
                    Seq<SegView>,
                    EvalErrView,
                >(segs.deep_view()),
                Err(e) => render_nodes(self@.nodes, self@.table) == Err::<
                    Seq<SegView>,
                    EvalErrView,
                >(e.deep_view()),
            },
    {
        eval_tree(&self.nodes, &self.table)
    }
}

impl ResolverTable {
    /// The view of a freshly made table.
    pub open spec fn new_view() -> TableView {
        TableView {
            meta: Seq::empty(),
            styles: Seq::empty(),
            values: Seq::empty(),
        }
    }
}

/// The executable variable walk for one node.
fn node_variables_exec(n: &Node) -> (r: Vec<String>)
    ensures
        parts_view(r@) == node_variables(node_view(*n)),
    decreases node_size(node_view(*n)), 0int,
{
    match n {
        Node::Literal(_) => {
            let r: Vec<String> = Vec::new();
            proof {
                assert(parts_view(r@) =~= Seq::<Seq<char>>::empty());
            }
            r
        },
        Node::Variable(name) => {
            let mut r: Vec<String> = Vec::new();
            r.push(name.clone());
            proof {
                assert(parts_view(r@) =~= seq![name@]);
            }
            r
        },
        Node::Group { display, style } => {
            proof {
                assert(nodes_view(display@).skip(0) =~= nodes_view(display@));
            }
            variables_from(display, 0)
        },
        Node::Conditional(inner) => {
            proof {
                assert(nodes_view(inner@).skip(0) =~= nodes_view(inner@));
            }
            variables_from(inner, 0)
        },
    }
}

/// The executable variable walk for the nodes from index `i` on.
fn variables_from(nodes: &Vec<Node>, i: usize) -> (r: Vec<String>)
    requires
        i <= nodes@.len(),
    ensures
        parts_view(r@) == variables_of(nodes_view(nodes@).skip(i as int)),
    decreases nodes_size(nodes_view(nodes@).skip(i as int)), 1int,
{
    let ghost nv = nodes_view(nodes@);
    proof {
        lemma_nodes_view_len(nodes@);
    }
    if i >= nodes.len() {
        let r: Vec<String> = Vec::new();
        proof {
            assert(nv.skip(i as int).len() == 0);
            assert(parts_view(r@) =~= Seq::<Seq<char>>::empty());
        }
        return r;
    }
    proof {
        lemma_nodes_view_index(nodes@, i as int);
        assert(nv.skip(i as int)[0] == node_view(nodes@[i as int]));
        assert(nv.skip(i as int).drop_first() =~= nv.skip(i as int + 1));
        lemma_node_size_pos(nv.skip(i as int)[0]);
    }
    let mut head = node_variables_exec(&nodes[i]);
    let ghost hv = head@;
    let mut rest = variables_from(nodes, i + 1);
    let ghost rv = rest@;
    head.append(&mut rest);
    proof {
        assert(parts_view(head@) =~= parts_view(hv) + parts_view(rv));
    }
    head
}

} // verus!

verus! {

/// Why a whole render failed: both format strings failed to parse (the
/// fallback's error is carried), or evaluation reported a failure.
#[derive(Debug, Clone, PartialEq, Eq)]
pub enum FormatterError {
    Parse(ParseError),
    Eval(EvalError),
}

/// Ghost model of a render failure.
pub enum FormatterErrView {
    Parse(ParseError),
    Eval(EvalErrView),
}

impl DeepView for FormatterError {
    type V = FormatterErrView;

    open spec fn deep_view(&self) -> FormatterErrView {
        match self {
            FormatterError::Parse(e) => FormatterErrView::Parse(*e),
            FormatterError::Eval(e) => FormatterErrView::Eval(e.deep_view()),
        }
    }
}

/// What rendering with a fallback yields: the primary format's tree if it
/// parses, else the fallback's tree, evaluated against the tables; when
/// both fail to parse, the fallback's parse error.
pub open spec fn render_spec(primary: Seq<char>, fallback: Seq<char>, t: TableView) -> Result<
    Seq<SegView>,
    FormatterErrView,
> {
    match parse_spec(primary) {
        Ok(nodes) => match render_nodes(nodes, t) {
            Ok(s) => Ok(s),
            Err(e) => Err(FormatterErrView::Eval(e)),
        },
        Err(_) => match parse_spec(fallback) {
            Ok(nodes) => match render_nodes(nodes, t) {
                Ok(s) => Ok(s),
                Err(e) => Err(FormatterErrView::Eval(e)),
            },
            Err(e2) => Err(FormatterErrView::Parse(e2)),
        },
    }
}

/// Render `primary` against the tables; if it fails to parse, render the
/// caller-supplied `fallback` instead.  A parse failure of both formats or
/// an evaluation failure comes back as the structured error.
pub fn render_with_fallback(primary: &str, fallback: &str, table: &ResolverTable) -> (r: Result<
    Vec<Segment>,
    FormatterError,
>)
    ensures
        match r {
            Ok(segs) => render_spec(primary@, fallback@, table@) == Ok::<
                Seq<SegView>,
                FormatterErrView,
            >(segs.deep_view()),
            Err(e) => render_spec(primary@, fallback@, table@) == Err::<
                Seq<SegView>,
                FormatterErrView,
            >(e.deep_view()),
        },
{
    let cs = chars_of(primary);
    match parse_chars(&cs) {
        Ok(nodes) => {
            match eval_tree(&nodes, table) {
                Ok(segs) => Ok(segs),
                Err(e) => Err(FormatterError::Eval(e)),
            }
        },
        Err(_) => {
            let ds = chars_of(fallback);
            match parse_chars(&ds) {
                Ok(nodes) => {
                    match eval_tree(&nodes, table) {
                        Ok(segs) => Ok(segs),
                        Err(e) => Err(FormatterError::Eval(e)),
                    }
                },
                Err(e2) => Err(FormatterError::Parse(e2)),
            }
        },
    }
}

} // verus!

//! Evaluator: a depth-first, left-to-right walk of the parsed tree that
//! produces the ordered segment sequence.
//!
//! A variable consults the meta table first and the value table second; an
//! absent value contributes no text but is recorded as an unresolved
//! reference.  A group buffers the segments of its display span; when the
//! span references at least one variable and none of them resolved, the
//! whole group is elided.  A kept styled group resolves its style span and
//! applies the result to every buffered segment that carries no more
//! specific style of its own.  A resolver that reports an explicit failure
//! aborts the whole evaluation.

use vstd::prelude::*;
use crate::ast::{NodeView, TokenView, node_size, nodes_size};
use crate::segment::{Segment, SegView};
use crate::resolve::{assoc, TableView, ValueView};

verus! {

/// An evaluation failure: a resolver reported an explicit error for a name.
#[derive(Debug, Clone, PartialEq, Eq)]
pub enum EvalError {
    /// The value resolver failed for this variable.
    Value { name: String, message: String },
    /// The style resolver failed for this style variable.
    Style { name: String, message: String },
}

/// Ghost model of an evaluation failure.
pub enum EvalErrView {
    Value { name: Seq<char>, message: Seq<char> },
    Style { name: Seq<char>, message: Seq<char> },
}

impl DeepView for EvalError {
    type V = EvalErrView;

    open spec fn deep_view(&self) -> EvalErrView {
        match self {
            EvalError::Value { name, message } => EvalErrView::Value {
                name: name@,
                message: message@,
            },
            EvalError::Style { name, message } => EvalErrView::Style {
                name: name@,
                message: message@,
            },
        }
    }
}

impl EvalError {
    /// The failing variable's name.
    pub fn name(&self) -> (r: &String)
        ensures
            self.deep_view() matches EvalErrView::Value { name, .. } ==> r@ == name,
            self.deep_view() matches EvalErrView::Style { name, .. } ==> r@ == name,
    {
        match self {
            EvalError::Value { name, .. } => name,
            EvalError::Style { name, .. } => name,
        }
    }

    /// The resolver's message.
    pub fn message(&self) -> (r: &String)
        ensures
            self.deep_view() matches EvalErrView::Value { message, .. } ==> r@ == message,
            self.deep_view() matches EvalErrView::Style { message, .. } ==> r@ == message,
    {
        match self {
            EvalError::Value { message, .. } => message,
            EvalError::Style { message, .. } => message,
        }
    }
}

/// Resolve a style span's tokens, in order, to the style pieces they
/// contribute: a keyword passes through, a variable is looked up in the
/// style table (an unknown name contributes nothing, an explicit failure
/// aborts).  Empty pieces are dropped.
pub open spec fn resolve_style_parts(tokens: Seq<TokenView>, t: TableView) -> Result<
    Seq<Seq<char>>,
    EvalErrView,
>
    decreases tokens.len(),
{
    if tokens.len() == 0 {
        Ok(Seq::empty())
    } else {
        match tokens[0] {
            TokenView::Keyword(k) => match resolve_style_parts(tokens.drop_first(), t) {
                Ok(ps) => Ok(if k.len() > 0 {
                    seq![k] + ps
                } else {
                    ps
                }),
                Err(e) => Err(e),
            },
            TokenView::Variable(name) => match assoc(t.styles, name) {
                Option::None => resolve_style_parts(tokens.drop_first(), t),
                Option::Some(Ok(sv)) => match resolve_style_parts(tokens.drop_first(), t) {
                    Ok(ps) => Ok(if sv.len() > 0 {
                        seq![sv] + ps
                    } else {
                        ps
                    }),
                    Err(e) => Err(e),
                },
                Option::Some(Err(m)) => Err(EvalErrView::Style { name, message: m }),
            },
        }
    }
}

/// Join style pieces with single spaces.
pub open spec fn join_parts(parts: Seq<Seq<char>>) -> Seq<char>
    decreases parts.len(),
{
    if parts.len() == 0 {
        Seq::empty()
    } else if parts.len() == 1 {
        parts[0]
    } else {
        parts[0] + seq![' '] + join_parts(parts.drop_first())
    }
}

/// A style span resolved to one optional style expression: `None` when no
/// token contributed anything.
pub open spec fn resolve_style(tokens: Seq<TokenView>, t: TableView) -> Result<
    Option<Seq<char>>,
    EvalErrView,
> {
    match resolve_style_parts(tokens, t) {
        Ok(parts) => Ok(
            if parts.len() == 0 {
                Option::None
            } else {
                Option::Some(join_parts(parts))
            },
        ),
        Err(e) => Err(e),
    }
}

/// Give every segment that carries no style of its own the group's style.
pub open spec fn apply_style(segs: Seq<SegView>, st: Option<Seq<char>>) -> Seq<SegView> {
    match st {
        Option::None => segs,
        Option::Some(sv) => segs.map_values(
            |g: SegView|
                SegView {
                    text: g.text,
                    style: if g.style is None {
                        Option::Some(sv)
                    } else {
                        g.style
                    },
                },
        ),
    }
}

/// Evaluate one node: the buffered segments, whether the node contains a
/// variable reference, and whether any such reference resolved.  An elided
/// group reports itself as one unresolved reference; a kept group passes
/// its own counts through.
pub open spec fn eval_node(n: NodeView, t: TableView) -> Result<
    (Seq<SegView>, bool, bool),
    EvalErrView,
>
    decreases node_size(n), 0int,
{
    match n {
        NodeView::Literal(text) => Ok(
            (seq![SegView { text, style: Option::None }], false, false),
        ),
        NodeView::Variable(name) => match assoc(t.meta, name) {
            Option::Some(txt) => Ok(
                (seq![SegView { text: txt, style: Option::None }], true, true),
            ),
            Option::None => match assoc(t.values, name) {
                Option::None => Ok((Seq::empty(), true, false)),
                Option::Some(ValueView::Absent) => Ok((Seq::empty(), true, false)),
                Option::Some(ValueView::Text(txt)) => Ok(
                    (seq![SegView { text: txt, style: Option::None }], true, true),
                ),
                Option::Some(ValueView::Failure(m)) => Err(
                    EvalErrView::Value { name, message: m },
                ),
            },
        },
        NodeView::Conditional(inner) => match eval_nodes(inner, t) {
            Err(e) => Err(e),
            Ok((segs, has_ref, any_res)) => if has_ref && !any_res {
                Ok((Seq::empty(), true, false))
            } else {
                Ok((segs, has_ref, any_res))
            },
        },
        NodeView::Group { display, style } => match eval_nodes(display, t) {
            Err(e) => Err(e),
            Ok((segs, has_ref, any_res)) => if has_ref && !any_res {
                Ok((Seq::empty(), true, false))
            } else {
                match resolve_style(style, t) {
                    Err(e) => Err(e),
                    Ok(st) => Ok((apply_style(segs, st), has_ref, any_res)),
                }
            },
        },
    }
}

/// Evaluate a sequence of nodes left to right, concatenating their
/// segments; the first failure aborts.
pub open spec fn eval_nodes(nodes: Seq<NodeView>, t: TableView) -> Result<
    (Seq<SegView>, bool, bool),
    EvalErrView,
>
    decreases nodes_size(nodes), 1int,
    via eval_nodes_decreases
{
    if nodes.len() == 0 {
        Ok((Seq::empty(), false, false))
    } else {
        match eval_node(nodes[0], t) {
            Err(e) => Err(e),
            Ok((s0, r0, a0)) => match eval_nodes(nodes.drop_first(), t) {
                Err(e) => Err(e),
                Ok((s1, r1, a1)) => Ok((s0 + s1, r0 || r1, a0 || a1)),
            },
        }
    }
}

/// Every node has size at least one.
pub proof fn lemma_node_size_pos(n: NodeView)
    ensures
        node_size(n) >= 1,
{
    match n {
        NodeView::Literal(_) => {},
        NodeView::Variable(_) => {},
        NodeView::Group { display, style } => {},
        NodeView::Conditional(_) => {},
    }
}

#[via_fn]
proof fn eval_nodes_decreases(nodes: Seq<NodeView>, t: TableView) {
    if nodes.len() > 0 {
        lemma_node_size_pos(nodes[0]);
    }
}

/// What rendering a parsed tree yields: its segment sequence.
pub open spec fn render_nodes(nodes: Seq<NodeView>, t: TableView) -> Result<
    Seq<SegView>,
    EvalErrView,
> {
    match eval_nodes(nodes, t) {
        Ok((segs, has_ref, any_res)) => Ok(segs),
        Err(e) => Err(e),
    }
}

} // verus!

// ---------------------------------------------------------------------------
// The executable evaluator.  Each function mirrors the spec function of the
// same name and is proved to return exactly what it describes.
// ---------------------------------------------------------------------------

use crate::ast::{Node, StyleToken, node_view, nodes_view, tokens_view};
use crate::ast::{lemma_nodes_view_index, lemma_nodes_view_len};
use crate::resolve::{lookup_meta, lookup_style, lookup_value, ResolvedValue, ResolverTable};

verus! {

/// The character-sequence views of a list of style pieces.
pub open spec fn parts_view(parts: Seq<String>) -> Seq<Seq<char>> {
    parts.map_values(|p: String| p@)
}

/// The view of an optional style expression.
pub open spec fn opt_str_view(o: Option<String>) -> Option<Seq<char>> {
    match o {
        Option::Some(s) => Option::Some(s@),
        Option::None => Option::None,
    }
}

/// The executable style-token resolver, over the tokens from index `i` on.
fn resolve_style_parts_exec(tokens: &Vec<StyleToken>, i: usize, t: &ResolverTable) -> (r: Result<
    Vec<String>,
    EvalError,
>)
    requires
        i <= tokens@.len(),
    ensures
        match r {
            Ok(parts) => resolve_style_parts(tokens_view(tokens@).skip(i as int), t@) == Ok::<
                Seq<Seq<char>>,
                EvalErrView,
            >(parts_view(parts@)),
            Err(e) => resolve_style_parts(tokens_view(tokens@).skip(i as int), t@) == Err::<
                Seq<Seq<char>>,
                EvalErrView,
            >(e.deep_view()),
        },
    decreases tokens@.len() - i,
{
    let ghost tv = tokens_view(tokens@);
    if i >= tokens.len() {
        proof {
            assert(tv.skip(i as int).len() == 0);
            assert(parts_view(Seq::<String>::empty()) =~= Seq::<Seq<char>>::empty());
        }
        return Ok(Vec::new());
    }
    proof {
        assert(tv.skip(i as int)[0] == tv[i as int]);
        assert(tv.skip(i as int).drop_first() =~= tv.skip(i as int + 1));
    }
    let piece: Option<String> = match &tokens[i] {
        StyleToken::Keyword(k) => Option::Some(k.clone()),
        StyleToken::Variable(name) => {
            match lookup_style(t, name) {
                Option::None => Option::None,
                Option::Some(Ok(sv)) => Option::Some(sv),
                Option::Some(Err(m)) => {
                    return Err(EvalError::Style { name: name.clone(), message: m });
                },
            }
        },
    };
    match resolve_style_parts_exec(tokens, i + 1, t) {
        Err(e) => Err(e),
        Ok(rest) => {
            match piece {
                Option::None => Ok(rest),
                Option::Some(p) => {
                    if p.as_str().unicode_len() == 0 {
                        Ok(rest)
                    } else {
                        let mut out: Vec<String> = Vec::new();
                        let ghost pv = p@;
                        out.push(p);
                        let mut r2 = rest;
                        let ghost rv = r2@;
                        out.append(&mut r2);
                        proof {
                            assert(parts_view(out@) =~= seq![pv] + parts_view(rv));
                        }
                        Ok(out)
                    }
                },
            }
        },
    }
}

/// The executable style-piece joiner, over the pieces from index `i` on.
fn join_from(parts: &Vec<String>, i: usize) -> (r: String)
    requires
        i <= parts@.len(),
    ensures
        r@ == join_parts(parts_view(parts@).skip(i as int)),
    decreases parts@.len() - i,
{
    if i >= parts.len() {
        proof {
            assert(parts_view(parts@).skip(i as int).len() == 0);
        }
        String::new()
    } else if i + 1 == parts.len() {
        proof {
            assert(parts_view(parts@).skip(i as int).len() == 1);
            assert(parts_view(parts@).skip(i as int)[0] == parts@[i as int]@);
        }
        parts[i].clone()
    } else {
        let mut x = parts[i].clone();
        x.append(" ");
        let rest = join_from(parts, i + 1);
        let out = x.concat(rest.as_str());
        proof {
            reveal_strlit(" ");
            assert(" "@ =~= seq![' ']);
            let ghost pv = parts_view(parts@);
            assert(pv.skip(i as int)[0] == parts@[i as int]@);
            assert(pv.skip(i as int).drop_first() =~= pv.skip(i as int + 1));
        }
        out
    }
}

/// The executable style-span resolver.
fn resolve_style_exec(tokens: &Vec<StyleToken>, t: &ResolverTable) -> (r: Result<
    Option<String>,
    EvalError,
>)
    ensures
        match r {
            Ok(st) => resolve_style(tokens_view(tokens@), t@) == Ok::<
                Option<Seq<char>>,
                EvalErrView,
            >(opt_str_view(st)),
            Err(e) => resolve_style(tokens_view(tokens@), t@) == Err::<
                Option<Seq<char>>,
                EvalErrView,
            >(e.deep_view()),
        },
{
    proof {
        assert(tokens_view(tokens@).skip(0) =~= tokens_view(tokens@));
    }
    match resolve_style_parts_exec(tokens, 0, t) {
        Err(e) => Err(e),
        Ok(parts) => {
            if parts.len() == 0 {
                proof {
                    assert(parts_view(parts@).len() == 0);
                }
                Ok(Option::None)
            } else {
                proof {
                    assert(parts_view(parts@).skip(0) =~= parts_view(parts@));
                }
                let joined = join_from(&parts, 0);
                Ok(Option::Some(joined))
            }
        },
    }
}

/// The executable style application.
fn apply_style_exec(segs: Vec<Segment>, st: &Option<String>) -> (r: Vec<Segment>)
    ensures
        r.deep_view() == apply_style(segs.deep_view(), opt_str_view(*st)),
{
    match st {
        Option::None => segs,
        Option::Some(sv) => {
            let ghost dv = segs.deep_view();
            let n = segs.len();
            let mut out: Vec<Segment> = Vec::new();
            let mut k: usize = 0;
            while k < n
                invariant
                    n == segs@.len(),
                    dv == segs.deep_view(),
                    dv.len() == n,
                    k <= n,
                    out.deep_view().len() == k,
                    forall|j: int|
                        0 <= j < k ==> out.deep_view()[j] == (SegView {
                            text: dv[j].text,
                            style: if dv[j].style is None {
                                Option::Some(sv@)
                            } else {
                                dv[j].style
                            },
                        }),
                decreases n - k,
            {
                let seg = &segs[k];
                let style = match &seg.style {
                    Option::None => Option::Some(sv.clone()),
                    Option::Some(x) => Option::Some(x.clone()),
                };
                let newseg = Segment { text: seg.text.clone(), style };
                let ghost nsv = newseg@;
                let ghost prev = out.deep_view();
                out.push(newseg);
                proof {
                    assert(dv[k as int] == segs@[k as int].deep_view());
                    assert(nsv == (SegView {
                        text: dv[k as int].text,
                        style: if dv[k as int].style is None {
                            Option::Some(sv@)
                        } else {
                            dv[k as int].style
                        },
                    }));
                    assert forall|j: int| 0 <= j < k + 1 implies #[trigger] out.deep_view()[j]
                        == (SegView {
                        text: dv[j].text,
                        style: if dv[j].style is None {
                            Option::Some(sv@)
                        } else {
                            dv[j].style
                        },
                    }) by {
                        assert(out.deep_view()[j] == out@[j].deep_view());
                        if j < k {
                            assert(out@[j].deep_view() == prev[j]);
                        } else {
                            assert(out@[j] == newseg);
                        }
                    }
                }
                k = k + 1;
            }
            proof {
                assert(out.deep_view() =~= apply_style(dv, Option::Some(sv@)));
            }
            out
        },
    }
}

/// The executable evaluator for one node.
fn eval_node_exec(n: &Node, t: &ResolverTable) -> (r: Result<(Vec<Segment>, bool, bool), EvalError>)
    ensures
        match r {
            Ok((segs, has_ref, any_res)) => eval_node(node_view(*n), t@) == Ok::<
                (Seq<SegView>, bool, bool),
                EvalErrView,
            >((segs.deep_view(), has_ref, any_res)),
            Err(e) => eval_node(node_view(*n), t@) == Err::<
                (Seq<SegView>, bool, bool),
                EvalErrView,
            >(e.deep_view()),
        },
    decreases node_size(node_view(*n)), 0int,
{
    match n {
        Node::Literal(text) => {
            let seg = Segment { text: text.clone(), style: Option::None };
            let mut out: Vec<Segment> = Vec::new();
            out.push(seg);
            proof {
                assert(out.deep_view() =~= seq![SegView { text: text@, style: Option::None }]);
            }
            Ok((out, false, false))
        },
        Node::Variable(name) => {
            match lookup_meta(t, name) {
                Option::Some(txt) => {
                    let ghost txtv = txt@;
                    let seg = Segment { text: txt, style: Option::None };
                    let mut out: Vec<Segment> = Vec::new();
                    out.push(seg);
                    proof {
                        assert(out.deep_view() =~= seq![
                            SegView { text: txtv, style: Option::None },
                        ]);
                    }
                    Ok((out, true, true))
                },
                Option::None => {
                    match lookup_value(t, name) {
                        Option::None => {
                            let empty: Vec<Segment> = Vec::new();
                            proof {
                                assert(empty.deep_view() =~= Seq::<SegView>::empty());
                            }
                            Ok((empty, true, false))
                        },
                        Option::Some(ResolvedValue::Absent) => {
                            let empty: Vec<Segment> = Vec::new();
                            proof {
                                assert(empty.deep_view() =~= Seq::<SegView>::empty());
                            }
                            Ok((empty, true, false))
                        },
                        Option::Some(ResolvedValue::Text(txt)) => {
                            let ghost txtv = txt@;
                            let seg = Segment { text: txt, style: Option::None };
                            let mut out: Vec<Segment> = Vec::new();
                            out.push(seg);
                            proof {
                                assert(out.deep_view() =~= seq![
                                    SegView { text: txtv, style: Option::None },
                                ]);
                            }
                            Ok((out, true, true))
                        },
                        Option::Some(ResolvedValue::Failure(m)) => Err(
                            EvalError::Value { name: name.clone(), message: m },
                        ),
                    }
                },
            }
        },
        Node::Conditional(inner) => {
            proof {
                assert(nodes_view(inner@).skip(0) =~= nodes_view(inner@));
            }
            match eval_nodes_exec(inner, 0, t) {
                Err(e) => Err(e),
                Ok((segs, has_ref, any_res)) => {
                    if has_ref && !any_res {
                        let empty: Vec<Segment> = Vec::new();
                        proof {
                            assert(empty.deep_view() =~= Seq::<SegView>::empty());
                        }
                        Ok((empty, true, false))
                    } else {
                        Ok((segs, has_ref, any_res))
                    }
                },
            }
        },
        Node::Group { display, style } => {
            proof {
                assert(nodes_view(display@).skip(0) =~= nodes_view(display@));
            }
            match eval_nodes_exec(display, 0, t) {
                Err(e) => Err(e),
                Ok((segs, has_ref, any_res)) => {
                    if has_ref && !any_res {
                        let empty: Vec<Segment> = Vec::new();
                        proof {
                            assert(empty.deep_view() =~= Seq::<SegView>::empty());
                        }
                        Ok((empty, true, false))
                    } else {
                        match resolve_style_exec(style, t) {
                            Err(e) => Err(e),
                            Ok(st) => {
                                let styled = apply_style_exec(segs, &st);
                                Ok((styled, has_ref, any_res))
                            },
                        }
                    }
                },
            }
        },
    }
}

/// The executable evaluator for the nodes from index `i` on.
fn eval_nodes_exec(nodes: &Vec<Node>, i: usize, t: &ResolverTable) -> (r: Result<
    (Vec<Segment>, bool, bool),
    EvalError,
>)
    requires
        i <= nodes@.len(),
    ensures
        match r {
            Ok((segs, has_ref, any_res)) => eval_nodes(nodes_view(nodes@).skip(i as int), t@)
                == Ok::<(Seq<SegView>, bool, bool), EvalErrView>(
                (segs.deep_view(), has_ref, any_res),
            ),
            Err(e) => eval_nodes(nodes_view(nodes@).skip(i as int), t@) == Err::<
                (Seq<SegView>, bool, bool),
                EvalErrView,
            >(e.deep_view()),
        },
    decreases nodes_size(nodes_view(nodes@).skip(i as int)), 1int,
{
    let ghost nv = nodes_view(nodes@);
    proof {
        lemma_nodes_view_len(nodes@);
    }
    if i >= nodes.len() {
        let empty: Vec<Segment> = Vec::new();
        proof {
            assert(nv.skip(i as int).len() == 0);
            assert(empty.deep_view() =~= Seq::<SegView>::empty());
        }
        return Ok((empty, false, false));
    }
    proof {
        lemma_nodes_view_index(nodes@, i as int);
        assert(nv.skip(i as int)[0] == node_view(nodes@[i as int]));
        assert(nv.skip(i as int).drop_first() =~= nv.skip(i as int + 1));
        lemma_node_size_pos(nv.skip(i as int)[0]);
    }
    match eval_node_exec(&nodes[i], t) {
        Err(e) => Err(e),
        Ok((s0, r0, a0)) => {
            match eval_nodes_exec(nodes, i + 1, t) {
                Err(e) => Err(e),
                Ok((s1, r1, a1)) => {
                    let mut out = s0;
                    let ghost v0 = out.deep_view();
                    let mut s1m = s1;
                    let ghost v1 = s1m.deep_view();
                    out.append(&mut s1m);
                    proof {
                        assert(out.deep_view() =~= v0 + v1);
                    }
                    Ok((out, r0 || r1, a0 || a1))
                },
            }
        },
    }
}

/// The executable renderer for a parsed tree.
pub(crate) fn eval_tree(nodes: &Vec<Node>, t: &ResolverTable) -> (r: Result<Vec<Segment>, EvalError>)
    ensures
        match r {
            Ok(segs) => render_nodes(nodes_view(nodes@), t@) == Ok::<Seq<SegView>, EvalErrView>(
                segs.deep_view(),
            ),
            Err(e) => render_nodes(nodes_view(nodes@), t@) == Err::<Seq<SegView>, EvalErrView>(
                e.deep_view(),
            ),
        },
{
    proof {
        assert(nodes_view(nodes@).skip(0) =~= nodes_view(nodes@));
    }
    match eval_nodes_exec(nodes, 0, t) {
        Ok((segs, _has_ref, _any_res)) => Ok(segs),
        Err(e) => Err(e),
    }
}

} // verus!

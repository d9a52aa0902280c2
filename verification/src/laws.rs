//! The engine's laws: what holds of every render, proved once and for all
//! over the evaluator's model.

use vstd::prelude::*;
use crate::ast::{node_size, nodes_size, NodeView, TokenView};
use crate::eval::{
    apply_style, eval_node, eval_nodes, lemma_node_size_pos, resolve_style, resolve_style_parts,
    EvalErrView,
};
use crate::resolve::{assoc, TableView, ValueView};
use crate::segment::{segs_text, SegView};

verus! {

// ---------------------------------------------------------------------------
// Determinism: the evaluator is a mathematical function of the tree and the
// tables, so re-running a render with identical resolver outputs yields an
// identical segment sequence.
// ---------------------------------------------------------------------------

/// Two renders of equal trees against equal tables are equal, segment for
/// segment.  Every executable render is pinned to `eval_nodes`, so this is
/// what makes a repeated render byte-identical.
pub proof fn lemma_render_deterministic(
    nodes1: Seq<NodeView>,
    nodes2: Seq<NodeView>,
    t1: TableView,
    t2: TableView,
)
    requires
        nodes1 == nodes2,
        t1 == t2,
    ensures
        eval_nodes(nodes1, t1) == eval_nodes(nodes2, t2),
{
}

// ---------------------------------------------------------------------------
// Splitting an evaluation: evaluating a concatenation is evaluating the two
// halves and combining them.
// ---------------------------------------------------------------------------

/// Evaluating `a + b` evaluates `a`, then `b`, concatenates the segments
/// and disjoins the reference flags; the first failure wins.
pub proof fn lemma_eval_nodes_append(a: Seq<NodeView>, b: Seq<NodeView>, t: TableView)
    ensures
        eval_nodes(a + b, t) == (match eval_nodes(a, t) {
            Err(e) => Err::<(Seq<SegView>, bool, bool), EvalErrView>(e),
            Ok((s0, r0, a0)) => match eval_nodes(b, t) {
                Err(e) => Err::<(Seq<SegView>, bool, bool), EvalErrView>(e),
                Ok((s1, r1, a1)) => Ok((s0 + s1, r0 || r1, a0 || a1)),
            },
        }),
    decreases a.len(),
{
    if a.len() == 0 {
        assert(a + b =~= b);
        match eval_nodes(b, t) {
            Ok((s1, r1, a1)) => {
                assert(Seq::<SegView>::empty() + s1 =~= s1);
            },
            Err(_) => {},
        }
    } else {
        assert((a + b)[0] == a[0]);
        assert((a + b).len() > 0);
        assert((a + b).drop_first() =~= a.drop_first() + b);
        lemma_eval_nodes_append(a.drop_first(), b, t);
        match eval_node(a[0], t) {
            Err(_) => {},
            Ok((s0, r0, a0)) => {
                match eval_nodes(a.drop_first(), t) {
                    Err(_) => {},
                    Ok((s0b, r0b, a0b)) => {
                        match eval_nodes(b, t) {
                            Err(_) => {},
                            Ok((s1, r1, a1)) => {
                                assert(s0 + (s0b + s1) =~= (s0 + s0b) + s1);
                            },
                        }
                    },
                }
            },
        }
    }
}

// ---------------------------------------------------------------------------
// Group elision: a group whose display span references variables and
// resolves none of them contributes nothing at all.
// ---------------------------------------------------------------------------

/// The variable resolves to text: through the meta table or a value entry.
pub open spec fn var_resolved(name: Seq<char>, t: TableView) -> bool {
    match assoc(t.meta, name) {
        Option::Some(_) => true,
        Option::None => match assoc(t.values, name) {
            Option::Some(ValueView::Text(_)) => true,
            _ => false,
        },
    }
}

/// The variable has no applicable value: no meta entry and no value, or an
/// explicitly absent one.
pub open spec fn var_absent(name: Seq<char>, t: TableView) -> bool {
    assoc(t.meta, name) is None && match assoc(t.values, name) {
        Option::None => true,
        Option::Some(ValueView::Absent) => true,
        _ => false,
    }
}

/// The resolver failed for the variable.
pub open spec fn var_failed(name: Seq<char>, t: TableView) -> bool {
    assoc(t.meta, name) is None && match assoc(t.values, name) {
        Option::Some(ValueView::Failure(_)) => true,
        _ => false,
    }
}

/// A display span of variables that all resolve to nothing evaluates to no
/// segments, with a reference seen and none resolved.
pub proof fn lemma_all_absent_nodes(display: Seq<NodeView>, t: TableView)
    requires
        forall|k: int|
            0 <= k < display.len() ==> (#[trigger] display[k] matches NodeView::Variable(name)
                && var_absent(name, t)),
    ensures
        eval_nodes(display, t) == Ok::<(Seq<SegView>, bool, bool), EvalErrView>(
            (Seq::empty(), display.len() > 0, false),
        ),
    decreases display.len(),
{
    if display.len() == 0 {
    } else {
        let d = display.drop_first();
        assert(display[0] matches NodeView::Variable(name) && var_absent(name, t));
        assert forall|k: int|
            0 <= k < d.len() implies (#[trigger] d[k] matches NodeView::Variable(name)
            && var_absent(name, t)) by {
            assert(d[k] == display[k + 1]);
        }
        lemma_all_absent_nodes(d, t);
        match display[0] {
            NodeView::Variable(name) => {
                assert(var_absent(name, t));
                assert(eval_node(display[0], t) == Ok::<(Seq<SegView>, bool, bool), EvalErrView>(
                    (Seq::empty(), true, false),
                ));
            },
            _ => {},
        }
        assert(Seq::<SegView>::empty() + Seq::<SegView>::empty() =~= Seq::<SegView>::empty());
    }
}

/// Group elision: a group containing only variable references, all of which
/// resolve to nothing, renders as nothing — its literal style span included.
pub proof fn lemma_group_elision(display: Seq<NodeView>, style: Seq<TokenView>, t: TableView)
    requires
        display.len() >= 1,
        forall|k: int|
            0 <= k < display.len() ==> (#[trigger] display[k] matches NodeView::Variable(name)
                && var_absent(name, t)),
    ensures
        eval_node(NodeView::Group { display, style }, t) == Ok::<
            (Seq<SegView>, bool, bool),
            EvalErrView,
        >((Seq::empty(), true, false)),
{
    lemma_all_absent_nodes(display, t);
}

// ---------------------------------------------------------------------------
// A kept group: when at least one reference resolves, the group renders all
// of its literal content plus the resolved variables, styled per its span.
// ---------------------------------------------------------------------------

/// A node a flat display span may hold: a literal or a variable.
pub open spec fn flat_node(n: NodeView) -> bool {
    n is Literal || n is Variable
}

/// The segments a flat display span buffers: each literal verbatim, each
/// resolved variable's text, nothing for absent ones.
pub open spec fn flat_segments(display: Seq<NodeView>, t: TableView) -> Seq<SegView>
    decreases display.len(),
{
    if display.len() == 0 {
        Seq::empty()
    } else {
        (match display[0] {
            NodeView::Literal(tx) => seq![SegView { text: tx, style: Option::None }],
            NodeView::Variable(name) => match assoc(t.meta, name) {
                Option::Some(tx) => seq![SegView { text: tx, style: Option::None }],
                Option::None => match assoc(t.values, name) {
                    Option::Some(ValueView::Text(tx)) => seq![
                        SegView { text: tx, style: Option::None },
                    ],
                    _ => Seq::empty(),
                },
            },
            _ => Seq::empty(),
        }) + flat_segments(display.drop_first(), t)
    }
}

/// Whether a flat display span holds a variable at all.
pub open spec fn has_var(display: Seq<NodeView>) -> bool {
    exists|k: int| 0 <= k < display.len() && (#[trigger] display[k]) is Variable
}

/// Whether a flat display span holds a variable that resolves.
pub open spec fn has_resolved_var(display: Seq<NodeView>, t: TableView) -> bool {
    exists|k: int|
        0 <= k < display.len() && (#[trigger] display[k] matches NodeView::Variable(name)
            && var_resolved(name, t))
}

/// Evaluating a flat display span without resolver failures: the buffered
/// segments are exactly its literal content plus its resolved variables.
pub proof fn lemma_flat_eval(display: Seq<NodeView>, t: TableView)
    requires
        forall|k: int| 0 <= k < display.len() ==> flat_node(#[trigger] display[k]),
        forall|k: int|
            0 <= k < display.len() ==> !(#[trigger] display[k] matches NodeView::Variable(name)
                && var_failed(name, t)),
    ensures
        eval_nodes(display, t) == Ok::<(Seq<SegView>, bool, bool), EvalErrView>(
            (flat_segments(display, t), has_var(display), has_resolved_var(display, t)),
        ),
    decreases display.len(),
{
    if display.len() == 0 {
        assert(!has_var(display));
        assert(!has_resolved_var(display, t));
    } else {
        let d = display.drop_first();
        assert(flat_node(display[0]));
        assert(!(display[0] matches NodeView::Variable(name) && var_failed(name, t)));
        assert forall|k: int| 0 <= k < d.len() implies flat_node(#[trigger] d[k]) by {
            assert(d[k] == display[k + 1]);
        }
        assert forall|k: int|
            0 <= k < d.len() implies !(#[trigger] d[k] matches NodeView::Variable(name)
            && var_failed(name, t)) by {
            assert(d[k] == display[k + 1]);
        }
        lemma_flat_eval(d, t);
        // the head's own flags
        let head_is_var = display[0] is Variable;
        let head_resolved = display[0] matches NodeView::Variable(name) && var_resolved(name, t);
        assert(has_var(display) == (head_is_var || has_var(d))) by {
            if head_is_var {
                assert(has_var(display));
            }
            if has_var(d) {
                let k = choose|k: int| 0 <= k < d.len() && (#[trigger] d[k]) is Variable;
                assert(display[k + 1] == d[k]);
                assert(has_var(display));
            }
            if has_var(display) {
                let k = choose|k: int|
                    0 <= k < display.len() && (#[trigger] display[k]) is Variable;
                if k > 0 {
                    assert(d[k - 1] == display[k]);
                    assert(has_var(d));
                }
            }
        }
        assert(has_resolved_var(display, t) == (head_resolved || has_resolved_var(d, t))) by {
            if head_resolved {
                assert(has_resolved_var(display, t));
            }
            if has_resolved_var(d, t) {
                let k = choose|k: int|
                    0 <= k < d.len() && (#[trigger] d[k] matches NodeView::Variable(name)
                        && var_resolved(name, t));
                assert(display[k + 1] == d[k]);
                assert(has_resolved_var(display, t));
            }
            if has_resolved_var(display, t) {
                let k = choose|k: int|
                    0 <= k < display.len() && (#[trigger] display[k] matches NodeView::Variable(
                        name,
                    ) && var_resolved(name, t));
                if k > 0 {
                    assert(d[k - 1] == display[k]);
                    assert(has_resolved_var(d, t));
                }
            }
        }
        match display[0] {
            NodeView::Literal(tx) => {
                assert(eval_node(display[0], t) == Ok::<(Seq<SegView>, bool, bool), EvalErrView>(
                    (seq![SegView { text: tx, style: Option::None }], false, false),
                ));
            },
            NodeView::Variable(name) => {
                match assoc(t.meta, name) {
                    Option::Some(tx) => {
                        assert(eval_node(display[0], t) == Ok::<
                            (Seq<SegView>, bool, bool),
                            EvalErrView,
                        >((seq![SegView { text: tx, style: Option::None }], true, true)));
                        assert(head_resolved);
                    },
                    Option::None => {
                        match assoc(t.values, name) {
                            Option::Some(ValueView::Text(tx)) => {
                                assert(eval_node(display[0], t) == Ok::<
                                    (Seq<SegView>, bool, bool),
                                    EvalErrView,
                                >((seq![SegView { text: tx, style: Option::None }], true, true)));
                                assert(head_resolved);
                            },
                            Option::Some(ValueView::Absent) => {
                                assert(eval_node(display[0], t) == Ok::<
                                    (Seq<SegView>, bool, bool),
                                    EvalErrView,
                                >((Seq::empty(), true, false)));
                                assert(!head_resolved);
                                assert(Seq::<SegView>::empty() + flat_segments(d, t)
                                    =~= flat_segments(d, t));
                            },
                            Option::Some(ValueView::Failure(_)) => {
                                assert(var_failed(name, t));
                            },
                            Option::None => {
                                assert(eval_node(display[0], t) == Ok::<
                                    (Seq<SegView>, bool, bool),
                                    EvalErrView,
                                >((Seq::empty(), true, false)));
                                assert(!head_resolved);
                                assert(Seq::<SegView>::empty() + flat_segments(d, t)
                                    =~= flat_segments(d, t));
                            },
                        }
                    },
                }
            },
            NodeView::Group { display: g, style: s } => {
                assert(flat_node(display[0]));
            },
            NodeView::Conditional(inner) => {
                assert(flat_node(display[0]));
            },
        }
    }
}

/// A kept group: when its flat display span resolves at least one variable
/// and none fails, the group keeps all of its literal content plus the
/// resolved variables, styled per its style span; a style failure aborts.
pub proof fn lemma_group_kept(display: Seq<NodeView>, style: Seq<TokenView>, t: TableView)
    requires
        forall|k: int| 0 <= k < display.len() ==> flat_node(#[trigger] display[k]),
        forall|k: int|
            0 <= k < display.len() ==> !(#[trigger] display[k] matches NodeView::Variable(name)
                && var_failed(name, t)),
        has_resolved_var(display, t),
    ensures
        eval_node(NodeView::Group { display, style }, t) == (match resolve_style(style, t) {
            Ok(st) => Ok::<(Seq<SegView>, bool, bool), EvalErrView>(
                (apply_style(flat_segments(display, t), st), has_var(display), true),
            ),
            Err(e) => Err::<(Seq<SegView>, bool, bool), EvalErrView>(e),
        }),
{
    lemma_flat_eval(display, t);
    let k = choose|k: int|
        0 <= k < display.len() && (#[trigger] display[k] matches NodeView::Variable(name)
            && var_resolved(name, t));
    assert(display[k] is Variable);
    assert(has_var(display));
}

// ---------------------------------------------------------------------------
// Nested groups: an inner group that elides does not force the outer group
// to elide unless it leaves the outer group with zero resolved references.
// ---------------------------------------------------------------------------

/// An inner node that elides (it contributes no segments and reports one
/// unresolved reference) leaves the outer group exactly as the rest of its
/// display span decides: kept, with the rest's segments styled, when the
/// rest resolved something; elided otherwise.
pub proof fn lemma_inner_elision_independent(
    pre: Seq<NodeView>,
    inner: NodeView,
    post: Seq<NodeView>,
    style: Seq<TokenView>,
    t: TableView,
    rest_segs: Seq<SegView>,
    rest_has_ref: bool,
    rest_any_res: bool,
)
    requires
        eval_node(inner, t) == Ok::<(Seq<SegView>, bool, bool), EvalErrView>(
            (Seq::empty(), true, false),
        ),
        eval_nodes(pre + post, t) == Ok::<(Seq<SegView>, bool, bool), EvalErrView>(
            (rest_segs, rest_has_ref, rest_any_res),
        ),
    ensures
        rest_any_res ==> eval_node(NodeView::Group { display: pre + seq![inner] + post, style }, t)
            == (match resolve_style(style, t) {
            Ok(st) => Ok::<(Seq<SegView>, bool, bool), EvalErrView>(
                (apply_style(rest_segs, st), true, true),
            ),
            Err(e) => Err::<(Seq<SegView>, bool, bool), EvalErrView>(e),
        }),
        !rest_any_res ==> eval_node(
            NodeView::Group { display: pre + seq![inner] + post, style },
            t,
        ) == Ok::<(Seq<SegView>, bool, bool), EvalErrView>((Seq::empty(), true, false)),
{
    lemma_eval_nodes_append(pre, post, t);
    lemma_eval_nodes_append(pre, seq![inner] + post, t);
    lemma_eval_nodes_append(seq![inner], post, t);
    let e: Seq<SegView> = Seq::empty();
    assert((seq![inner])[0] == inner);
    assert(seq![inner].len() == 1);
    assert(eval_nodes(seq![inner].drop_first(), t) == Ok::<(Seq<SegView>, bool, bool), EvalErrView>(
        (e, false, false),
    )) by {
        assert((seq![inner]).drop_first() =~= Seq::<NodeView>::empty());
    }
    assert(e + e =~= e);
    assert(eval_nodes(seq![inner], t) == Ok::<(Seq<SegView>, bool, bool), EvalErrView>(
        (e, true, false),
    ));
    assert(pre + seq![inner] + post =~= pre + (seq![inner] + post));
    match eval_nodes(pre, t) {
        Err(_) => {},
        Ok((s0, r0, a0)) => {
            match eval_nodes(post, t) {
                Err(_) => {},
                Ok((s1, r1, a1)) => {
                    assert(Seq::<SegView>::empty() + Seq::<SegView>::empty() =~= Seq::<
                        SegView,
                    >::empty());
                    assert((Seq::<SegView>::empty() + s1) =~= s1);
                    assert(s0 + (Seq::<SegView>::empty() + s1) =~= s0 + s1);
                },
            }
        },
    }
}

} // verus!

verus! {

// ---------------------------------------------------------------------------
// Literal-only templates: a well-formed template with no variable references
// renders to its literal text (escapes already resolved by the parser),
// whatever the resolver tables hold.
// ---------------------------------------------------------------------------

/// The node references no variable, in its display content or its style
/// span.
pub open spec fn node_no_variables(n: NodeView) -> bool
    decreases node_size(n), 0int,
{
    match n {
        NodeView::Literal(_) => true,
        NodeView::Variable(_) => false,
        NodeView::Group { display, style } => nodes_no_variables(display) && (forall|k: int|
            0 <= k < style.len() ==> (#[trigger] style[k]) is Keyword),
        NodeView::Conditional(inner) => nodes_no_variables(inner),
    }
}

/// No node of the sequence references a variable.
pub open spec fn nodes_no_variables(nodes: Seq<NodeView>) -> bool
    decreases nodes_size(nodes), 1int,
    via nodes_no_variables_decreases
{
    nodes.len() == 0 || (node_no_variables(nodes[0]) && nodes_no_variables(nodes.drop_first()))
}

#[via_fn]
proof fn nodes_no_variables_decreases(nodes: Seq<NodeView>) {
    if nodes.len() > 0 {
        lemma_node_size_pos(nodes[0]);
    }
}

/// The literal text of a node, groups flattened.
pub open spec fn node_literal_text(n: NodeView) -> Seq<char>
    decreases node_size(n), 0int,
{
    match n {
        NodeView::Literal(tx) => tx,
        NodeView::Variable(_) => Seq::empty(),
        NodeView::Group { display, style } => nodes_literal_text(display),
        NodeView::Conditional(inner) => nodes_literal_text(inner),
    }
}

/// The literal text of a sequence of nodes, in order.
pub open spec fn nodes_literal_text(nodes: Seq<NodeView>) -> Seq<char>
    decreases nodes_size(nodes), 1int,
    via nodes_literal_text_decreases
{
    if nodes.len() == 0 {
        Seq::empty()
    } else {
        node_literal_text(nodes[0]) + nodes_literal_text(nodes.drop_first())
    }
}

#[via_fn]
proof fn nodes_literal_text_decreases(nodes: Seq<NodeView>) {
    if nodes.len() > 0 {
        lemma_node_size_pos(nodes[0]);
    }
}

/// The text of a concatenation is the concatenation of the texts.
pub proof fn lemma_segs_text_append(a: Seq<SegView>, b: Seq<SegView>)
    ensures
        segs_text(a + b) == segs_text(a) + segs_text(b),
    decreases a.len(),
{
    if a.len() == 0 {
        assert(a + b =~= b);
        assert(Seq::<char>::empty() + segs_text(b) =~= segs_text(b));
    } else {
        assert((a + b)[0] == a[0]);
        assert((a + b).drop_first() =~= a.drop_first() + b);
        lemma_segs_text_append(a.drop_first(), b);
        assert(a[0].text + (segs_text(a.drop_first()) + segs_text(b)) =~= (a[0].text + segs_text(
            a.drop_first(),
        )) + segs_text(b));
    }
}

/// Applying a style changes no segment's text.
pub proof fn lemma_apply_style_text(segs: Seq<SegView>, st: Option<Seq<char>>)
    ensures
        segs_text(apply_style(segs, st)) == segs_text(segs),
    decreases segs.len(),
{
    match st {
        Option::None => {},
        Option::Some(sv) => {
            if segs.len() == 0 {
                assert(apply_style(segs, st).len() == 0);
            } else {
                lemma_apply_style_text(segs.drop_first(), st);
                let m = apply_style(segs, st);
                assert(m[0].text == segs[0].text);
                assert(m.drop_first() =~= apply_style(segs.drop_first(), st));
            }
        },
    }
}

/// A style span of literal keywords resolves without failure and without
/// looking at the tables.
pub proof fn lemma_style_keywords(tokens: Seq<TokenView>, t1: TableView, t2: TableView)
    requires
        forall|k: int| 0 <= k < tokens.len() ==> (#[trigger] tokens[k]) is Keyword,
    ensures
        resolve_style_parts(tokens, t1) is Ok,
        resolve_style_parts(tokens, t1) == resolve_style_parts(tokens, t2),
    decreases tokens.len(),
{
    if tokens.len() == 0 {
    } else {
        let d = tokens.drop_first();
        assert(tokens[0] is Keyword);
        assert forall|k: int| 0 <= k < d.len() implies (#[trigger] d[k]) is Keyword by {
            assert(d[k] == tokens[k + 1]);
        }
        lemma_style_keywords(d, t1, t2);
    }
}

/// A node with no variable references evaluates, on any tables, to the same
/// segments; it reports no reference; and its text is its literal text.
pub proof fn lemma_node_literal_only(n: NodeView, t1: TableView, t2: TableView)
    requires
        node_no_variables(n),
    ensures
        eval_node(n, t1) is Ok,
        eval_node(n, t1) == eval_node(n, t2),
        (eval_node(n, t1) matches Ok(o) ==> !o.1 && !o.2 && segs_text(o.0) == node_literal_text(
            n,
        )),
    decreases node_size(n), 0int,
{
    match n {
        NodeView::Literal(tx) => {
            assert(segs_text(seq![SegView { text: tx, style: Option::None }].drop_first()) == Seq::<
                char,
            >::empty()) by {
                assert(seq![SegView { text: tx, style: Option::None }].drop_first() =~= Seq::<
                    SegView,
                >::empty());
            }
            assert(tx + Seq::<char>::empty() =~= tx);
        },
        NodeView::Variable(_) => {},
        NodeView::Group { display, style } => {
            lemma_render_literal_only(display, t1, t2);
            lemma_style_keywords(style, t1, t2);
            match eval_nodes(display, t1) {
                Ok((segs, has_ref, any_res)) => {
                    match resolve_style(style, t1) {
                        Ok(st) => {
                            lemma_apply_style_text(segs, st);
                        },
                        Err(_) => {},
                    }
                },
                Err(_) => {},
            }
        },
        NodeView::Conditional(inner) => {
            lemma_render_literal_only(inner, t1, t2);
        },
    }
}

/// A tree with no variable references renders, on any tables, to the same
/// segment sequence, whose text is the tree's literal text.
pub proof fn lemma_render_literal_only(nodes: Seq<NodeView>, t1: TableView, t2: TableView)
    requires
        nodes_no_variables(nodes),
    ensures
        eval_nodes(nodes, t1) is Ok,
        eval_nodes(nodes, t1) == eval_nodes(nodes, t2),
        (eval_nodes(nodes, t1) matches Ok(o) ==> !o.1 && !o.2 && segs_text(o.0)
            == nodes_literal_text(nodes)),
    decreases nodes_size(nodes), 1int,
{
    if nodes.len() == 0 {
    } else {
        lemma_node_size_pos(nodes[0]);
        lemma_node_literal_only(nodes[0], t1, t2);
        lemma_render_literal_only(nodes.drop_first(), t1, t2);
        match eval_node(nodes[0], t1) {
            Ok((s0, r0, a0)) => {
                match eval_nodes(nodes.drop_first(), t1) {
                    Ok((s1, r1, a1)) => {
                        lemma_segs_text_append(s0, s1);
                    },
                    Err(_) => {},
                }
            },
            Err(_) => {},
        }
    }
}

} // verus!

verus! {

// ---------------------------------------------------------------------------
// Escape round trip: an escaped delimiter parses to the literal character
// and renders as that character, never as a group delimiter.
// ---------------------------------------------------------------------------

/// `\$` parses to a literal dollar, and renders as `$` on any tables.
pub proof fn lemma_escape_dollar_round_trip(t: TableView)
    ensures
        crate::parser::parse_spec("\\$"@) == Ok::<Seq<NodeView>, crate::parser::ParseError>(
            seq![NodeView::Literal(seq!['$'])],
        ),
        eval_nodes(seq![NodeView::Literal(seq!['$'])], t) matches Ok(o) && segs_text(o.0)
            == seq!['$'],
{
    reveal_strlit("\\$");
    let s = "\\$"@;
    assert(s.len() == 2 && s[0] == '\\' && s[1] == '$');
    assert(crate::parser::scan_literal(s, 2) == Ok::<(Seq<char>, nat), crate::parser::ParseError>(
        (Seq::empty(), 0nat),
    ));
    assert(crate::parser::parse_nodes(s, 2, Option::None) == Ok::<
        (Seq<NodeView>, nat),
        crate::parser::ParseError,
    >((Seq::empty(), 0nat)));
    assert(seq!['$'] + Seq::<char>::empty() =~= seq!['$']);
    assert(seq![NodeView::Literal(seq!['$'])] + Seq::<NodeView>::empty() =~= seq![
        NodeView::Literal(seq!['$']),
    ]);
    let lit = NodeView::Literal(seq!['$']);
    assert(seq![lit].drop_first() =~= Seq::<NodeView>::empty());
    assert(eval_nodes(seq![lit].drop_first(), t) == Ok::<(Seq<SegView>, bool, bool), EvalErrView>(
        (Seq::empty(), false, false),
    ));
    let seg = SegView { text: seq!['$'], style: Option::None };
    assert(seq![seg] + Seq::<SegView>::empty() =~= seq![seg]);
    assert((seq![lit])[0] == lit);
    assert(eval_node(lit, t) == Ok::<(Seq<SegView>, bool, bool), EvalErrView>(
        (seq![seg], false, false),
    ));
    assert(eval_nodes(seq![lit], t) == Ok::<(Seq<SegView>, bool, bool), EvalErrView>(
        (seq![seg], false, false),
    ));
    assert(segs_text(seq![seg].drop_first()) == Seq::<char>::empty()) by {
        assert(seq![seg].drop_first() =~= Seq::<SegView>::empty());
    }
    assert(seq!['$'] + Seq::<char>::empty() =~= seq!['$']);
}

} // verus!

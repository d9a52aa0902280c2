//! Parser: from a format string to an ordered tree of nodes.
//!
//! The grammar: text outside brackets is literal, with `$$`, `\$`, `\[`,
//! `\]`, `\(`, `\)` as escapes for the literal character; `$name` is a
//! variable reference, `name` being a run of alphanumeric or underscore
//! characters; `[display](style)` is a styled group, the style span being
//! mandatory; a bare `(display)` is an unstyled conditional group.  The
//! style span holds whitespace-separated tokens, each a literal keyword or
//! a `$name` reference.  Parsing is total and fails closed: any unmatched
//! bracket or parenthesis, missing style span, or malformed escape or `$`
//! token yields a structured error carrying the position (in characters)
//! at which it was detected.

use vstd::prelude::*;
use crate::ast::{Node, NodeView, StyleToken, TokenView};

verus! {

/// A structured parse failure, carrying the position (in characters) at
/// which it was detected.
#[derive(Debug, Clone, Copy, PartialEq, Eq, Structural)]
pub enum ParseError {
    /// An unclosed group or style span, or a stray closing delimiter.
    Unterminated { offset: usize },
    /// A group display span not immediately followed by a `(style)` span.
    MissingStyle { offset: usize },
    /// A malformed escape, or a `$` that starts no variable name.
    InvalidEscape { offset: usize },
}

/// The characters that may follow a backslash escape.
pub open spec fn is_escapable(c: char) -> bool {
    c == '$' || c == '[' || c == ']' || c == '(' || c == ')'
}

/// The characters a variable identifier is made of.
pub open spec fn is_ident_char(c: char) -> bool {
    ('a' <= c && c <= 'z') || ('A' <= c && c <= 'Z') || ('0' <= c && c <= '9') || c == '_'
}

/// Whitespace between the tokens of a style span.
pub open spec fn is_space(c: char) -> bool {
    c == ' ' || c == '\t'
}

/// Length of the identifier run starting at position `i`.
pub open spec fn ident_len(s: Seq<char>, i: int) -> nat
    decreases s.len() - i,
{
    if 0 <= i && i < s.len() && is_ident_char(s[i]) {
        (1 + ident_len(s, i + 1)) as nat
    } else {
        0
    }
}

/// Length of the style-keyword run starting at position `i`: everything up
/// to the next whitespace, `)` or `$`.
pub open spec fn keyword_len(s: Seq<char>, i: int) -> nat
    decreases s.len() - i,
{
    if 0 <= i && i < s.len() && !(s[i] == ')' || is_space(s[i]) || s[i] == '$') {
        (1 + keyword_len(s, i + 1)) as nat
    } else {
        0
    }
}

/// Scan a run of literal content starting at `i`: plain characters,
/// backslash escapes and `$$`.  Returns the resolved text and the number of
/// characters consumed; stops (consuming nothing) at `[`, `(`, `]`, `)`,
/// a `$` that is not `$$`, or the end of input.
pub open spec fn scan_literal(s: Seq<char>, i: int) -> Result<(Seq<char>, nat), ParseError>
    decreases s.len() - i,
{
    if !(0 <= i && i < s.len()) {
        Ok((Seq::empty(), 0))
    } else {
        let c = s[i];
        if c == '[' || c == '(' || c == ']' || c == ')' {
            Ok((Seq::empty(), 0))
        } else if c == '\\' {
            if i + 1 < s.len() && is_escapable(s[i + 1]) {
                match scan_literal(s, i + 2) {
                    Ok((t, n)) => Ok((seq![s[i + 1]] + t, (2 + n) as nat)),
                    Err(e) => Err(e),
                }
            } else {
                Err(ParseError::InvalidEscape { offset: i as usize })
            }
        } else if c == '$' {
            if i + 1 < s.len() && s[i + 1] == '$' {
                match scan_literal(s, i + 2) {
                    Ok((t, n)) => Ok((seq!['$'] + t, (2 + n) as nat)),
                    Err(e) => Err(e),
                }
            } else {
                Ok((Seq::empty(), 0))
            }
        } else {
            match scan_literal(s, i + 1) {
                Ok((t, n)) => Ok((seq![c] + t, (1 + n) as nat)),
                Err(e) => Err(e),
            }
        }
    }
}

/// Parse a style span starting at `i`, up to but not including the closing
/// `)`.  Returns the tokens and the number of characters consumed.
pub open spec fn parse_style(s: Seq<char>, i: int) -> Result<(Seq<TokenView>, nat), ParseError>
    decreases s.len() - i,
{
    if !(0 <= i && i < s.len()) {
        Err(ParseError::Unterminated { offset: s.len() as usize })
    } else {
        let c = s[i];
        if c == ')' {
            Ok((Seq::empty(), 0))
        } else if is_space(c) {
            match parse_style(s, i + 1) {
                Ok((ts, n)) => Ok((ts, (1 + n) as nat)),
                Err(e) => Err(e),
            }
        } else if c == '$' {
            let l = ident_len(s, i + 1);
            if l == 0 {
                Err(ParseError::InvalidEscape { offset: i as usize })
            } else {
                let cont = if i + 1 + l <= s.len() { i + 1 + l } else { s.len() as int };
                match parse_style(s, cont) {
                    Ok((ts, n)) => Ok(
                        (
                            seq![TokenView::Variable(s.subrange(i + 1, i + 1 + l))] + ts,
                            ((cont - i) + n) as nat,
                        ),
                    ),
                    Err(e) => Err(e),
                }
            }
        } else {
            let l = keyword_len(s, i);
            let cont = if i + l <= s.len() { i + l } else { s.len() as int };
            match parse_style(s, cont) {
                Ok((ts, n)) => Ok(
                    (seq![TokenView::Keyword(s.subrange(i, i + l))] + ts, ((cont - i) + n) as nat),
                ),
                Err(e) => Err(e),
            }
        }
    }
}

/// Parse a sequence of nodes starting at `i`, up to but not including the
/// closing delimiter `closer` (or the end of input when `closer` is
/// `None`).  Returns the nodes and the number of characters consumed.
pub open spec fn parse_nodes(s: Seq<char>, i: int, closer: Option<char>) -> Result<
    (Seq<NodeView>, nat),
    ParseError,
>
    decreases s.len() - i,
{
    if !(0 <= i && i < s.len()) {
        if closer is None {
            Ok((Seq::empty(), 0))
        } else {
            Err(ParseError::Unterminated { offset: s.len() as usize })
        }
    } else {
        let c = s[i];
        if closer == Option::Some(c) {
            Ok((Seq::empty(), 0))
        } else if c == ']' || c == ')' {
            Err(ParseError::Unterminated { offset: i as usize })
        } else if c == '[' {
            match parse_nodes(s, i + 1, Option::Some(']')) {
                Err(e) => Err(e),
                Ok((display, nd)) => {
                    let j = i + 1 + nd;
                    if j + 1 < s.len() && s[j + 1] == '(' {
                        match parse_style(s, j + 2) {
                            Err(e) => Err(e),
                            Ok((tokens, ns)) => {
                                let k = j + 2 + ns;
                                let cont = if k + 1 <= s.len() { k + 1 } else { s.len() as int };
                                match parse_nodes(s, cont, closer) {
                                    Err(e) => Err(e),
                                    Ok((rest, nr)) => Ok(
                                        (
                                            seq![
                                                NodeView::Group { display, style: tokens },
                                            ] + rest,
                                            ((cont - i) + nr) as nat,
                                        ),
                                    ),
                                }
                            }
                        }
                    } else {
                        let off = if j + 1 <= s.len() { j + 1 } else { s.len() as int };
                        Err(ParseError::MissingStyle { offset: off as usize })
                    }
                }
            }
        } else if c == '(' {
            match parse_nodes(s, i + 1, Option::Some(')')) {
                Err(e) => Err(e),
                Ok((inner, nd)) => {
                    let j = i + 1 + nd;
                    let cont = if j + 1 <= s.len() { j + 1 } else { s.len() as int };
                    match parse_nodes(s, cont, closer) {
                        Err(e) => Err(e),
                        Ok((rest, nr)) => Ok(
                            (
                                seq![NodeView::Conditional(inner)] + rest,
                                ((cont - i) + nr) as nat,
                            ),
                        ),
                    }
                }
            }
        } else if c == '\\' {
            if i + 1 < s.len() && is_escapable(s[i + 1]) {
                match scan_literal(s, i + 2) {
                    Err(e) => Err(e),
                    Ok((t, n)) => {
                        let text = seq![s[i + 1]] + t;
                        let cont = if i + 2 + n <= s.len() { i + 2 + n } else { s.len() as int };
                        match parse_nodes(s, cont, closer) {
                            Err(e) => Err(e),
                            Ok((rest, nr)) => Ok(
                                (
                                    seq![NodeView::Literal(text)] + rest,
                                    ((cont - i) + nr) as nat,
                                ),
                            ),
                        }
                    }
                }
            } else {
                Err(ParseError::InvalidEscape { offset: i as usize })
            }
        } else if c == '$' {
            if i + 1 < s.len() && s[i + 1] == '$' {
                match scan_literal(s, i + 2) {
                    Err(e) => Err(e),
                    Ok((t, n)) => {
                        let text = seq!['$'] + t;
                        let cont = if i + 2 + n <= s.len() { i + 2 + n } else { s.len() as int };
                        match parse_nodes(s, cont, closer) {
                            Err(e) => Err(e),
                            Ok((rest, nr)) => Ok(
                                (
                                    seq![NodeView::Literal(text)] + rest,
                                    ((cont - i) + nr) as nat,
                                ),
                            ),
                        }
                    }
                }
            } else {
                let l = ident_len(s, i + 1);
                if l == 0 {
                    Err(ParseError::InvalidEscape { offset: i as usize })
                } else {
                    let name = s.subrange(i + 1, i + 1 + l);
                    let cont = if i + 1 + l <= s.len() { i + 1 + l } else { s.len() as int };
                    match parse_nodes(s, cont, closer) {
                        Err(e) => Err(e),
                        Ok((rest, nr)) => Ok(
                            (seq![NodeView::Variable(name)] + rest, ((cont - i) + nr) as nat),
                        ),
                    }
                }
            }
        } else {
            match scan_literal(s, i) {
                Err(e) => Err(e),
                Ok((t, n)) => {
                    let cont = if i + n <= s.len() { i + n } else { s.len() as int };
                    match parse_nodes(s, cont, closer) {
                        Err(e) => Err(e),
                        Ok((rest, nr)) => Ok(
                            (seq![NodeView::Literal(t)] + rest, ((cont - i) + nr) as nat),
                        ),
                    }
                }
            }
        }
    }
}

/// What parsing a whole format string yields.
pub open spec fn parse_spec(s: Seq<char>) -> Result<Seq<NodeView>, ParseError> {
    match parse_nodes(s, 0, Option::None) {
        Ok((nodes, n)) => Ok(nodes),
        Err(e) => Err(e),
    }
}

} // verus!

// ---------------------------------------------------------------------------
// The executable parser.  Each function mirrors the spec function of the
// same name and is proved to return exactly what it describes.
// ---------------------------------------------------------------------------

use crate::text::{string_from_chars, string_range};

verus! {

/// `nodes_view` of a vector assembled as head plus rest.
proof fn lemma_nodes_view_cons(head: Node, rest: Seq<Node>, all: Seq<Node>)
    requires
        all == seq![head] + rest,
    ensures
        crate::ast::nodes_view(all) == seq![crate::ast::node_view(head)] + crate::ast::nodes_view(
            rest,
        ),
{
    assert(all.len() == 1 + rest.len());
    assert(all[0] == head);
    assert(all.drop_first() =~= rest);
}

/// `tokens_view` of a vector assembled as head plus rest.
proof fn lemma_tokens_view_cons(head: StyleToken, rest: Seq<StyleToken>, all: Seq<StyleToken>)
    requires
        all == seq![head] + rest,
    ensures
        crate::ast::tokens_view(all) == seq![head.deep_view()] + crate::ast::tokens_view(rest),
{
    assert(crate::ast::tokens_view(all) =~= seq![head.deep_view()] + crate::ast::tokens_view(
        rest,
    ));
}

fn escapable(c: char) -> (r: bool)
    ensures
        r == is_escapable(c),
{
    c == '$' || c == '[' || c == ']' || c == '(' || c == ')'
}

fn ident_char(c: char) -> (r: bool)
    ensures
        r == is_ident_char(c),
{
    ('a' <= c && c <= 'z') || ('A' <= c && c <= 'Z') || ('0' <= c && c <= '9') || c == '_'
}

fn space_char(c: char) -> (r: bool)
    ensures
        r == is_space(c),
{
    c == ' ' || c == '\t'
}

/// Length of the identifier run starting at `i`.
fn ident_run_len(s: &Vec<char>, i: usize) -> (l: usize)
    requires
        i <= s@.len(),
    ensures
        l == ident_len(s@, i as int),
        i + l <= s@.len(),
{
    let mut j: usize = i;
    while j < s.len() && ident_char(s[j])
        invariant
            i <= j <= s@.len(),
            ident_len(s@, i as int) == (j - i) + ident_len(s@, j as int),
        decreases s@.len() - j,
    {
        j = j + 1;
    }
    j - i
}

/// Length of the style-keyword run starting at `i`.
fn keyword_run_len(s: &Vec<char>, i: usize) -> (l: usize)
    requires
        i <= s@.len(),
    ensures
        l == keyword_len(s@, i as int),
        i + l <= s@.len(),
{
    let mut j: usize = i;
    while j < s.len() && !(s[j] == ')' || space_char(s[j]) || s[j] == '$')
        invariant
            i <= j <= s@.len(),
            keyword_len(s@, i as int) == (j - i) + keyword_len(s@, j as int),
        decreases s@.len() - j,
    {
        j = j + 1;
    }
    j - i
}

/// The executable literal-run scanner.
fn scan_literal_exec(s: &Vec<char>, i: usize) -> (r: Result<(Vec<char>, usize), ParseError>)
    requires
        i <= s@.len(),
    ensures
        match r {
            Ok((t, n)) => i + n <= s@.len() && scan_literal(s@, i as int) == Ok::<
                (Seq<char>, nat),
                ParseError,
            >((t@, n as nat)),
            Err(e) => scan_literal(s@, i as int) == Err::<(Seq<char>, nat), ParseError>(e),
        },
    decreases s@.len() - i,
{
    if i >= s.len() {
        return Ok((Vec::new(), 0));
    }
    let c = s[i];
    if c == '[' || c == '(' || c == ']' || c == ')' {
        Ok((Vec::new(), 0))
    } else if c == '\\' {
        if i + 1 < s.len() && escapable(s[i + 1]) {
            match scan_literal_exec(s, i + 2) {
                Ok((t, n)) => {
                    let mut out: Vec<char> = Vec::new();
                    out.push(s[i + 1]);
                    let mut t2 = t;
                    let ghost t0 = t2@;
                    out.append(&mut t2);
                    proof {
                        assert(out@ =~= seq![s@[i + 1]] + t0);
                    }
                    Ok((out, n + 2))
                },
                Err(e) => Err(e),
            }
        } else {
            Err(ParseError::InvalidEscape { offset: i })
        }
    } else if c == '$' {
        if i + 1 < s.len() && s[i + 1] == '$' {
            match scan_literal_exec(s, i + 2) {
                Ok((t, n)) => {
                    let mut out: Vec<char> = Vec::new();
                    out.push('$');
                    let mut t2 = t;
                    let ghost t0 = t2@;
                    out.append(&mut t2);
                    proof {
                        assert(out@ =~= seq!['$'] + t0);
                    }
                    Ok((out, n + 2))
                },
                Err(e) => Err(e),
            }
        } else {
            Ok((Vec::new(), 0))
        }
    } else {
        match scan_literal_exec(s, i + 1) {
            Ok((t, n)) => {
                let mut out: Vec<char> = Vec::new();
                out.push(c);
                let mut t2 = t;
                let ghost t0 = t2@;
                out.append(&mut t2);
                proof {
                    assert(out@ =~= seq![s@[i as int]] + t0);
                }
                Ok((out, n + 1))
            },
            Err(e) => Err(e),
        }
    }
}

/// The executable style-span parser.
fn parse_style_exec(s: &Vec<char>, i: usize) -> (r: Result<(Vec<StyleToken>, usize), ParseError>)
    requires
        i <= s@.len(),
    ensures
        match r {
            Ok((ts, n)) => i + n < s@.len() && s@[i + n as int] == ')' && parse_style(
                s@,
                i as int,
            ) == Ok::<(Seq<TokenView>, nat), ParseError>(
                (crate::ast::tokens_view(ts@), n as nat),
            ),
            Err(e) => parse_style(s@, i as int) == Err::<(Seq<TokenView>, nat), ParseError>(e),
        },
    decreases s@.len() - i,
{
    if i >= s.len() {
        return Err(ParseError::Unterminated { offset: s.len() });
    }
    let c = s[i];
    if c == ')' {
        proof {
            assert(crate::ast::tokens_view(Seq::<StyleToken>::empty()) =~= Seq::<
                TokenView,
            >::empty());
        }
        Ok((Vec::new(), 0))
    } else if space_char(c) {
        match parse_style_exec(s, i + 1) {
            Ok((ts, n)) => Ok((ts, n + 1)),
            Err(e) => Err(e),
        }
    } else if c == '$' {
        let l = ident_run_len(s, i + 1);
        if l == 0 {
            Err(ParseError::InvalidEscape { offset: i })
        } else {
            let name = string_range(s, i + 1, i + 1 + l);
            let tok = StyleToken::Variable(name);
            match parse_style_exec(s, i + 1 + l) {
                Ok((ts, n)) => {
                    let mut out: Vec<StyleToken> = Vec::new();
                    out.push(tok);
                    let mut ts2 = ts;
                    let ghost ts0 = ts2@;
                    out.append(&mut ts2);
                    proof {
                        assert(out@ =~= seq![StyleToken::Variable(name)] + ts0);
                        lemma_tokens_view_cons(StyleToken::Variable(name), ts0, out@);
                    }
                    Ok((out, (l + 1) + n))
                },
                Err(e) => Err(e),
            }
        }
    } else {
        let l = keyword_run_len(s, i);
        proof {
            assert(keyword_len(s@, i as int) >= 1);
        }
        let word = string_range(s, i, i + l);
        let tok = StyleToken::Keyword(word);
        match parse_style_exec(s, i + l) {
            Ok((ts, n)) => {
                let mut out: Vec<StyleToken> = Vec::new();
                out.push(tok);
                let mut ts2 = ts;
                let ghost ts0 = ts2@;
                out.append(&mut ts2);
                proof {
                    assert(out@ =~= seq![StyleToken::Keyword(word)] + ts0);
                    lemma_tokens_view_cons(StyleToken::Keyword(word), ts0, out@);
                }
                Ok((out, l + n))
            },
            Err(e) => Err(e),
        }
    }
}

} // verus!

verus! {

/// The executable node parser.
#[verifier::rlimit(100)]
fn parse_nodes_exec(s: &Vec<char>, i: usize, closer: Option<char>) -> (r: Result<
    (Vec<Node>, usize),
    ParseError,
>)
    requires
        i <= s@.len(),
    ensures
        match r {
            Ok((nodes, n)) => {
                &&& parse_nodes(s@, i as int, closer) == Ok::<(Seq<NodeView>, nat), ParseError>(
                    (crate::ast::nodes_view(nodes@), n as nat),
                )
                &&& i + n <= s@.len()
                &&& match closer {
                    Option::Some(c) => i + n < s@.len() && s@[i + n as int] == c,
                    Option::None => i + n == s@.len(),
                }
            },
            Err(e) => parse_nodes(s@, i as int, closer) == Err::<(Seq<NodeView>, nat), ParseError>(
                e,
            ),
        },
    decreases s@.len() - i,
{
    if i >= s.len() {
        if closer.is_none() {
            proof {
                assert(crate::ast::nodes_view(Seq::<Node>::empty()) =~= Seq::<NodeView>::empty());
            }
            return Ok((Vec::new(), 0));
        } else {
            return Err(ParseError::Unterminated { offset: s.len() });
        }
    }
    let c = s[i];
    let closes = match closer {
        Option::Some(cc) => cc == c,
        Option::None => false,
    };
    if closes {
        proof {
            assert(crate::ast::nodes_view(Seq::<Node>::empty()) =~= Seq::<NodeView>::empty());
        }
        Ok((Vec::new(), 0))
    } else if c == ']' || c == ')' {
        Err(ParseError::Unterminated { offset: i })
    } else if c == '[' {
        match parse_nodes_exec(s, i + 1, Option::Some(']')) {
            Err(e) => Err(e),
            Ok((display, nd)) => {
                let j = i + 1 + nd;
                if j + 1 < s.len() && s[j + 1] == '(' {
                    match parse_style_exec(s, j + 2) {
                        Err(e) => Err(e),
                        Ok((tokens, ns)) => {
                            let k = j + 2 + ns;
                            match parse_nodes_exec(s, k + 1, closer) {
                                Err(e) => Err(e),
                                Ok((rest, nr)) => {
                                    let ghost dv = crate::ast::nodes_view(display@);
                                    let ghost tv = crate::ast::tokens_view(tokens@);
                                    let node = Node::Group { display, style: tokens };
                                    let mut out: Vec<Node> = Vec::new();
                                    out.push(node);
                                    let mut r2 = rest;
                                    let ghost rv = r2@;
                                    out.append(&mut r2);
                                    proof {
                                        assert(out@[0] matches Node::Group { display, style }
                                            && crate::ast::nodes_view(display@) == dv
                                            && crate::ast::tokens_view(style@) == tv);
                                        lemma_nodes_view_cons(out@[0], rv, out@);
                                    }
                                    Ok((out, (k + 1 - i) + nr))
                                },
                            }
                        },
                    }
                } else {
                    Err(ParseError::MissingStyle { offset: j + 1 })
                }
            },
        }
    } else if c == '(' {
        match parse_nodes_exec(s, i + 1, Option::Some(')')) {
            Err(e) => Err(e),
            Ok((inner, nd)) => {
                let j = i + 1 + nd;
                match parse_nodes_exec(s, j + 1, closer) {
                    Err(e) => Err(e),
                    Ok((rest, nr)) => {
                        let ghost iv = crate::ast::nodes_view(inner@);
                        let node = Node::Conditional(inner);
                        let mut out: Vec<Node> = Vec::new();
                        out.push(node);
                        let mut r2 = rest;
                        let ghost rv = r2@;
                        out.append(&mut r2);
                        proof {
                            assert(out@[0] matches Node::Conditional(inner2)
                                && crate::ast::nodes_view(inner2@) == iv);
                            lemma_nodes_view_cons(out@[0], rv, out@);
                        }
                        Ok((out, (j + 1 - i) + nr))
                    },
                }
            },
        }
    } else if c == '\\' {
        if i + 1 < s.len() && escapable(s[i + 1]) {
            match scan_literal_exec(s, i + 2) {
                Err(e) => Err(e),
                Ok((t, n)) => {
                    let mut text: Vec<char> = Vec::new();
                    text.push(s[i + 1]);
                    let mut t2 = t;
                    let ghost t0 = t2@;
                    text.append(&mut t2);
                    proof {
                        assert(text@ =~= seq![s@[i + 1]] + t0);
                    }
                    let lit = string_from_chars(&text);
                    match parse_nodes_exec(s, i + 2 + n, closer) {
                        Err(e) => Err(e),
                        Ok((rest, nr)) => {
                            let node = Node::Literal(lit);
                            let mut out: Vec<Node> = Vec::new();
                            out.push(node);
                            let mut r2 = rest;
                            let ghost rv = r2@;
                            out.append(&mut r2);
                            proof {
                                lemma_nodes_view_cons(out@[0], rv, out@);
                            }
                            Ok((out, (2 + n) + nr))
                        },
                    }
                },
            }
        } else {
            Err(ParseError::InvalidEscape { offset: i })
        }
    } else if c == '$' {
        if i + 1 < s.len() && s[i + 1] == '$' {
            match scan_literal_exec(s, i + 2) {
                Err(e) => Err(e),
                Ok((t, n)) => {
                    let mut text: Vec<char> = Vec::new();
                    text.push('$');
                    let mut t2 = t;
                    let ghost t0 = t2@;
                    text.append(&mut t2);
                    proof {
                        assert(text@ =~= seq!['$'] + t0);
                    }
                    let lit = string_from_chars(&text);
                    match parse_nodes_exec(s, i + 2 + n, closer) {
                        Err(e) => Err(e),
                        Ok((rest, nr)) => {
                            let node = Node::Literal(lit);
                            let mut out: Vec<Node> = Vec::new();
                            out.push(node);
                            let mut r2 = rest;
                            let ghost rv = r2@;
                            out.append(&mut r2);
                            proof {
                                lemma_nodes_view_cons(out@[0], rv, out@);
                            }
                            Ok((out, (2 + n) + nr))
                        },
                    }
                },
            }
        } else {
            let l = ident_run_len(s, i + 1);
            if l == 0 {
                Err(ParseError::InvalidEscape { offset: i })
            } else {
                let name = string_range(s, i + 1, i + 1 + l);
                match parse_nodes_exec(s, i + 1 + l, closer) {
                    Err(e) => Err(e),
                    Ok((rest, nr)) => {
                        let node = Node::Variable(name);
                        let mut out: Vec<Node> = Vec::new();
                        out.push(node);
                        let mut r2 = rest;
                        let ghost rv = r2@;
                        out.append(&mut r2);
                        proof {
                            lemma_nodes_view_cons(out@[0], rv, out@);
                        }
                        Ok((out, (1 + l) + nr))
                    },
                }
            }
        }
    } else {
        match scan_literal_exec(s, i) {
            Err(e) => Err(e),
            Ok((t, n)) => {
                proof {
                    assert(n >= 1);
                }
                let lit = string_from_chars(&t);
                match parse_nodes_exec(s, i + n, closer) {
                    Err(e) => Err(e),
                    Ok((rest, nr)) => {
                        let node = Node::Literal(lit);
                        let mut out: Vec<Node> = Vec::new();
                        out.push(node);
                        let mut r2 = rest;
                        let ghost rv = r2@;
                        out.append(&mut r2);
                        proof {
                            lemma_nodes_view_cons(out@[0], rv, out@);
                        }
                        Ok((out, n + nr))
                    },
                }
            },
        }
    }
}

/// Parse a whole format string, already split into characters.
pub(crate) fn parse_chars(s: &Vec<char>) -> (r: Result<Vec<Node>, ParseError>)
    ensures
        match r {
            Ok(nodes) => parse_spec(s@) == Ok::<Seq<NodeView>, ParseError>(
                crate::ast::nodes_view(nodes@),
            ),
            Err(e) => parse_spec(s@) == Err::<Seq<NodeView>, ParseError>(e),
        },
{
    match parse_nodes_exec(s, 0, Option::None) {
        Ok((nodes, _n)) => Ok(nodes),
        Err(e) => Err(e),
    }
}

} // verus!

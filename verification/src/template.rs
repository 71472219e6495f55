//! The templating grammar: literal text, `{{ ... }}` interpolation of
//! expressions, and `{% ... %}` block tags for conditionals and iteration.
//!
//! An expression is a name, a string literal quoted with `"`, `'` or a
//! backtick, or a concatenation of expressions joined by `~`. A name is a
//! nonempty run of letters, digits and underscores. Block tags are
//! `{% if name %} ... {% else %} ... {% endif %}` (the `else` arm optional)
//! and `{% for name in name %} ... {% endfor %}`.

use vstd::prelude::*;

verus! {

/// An expression inside an interpolation.
#[derive(Debug)]
pub enum Expr {
    /// A quoted string literal.
    Literal(String),
    /// A variable reference, resolved against the render context.
    Variable(String),
    /// Two expressions joined by `~`.
    Concat(Box<Expr>, Box<Expr>),
}

/// A parsed template node.
#[derive(Debug)]
pub enum TemplateNode {
    /// Literal text, emitted verbatim.
    Text(String),
    /// An interpolation: the expression's value is emitted.
    Interpolate(Expr),
    /// A conditional: the named variable selects one of the two arms.
    Conditional(String, Vec<TemplateNode>, Vec<TemplateNode>),
    /// An iteration: the body is emitted once per element of the named
    /// sequence, with the binder naming the current element.
    Iteration(String, String, Vec<TemplateNode>),
}

/// The mathematical shape of an expression.
pub enum SpecExpr {
    Literal(Seq<char>),
    Variable(Seq<char>),
    Concat(Box<SpecExpr>, Box<SpecExpr>),
}

/// The mathematical shape of a template node.
pub enum SpecNode {
    Text(Seq<char>),
    Interpolate(SpecExpr),
    Conditional(Seq<char>, Seq<SpecNode>, Seq<SpecNode>),
    Iteration(Seq<char>, Seq<char>, Seq<SpecNode>),
}

impl Expr {
    /// The mathematical view of this expression.
    pub open spec fn sp(self) -> SpecExpr
        decreases self,
    {
        match self {
            Expr::Literal(s) => SpecExpr::Literal(s@),
            Expr::Variable(s) => SpecExpr::Variable(s@),
            Expr::Concat(a, b) => SpecExpr::Concat(Box::new(a.sp()), Box::new(b.sp())),
        }
    }
}

impl TemplateNode {
    /// The mathematical view of this node.
    pub open spec fn sp(self) -> SpecNode
        decreases self,
    {
        match self {
            TemplateNode::Text(s) => SpecNode::Text(s@),
            TemplateNode::Interpolate(e) => SpecNode::Interpolate(e.sp()),
            TemplateNode::Conditional(c, a, b) => SpecNode::Conditional(c@, nodes_sp(a@), nodes_sp(b@)),
            TemplateNode::Iteration(x, src, body) => SpecNode::Iteration(x@, src@, nodes_sp(body@)),
        }
    }
}

/// The views of a sequence of nodes, in order.
pub open spec fn nodes_sp(ns: Seq<TemplateNode>) -> Seq<SpecNode>
    decreases ns,
{
    if ns.len() == 0 {
        Seq::empty()
    } else {
        nodes_sp(ns.drop_last()).push(ns.last().sp())
    }
}

/// `nodes_sp` maps the sequence pointwise.
pub proof fn lemma_nodes_sp(ns: Seq<TemplateNode>)
    ensures
        nodes_sp(ns).len() == ns.len(),
        forall|i: int|
            #![trigger nodes_sp(ns)[i]]
            #![trigger ns[i].sp()]
            0 <= i < ns.len() ==> nodes_sp(ns)[i] == ns[i].sp(),
    decreases ns.len(),
{
    if ns.len() > 0 {
        lemma_nodes_sp(ns.drop_last());
        assert forall|i: int| 0 <= i < ns.len() implies nodes_sp(ns)[i] == ns[i].sp() by {
            if i < ns.len() - 1 {
                assert(ns.drop_last()[i] == ns[i]);
            } else {
                assert(ns[i] == ns.last());
            }
        }
    }
}

/// Whitespace inside tags and around expression tokens.
pub open spec fn is_ws(c: char) -> bool {
    c == ' ' || c == '\t' || c == '\n' || c == '\r'
}

/// A character of a name: a letter, a digit or an underscore.
pub open spec fn is_ident_char(c: char) -> bool {
    (97 <= c as u32 <= 122) || (65 <= c as u32 <= 90) || (48 <= c as u32 <= 57) || c == '_'
}

/// A string-literal quote: `"`, `'` or a backtick.
pub open spec fn is_quote(c: char) -> bool {
    c == '"' || c == '\'' || c == '`'
}

/// The first index in `[i, end)` holding a non-whitespace character, or `end`.
pub open spec fn skip_ws(s: Seq<char>, i: int, end: int) -> int
    decreases end - i,
{
    if 0 <= i < end <= s.len() && is_ws(s[i]) {
        skip_ws(s, i + 1, end)
    } else {
        i
    }
}

/// `skip_ws` stays within `[i, end]`.
pub proof fn lemma_skip_ws(s: Seq<char>, i: int, end: int)
    requires
        0 <= i <= end <= s.len(),
    ensures
        i <= skip_ws(s, i, end) <= end,
    decreases end - i,
{
    if i < end && is_ws(s[i]) {
        lemma_skip_ws(s, i + 1, end);
    }
}

/// The end of the run of name characters starting at `i`, capped at `end`.
pub open spec fn ident_end(s: Seq<char>, i: int, end: int) -> int
    decreases end - i,
{
    if 0 <= i < end <= s.len() && is_ident_char(s[i]) {
        ident_end(s, i + 1, end)
    } else {
        i
    }
}

/// `ident_end` stays within `[i, end]`.
pub proof fn lemma_ident_end(s: Seq<char>, i: int, end: int)
    requires
        0 <= i <= end <= s.len(),
    ensures
        i <= ident_end(s, i, end) <= end,
    decreases end - i,
{
    if i < end && is_ident_char(s[i]) {
        lemma_ident_end(s, i + 1, end);
    }
}

/// The first index in `[i, end)` holding `q`, or `-1`.
pub open spec fn find_char(s: Seq<char>, i: int, end: int, q: char) -> int
    decreases end - i,
{
    if !(0 <= i < end <= s.len()) {
        -1
    } else if s[i] == q {
        i
    } else {
        find_char(s, i + 1, end, q)
    }
}

/// `find_char` returns `-1` or an index of `q` within `[i, end)`.
pub proof fn lemma_find_char(s: Seq<char>, i: int, end: int, q: char)
    requires
        0 <= i,
    ensures
        find_char(s, i, end, q) == -1 || (i <= find_char(s, i, end, q) < end && s[find_char(
            s,
            i,
            end,
            q,
        )] == q),
    decreases end - i,
{
    if 0 <= i < end <= s.len() && s[i] != q {
        lemma_find_char(s, i + 1, end, q);
    }
}

/// The first index at or after `i` where the two-character sequence
/// `c0 c1` begins, or `-1`.
pub open spec fn find_two(s: Seq<char>, i: int, c0: char, c1: char) -> int
    decreases s.len() - i,
{
    if i < 0 || i + 2 > s.len() {
        -1
    } else if s[i] == c0 && s[i + 1] == c1 {
        i
    } else {
        find_two(s, i + 1, c0, c1)
    }
}

/// `find_two` returns `-1` or the start of an occurrence at or after `i`.
pub proof fn lemma_find_two(s: Seq<char>, i: int, c0: char, c1: char)
    requires
        0 <= i,
    ensures
        find_two(s, i, c0, c1) == -1 || (i <= find_two(s, i, c0, c1) && find_two(s, i, c0, c1) + 2
            <= s.len() && s[find_two(s, i, c0, c1)] == c0 && s[find_two(s, i, c0, c1) + 1] == c1),
    decreases s.len() - i,
{
    if i + 2 <= s.len() && !(s[i] == c0 && s[i + 1] == c1) {
        lemma_find_two(s, i + 1, c0, c1);
    }
}

/// The first index at or after `i` where a `{{` or `{%` marker begins,
/// or `-1`.
pub open spec fn find_marker(s: Seq<char>, i: int) -> int
    decreases s.len() - i,
{
    if i < 0 || i + 2 > s.len() {
        -1
    } else if s[i] == '{' && (s[i + 1] == '{' || s[i + 1] == '%') {
        i
    } else {
        find_marker(s, i + 1)
    }
}

/// `find_marker` returns `-1` or the start of a marker at or after `i`.
pub proof fn lemma_find_marker(s: Seq<char>, i: int)
    requires
        0 <= i,
    ensures
        find_marker(s, i) == -1 || (i <= find_marker(s, i) && find_marker(s, i) + 2 <= s.len()),
    decreases s.len() - i,
{
    if i + 2 <= s.len() && !(s[i] == '{' && (s[i + 1] == '{' || s[i + 1] == '%')) {
        lemma_find_marker(s, i + 1);
    }
}

/// The syntax-error message for an interpolation with no closing marker.
pub open spec fn msg_unclosed_interpolation() -> Seq<char> {
    "interpolation is missing its closing marker"@
}

/// The syntax-error message for a tag with no closing marker.
pub open spec fn msg_unclosed_tag() -> Seq<char> {
    "tag is missing its closing marker"@
}

/// The syntax-error message for a missing expression token.
pub open spec fn msg_expected_value() -> Seq<char> {
    "expected a name or a string literal"@
}

/// The syntax-error message for a string literal with no closing quote.
pub open spec fn msg_unclosed_literal() -> Seq<char> {
    "string literal is missing its closing quote"@
}

/// The syntax-error message for a stray character inside an expression.
pub open spec fn msg_unexpected_in_expression() -> Seq<char> {
    "unexpected character in an expression"@
}

/// The syntax-error message for a tag keyword the grammar does not know.
pub open spec fn msg_unknown_tag() -> Seq<char> {
    "unknown tag"@
}

/// The syntax-error message for a block tag without its variable name.
pub open spec fn msg_tag_needs_name() -> Seq<char> {
    "tag is missing a name"@
}

/// The syntax-error message for an iteration tag without its `in` keyword.
pub open spec fn msg_for_needs_in() -> Seq<char> {
    "iteration tag is missing `in`"@
}

/// The syntax-error message for trailing text inside a tag.
pub open spec fn msg_extra_in_tag() -> Seq<char> {
    "unexpected text in a tag"@
}

/// The syntax-error message for an `else` outside a conditional.
pub open spec fn msg_stray_else() -> Seq<char> {
    "`else` outside a conditional"@
}

/// The syntax-error message for a repeated `else`.
pub open spec fn msg_second_else() -> Seq<char> {
    "`else` repeated in a conditional"@
}

/// The syntax-error message for an `endif` with no open conditional.
pub open spec fn msg_stray_endif() -> Seq<char> {
    "`endif` without an opening `if`"@
}

/// The syntax-error message for an `endfor` with no open iteration.
pub open spec fn msg_stray_endfor() -> Seq<char> {
    "`endfor` without an opening `for`"@
}

/// The syntax-error message for a block tag left open at the template's end.
pub open spec fn msg_unclosed_block() -> Seq<char> {
    "a block tag is left unclosed"@
}

/// One term of an expression, starting at `i` within `[i, end)`: a quoted
/// string literal or a name. Yields the term and the index after it.
pub open spec fn parse_term(s: Seq<char>, i: int, end: int) -> Result<(SpecExpr, int), Seq<char>> {
    let j = skip_ws(s, i, end);
    if !(0 <= j < end <= s.len()) {
        Err(msg_expected_value())
    } else if is_quote(s[j]) {
        let k = find_char(s, j + 1, end, s[j]);
        if k < 0 {
            Err(msg_unclosed_literal())
        } else {
            Ok((SpecExpr::Literal(s.subrange(j + 1, k)), k + 1))
        }
    } else if is_ident_char(s[j]) {
        let k = ident_end(s, j, end);
        Ok((SpecExpr::Variable(s.subrange(j, k)), k))
    } else {
        Err(msg_unexpected_in_expression())
    }
}

/// A parsed term ends strictly after `i` and no later than `end`.
pub proof fn lemma_parse_term(s: Seq<char>, i: int, end: int)
    requires
        0 <= i <= end <= s.len(),
    ensures
        parse_term(s, i, end) matches Ok((e, j)) ==> i < j <= end,
{
    lemma_skip_ws(s, i, end);
    let j = skip_ws(s, i, end);
    if 0 <= j < end {
        if is_quote(s[j]) {
            lemma_find_char(s, j + 1, end, s[j]);
        } else if is_ident_char(s[j]) {
            lemma_ident_end(s, j, end);
            assert(ident_end(s, j, end) == ident_end(s, j + 1, end));
            lemma_ident_end(s, j + 1, end);
        }
    }
}

/// An expression within `[i, end)`: one or more terms joined by `~`,
/// consuming the whole region.
pub open spec fn parse_expr_from(s: Seq<char>, i: int, end: int) -> Result<SpecExpr, Seq<char>>
    decreases end - i,
{
    if !(0 <= i <= end <= s.len()) {
        Err(msg_expected_value())
    } else {
        match parse_term(s, i, end) {
            Err(m) => Err(m),
            Ok((e, j)) => {
                let j2 = skip_ws(s, j, end);
                if j2 >= end {
                    Ok(e)
                } else if s[j2] == '~' {
                    proof {
                        lemma_parse_term(s, i, end);
                        lemma_skip_ws(s, j, end);
                    }
                    match parse_expr_from(s, j2 + 1, end) {
                        Err(m) => Err(m),
                        Ok(rhs) => Ok(SpecExpr::Concat(Box::new(e), Box::new(rhs))),
                    }
                } else {
                    Err(msg_unexpected_in_expression())
                }
            },
        }
    }
}

/// One lexed element of a template.
pub enum SpecSeg {
    Text(Seq<char>),
    Interp(SpecExpr),
    If(Seq<char>),
    Else,
    Endif,
    For(Seq<char>, Seq<char>),
    Endfor,
}

/// The content of a `{% ... %}` tag within `[i, end)`.
pub open spec fn parse_tag(s: Seq<char>, i: int, end: int) -> Result<SpecSeg, Seq<char>> {
    if !(0 <= i <= end <= s.len()) {
        Err(msg_unknown_tag())
    } else {
        let j = skip_ws(s, i, end);
        let k = ident_end(s, j, end);
        if k == j {
            Err(msg_unknown_tag())
        } else {
            let kw = s.subrange(j, k);
            if kw == "if"@ {
                let a = skip_ws(s, k, end);
                let b = ident_end(s, a, end);
                if b == a {
                    Err(msg_tag_needs_name())
                } else if skip_ws(s, b, end) != end {
                    Err(msg_extra_in_tag())
                } else {
                    Ok(SpecSeg::If(s.subrange(a, b)))
                }
            } else if kw == "for"@ {
                let a = skip_ws(s, k, end);
                let b = ident_end(s, a, end);
                if b == a {
                    Err(msg_tag_needs_name())
                } else {
                    let c = skip_ws(s, b, end);
                    let d = ident_end(s, c, end);
                    if s.subrange(c, d) != "in"@ {
                        Err(msg_for_needs_in())
                    } else {
                        let a2 = skip_ws(s, d, end);
                        let b2 = ident_end(s, a2, end);
                        if b2 == a2 {
                            Err(msg_tag_needs_name())
                        } else if skip_ws(s, b2, end) != end {
                            Err(msg_extra_in_tag())
                        } else {
                            Ok(SpecSeg::For(s.subrange(a, b), s.subrange(a2, b2)))
                        }
                    }
                }
            } else if kw == "else"@ {
                if skip_ws(s, k, end) != end {
                    Err(msg_extra_in_tag())
                } else {
                    Ok(SpecSeg::Else)
                }
            } else if kw == "endif"@ {
                if skip_ws(s, k, end) != end {
                    Err(msg_extra_in_tag())
                } else {
                    Ok(SpecSeg::Endif)
                }
            } else if kw == "endfor"@ {
                if skip_ws(s, k, end) != end {
                    Err(msg_extra_in_tag())
                } else {
                    Ok(SpecSeg::Endfor)
                }
            } else {
                Err(msg_unknown_tag())
            }
        }
    }
}

/// The lexed elements of the template from `i` on: literal text runs,
/// interpolations and tags, in order.
pub open spec fn lex(s: Seq<char>, i: int) -> Result<Seq<SpecSeg>, Seq<char>>
    decreases s.len() - i,
{
    if i < 0 || i >= s.len() {
        Ok(Seq::empty())
    } else if i + 2 <= s.len() && s[i] == '{' && s[i + 1] == '{' {
        let j = find_two(s, i + 2, '}', '}');
        if j < 0 {
            Err(msg_unclosed_interpolation())
        } else {
            match parse_expr_from(s, i + 2, j) {
                Err(m) => Err(m),
                Ok(e) => {
                    proof {
                        lemma_find_two(s, i + 2, '}', '}');
                    }
                    match lex(s, j + 2) {
                        Err(m) => Err(m),
                        Ok(rest) => Ok(seq![SpecSeg::Interp(e)] + rest),
                    }
                },
            }
        }
    } else if i + 2 <= s.len() && s[i] == '{' && s[i + 1] == '%' {
        let j = find_two(s, i + 2, '%', '}');
        if j < 0 {
            Err(msg_unclosed_tag())
        } else {
            match parse_tag(s, i + 2, j) {
                Err(m) => Err(m),
                Ok(sg) => {
                    proof {
                        lemma_find_two(s, i + 2, '%', '}');
                    }
                    match lex(s, j + 2) {
                        Err(m) => Err(m),
                        Ok(rest) => Ok(seq![sg] + rest),
                    }
                },
            }
        }
    } else {
        let j = find_marker(s, i + 1);
        if j < 0 {
            Ok(seq![SpecSeg::Text(s.subrange(i, s.len() as int))])
        } else {
            proof {
                lemma_find_marker(s, i + 1);
            }
            match lex(s, j) {
                Err(m) => Err(m),
                Ok(rest) => Ok(seq![SpecSeg::Text(s.subrange(i, j))] + rest),
            }
        }
    }
}

/// What a block frame is for: the template's top level, an open conditional
/// (with its first arm saved once `else` is seen), or an open iteration.
pub enum SpecFrameKind {
    Top,
    If(Seq<char>, Option<Seq<SpecNode>>),
    For(Seq<char>, Seq<char>),
}

/// One frame of the block stack: the open construct and the nodes collected
/// for its current arm.
pub struct SpecFrame {
    pub kind: SpecFrameKind,
    pub nodes: Seq<SpecNode>,
}

/// Appends `node` to the arm being collected on the top frame.
pub open spec fn push_node(stack: Seq<SpecFrame>, node: SpecNode) -> Seq<SpecFrame> {
    let top = stack.last();
    stack.update(stack.len() - 1, SpecFrame { kind: top.kind, nodes: top.nodes.push(node) })
}

/// Processes one lexed element against the block stack.
pub open spec fn fold_step(stack: Seq<SpecFrame>, sg: SpecSeg) -> Result<Seq<SpecFrame>, Seq<char>> {
    if stack.len() == 0 {
        Err(msg_unclosed_block())
    } else {
        let top = stack.last();
        match sg {
            SpecSeg::Text(t) => Ok(push_node(stack, SpecNode::Text(t))),
            SpecSeg::Interp(e) => Ok(push_node(stack, SpecNode::Interpolate(e))),
            SpecSeg::If(c) => Ok(
                stack.push(SpecFrame { kind: SpecFrameKind::If(c, None), nodes: Seq::empty() }),
            ),
            SpecSeg::For(x, src) => Ok(
                stack.push(SpecFrame { kind: SpecFrameKind::For(x, src), nodes: Seq::empty() }),
            ),
            SpecSeg::Else => match top.kind {
                SpecFrameKind::If(c, opt) => if opt is Some {
                    Err(msg_second_else())
                } else {
                    Ok(
                        stack.update(
                            stack.len() - 1,
                            SpecFrame {
                                kind: SpecFrameKind::If(c, Some(top.nodes)),
                                nodes: Seq::empty(),
                            },
                        ),
                    )
                },
                _ => Err(msg_stray_else()),
            },
            SpecSeg::Endif => match top.kind {
                SpecFrameKind::If(c, opt) => if stack.len() < 2 {
                    Err(msg_stray_endif())
                } else {
                    let node = match opt {
                        Some(first_arm) => SpecNode::Conditional(c, first_arm, top.nodes),
                        None => SpecNode::Conditional(c, top.nodes, Seq::empty()),
                    };
                    Ok(push_node(stack.drop_last(), node))
                },
                _ => Err(msg_stray_endif()),
            },
            SpecSeg::Endfor => match top.kind {
                SpecFrameKind::For(x, src) => if stack.len() < 2 {
                    Err(msg_stray_endfor())
                } else {
                    Ok(push_node(stack.drop_last(), SpecNode::Iteration(x, src, top.nodes)))
                },
                _ => Err(msg_stray_endfor()),
            },
        }
    }
}

/// Folds the lexed elements from `i` on over the block stack; at the end the
/// stack must hold the single top-level frame, whose nodes are the template.
pub open spec fn fold_segs(segs: Seq<SpecSeg>, i: int, stack: Seq<SpecFrame>) -> Result<
    Seq<SpecNode>,
    Seq<char>,
>
    decreases segs.len() - i,
{
    if i < 0 || i >= segs.len() {
        if stack.len() == 1 && stack[0].kind is Top {
            Ok(stack[0].nodes)
        } else {
            Err(msg_unclosed_block())
        }
    } else {
        match fold_step(stack, segs[i]) {
            Err(m) => Err(m),
            Ok(st2) => fold_segs(segs, i + 1, st2),
        }
    }
}

/// The starting block stack: one empty top-level frame.
pub open spec fn init_stack() -> Seq<SpecFrame> {
    seq![SpecFrame { kind: SpecFrameKind::Top, nodes: Seq::empty() }]
}

/// The parse of a whole template: its lexed elements folded into a node
/// tree, or the first syntax fault.
pub open spec fn spec_parse(s: Seq<char>) -> Result<Seq<SpecNode>, Seq<char>> {
    match lex(s, 0) {
        Err(m) => Err(m),
        Ok(segs) => fold_segs(segs, 0, init_stack()),
    }
}

/// Whitespace, executable form.
fn ws_char(c: char) -> (r: bool)
    ensures
        r == is_ws(c),
{
    c == ' ' || c == '\t' || c == '\n' || c == '\r'
}

/// A name character, executable form.
fn ident_char(c: char) -> (r: bool)
    ensures
        r == is_ident_char(c),
{
    let u = c as u32;
    (97 <= u && u <= 122) || (65 <= u && u <= 90) || (48 <= u && u <= 57) || c == '_'
}

/// A string-literal quote, executable form.
fn quote_char(c: char) -> (r: bool)
    ensures
        r == is_quote(c),
{
    c == '"' || c == '\'' || c == '`'
}

/// `skip_ws`, executable form.
fn skip_ws_exec(cs: &Vec<char>, i: usize, end: usize) -> (j: usize)
    requires
        i <= end <= cs@.len(),
    ensures
        j as int == skip_ws(cs@, i as int, end as int),
        i <= j <= end,
{
    let mut j = i;
    while j < end && ws_char(cs[j])
        invariant
            i <= j <= end,
            end <= cs@.len(),
            skip_ws(cs@, i as int, end as int) == skip_ws(cs@, j as int, end as int),
        decreases end - j,
    {
        j = j + 1;
    }
    j
}

/// `ident_end`, executable form.
fn ident_end_exec(cs: &Vec<char>, i: usize, end: usize) -> (j: usize)
    requires
        i <= end <= cs@.len(),
    ensures
        j as int == ident_end(cs@, i as int, end as int),
        i <= j <= end,
{
    let mut j = i;
    while j < end && ident_char(cs[j])
        invariant
            i <= j <= end,
            end <= cs@.len(),
            ident_end(cs@, i as int, end as int) == ident_end(cs@, j as int, end as int),
        decreases end - j,
    {
        j = j + 1;
    }
    j
}

/// `find_char`, executable form.
pub(crate) fn find_char_exec(cs: &Vec<char>, i: usize, end: usize, q: char) -> (r: Option<usize>)
    requires
        i <= end <= cs@.len(),
    ensures
        match r {
            Some(k) => find_char(cs@, i as int, end as int, q) == k as int && i <= k < end,
            None => find_char(cs@, i as int, end as int, q) == -1,
        },
{
    let mut j = i;
    while j < end && cs[j] != q
        invariant
            i <= j <= end,
            end <= cs@.len(),
            find_char(cs@, i as int, end as int, q) == find_char(cs@, j as int, end as int, q),
        decreases end - j,
    {
        j = j + 1;
    }
    if j < end {
        Some(j)
    } else {
        None
    }
}

/// `find_two`, executable form.
fn find_two_exec(cs: &Vec<char>, i: usize, c0: char, c1: char) -> (r: Option<usize>)
    requires
        i <= cs@.len(),
    ensures
        match r {
            Some(k) => find_two(cs@, i as int, c0, c1) == k as int && i <= k && k + 2 <= cs@.len(),
            None => find_two(cs@, i as int, c0, c1) == -1,
        },
{
    let n = cs.len();
    let mut j = i;
    while (n >= 2 && j <= n - 2) && !(cs[j] == c0 && cs[j + 1] == c1)
        invariant
            i <= j,
            n == cs@.len(),
            j <= n + 1,
            find_two(cs@, i as int, c0, c1) == find_two(cs@, j as int, c0, c1),
        decreases n - j,
    {
        j = j + 1;
    }
    if n >= 2 && j <= n - 2 {
        Some(j)
    } else {
        None
    }
}

/// `find_marker`, executable form.
fn find_marker_exec(cs: &Vec<char>, i: usize) -> (r: Option<usize>)
    requires
        i <= cs@.len(),
    ensures
        match r {
            Some(k) => find_marker(cs@, i as int) == k as int && i <= k && k + 2 <= cs@.len(),
            None => find_marker(cs@, i as int) == -1,
        },
{
    let n = cs.len();
    let mut j = i;
    while (n >= 2 && j <= n - 2) && !(cs[j] == '{' && (cs[j + 1] == '{' || cs[j + 1] == '%'))
        invariant
            i <= j,
            n == cs@.len(),
            j <= n + 1,
            find_marker(cs@, i as int) == find_marker(cs@, j as int),
        decreases n - j,
    {
        j = j + 1;
    }
    if n >= 2 && j <= n - 2 {
        Some(j)
    } else {
        None
    }
}

/// One term of an expression, executable form.
fn parse_term_exec(cs: &Vec<char>, i: usize, end: usize) -> (r: Result<(Expr, usize), String>)
    requires
        i <= end <= cs@.len(),
    ensures
        match r {
            Ok((e, j)) => parse_term(cs@, i as int, end as int) matches Ok((ge, gj)) && e.sp() == ge
                && j as int == gj && i < j <= end,
            Err(m) => parse_term(cs@, i as int, end as int) matches Err(gm) && m@ == gm,
        },
{
    proof {
        lemma_parse_term(cs@, i as int, end as int);
    }
    let j = skip_ws_exec(cs, i, end);
    if j >= end {
        return Err(String::from_str("expected a name or a string literal"));
    }
    let c = cs[j];
    if quote_char(c) {
        match find_char_exec(cs, j + 1, end, c) {
            None => Err(String::from_str("string literal is missing its closing quote")),
            Some(k) => Ok((Expr::Literal(crate::text::string_from_range(cs, j + 1, k)), k + 1)),
        }
    } else if ident_char(c) {
        let k = ident_end_exec(cs, j, end);
        proof {
            lemma_ident_end(cs@, j as int + 1, end as int);
        }
        Ok((Expr::Variable(crate::text::string_from_range(cs, j, k)), k))
    } else {
        Err(String::from_str("unexpected character in an expression"))
    }
}

/// An expression within `[i, end)`, executable form.
fn parse_expr_exec(cs: &Vec<char>, i: usize, end: usize) -> (r: Result<Expr, String>)
    requires
        i <= end <= cs@.len(),
    ensures
        match r {
            Ok(e) => parse_expr_from(cs@, i as int, end as int) matches Ok(ge) && e.sp() == ge,
            Err(m) => parse_expr_from(cs@, i as int, end as int) matches Err(gm) && m@ == gm,
        },
    decreases end - i,
{
    match parse_term_exec(cs, i, end) {
        Err(m) => Err(m),
        Ok((e, j)) => {
            let j2 = skip_ws_exec(cs, j, end);
            if j2 >= end {
                Ok(e)
            } else if cs[j2] == '~' {
                match parse_expr_exec(cs, j2 + 1, end) {
                    Err(m) => Err(m),
                    Ok(rhs) => Ok(Expr::Concat(Box::new(e), Box::new(rhs))),
                }
            } else {
                Err(String::from_str("unexpected character in an expression"))
            }
        },
    }
}

/// One lexed element of a template, executable form.
#[derive(Debug)]
pub enum Seg {
    Text(String),
    Interp(Expr),
    If(String),
    Else,
    Endif,
    For(String, String),
    Endfor,
}

impl Seg {
    /// The mathematical view of this element.
    pub open spec fn sp(self) -> SpecSeg {
        match self {
            Seg::Text(s) => SpecSeg::Text(s@),
            Seg::Interp(e) => SpecSeg::Interp(e.sp()),
            Seg::If(c) => SpecSeg::If(c@),
            Seg::Else => SpecSeg::Else,
            Seg::Endif => SpecSeg::Endif,
            Seg::For(a, b) => SpecSeg::For(a@, b@),
            Seg::Endfor => SpecSeg::Endfor,
        }
    }
}

/// The views of a sequence of lexed elements, in order.
pub open spec fn segs_sp(ss: Seq<Seg>) -> Seq<SpecSeg>
    decreases ss,
{
    if ss.len() == 0 {
        Seq::empty()
    } else {
        segs_sp(ss.drop_last()).push(ss.last().sp())
    }
}

/// `segs_sp` maps the sequence pointwise.
pub proof fn lemma_segs_sp(ss: Seq<Seg>)
    ensures
        segs_sp(ss).len() == ss.len(),
        forall|i: int|
            #![trigger segs_sp(ss)[i]]
            #![trigger ss[i].sp()]
            0 <= i < ss.len() ==> segs_sp(ss)[i] == ss[i].sp(),
    decreases ss.len(),
{
    if ss.len() > 0 {
        lemma_segs_sp(ss.drop_last());
        assert forall|i: int| 0 <= i < ss.len() implies segs_sp(ss)[i] == ss[i].sp() by {
            if i < ss.len() - 1 {
                assert(ss.drop_last()[i] == ss[i]);
            } else {
                assert(ss[i] == ss.last());
            }
        }
    }
}

/// The content of a tag, executable form.
fn parse_tag_exec(cs: &Vec<char>, i: usize, end: usize) -> (r: Result<Seg, String>)
    requires
        i <= end <= cs@.len(),
    ensures
        match r {
            Ok(sg) => parse_tag(cs@, i as int, end as int) matches Ok(gsg) && sg.sp() == gsg,
            Err(m) => parse_tag(cs@, i as int, end as int) matches Err(gm) && m@ == gm,
        },
{
    let j = skip_ws_exec(cs, i, end);
    let k = ident_end_exec(cs, j, end);
    if k == j {
        return Err(String::from_str("unknown tag"));
    }
    let kw = crate::text::string_from_range(cs, j, k);
    if crate::text::str_eq(kw.as_str(), "if") {
        let a = skip_ws_exec(cs, k, end);
        let b = ident_end_exec(cs, a, end);
        if b == a {
            Err(String::from_str("tag is missing a name"))
        } else if skip_ws_exec(cs, b, end) != end {
            Err(String::from_str("unexpected text in a tag"))
        } else {
            Ok(Seg::If(crate::text::string_from_range(cs, a, b)))
        }
    } else if crate::text::str_eq(kw.as_str(), "for") {
        let a = skip_ws_exec(cs, k, end);
        let b = ident_end_exec(cs, a, end);
        if b == a {
            return Err(String::from_str("tag is missing a name"));
        }
        let c = skip_ws_exec(cs, b, end);
        let d = ident_end_exec(cs, c, end);
        let kw2 = crate::text::string_from_range(cs, c, d);
        if !crate::text::str_eq(kw2.as_str(), "in") {
            return Err(String::from_str("iteration tag is missing `in`"));
        }
        let a2 = skip_ws_exec(cs, d, end);
        let b2 = ident_end_exec(cs, a2, end);
        if b2 == a2 {
            Err(String::from_str("tag is missing a name"))
        } else if skip_ws_exec(cs, b2, end) != end {
            Err(String::from_str("unexpected text in a tag"))
        } else {
            Ok(
                Seg::For(
                    crate::text::string_from_range(cs, a, b),
                    crate::text::string_from_range(cs, a2, b2),
                ),
            )
        }
    } else if crate::text::str_eq(kw.as_str(), "else") {
        if skip_ws_exec(cs, k, end) != end {
            Err(String::from_str("unexpected text in a tag"))
        } else {
            Ok(Seg::Else)
        }
    } else if crate::text::str_eq(kw.as_str(), "endif") {
        if skip_ws_exec(cs, k, end) != end {
            Err(String::from_str("unexpected text in a tag"))
        } else {
            Ok(Seg::Endif)
        }
    } else if crate::text::str_eq(kw.as_str(), "endfor") {
        if skip_ws_exec(cs, k, end) != end {
            Err(String::from_str("unexpected text in a tag"))
        } else {
            Ok(Seg::Endfor)
        }
    } else {
        Err(String::from_str("unknown tag"))
    }
}

/// Lexes a template into its elements, executable form.
fn lex_exec(cs: &Vec<char>) -> (r: Result<Vec<Seg>, String>)
    ensures
        match r {
            Ok(v) => lex(cs@, 0) matches Ok(gs) && segs_sp(v@) == gs,
            Err(m) => lex(cs@, 0) matches Err(gm) && m@ == gm,
        },
{
    let n = cs.len();
    let mut out: Vec<Seg> = Vec::new();
    let mut i: usize = 0;
    proof {
        assert(Seq::<SpecSeg>::empty() + (match lex(cs@, 0) {
            Ok(g) => g,
            Err(_) => Seq::empty(),
        }) =~= (match lex(cs@, 0) {
            Ok(g) => g,
            Err(_) => Seq::empty(),
        }));
    }
    loop
        invariant
            i <= n,
            n == cs@.len(),
            match lex(cs@, i as int) {
                Ok(rest) => lex(cs@, 0) matches Ok(all) && all == segs_sp(out@) + rest,
                Err(m) => lex(cs@, 0) matches Err(gm) && gm == m,
            },
        decreases n - i,
    {
        let ghost prev = out@;
        if i >= n {
            proof {
                assert(segs_sp(out@) + Seq::<SpecSeg>::empty() =~= segs_sp(out@));
            }
            return Ok(out);
        }
        if (n >= 2 && i <= n - 2) && cs[i] == '{' && cs[i + 1] == '{' {
            match find_two_exec(cs, i + 2, '}', '}') {
                None => {
                    return Err(String::from_str("interpolation is missing its closing marker"));
                },
                Some(j) => {
                    match parse_expr_exec(cs, i + 2, j) {
                        Err(m) => {
                            return Err(m);
                        },
                        Ok(e) => {
                            out.push(Seg::Interp(e));
                            proof {
                                lemma_lex_snoc(cs@, i as int, prev, Seg::Interp(e), j + 2);
                            }
                            i = j + 2;
                        },
                    }
                },
            }
        } else if (n >= 2 && i <= n - 2) && cs[i] == '{' && cs[i + 1] == '%' {
            match find_two_exec(cs, i + 2, '%', '}') {
                None => {
                    return Err(String::from_str("tag is missing its closing marker"));
                },
                Some(j) => {
                    match parse_tag_exec(cs, i + 2, j) {
                        Err(m) => {
                            return Err(m);
                        },
                        Ok(sg) => {
                            let ghost gsg = sg;
                            out.push(sg);
                            proof {
                                lemma_lex_snoc(cs@, i as int, prev, gsg, j + 2);
                            }
                            i = j + 2;
                        },
                    }
                },
            }
        } else {
            match find_marker_exec(cs, i + 1) {
                None => {
                    let t = crate::text::string_from_range(cs, i, n);
                    out.push(Seg::Text(t));
                    proof {
                        let sg = Seg::Text(t);
                        assert((prev.push(sg)).drop_last() =~= prev);
                        assert(segs_sp(prev.push(sg)) =~= segs_sp(prev).push(sg.sp()));
                        assert(segs_sp(prev) + seq![sg.sp()] =~= segs_sp(prev.push(sg)));
                        assert(segs_sp(out@) =~= segs_sp(prev) + seq![sg.sp()]);
                    }
                    return Ok(out);
                },
                Some(j) => {
                    let t = crate::text::string_from_range(cs, i, j);
                    let ghost sg = Seg::Text(t);
                    out.push(Seg::Text(t));
                    proof {
                        lemma_lex_snoc(cs@, i as int, prev, sg, j as int);
                    }
                    i = j;
                },
            }
        }
    }
}

/// Stepping the lexer: when `lex` at `i` yields one element followed by the
/// lex of `next`, appending that element keeps the collected prefix in step.
proof fn lemma_lex_snoc(s: Seq<char>, i: int, prev: Seq<Seg>, sg: Seg, next: int)
    requires
        match lex(s, i) {
            Ok(rest) => lex(s, 0) matches Ok(all) && all == segs_sp(prev) + rest,
            Err(m) => lex(s, 0) matches Err(gm) && gm == m,
        },
        lex(s, i) matches Ok(rest) ==> (lex(s, next) matches Ok(r2) && rest == seq![sg.sp()] + r2)
            || (lex(s, next) matches Err(m2) && lex(s, i) matches Err(m3) && m2 == m3),
        match lex(s, next) {
            Ok(r2) => lex(s, i) matches Ok(rest) && rest == seq![sg.sp()] + r2,
            Err(m2) => lex(s, i) matches Err(m3) && m2 == m3,
        },
    ensures
        match lex(s, next) {
            Ok(rest) => lex(s, 0) matches Ok(all) && all == segs_sp(prev.push(sg)) + rest,
            Err(m) => lex(s, 0) matches Err(gm) && gm == m,
        },
{
    match lex(s, next) {
        Ok(r2) => {
            assert((prev.push(sg)).drop_last() =~= prev);
            assert(segs_sp(prev.push(sg)) == segs_sp(prev).push(sg.sp()));
            assert(segs_sp(prev) + (seq![sg.sp()] + r2) =~= segs_sp(prev.push(sg)) + r2);
        },
        Err(_) => {},
    }
}

impl Expr {
    /// A deep copy with the same mathematical view.
    pub fn dup(&self) -> (r: Expr)
        ensures
            r.sp() == self.sp(),
        decreases *self,
    {
        match self {
            Expr::Literal(s) => Expr::Literal(s.clone()),
            Expr::Variable(s) => Expr::Variable(s.clone()),
            Expr::Concat(a, b) => Expr::Concat(Box::new(a.dup()), Box::new(b.dup())),
        }
    }
}

/// What a block frame is for, executable form.
#[derive(Debug)]
pub enum FrameKind {
    Top,
    If(String, Option<Vec<TemplateNode>>),
    For(String, String),
}

/// One frame of the block stack, executable form.
#[derive(Debug)]
pub struct Frame {
    pub kind: FrameKind,
    pub nodes: Vec<TemplateNode>,
}

impl FrameKind {
    /// The mathematical view of this frame kind.
    pub open spec fn sp(self) -> SpecFrameKind {
        match self {
            FrameKind::Top => SpecFrameKind::Top,
            FrameKind::If(c, o) => SpecFrameKind::If(
                c@,
                match o {
                    Option::None => Option::None,
                    Option::Some(v) => Option::Some(nodes_sp(v@)),
                },
            ),
            FrameKind::For(a, b) => SpecFrameKind::For(a@, b@),
        }
    }
}

impl Frame {
    /// The mathematical view of this frame.
    pub open spec fn sp(self) -> SpecFrame {
        SpecFrame { kind: self.kind.sp(), nodes: nodes_sp(self.nodes@) }
    }
}

/// The views of a stack of frames, in order.
pub open spec fn frames_sp(fs: Seq<Frame>) -> Seq<SpecFrame>
    decreases fs,
{
    if fs.len() == 0 {
        Seq::empty()
    } else {
        frames_sp(fs.drop_last()).push(fs.last().sp())
    }
}

/// `frames_sp` maps the sequence pointwise.
pub proof fn lemma_frames_sp(fs: Seq<Frame>)
    ensures
        frames_sp(fs).len() == fs.len(),
        forall|i: int|
            #![trigger frames_sp(fs)[i]]
            #![trigger fs[i].sp()]
            0 <= i < fs.len() ==> frames_sp(fs)[i] == fs[i].sp(),
    decreases fs.len(),
{
    if fs.len() > 0 {
        lemma_frames_sp(fs.drop_last());
        assert forall|i: int| 0 <= i < fs.len() implies frames_sp(fs)[i] == fs[i].sp() by {
            if i < fs.len() - 1 {
                assert(fs.drop_last()[i] == fs[i]);
            } else {
                assert(fs[i] == fs.last());
            }
        }
    }
}

/// Appends a node to the arm collected on the top frame, executable form.
fn push_node_exec(stack: &mut Vec<Frame>, node: TemplateNode)
    requires
        old(stack)@.len() >= 1,
    ensures
        frames_sp(final(stack)@) == push_node(frames_sp(old(stack)@), node.sp()),
        final(stack)@.len() == old(stack)@.len(),
{
    let ghost oldv = stack@;
    let ghost gnode = node;
    let mut top = match stack.pop() {
        Some(f) => f,
        None => {
            proof {
                assert(false);
            }
            Frame { kind: FrameKind::Top, nodes: Vec::new() }
        },
    };
    let ghost oldnodes = top.nodes@;
    top.nodes.push(node);
    stack.push(top);
    proof {
        let newv = stack@;
        lemma_frames_sp(oldv);
        lemma_frames_sp(newv);
        assert(newv.last().nodes@.drop_last() =~= oldnodes);
        assert(nodes_sp(newv.last().nodes@) == nodes_sp(oldnodes).push(gnode.sp()));
        assert(frames_sp(newv) =~~= push_node(frames_sp(oldv), gnode.sp()));
    }
}

/// `frames_sp` commutes with dropping the top frame.
proof fn lemma_frames_sp_drop_last(fs: Seq<Frame>)
    requires
        fs.len() >= 1,
    ensures
        frames_sp(fs.drop_last()) == frames_sp(fs).drop_last(),
{
    lemma_frames_sp(fs);
    lemma_frames_sp(fs.drop_last());
    assert(frames_sp(fs.drop_last()) =~= frames_sp(fs).drop_last());
}

/// Builds the node tree from the lexed elements, executable form.
fn parse_segs(segs: &Vec<Seg>) -> (r: Result<Vec<TemplateNode>, String>)
    ensures
        match r {
            Ok(ns) => fold_segs(segs_sp(segs@), 0, init_stack()) matches Ok(g) && nodes_sp(ns@)
                == g,
            Err(m) => fold_segs(segs_sp(segs@), 0, init_stack()) matches Err(gm) && m@ == gm,
        },
{
    let ghost gsegs = segs_sp(segs@);
    let mut stack: Vec<Frame> = Vec::new();
    stack.push(Frame { kind: FrameKind::Top, nodes: Vec::new() });
    proof {
        lemma_segs_sp(segs@);
        lemma_frames_sp(stack@);
        assert(nodes_sp(Seq::<TemplateNode>::empty()) =~= Seq::<SpecNode>::empty());
        assert(stack@[0].nodes@ =~= Seq::<TemplateNode>::empty());
        assert(frames_sp(stack@)[0] == stack@[0].sp());
        assert(frames_sp(stack@) =~~= init_stack());
    }
    let n = segs.len();
    let mut i: usize = 0;
    while i < n
        invariant
            i <= n,
            n == segs@.len(),
            gsegs == segs_sp(segs@),
            stack@.len() >= 1,
            fold_segs(gsegs, i as int, frames_sp(stack@)) == fold_segs(gsegs, 0, init_stack()),
        decreases n - i,
    {
        proof {
            lemma_segs_sp(segs@);
            lemma_frames_sp(stack@);
        }
        let ghost prestack = frames_sp(stack@);
        match &segs[i] {
            Seg::Text(t) => {
                push_node_exec(&mut stack, TemplateNode::Text(t.clone()));
            },
            Seg::Interp(e) => {
                push_node_exec(&mut stack, TemplateNode::Interpolate(e.dup()));
            },
            Seg::If(c) => {
                let ghost before = stack@;
                stack.push(Frame { kind: FrameKind::If(c.clone(), None), nodes: Vec::new() });
                proof {
                    assert(stack@.drop_last() =~= before);
                    assert(frames_sp(stack@) =~~= prestack.push(
                        SpecFrame { kind: SpecFrameKind::If(c@, None), nodes: Seq::empty() },
                    ));
                }
            },
            Seg::For(x, src) => {
                let ghost before = stack@;
                stack.push(
                    Frame { kind: FrameKind::For(x.clone(), src.clone()), nodes: Vec::new() },
                );
                proof {
                    assert(stack@.drop_last() =~= before);
                    assert(frames_sp(stack@) =~~= prestack.push(
                        SpecFrame { kind: SpecFrameKind::For(x@, src@), nodes: Seq::empty() },
                    ));
                }
            },
            Seg::Else => {
                let ghost before = stack@;
                let top = match stack.pop() {
                    Some(f) => f,
                    None => {
                        proof {
                            assert(false);
                        }
                        return Err(String::new());
                    },
                };
                match top.kind {
                    FrameKind::If(c, opt) => {
                        if opt.is_some() {
                            return Err(String::from_str("`else` repeated in a conditional"));
                        }
                        stack.push(
                            Frame {
                                kind: FrameKind::If(c, Some(top.nodes)),
                                nodes: Vec::new(),
                            },
                        );
                        proof {
                            assert(stack@ =~= before.update(before.len() - 1, stack@.last()));
                            lemma_frames_sp(stack@);
                            assert(frames_sp(stack@) =~~= fold_step(prestack, gsegs[i as int])->Ok_0);
                        }
                    },
                    _ => {
                        return Err(String::from_str("`else` outside a conditional"));
                    },
                }
            },
            Seg::Endif => {
                let ghost before = stack@;
                let top = match stack.pop() {
                    Some(f) => f,
                    None => {
                        proof {
                            assert(false);
                        }
                        return Err(String::new());
                    },
                };
                match top.kind {
                    FrameKind::If(c, opt) => {
                        if stack.len() == 0 {
                            return Err(String::from_str("`endif` without an opening `if`"));
                        }
                        let ghost gtopnodes = nodes_sp(top.nodes@);
                        let node = match opt {
                            Some(first_arm) => TemplateNode::Conditional(c, first_arm, top.nodes),
                            None => TemplateNode::Conditional(c, top.nodes, Vec::new()),
                        };
                        proof {
                            lemma_frames_sp_drop_last(before);
                        }
                        push_node_exec(&mut stack, node);
                    },
                    _ => {
                        return Err(String::from_str("`endif` without an opening `if`"));
                    },
                }
            },
            Seg::Endfor => {
                let ghost before = stack@;
                let top = match stack.pop() {
                    Some(f) => f,
                    None => {
                        proof {
                            assert(false);
                        }
                        return Err(String::new());
                    },
                };
                match top.kind {
                    FrameKind::For(x, src) => {
                        if stack.len() == 0 {
                            return Err(String::from_str("`endfor` without an opening `for`"));
                        }
                        let node = TemplateNode::Iteration(x, src, top.nodes);
                        proof {
                            lemma_frames_sp_drop_last(before);
                        }
                        push_node_exec(&mut stack, node);
                    },
                    _ => {
                        return Err(String::from_str("`endfor` without an opening `for`"));
                    },
                }
            },
        }
        i = i + 1;
    }
    proof {
        lemma_frames_sp(stack@);
    }
    if stack.len() != 1 {
        return Err(String::from_str("a block tag is left unclosed"));
    }
    let top = match stack.pop() {
        Some(f) => f,
        None => {
            proof {
                assert(false);
            }
            return Err(String::new());
        },
    };
    match top.kind {
        FrameKind::Top => Ok(top.nodes),
        _ => Err(String::from_str("a block tag is left unclosed")),
    }
}

/// Parses a whole template into its node tree, or reports the first syntax
/// fault.
pub fn parse_template(cs: &Vec<char>) -> (r: Result<Vec<TemplateNode>, String>)
    ensures
        match r {
            Ok(ns) => spec_parse(cs@) matches Ok(g) && nodes_sp(ns@) == g,
            Err(m) => spec_parse(cs@) matches Err(gm) && m@ == gm,
        },
{
    match lex_exec(cs) {
        Err(m) => Err(m),
        Ok(segs) => parse_segs(&segs),
    }
}

} // verus!

//! Evaluating a parsed template against a render context: variable lookup,
//! canonical text of values, HTML-entity escaping of interpolations, and the
//! control constructs of the grammar.

use vstd::prelude::*;
use crate::errors::PipelineError;
use crate::template::Expr;
use crate::template::SpecExpr;
use crate::template::SpecNode;
use crate::template::TemplateNode;
use crate::template::nodes_sp;
use crate::template::lemma_nodes_sp;
use crate::template::parse_template;
use crate::template::spec_parse;
use crate::text::chars_of;
use crate::text::escape_html;
use crate::text::escaped;
use crate::text::fmt_i64;
use crate::text::int_text;
use crate::text::str_eq;
use crate::values::MetadataValue;
use crate::values::SpecValue;
use crate::values::entries_sp;
use crate::values::lemma_entries_sp;
use crate::values::lemma_seq_sp;
use crate::values::lookup;
use crate::values::seq_sp;

verus! {

/// The canonical text of a value: empty for null, `true`/`false` for
/// booleans, decimal digits for numbers, the text itself for text, and
/// bracketed comma-separated forms for sequences and tables.
pub open spec fn canon(v: SpecValue) -> Seq<char>
    decreases v,
{
    match v {
        SpecValue::Null => Seq::empty(),
        SpecValue::Boolean(b) => if b {
            "true"@
        } else {
            "false"@
        },
        SpecValue::Number(n) => int_text(n as int),
        SpecValue::Text(s) => s,
        SpecValue::Sequence(vs) => "["@ + canon_items(vs) + "]"@,
        SpecValue::Table(es) => "{"@ + canon_entries(es) + "}"@,
    }
}

/// The canonical text of a sequence's elements, separated by `, `.
pub open spec fn canon_items(vs: Seq<SpecValue>) -> Seq<char>
    decreases vs,
{
    if vs.len() == 0 {
        Seq::empty()
    } else if vs.len() == 1 {
        canon(vs.last())
    } else {
        canon_items(vs.drop_last()) + ", "@ + canon(vs.last())
    }
}

/// The canonical text of a table's entries, `key: value`, separated by `, `.
pub open spec fn canon_entries(es: Seq<(Seq<char>, SpecValue)>) -> Seq<char>
    decreases es,
{
    if es.len() == 0 {
        Seq::empty()
    } else if es.len() == 1 {
        es.last().0 + ": "@ + canon(es.last().1)
    } else {
        canon_entries(es.drop_last()) + ", "@ + es.last().0 + ": "@ + canon(es.last().1)
    }
}

/// Whether a value selects the first arm of a conditional: false for null,
/// the value itself for booleans, nonzero for numbers, nonempty for text,
/// sequences and tables.
pub open spec fn truthy(v: SpecValue) -> bool {
    match v {
        SpecValue::Null => false,
        SpecValue::Boolean(b) => b,
        SpecValue::Number(n) => n != 0,
        SpecValue::Text(s) => s.len() > 0,
        SpecValue::Sequence(vs) => vs.len() > 0,
        SpecValue::Table(es) => es.len() > 0,
    }
}

/// The render-failure message for a name bound in no context entry.
pub open spec fn undef_msg(name: Seq<char>) -> Seq<char> {
    "undefined variable `"@ + name + "`"@
}

/// The render-failure message for iterating over a value that is not a
/// sequence.
pub open spec fn not_seq_msg(name: Seq<char>) -> Seq<char> {
    "`"@ + name + "` is not a sequence"@
}

/// The value of an expression under a context: a literal is text, a variable
/// resolves by exact name (an unresolved one is a hard failure), and `~`
/// joins the canonical texts of its sides.
pub open spec fn eval_expr(e: SpecExpr, ctx: Seq<(Seq<char>, SpecValue)>) -> Result<
    SpecValue,
    Seq<char>,
>
    decreases e,
{
    match e {
        SpecExpr::Literal(s) => Ok(SpecValue::Text(s)),
        SpecExpr::Variable(name) => match lookup(ctx, name) {
            Some(v) => Ok(v),
            None => Err(undef_msg(name)),
        },
        SpecExpr::Concat(a, b) => match eval_expr(*a, ctx) {
            Err(m) => Err(m),
            Ok(x) => match eval_expr(*b, ctx) {
                Err(m) => Err(m),
                Ok(y) => Ok(SpecValue::Text(canon(x) + canon(y))),
            },
        },
    }
}

/// The output of a sequence of nodes under a context: each node's output in
/// order, or the first failure.
pub open spec fn render_nodes(
    ns: Seq<SpecNode>,
    ctx: Seq<(Seq<char>, SpecValue)>,
    esc: bool,
) -> Result<Seq<char>, Seq<char>>
    decreases ns, 0nat,
{
    if ns.len() == 0 {
        Ok(Seq::empty())
    } else {
        match render_node(ns[0], ctx, esc) {
            Err(m) => Err(m),
            Ok(t) => match render_nodes(ns.drop_first(), ctx, esc) {
                Err(m) => Err(m),
                Ok(rest) => Ok(t + rest),
            },
        }
    }
}

/// The output of one node under a context. Text is emitted verbatim; an
/// interpolation emits its value's canonical text, HTML-entity escaped when
/// `esc` is set; a conditional renders the arm its variable's truthiness
/// selects; an iteration renders its body once per element of the named
/// sequence, the binder naming the element.
pub open spec fn render_node(n: SpecNode, ctx: Seq<(Seq<char>, SpecValue)>, esc: bool) -> Result<
    Seq<char>,
    Seq<char>,
>
    decreases n, 0nat,
{
    match n {
        SpecNode::Text(t) => Ok(t),
        SpecNode::Interpolate(e) => match eval_expr(e, ctx) {
            Err(m) => Err(m),
            Ok(v) => Ok(
                if esc {
                    escaped(canon(v))
                } else {
                    canon(v)
                },
            ),
        },
        SpecNode::Conditional(c, when_true, when_false) => match lookup(ctx, c) {
            None => Err(undef_msg(c)),
            Some(v) => if truthy(v) {
                render_nodes(when_true, ctx, esc)
            } else {
                render_nodes(when_false, ctx, esc)
            },
        },
        SpecNode::Iteration(x, src, body) => match lookup(ctx, src) {
            None => Err(undef_msg(src)),
            Some(v) => match v {
                SpecValue::Sequence(elems) => render_elems(x, elems, body, ctx, esc),
                _ => Err(not_seq_msg(src)),
            },
        },
    }
}

/// The output of an iteration body over the remaining elements: the body
/// rendered once per element, with the binder pushed onto the context.
pub open spec fn render_elems(
    x: Seq<char>,
    elems: Seq<SpecValue>,
    body: Seq<SpecNode>,
    ctx: Seq<(Seq<char>, SpecValue)>,
    esc: bool,
) -> Result<Seq<char>, Seq<char>>
    decreases body, elems.len(),
{
    if elems.len() == 0 {
        Ok(Seq::empty())
    } else {
        match render_nodes(body, ctx.push((x, elems[0])), esc) {
            Err(m) => Err(m),
            Ok(t) => match render_elems(x, elems.drop_first(), body, ctx, esc) {
                Err(m) => Err(m),
                Ok(rest) => Ok(t + rest),
            },
        }
    }
}

/// How rendering a template can fail: the template is not valid under the
/// grammar, or a valid template references what the context does not hold.
pub enum SpecFail {
    Syntax(Seq<char>),
    Render(Seq<char>),
}

/// The output of a whole template under a context: its parse rendered, or
/// the first failure.
pub open spec fn spec_render(
    t: Seq<char>,
    ctx: Seq<(Seq<char>, SpecValue)>,
    esc: bool,
) -> Result<Seq<char>, SpecFail> {
    match spec_parse(t) {
        Err(m) => Err(SpecFail::Syntax(m)),
        Ok(nodes) => match render_nodes(nodes, ctx, esc) {
            Err(m) => Err(SpecFail::Render(m)),
            Ok(o) => Ok(o),
        },
    }
}

/// The name/value environment a template is evaluated against. Later
/// insertions shadow earlier ones: the last write wins.
#[derive(Debug)]
pub struct RenderContext {
    pub entries: Vec<(String, MetadataValue)>,
}

impl RenderContext {
    /// The mathematical view: the entries as pairs of character sequences
    /// and spec values, in insertion order.
    pub open spec fn sp(self) -> Seq<(Seq<char>, SpecValue)> {
        entries_sp(self.entries@)
    }

    /// An empty context.
    pub fn new() -> (c: RenderContext)
        ensures
            c.sp() =~= Seq::<(Seq<char>, SpecValue)>::empty(),
    {
        RenderContext { entries: Vec::new() }
    }

    /// Binds `name` to `v`, shadowing any earlier binding of the same name.
    pub fn insert(&mut self, name: String, v: MetadataValue)
        ensures
            final(self).sp() == old(self).sp().push((name@, v.sp())),
    {
        let ghost oldes = self.entries@;
        self.entries.push((name, v));
        proof {
            assert(self.entries@.drop_last() =~= oldes);
        }
    }

    /// Removes the most recent binding.
    pub fn pop_entry(&mut self)
        requires
            old(self).sp().len() > 0,
        ensures
            final(self).sp() == old(self).sp().drop_last(),
    {
        proof {
            lemma_entries_sp(self.entries@);
        }
        let _ = self.entries.pop();
        proof {
            lemma_entries_sp(self.entries@);
            lemma_entries_sp(old(self).entries@);
            assert(entries_sp(self.entries@) =~= entries_sp(old(self).entries@).drop_last());
        }
    }

    /// The value the most recent binding of `name` holds, if any.
    pub fn get(&self, name: &str) -> (r: Option<&MetadataValue>)
        ensures
            match r {
                Some(v) => lookup(self.sp(), name@) == Some(v.sp()),
                None => lookup(self.sp(), name@) is None,
            },
    {
        proof {
            lemma_entries_sp(self.entries@);
            assert(self.sp().take(self.sp().len() as int) =~= self.sp());
        }
        let mut i = self.entries.len();
        while i > 0
            invariant
                i <= self.entries@.len(),
                lookup(self.sp(), name@) == lookup(self.sp().take(i as int), name@),
            decreases i,
        {
            proof {
                lemma_entries_sp(self.entries@);
            }
            i = i - 1;
            if str_eq(self.entries[i].0.as_str(), name) {
                proof {
                    assert(self.sp().take(i as int + 1).last() == self.sp()[i as int]);
                }
                return Some(&self.entries[i].1);
            }
            proof {
                assert(self.sp().take(i as int + 1).last() == self.sp()[i as int]);
                assert(self.sp().take(i as int + 1).drop_last() =~= self.sp().take(i as int));
            }
        }
        proof {
            assert(self.sp().take(0) =~= Seq::<(Seq<char>, SpecValue)>::empty());
        }
        None
    }
}

/// The canonical text of a value, executable form.
#[verifier::loop_isolation(false)]
pub fn canon_exec(v: &MetadataValue) -> (r: String)
    ensures
        r@ == canon(v.sp()),
    decreases *v,
{
    match v {
        MetadataValue::Null => String::new(),
        MetadataValue::Boolean(b) => if *b {
            String::from_str("true")
        } else {
            String::from_str("false")
        },
        MetadataValue::Number(n) => fmt_i64(*n),
        MetadataValue::Text(s) => s.clone(),
        MetadataValue::Sequence(vs) => {
            let mut out = String::from_str("[");
            let mut i: usize = 0;
            proof {
                lemma_seq_sp(vs@);
            }
            while i < vs.len()
                invariant
                    i <= vs@.len(),
                    out@ == "["@ + canon_items(seq_sp(vs@).take(i as int)),
                decreases vs@.len() - i,
            {
                if i > 0 {
                    out.append(", ");
                }
                let t = canon_exec(&vs[i]);
                out.append(t.as_str());
                i = i + 1;
                proof {
                    assert(seq_sp(vs@).take(i as int).drop_last() =~= seq_sp(vs@).take(
                        i as int - 1,
                    ));
                    assert(seq_sp(vs@).take(i as int).last() == seq_sp(vs@)[i as int - 1]);
                }
            }
            out.append("]");
            proof {
                assert(seq_sp(vs@).take(seq_sp(vs@).len() as int) =~= seq_sp(vs@));
            }
            out
        },
        MetadataValue::Table(es) => {
            let mut out = String::from_str("{");
            let mut i: usize = 0;
            proof {
                lemma_entries_sp(es@);
            }
            while i < es.len()
                invariant
                    i <= es@.len(),
                    out@ == "{"@ + canon_entries(entries_sp(es@).take(i as int)),
                decreases es@.len() - i,
            {
                if i > 0 {
                    out.append(", ");
                }
                out.append(es[i].0.as_str());
                out.append(": ");
                let t = canon_exec(&es[i].1);
                out.append(t.as_str());
                i = i + 1;
                proof {
                    assert(entries_sp(es@).take(i as int).drop_last() =~= entries_sp(es@).take(
                        i as int - 1,
                    ));
                    assert(entries_sp(es@).take(i as int).last() == entries_sp(es@)[i as int - 1]);
                }
            }
            out.append("}");
            proof {
                assert(entries_sp(es@).take(entries_sp(es@).len() as int) =~= entries_sp(es@));
            }
            out
        },
    }
}

/// Truthiness, executable form.
pub fn truthy_exec(v: &MetadataValue) -> (r: bool)
    ensures
        r == truthy(v.sp()),
{
    match v {
        MetadataValue::Null => false,
        MetadataValue::Boolean(b) => *b,
        MetadataValue::Number(n) => *n != 0,
        MetadataValue::Text(s) => s.as_str().unicode_len() > 0,
        MetadataValue::Sequence(vs) => {
            proof {
                lemma_seq_sp(vs@);
            }
            vs.len() > 0
        },
        MetadataValue::Table(es) => {
            proof {
                lemma_entries_sp(es@);
            }
            es.len() > 0
        },
    }
}

/// Builds the message for a name bound in no context entry.
fn undef_msg_exec(name: &str) -> (r: String)
    ensures
        r@ == undef_msg(name@),
{
    let mut m = String::from_str("undefined variable `");
    m.append(name);
    m.append("`");
    m
}

/// The value of an expression under a context, executable form.
fn eval_expr_exec(e: &Expr, ctx: &RenderContext) -> (r: Result<MetadataValue, String>)
    ensures
        match r {
            Ok(v) => eval_expr(e.sp(), ctx.sp()) matches Ok(gv) && v.sp() == gv,
            Err(m) => eval_expr(e.sp(), ctx.sp()) matches Err(gm) && m@ == gm,
        },
    decreases *e,
{
    match e {
        Expr::Literal(s) => Ok(MetadataValue::Text(s.clone())),
        Expr::Variable(name) => match ctx.get(name.as_str()) {
            Some(v) => Ok(v.dup()),
            None => Err(undef_msg_exec(name.as_str())),
        },
        Expr::Concat(a, b) => match eval_expr_exec(a, ctx) {
            Err(m) => Err(m),
            Ok(x) => match eval_expr_exec(b, ctx) {
                Err(m) => Err(m),
                Ok(y) => {
                    let mut t = canon_exec(&x);
                    let ty = canon_exec(&y);
                    t.append(ty.as_str());
                    Ok(MetadataValue::Text(t))
                },
            },
        },
    }
}

/// Renders a sequence of nodes into `out`, executable form. On success the
/// nodes' output is appended to `out`; the context is left as it was.
#[verifier::loop_isolation(false)]
fn render_nodes_exec(
    ns: &Vec<TemplateNode>,
    ctx: &mut RenderContext,
    esc: bool,
    out: &mut String,
) -> (r: Result<(), String>)
    ensures
        final(ctx).sp() == old(ctx).sp(),
        match r {
            Ok(_) => render_nodes(nodes_sp(ns@), old(ctx).sp(), esc) matches Ok(t) && final(out)@
                == old(out)@ + t,
            Err(m) => render_nodes(nodes_sp(ns@), old(ctx).sp(), esc) matches Err(gm) && m@ == gm,
        },
    decreases ns@, 1nat,
{
    let ghost gns = nodes_sp(ns@);
    let ghost octx = old(ctx).sp();
    proof {
        lemma_nodes_sp(ns@);
        assert(gns.skip(0) =~= gns);
    }
    let n = ns.len();
    let mut i: usize = 0;
    while i < n
        invariant
            i <= n,
            ctx.sp() == octx,
            match render_nodes(gns.skip(i as int), octx, esc) {
                Ok(rest) => render_nodes(gns, octx, esc) matches Ok(t) && out@ + rest == old(out)@
                    + t,
                Err(m) => render_nodes(gns, octx, esc) matches Err(gm) && gm == m,
            },
        decreases n - i,
    {
        proof {
            assert(gns.skip(i as int)[0] == gns[i as int]);
            assert(gns.skip(i as int).drop_first() =~= gns.skip(i as int + 1));
        }
        let ghost out_before = out@;
        match render_node_exec(&ns[i], ctx, esc, out) {
            Err(m) => {
                return Err(m);
            },
            Ok(_) => {},
        }
        proof {
            if render_nodes(gns.skip(i as int + 1), octx, esc) is Ok {
                let rest2 = render_nodes(gns.skip(i as int + 1), octx, esc)->Ok_0;
                let t0 = render_node(gns[i as int], octx, esc)->Ok_0;
                assert((out_before + t0) + rest2 =~= out_before + (t0 + rest2));
            }
        }
        i = i + 1;
    }
    proof {
        assert(gns.skip(n as int) =~= Seq::<SpecNode>::empty());
        assert(out@ + Seq::<char>::empty() =~= out@);
    }
    Ok(())
}

/// Renders one node into `out`, executable form.
#[verifier::loop_isolation(false)]
fn render_node_exec(
    n: &TemplateNode,
    ctx: &mut RenderContext,
    esc: bool,
    out: &mut String,
) -> (r: Result<(), String>)
    ensures
        final(ctx).sp() == old(ctx).sp(),
        match r {
            Ok(_) => render_node(n.sp(), old(ctx).sp(), esc) matches Ok(t) && final(out)@ == old(
                out,
            )@ + t,
            Err(m) => render_node(n.sp(), old(ctx).sp(), esc) matches Err(gm) && m@ == gm,
        },
    decreases *n, 0nat,
{
    match n {
        TemplateNode::Text(t) => {
            out.append(t.as_str());
            Ok(())
        },
        TemplateNode::Interpolate(e) => match eval_expr_exec(e, ctx) {
            Err(m) => Err(m),
            Ok(v) => {
                let c = canon_exec(&v);
                if esc {
                    let escd = escape_html(c.as_str());
                    out.append(escd.as_str());
                } else {
                    out.append(c.as_str());
                }
                Ok(())
            },
        },
        TemplateNode::Conditional(c, when_true, when_false) => {
            let taken: bool;
            match ctx.get(c.as_str()) {
                None => {
                    return Err(undef_msg_exec(c.as_str()));
                },
                Some(v) => {
                    taken = truthy_exec(v);
                },
            }
            if taken {
                render_nodes_exec(when_true, ctx, esc, out)
            } else {
                render_nodes_exec(when_false, ctx, esc, out)
            }
        },
        TemplateNode::Iteration(x, src, body) => {
            let dv: MetadataValue;
            match ctx.get(src.as_str()) {
                None => {
                    return Err(undef_msg_exec(src.as_str()));
                },
                Some(v) => {
                    dv = v.dup();
                },
            }
            match dv {
                MetadataValue::Sequence(elems) => {
                    let ghost gelems = seq_sp(elems@);
                    let ghost gbody = nodes_sp(body@);
                    let ghost octx = old(ctx).sp();
                    proof {
                        lemma_seq_sp(elems@);
                        assert(gelems.skip(0) =~= gelems);
                    }
                    let m = elems.len();
                    let mut j: usize = 0;
                    while j < m
                        invariant
                            j <= m,
                            ctx.sp() == octx,
                            match render_elems(x@, gelems.skip(j as int), gbody, octx, esc) {
                                Ok(rest) => render_elems(x@, gelems, gbody, octx, esc) matches Ok(
                                    t,
                                ) && out@ + rest == old(out)@ + t,
                                Err(gm) => render_elems(x@, gelems, gbody, octx, esc) matches Err(
                                    g0,
                                ) && g0 == gm,
                            },
                        decreases m - j,
                    {
                        proof {
                            assert(gelems.skip(j as int)[0] == gelems[j as int]);
                            assert(gelems.skip(j as int).drop_first() =~= gelems.skip(j as int + 1));
                        }
                        let ghost out_before = out@;
                        ctx.insert(x.clone(), elems[j].dup());
                        let step = render_nodes_exec(body, ctx, esc, out);
                        ctx.pop_entry();
                        proof {
                            assert(octx.push((x@, gelems[j as int])).drop_last() =~= octx);
                        }
                        match step {
                            Err(m2) => {
                                return Err(m2);
                            },
                            Ok(_) => {},
                        }
                        proof {
                            if render_elems(x@, gelems.skip(j as int + 1), gbody, octx, esc) is Ok {
                                let rest2 = render_elems(
                                    x@,
                                    gelems.skip(j as int + 1),
                                    gbody,
                                    octx,
                                    esc,
                                )->Ok_0;
                                let t0 = render_nodes(
                                    gbody,
                                    octx.push((x@, gelems[j as int])),
                                    esc,
                                )->Ok_0;
                                assert((out_before + t0) + rest2 =~= out_before + (t0 + rest2));
                            }
                        }
                        j = j + 1;
                    }
                    proof {
                        assert(gelems.skip(m as int) =~= Seq::<SpecValue>::empty());
                        assert(out@ + Seq::<char>::empty() =~= out@);
                    }
                    Ok(())
                },
                _ => {
                    let mut msg = String::from_str("`");
                    msg.append(src.as_str());
                    msg.append("` is not a sequence");
                    Err(msg)
                },
            }
        },
    }
}

/// Renders a template string against a context.
///
/// A template that is not valid under the grammar fails with
/// `TemplateSyntaxError`; a valid template that references a name the context
/// does not bind, or iterates over a value that is not a sequence, fails with
/// `TemplateRenderError`. Otherwise the rendered output is returned.
pub fn render_template(template: &str, ctx: &mut RenderContext, escape: bool) -> (r: Result<
    String,
    PipelineError,
>)
    ensures
        final(ctx).sp() == old(ctx).sp(),
        match r {
            Ok(out) => spec_render(template@, old(ctx).sp(), escape) matches Ok(t) && out@ == t,
            Err(e) => match e {
                PipelineError::TemplateSyntaxError(m) => spec_render(template@, old(ctx).sp(), escape)
                    matches Err(SpecFail::Syntax(gm)) && m@ == gm,
                PipelineError::TemplateRenderError(m) => spec_render(template@, old(ctx).sp(), escape)
                    matches Err(SpecFail::Render(gm)) && m@ == gm,
                _ => false,
            },
        },
{
    let cs = chars_of(template);
    match parse_template(&cs) {
        Err(m) => Err(PipelineError::TemplateSyntaxError(m)),
        Ok(ns) => {
            let mut out = String::new();
            match render_nodes_exec(&ns, ctx, escape, &mut out) {
                Ok(_) => Ok(out),
                Err(m) => Err(PipelineError::TemplateRenderError(m)),
            }
        },
    }
}

} // verus!

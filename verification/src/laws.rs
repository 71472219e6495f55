//! Laws of the pipeline: properties that relate several of its functions,
//! stated over the same spec functions their contracts use and proved here
//! once and for all.

use vstd::prelude::*;
use crate::conversion::spec_md_content;
use crate::extraction::FrontmatterScan;
use crate::extraction::find_close;
use crate::extraction::is_fence_at;
use crate::extraction::line_end;
use crate::extraction::scan_frontmatter;
use crate::pipeline::md_ctx;
use crate::rendering::SpecFail;
use crate::rendering::eval_expr;
use crate::rendering::render_node;
use crate::rendering::render_nodes;
use crate::rendering::spec_render;
use crate::rendering::undef_msg;
use crate::template::SpecExpr;
use crate::template::SpecNode;
use crate::template::find_marker;
use crate::template::find_two;
use crate::template::fold_segs;
use crate::template::ident_end;
use crate::template::lex;
use crate::template::skip_ws;
use crate::template::spec_parse;
use crate::text::escaped;
use crate::values::SpecValue;
use crate::values::Table;
use crate::values::lookup;

verus! {

/// The parse of the template `<body>{{content}}</body>`: literal text around
/// one interpolation of the variable `content`.
#[verifier::rlimit(60)]
proof fn lemma_body_template_parse()
    ensures
        spec_parse("<body>{{content}}</body>"@) == Ok::<Seq<SpecNode>, Seq<char>>(
            seq![
                SpecNode::Text("<body>"@),
                SpecNode::Interpolate(SpecExpr::Variable("content"@)),
                SpecNode::Text("</body>"@),
            ],
        ),
{
    reveal_strlit("<body>{{content}}</body>");
    reveal_strlit("<body>");
    reveal_strlit("content");
    reveal_strlit("</body>");
    let s = "<body>{{content}}</body>"@;
    assert(s.len() == 24);
    reveal_with_fuel(find_marker, 10);
    reveal_with_fuel(find_two, 12);
    reveal_with_fuel(ident_end, 12);
    reveal_with_fuel(skip_ws, 3);
    reveal_with_fuel(lex, 5);
    reveal_with_fuel(fold_segs, 6);
    assert(find_marker(s, 1) == 6);
    assert(find_two(s, 8, '}', '}') == 15);
    assert(ident_end(s, 8, 15) == 15);
    assert(s.subrange(0, 6) =~= "<body>"@);
    assert(s.subrange(8, 15) =~= "content"@);
    assert(s.subrange(17, 24) =~= "</body>"@);
    assert(find_marker(s, 18) == -1);
    assert(spec_parse(s) matches Ok(ns) && ns =~= seq![
        SpecNode::Text("<body>"@),
        SpecNode::Interpolate(SpecExpr::Variable("content"@)),
        SpecNode::Text("</body>"@),
    ]);
}

/// Rendering `<body>{{content}}</body>` against a context that binds
/// `content` to the text `s` yields `<body>`, the substituted value —
/// escaped exactly when `esc` is set — and `</body>`.
proof fn lemma_body_template_render(s: Seq<char>, ctx: Seq<(Seq<char>, SpecValue)>, esc: bool)
    requires
        lookup(ctx, "content"@) == Some(SpecValue::Text(s)),
    ensures
        spec_render("<body>{{content}}</body>"@, ctx, esc) == Ok::<Seq<char>, SpecFail>(
            "<body>"@ + (if esc {
                escaped(s)
            } else {
                s
            }) + "</body>"@,
        ),
{
    lemma_body_template_parse();
    let mid: Seq<char> = if esc {
        escaped(s)
    } else {
        s
    };
    let n_pre = SpecNode::Text("<body>"@);
    let n_mid = SpecNode::Interpolate(SpecExpr::Variable("content"@));
    let n_post = SpecNode::Text("</body>"@);
    let nodes = seq![n_pre, n_mid, n_post];
    let ns1 = seq![n_mid, n_post];
    let ns2 = seq![n_post];
    let ns3 = Seq::<SpecNode>::empty();
    assert(nodes.drop_first() =~= ns1);
    assert(ns1.drop_first() =~= ns2);
    assert(ns2.drop_first() =~= ns3);
    assert(render_nodes(ns3, ctx, esc) == Ok::<Seq<char>, Seq<char>>(Seq::<char>::empty()));
    assert(render_node(n_post, ctx, esc) == Ok::<Seq<char>, Seq<char>>("</body>"@));
    assert(render_nodes(ns2, ctx, esc) == Ok::<Seq<char>, Seq<char>>(
        "</body>"@ + Seq::<char>::empty(),
    ));
    assert(eval_expr(SpecExpr::Variable("content"@), ctx) == Ok::<SpecValue, Seq<char>>(
        SpecValue::Text(s),
    ));
    assert(render_node(n_mid, ctx, esc) == Ok::<Seq<char>, Seq<char>>(mid));
    assert(render_nodes(ns1, ctx, esc) == Ok::<Seq<char>, Seq<char>>(
        mid + ("</body>"@ + Seq::<char>::empty()),
    ));
    assert(render_node(n_pre, ctx, esc) == Ok::<Seq<char>, Seq<char>>("<body>"@));
    assert(render_nodes(nodes, ctx, esc) == Ok::<Seq<char>, Seq<char>>(
        "<body>"@ + (mid + ("</body>"@ + Seq::<char>::empty())),
    ));
    assert("<body>"@ + (mid + ("</body>"@ + Seq::<char>::empty())) =~= "<body>"@ + mid
        + "</body>"@);
}

/// Substituting a value verbatim: rendering the template
/// `<body>{{content}}</body>` with escaping off, against any context binding
/// `content` to the text `s`, yields exactly `<body>` + `s` + `</body>`.
/// The substituted value is never re-scanned for template syntax.
pub proof fn lemma_plain_substitution(s: Seq<char>, ctx: Seq<(Seq<char>, SpecValue)>)
    requires
        find_marker(s, 0) == -1,
        lookup(ctx, "content"@) == Some(SpecValue::Text(s)),
    ensures
        spec_render("<body>{{content}}</body>"@, ctx, false) == Ok::<Seq<char>, SpecFail>(
            "<body>"@ + s + "</body>"@,
        ),
{
    lemma_body_template_render(s, ctx, false);
}

/// Substituting a value with escaping on: the same rendering with `escape`
/// set yields the value passed through HTML-entity escaping before
/// substitution.
pub proof fn lemma_escaped_substitution(s: Seq<char>, ctx: Seq<(Seq<char>, SpecValue)>)
    requires
        lookup(ctx, "content"@) == Some(SpecValue::Text(s)),
    ensures
        spec_render("<body>{{content}}</body>"@, ctx, true) == Ok::<Seq<char>, SpecFail>(
            "<body>"@ + escaped(s) + "</body>"@,
        ),
{
    lemma_body_template_render(s, ctx, true);
}

/// Body conversion is deterministic: converting a fixed body twice with the
/// same raw-markup flag yields byte-identical output both times.
pub proof fn lemma_conversion_deterministic(
    doc: Seq<char>,
    inline_html: bool,
    r1: Seq<char>,
    r2: Seq<char>,
)
    requires
        r1 == spec_md_content(doc, inline_html),
        r2 == spec_md_content(doc, inline_html),
    ensures
        r1 == r2,
{
}

/// A document whose first line is no fence of either format scans as
/// missing, regardless of its body.
pub proof fn lemma_missing_without_leading_fence(doc: Seq<char>)
    requires
        !is_fence_at(doc, 0, '+'),
        !is_fence_at(doc, 0, '-'),
    ensures
        scan_frontmatter(doc) is Missing,
{
}

/// A document whose leading fence is never closed scans as missing too.
pub proof fn lemma_missing_without_closing_fence(doc: Seq<char>, m: char)
    requires
        is_fence_at(doc, 0, m),
        m == '+' || m == '-',
        find_close(doc, line_end(doc, 0) + 1, m) < 0,
    ensures
        scan_frontmatter(doc) is Missing,
{
}

/// A document opening with a closed block of the unsupported format scans as
/// a type mismatch, whatever the block holds.
pub proof fn lemma_unsupported_format_mismatch(doc: Seq<char>)
    requires
        is_fence_at(doc, 0, '-'),
        find_close(doc, line_end(doc, 0) + 1, '-') >= 0,
    ensures
        scan_frontmatter(doc) is YamlBlock,
{
}

/// A name other than `content` that the frontmatter does not bind stays
/// unbound in the markdown-mode context: the injected `content` entry
/// shadows nothing else.
pub proof fn lemma_md_context_unbound(fm: Table, content: Seq<char>, name: Seq<char>)
    requires
        name != "content"@,
        lookup(fm.sp(), name) is None,
    ensures
        lookup(md_ctx(fm, content), name) is None,
{
    assert(md_ctx(fm, content).drop_last() =~= fm.sp());
}

/// The injected `content` entry is always bound in the markdown-mode
/// context, and to the rendered body: a later insertion wins over any
/// frontmatter key of the same name.
pub proof fn lemma_content_always_bound(fm: Table, content: Seq<char>)
    ensures
        lookup(md_ctx(fm, content), "content"@) == Some(SpecValue::Text(content)),
{
}

/// A template whose first construct interpolates an unbound variable fails
/// with a render error naming that variable: it never silently renders an
/// empty string.
pub proof fn lemma_unbound_variable_fails(
    t: Seq<char>,
    ctx: Seq<(Seq<char>, SpecValue)>,
    nodes: Seq<SpecNode>,
    name: Seq<char>,
    esc: bool,
)
    requires
        spec_parse(t) == Ok::<Seq<SpecNode>, Seq<char>>(nodes),
        nodes.len() > 0,
        nodes[0] == SpecNode::Interpolate(SpecExpr::Variable(name)),
        lookup(ctx, name) is None,
    ensures
        spec_render(t, ctx, esc) == Err::<Seq<char>, SpecFail>(SpecFail::Render(undef_msg(name))),
{
    assert(eval_expr(SpecExpr::Variable(name), ctx) == Err::<SpecValue, Seq<char>>(undef_msg(name)));
    assert(render_node(nodes[0], ctx, esc) == Err::<Seq<char>, Seq<char>>(undef_msg(name)));
    assert(render_nodes(nodes, ctx, esc) == Err::<Seq<char>, Seq<char>>(undef_msg(name)));
}

} // verus!

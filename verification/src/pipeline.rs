//! The rendering pipeline: metadata-block extraction, metadata decoding,
//! body conversion and template rendering, composed in a strict linear
//! sequence. The first stage to fail aborts the invocation and its error is
//! propagated unchanged.

use vstd::prelude::*;
use crate::conversion::parse_md_content;
use crate::conversion::spec_md_content;
use crate::decoding::parse_md_frontmatter;
use crate::decoding::toml_decode;
use crate::errors::PipelineError;
use crate::extraction::FrontmatterScan;
use crate::extraction::extract_md_frontmatter;
use crate::extraction::scan_frontmatter;
use crate::rendering::RenderContext;
use crate::rendering::SpecFail;
use crate::rendering::render_template;
use crate::rendering::spec_render;
use crate::values::MetadataValue;
use crate::values::SpecValue;
use crate::values::Table;
use crate::values::lemma_entries_sp;

verus! {

/// The context of argument mode: each name bound to its text, in order.
pub open spec fn pairs_sp(ps: Seq<(String, String)>) -> Seq<(Seq<char>, SpecValue)>
    decreases ps,
{
    if ps.len() == 0 {
        Seq::empty()
    } else {
        pairs_sp(ps.drop_last()).push((ps.last().0@, SpecValue::Text(ps.last().1@)))
    }
}

/// The context the supplied pairs build: empty when none are given.
pub open spec fn args_ctx(data: Option<Seq<(String, String)>>) -> Seq<(Seq<char>, SpecValue)> {
    match data {
        None => Seq::empty(),
        Some(ps) => pairs_sp(ps),
    }
}

/// The view of the optional pair slice.
pub open spec fn data_view(data: Option<&[(String, String)]>) -> Option<Seq<(String, String)>> {
    match data {
        None => None,
        Some(d) => Some(d@),
    }
}

/// The context of markdown mode: every table entry as a top-level variable,
/// followed by `content` bound to the rendered body — a later insertion
/// overwrites any frontmatter key of the same name.
pub open spec fn md_ctx(fm: Table, content: Seq<char>) -> Seq<(Seq<char>, SpecValue)> {
    fm.sp().push(("content"@, SpecValue::Text(content)))
}

/// Renders `template` in argument mode: the supplied name/value pairs become
/// the context, with no markdown and no metadata stage.
///
/// Fails with `TemplateSyntaxError` when the template is not valid under the
/// grammar, and with `TemplateRenderError` when it references a name the
/// pairs do not bind; escaping is applied exactly when `escape` is set.
pub fn render_template_with_args(
    template: &str,
    data: Option<&[(String, String)]>,
    escape: bool,
) -> (r: Result<String, PipelineError>)
    ensures
        match r {
            Ok(out) => spec_render(template@, args_ctx(data_view(data)), escape) matches Ok(t)
                && out@ == t,
            Err(e) => match e {
                PipelineError::TemplateSyntaxError(m) => spec_render(
                    template@,
                    args_ctx(data_view(data)),
                    escape,
                ) matches Err(SpecFail::Syntax(gm)) && m@ == gm,
                PipelineError::TemplateRenderError(m) => spec_render(
                    template@,
                    args_ctx(data_view(data)),
                    escape,
                ) matches Err(SpecFail::Render(gm)) && m@ == gm,
                _ => false,
            },
        },
{
    let mut ctx = RenderContext::new();
    match data {
        None => {},
        Some(pairs) => {
            let n = pairs.len();
            let mut i: usize = 0;
            while i < n
                invariant
                    i <= n,
                    n == pairs@.len(),
                    ctx.sp() == pairs_sp(pairs@.take(i as int)),
                decreases n - i,
            {
                let pair = vstd::slice::slice_index_get(pairs, i);
                ctx.insert(pair.0.clone(), MetadataValue::Text(pair.1.clone()));
                i = i + 1;
                proof {
                    assert(pairs@.take(i as int).drop_last() =~= pairs@.take(i as int - 1));
                    assert(pairs@.take(i as int).last() == pairs@[i as int - 1]);
                }
            }
            proof {
                assert(pairs@.take(n as int) =~= pairs@);
            }
        },
    }
    render_template(template, &mut ctx, escape)
}

/// Renders `template` in markdown mode: every entry of the decoded
/// frontmatter becomes a top-level variable, and `content` is bound to the
/// rendered body, overwriting any frontmatter key of the same name.
///
/// Fails with `TemplateSyntaxError` when the template is not valid under the
/// grammar, and with `TemplateRenderError` when it references a name absent
/// from both the frontmatter and the injected `content` entry.
pub fn render_template_with_md(
    template: &str,
    frontmatter: &Table,
    content: &str,
    escape: bool,
) -> (r: Result<String, PipelineError>)
    ensures
        match r {
            Ok(out) => spec_render(template@, md_ctx(*frontmatter, content@), escape) matches Ok(t)
                && out@ == t,
            Err(e) => match e {
                PipelineError::TemplateSyntaxError(m) => spec_render(
                    template@,
                    md_ctx(*frontmatter, content@),
                    escape,
                ) matches Err(SpecFail::Syntax(gm)) && m@ == gm,
                PipelineError::TemplateRenderError(m) => spec_render(
                    template@,
                    md_ctx(*frontmatter, content@),
                    escape,
                ) matches Err(SpecFail::Render(gm)) && m@ == gm,
                _ => false,
            },
        },
{
    let mut ctx = RenderContext::new();
    let n = frontmatter.entries.len();
    let mut i: usize = 0;
    proof {
        lemma_entries_sp(frontmatter.entries@);
    }
    while i < n
        invariant
            i <= n,
            n == frontmatter.entries@.len(),
            ctx.sp() =~= frontmatter.sp().take(i as int),
        decreases n - i,
    {
        proof {
            lemma_entries_sp(frontmatter.entries@);
        }
        let key = frontmatter.entries[i].0.clone();
        let val = frontmatter.entries[i].1.dup();
        ctx.insert(key, val);
        i = i + 1;
        proof {
            assert(ctx.sp() =~= frontmatter.sp().take(i as int));
        }
    }
    proof {
        lemma_entries_sp(frontmatter.entries@);
        assert(frontmatter.sp().take(n as int) =~= frontmatter.sp());
    }
    ctx.insert(String::from_str("content"), MetadataValue::Text(String::from_str(content)));
    render_template(template, &mut ctx, escape)
}

/// Processes a markdown document with a leading TOML metadata block: returns
/// the decoded frontmatter table together with the HTML of the document's
/// body.
///
/// Fails with `FrontmatterMissing` when no closed metadata block opens the
/// document, with `FrontmatterTypeMismatch` when the block carries the YAML
/// fence, and with `MetadataParseError` when the block does not parse under
/// the TOML grammar.
pub fn process_md_file(input: &str, inline_html: bool) -> (r: Result<
    (Table, String),
    PipelineError,
>)
    ensures
        match scan_frontmatter(input@) {
            FrontmatterScan::Missing => r matches Err(e) && e is FrontmatterMissing,
            FrontmatterScan::YamlBlock => r matches Err(e) && e is FrontmatterTypeMismatch,
            FrontmatterScan::TomlBlock(raw) => match toml_decode(raw) {
                Err(gm) => r matches Err(e) && e matches PipelineError::MetadataParseError(m) && m@
                    == gm,
                Ok(g) => r matches Ok((t, html)) && t.sp() == g && t.wf() && html@
                    == spec_md_content(input@, inline_html),
            },
        },
{
    let raw = match extract_md_frontmatter(input) {
        Err(e) => {
            return Err(e);
        },
        Ok(raw) => raw,
    };
    let frontmatter = match parse_md_frontmatter(raw.as_str()) {
        Err(e) => {
            return Err(e);
        },
        Ok(t) => t,
    };
    let content = parse_md_content(input, inline_html);
    Ok((frontmatter, content))
}

} // verus!

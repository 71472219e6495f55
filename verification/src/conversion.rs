//! Converting the document body to HTML under a CommonMark+GFM-compatible
//! grammar, with the frontmatter construct enabled so that a leading metadata
//! block compiles to nothing.

use vstd::prelude::*;

verus! {

/// The constructs the body grammar enables, fixed once per invocation.
pub struct MdParseOptions {
    /// The leading fenced metadata block is recognized.
    pub frontmatter: bool,
    /// Raw HTML blocks pass through the parser.
    pub html_flow: bool,
    /// Raw inline HTML passes through the parser.
    pub html_text: bool,
}

/// The full conversion configuration: the grammar constructs plus whether the
/// compiler emits raw markup verbatim.
pub struct MdOptions {
    pub parse: MdParseOptions,
    /// Raw markup is emitted uninterpreted instead of being suppressed.
    pub allow_dangerous_html: bool,
}

/// The default grammar configuration: GFM with the frontmatter construct
/// enabled, raw markup recognized only when `inline_html` is set.
pub fn default_md_parse_options(inline_html: bool) -> (o: MdParseOptions)
    ensures
        o == (MdParseOptions { frontmatter: true, html_flow: inline_html, html_text: inline_html }),
{
    MdParseOptions { frontmatter: true, html_flow: inline_html, html_text: inline_html }
}

/// The default conversion configuration: the default grammar, with raw markup
/// passed through only when `inline_html` is set.
pub fn default_md_options(inline_html: bool) -> (o: MdOptions)
    ensures
        o == (MdOptions {
            parse: MdParseOptions {
                frontmatter: true,
                html_flow: inline_html,
                html_text: inline_html,
            },
            allow_dangerous_html: inline_html,
        }),
{
    MdOptions { parse: default_md_parse_options(inline_html), allow_dangerous_html: inline_html }
}

/// What the body conversion yields: the HTML of the document under the given
/// grammar configuration. A function of its arguments alone.
pub uninterp spec fn md_html(
    doc: Seq<char>,
    frontmatter: bool,
    html_flow: bool,
    html_text: bool,
    allow_dangerous_html: bool,
) -> Seq<char>;

/// Relies on `markdown::to_html_with_options` over the GFM defaults: converts
/// the document to HTML. For these options the conversion cannot fail, and
/// its output depends on the document and the options alone.
#[verifier::external_body]
fn md_to_html(
    input: &str,
    frontmatter: bool,
    html_flow: bool,
    html_text: bool,
    allow_dangerous_html: bool,
) -> (r: String)
    ensures
        r@ == md_html(input@, frontmatter, html_flow, html_text, allow_dangerous_html),
{
    let constructs = markdown::Constructs {
        frontmatter,
        html_flow,
        html_text,
        ..markdown::Constructs::gfm()
    };
    let parse = markdown::ParseOptions { constructs, ..markdown::ParseOptions::gfm() };
    let compile = markdown::CompileOptions {
        allow_dangerous_html,
        ..markdown::CompileOptions::gfm()
    };
    markdown::to_html_with_options(input, &markdown::Options { parse, compile }).unwrap_or_default()
}

/// The HTML of a document under the default configuration for `inline_html`.
pub open spec fn spec_md_content(doc: Seq<char>, inline_html: bool) -> Seq<char> {
    md_html(doc, true, inline_html, inline_html, inline_html)
}

/// Converts a document to HTML under the default grammar configuration. The
/// conversion is total and deterministic: identical inputs yield identical
/// output.
pub fn parse_md_content(input: &str, inline_html: bool) -> (r: String)
    ensures
        r@ == spec_md_content(input@, inline_html),
{
    let o = default_md_options(inline_html);
    md_to_html(
        input,
        o.parse.frontmatter,
        o.parse.html_flow,
        o.parse.html_text,
        o.allow_dangerous_html,
    )
}

} // verus!

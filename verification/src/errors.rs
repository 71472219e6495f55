//! The error taxonomy of the pipeline. Every stage fails fast: the first
//! failing stage aborts the invocation and its error is propagated unchanged.

use vstd::prelude::*;

verus! {

/// An error raised by one of the pipeline stages.
///
/// The `String` payloads carry the low-level cause: for `MetadataParseError`
/// the decoder's own message, for `TemplateSyntaxError` a description of the
/// offending construct, and for `TemplateRenderError` the name of the
/// variable that could not be resolved.
#[derive(Debug)]
pub enum PipelineError {
    /// No recognized metadata block at the start of the document.
    FrontmatterMissing,
    /// A metadata block is present but carries the unsupported format tag.
    FrontmatterTypeMismatch,
    /// The metadata block does not parse under the active format's grammar.
    MetadataParseError(String),
    /// The template string is not valid under the templating grammar.
    TemplateSyntaxError(String),
    /// A valid template references a variable absent from the context.
    TemplateRenderError(String),
}

/// The message text of an error, as `message` returns it.
pub open spec fn spec_message(e: PipelineError) -> Seq<char> {
    match e {
        PipelineError::FrontmatterMissing => "frontmatter not present"@,
        PipelineError::FrontmatterTypeMismatch => "invalid frontmatter type: it must be TOML"@,
        PipelineError::MetadataParseError(m) => "failed to parse frontmatter: "@ + m@,
        PipelineError::TemplateSyntaxError(m) => "template syntax error: "@ + m@,
        PipelineError::TemplateRenderError(m) => "failed to render template: "@ + m@,
    }
}

impl PipelineError {
    /// A human-readable message: a contextual wrapper naming the stage plus
    /// the low-level cause carried by the variant.
    pub fn message(&self) -> (r: String)
        ensures
            r@ == spec_message(*self),
    {
        match self {
            PipelineError::FrontmatterMissing => String::from_str("frontmatter not present"),
            PipelineError::FrontmatterTypeMismatch => String::from_str(
                "invalid frontmatter type: it must be TOML",
            ),
            PipelineError::MetadataParseError(m) => {
                let mut r = String::from_str("failed to parse frontmatter: ");
                r.append(m.as_str());
                r
            },
            PipelineError::TemplateSyntaxError(m) => {
                let mut r = String::from_str("template syntax error: ");
                r.append(m.as_str());
                r
            },
            PipelineError::TemplateRenderError(m) => {
                let mut r = String::from_str("failed to render template: ");
                r.append(m.as_str());
                r
            },
        }
    }
}

} // verus!

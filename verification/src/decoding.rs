//! Decoding the raw metadata block into a table of typed values. The active
//! format of this configuration is the TOML-like one; the block text is
//! handed to the TOML parser and the decoded document is carried into the
//! library's value model.

use vstd::prelude::*;
use crate::errors::PipelineError;
use crate::values::MetadataValue;
use crate::values::SpecValue;
use crate::values::Table;

verus! {

/// What the TOML decoder yields for a given block text: the decoded entries,
/// or a message describing the syntax fault. A function of the text alone.
pub uninterp spec fn toml_decode(s: Seq<char>) -> Result<Seq<(Seq<char>, SpecValue)>, Seq<char>>;

/// Declares `toml::Value`, the decoder's value type, so that it can stand in
/// signatures; the library reads nothing inside it.
#[verifier::external_type_specification]
#[verifier::external_body]
pub struct ExTomlValue(toml::Value);

/// Carries one decoded TOML value into the library's model, entry by entry:
/// strings, integers and booleans keep their kind; floats and datetimes are
/// carried as their canonical text; arrays and tables are carried elementwise.
#[verifier::external_body]
fn lift_value(v: toml::Value) -> MetadataValue {
    match v {
        toml::Value::String(s) => MetadataValue::Text(s),
        toml::Value::Integer(n) => MetadataValue::Number(n),
        toml::Value::Float(x) => MetadataValue::Text(x.to_string()),
        toml::Value::Boolean(b) => MetadataValue::Boolean(b),
        toml::Value::Datetime(d) => MetadataValue::Text(d.to_string()),
        toml::Value::Array(vs) => MetadataValue::Sequence(vs.into_iter().map(lift_value).collect()),
        toml::Value::Table(t) => MetadataValue::Table(
            t.into_iter().map(|(k, w)| (k, lift_value(w))).collect(),
        ),
    }
}

/// Relies on `toml::from_str`: parses the block text as a TOML document into
/// a table. The result is a function of the text alone; an empty text parses
/// to an empty table; the keys of a parsed table are unique at every depth.
#[verifier::external_body]
fn decode_toml_block(s: &str) -> (r: Result<Table, String>)
    ensures
        match r {
            Ok(t) => toml_decode(s@) matches Ok(g) && t.sp() == g && t.wf() && (s@.len() == 0
                ==> t.sp().len() == 0),
            Err(m) => toml_decode(s@) matches Err(gm) && m@ == gm,
        },
        s@.len() == 0 ==> r is Ok,
{
    match toml::from_str::<toml::Table>(s) {
        Ok(t) => Ok(Table { entries: t.into_iter().map(|(k, v)| (k, lift_value(v))).collect() }),
        Err(e) => Err(e.to_string()),
    }
}

/// Decodes a raw metadata block into a table of values.
///
/// An empty block decodes to an empty table and does not error; a block that
/// does not parse under the TOML grammar fails with `MetadataParseError`
/// carrying the parser's message.
pub fn parse_md_frontmatter(frontmatter: &str) -> (r: Result<Table, PipelineError>)
    ensures
        match r {
            Ok(t) => toml_decode(frontmatter@) matches Ok(g) && t.sp() == g && t.wf() && (
            frontmatter@.len() == 0 ==> t.sp().len() == 0),
            Err(e) => e matches PipelineError::MetadataParseError(m) && toml_decode(frontmatter@)
                matches Err(gm) && m@ == gm,
        },
        frontmatter@.len() == 0 ==> r is Ok,
{
    match decode_toml_block(frontmatter) {
        Ok(t) => Ok(t),
        Err(m) => Err(PipelineError::MetadataParseError(m)),
    }
}

} // verus!

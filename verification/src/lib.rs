//! A small rendering pipeline: a document with a fenced metadata block at its
//! head is split into raw metadata and body, the metadata is decoded into a
//! table of typed values, the body is converted to HTML, and a template string
//! is rendered against the resulting name/value context.

pub mod arguments;
pub mod conversion;
pub mod decoding;
pub mod errors;
pub mod extraction;
pub mod laws;
pub mod pipeline;
pub mod rendering;
pub mod template;
pub mod text;
pub mod values;

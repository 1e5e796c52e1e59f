//! Parsing, inspection and re-serialisation of Speech Synthesis Markup Language documents.
//!
//! A document is parsed from its XML events into the text to be spoken, the spans of its
//! elements over that text, and a log of its markup events; it can be written back out, as it
//! is or through a transformation of its events.
use vstd::prelude::*;

pub mod attributes;
pub mod document;
pub mod elements;
pub mod error;
pub mod labels;
pub mod numbers;
pub mod parser;
pub mod text;
pub mod values;
pub mod writer;
pub mod xml;

pub use crate::document::{ParserLogEvent, Span, Ssml};
pub use crate::error::SsmlError;
pub use crate::parser::parse_ssml;
pub use crate::writer::{ParserEvent, TransformedSsml};

verus! {

} // verus!

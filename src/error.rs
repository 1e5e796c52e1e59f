//! Errors reported by the parser.
use vstd::prelude::*;
use crate::elements::SsmlElement;
use crate::values::InvalidValue;

verus! {

/// The first violation found while parsing a document.
#[derive(Clone, Debug, PartialEq, Eq)]
pub enum SsmlError {
    /// The XML tokeniser reported a structural error.
    XmlMalformed,
    /// A close tag without a matching open tag, or with another name than the open one.
    MismatchedClose(String),
    /// The document ended with this element still open.
    UnclosedTag(SsmlElement),
    /// A `speak` element inside another.
    NestedSpeak,
    /// The parent kind may not contain the child kind.
    InvalidNesting(SsmlElement, SsmlElement),
    /// The element lacks the named attribute.
    MissingRequiredAttribute(SsmlElement, String),
    /// The named attribute of the element does not follow its grammar.
    InvalidAttributeValue(SsmlElement, String, InvalidValue),
    /// The `version` of `speak` is neither `1.0` nor `1.1`.
    UnsupportedSsmlVersion(String),
    /// A `meta` element with both or neither of `name` and `http-equiv`.
    AmbiguousMetaAttributes,
}

} // verus!

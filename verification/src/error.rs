//! How reading a catalog can fail.

use vstd::prelude::*;
use vstd::std_specs::convert::FromSpecImpl;

use crate::source::{eof_message, error_text};

verus! {

/// The reason for which reading fails.
pub enum Failure {
    /// The token source could not read the input, or text in it could not be
    /// decoded or unescaped.
    Malformed,
    /// The input ended and no `datafile` element had been seen.
    NoDocument,
    /// The input ended inside `element`.
    Truncated { element: Seq<char> },
    /// `element` has no attribute `key`, or the attribute does not take
    /// `value`.
    UnexpectedAttribute { element: Seq<char>, key: Seq<char>, value: Seq<char> },
    /// The element `tag` has no place in `parent`, or at the top level where
    /// there is no parent.
    UnexpectedElement { parent: Option<Seq<char>>, tag: Seq<char> },
}

/// The message for an attribute that an element does not take.
pub open spec fn unexpected_attribute_message(
    element: Seq<char>,
    key: Seq<char>,
    value: Seq<char>,
) -> Seq<char> {
    "Unexpected attribute \""@ + key + "\"=\""@ + value + "\" in element \""@ + element + "\""@
}

/// The message for an element other than `datafile` at the top level.
pub open spec fn unexpected_root_message(tag: Seq<char>) -> Seq<char> {
    "Unexpected top-level element \""@ + tag + "\""@
}

/// The message for an element that its parent does not take.
pub open spec fn unexpected_child_message(parent: Seq<char>, tag: Seq<char>) -> Seq<char> {
    "Unexpected child element \""@ + tag + "\" in element \""@ + parent + "\""@
}

/// The message for input that ends inside an element.
pub open spec fn truncated_message(element: Seq<char>) -> Seq<char> {
    "Unexpected EOF while reading element \""@ + element + "\""@
}

/// The message for input that ends before any catalog was seen.
pub open spec fn no_document_message() -> Seq<char> {
    "Unexpected EOF before a datafile element was seen"@
}

impl Failure {
    /// The message that goes with the failure. A malformed input has none of
    /// the library's own: the token source describes it.
    pub open spec fn message(self) -> Seq<char> {
        match self {
            Failure::Malformed => Seq::empty(),
            Failure::NoDocument => no_document_message(),
            Failure::Truncated { element } => truncated_message(element),
            Failure::UnexpectedAttribute { element, key, value } => unexpected_attribute_message(
                element,
                key,
                value,
            ),
            Failure::UnexpectedElement { parent, tag } => match parent {
                Some(parent) => unexpected_child_message(parent, tag),
                None => unexpected_root_message(tag),
            },
        }
    }
}

/// The error that reading a catalog ends with.
#[derive(Debug)]
pub enum DatReaderError {
    /// The input is malformed or ends too early.
    Xml(quick_xml::Error),
    /// An attribute has no place in its element; the message names both.
    UnexpectedAttribute(String),
    /// An element has no place where it stands; the message names it.
    UnexpectedElement(String),
}

impl DatReaderError {
    /// Whether the error is the one that stands for the failure `f`. Input
    /// that ends too early is reported as the token source's end-of-input
    /// error, with the library's message in it; malformed input as whatever
    /// the token source made of it.
    pub open spec fn reports(self, f: Failure) -> bool {
        match self {
            DatReaderError::Xml(e) => match f {
                Failure::Malformed => true,
                Failure::NoDocument => eof_message(e) == Some(f.message()),
                Failure::Truncated { .. } => eof_message(e) == Some(f.message()),
                _ => false,
            },
            DatReaderError::UnexpectedAttribute(m) => f is UnexpectedAttribute && m@ == f.message(),
            DatReaderError::UnexpectedElement(m) => f is UnexpectedElement && m@ == f.message(),
        }
    }

    /// The text of the error: the library's own message, or for a malformed
    /// input what the token source says of it.
    pub fn message(&self) -> (text: String)
        ensures
            self matches DatReaderError::UnexpectedAttribute(m) ==> text@ == m@,
            self matches DatReaderError::UnexpectedElement(m) ==> text@ == m@,
    {
        match self {
            DatReaderError::Xml(e) => error_text(e),
            DatReaderError::UnexpectedAttribute(m) => m.clone(),
            DatReaderError::UnexpectedElement(m) => m.clone(),
        }
    }
}

impl From<quick_xml::Error> for DatReaderError {
    fn from(e: quick_xml::Error) -> (r: DatReaderError) {
        DatReaderError::Xml(e)
    }
}

impl FromSpecImpl<quick_xml::Error> for DatReaderError {
    open spec fn obeys_from_spec() -> bool {
        true
    }

    open spec fn from_spec(e: quick_xml::Error) -> DatReaderError {
        DatReaderError::Xml(e)
    }
}

/// The error for an attribute that an element does not take.
pub fn unexpected_attribute(element: &str, key: &str, value: &str) -> (e: DatReaderError)
    ensures
        e.reports(Failure::UnexpectedAttribute { element: element@, key: key@, value: value@ }),
{
    let mut m = "Unexpected attribute \"".to_owned();
    m.append(key);
    m.append("\"=\"");
    m.append(value);
    m.append("\" in element \"");
    m.append(element);
    m.append("\"");
    DatReaderError::UnexpectedAttribute(m)
}

/// The error for an element other than `datafile` at the top level.
pub fn unexpected_root(tag: &str) -> (e: DatReaderError)
    ensures
        e.reports(Failure::UnexpectedElement { parent: None, tag: tag@ }),
{
    let mut m = "Unexpected top-level element \"".to_owned();
    m.append(tag);
    m.append("\"");
    DatReaderError::UnexpectedElement(m)
}

/// The error for an element that its parent does not take.
pub fn unexpected_child(parent: &str, tag: &str) -> (e: DatReaderError)
    ensures
        e.reports(Failure::UnexpectedElement { parent: Some(parent@), tag: tag@ }),
{
    let mut m = "Unexpected child element \"".to_owned();
    m.append(tag);
    m.append("\" in element \"");
    m.append(parent);
    m.append("\"");
    DatReaderError::UnexpectedElement(m)
}

/// The text that goes into the error for input that ends before any catalog
/// was seen.
pub fn no_document_text() -> (m: String)
    ensures
        m@ == no_document_message(),
{
    "Unexpected EOF before a datafile element was seen".to_owned()
}

/// The text that goes into the error for input that ends inside `element`.
pub fn truncated_text(element: &str) -> (m: String)
    ensures
        m@ == truncated_message(element@),
{
    let mut m = "Unexpected EOF while reading element \"".to_owned();
    m.append(element);
    m.append("\"");
    m
}

} // verus!

//! The token source: the boundary with `quick_xml`.
//!
//! Everything that `quick_xml` computes enters the library here, as plain
//! bytes and text. Nothing in this module is proved: each function states
//! what the library takes for granted about the call it makes, and each
//! uninterpreted function names a result of `quick_xml` that the contracts of
//! the library speak of without saying what it is.

use quick_xml::events::attributes::Attribute;
use quick_xml::events::{BytesStart, BytesText, Event};
use vstd::prelude::*;
use vstd::utf8::{decode_utf8, valid_utf8};

verus! {

/// `quick_xml::Error`, carried through as it is.
#[verifier::external_type_specification]
#[verifier::external_body]
pub struct ExXmlError(quick_xml::Error);

/// A `quick_xml::Reader` over bytes in memory.
///
/// The reader's type is bound by `std::io::BufRead`, which Verus cannot
/// take in a declaration of an outside type. So the reader is kept in this
/// struct, into which Verus does not look; all that the library knows of it
/// is what [`pending`] names.
#[verifier::external_body]
pub struct XmlSource<'a> {
    reader: quick_xml::Reader<&'a [u8]>,
}

/// One event of the token source.
pub enum XmlToken {
    /// A start tag: its raw content, which begins with the name, and the
    /// length of the name.
    Start { content: Vec<u8>, name_len: usize },
    /// Character data or a CDATA section, still escaped.
    Text(Vec<u8>),
    /// An end tag.
    End,
    /// A comment, declaration, processing instruction or document type, or
    /// an empty-element tag where these are not expanded.
    Other,
}

/// What the token source has in store at one position: an event, or the
/// failure to read one.
pub enum Item {
    Start { content: Seq<u8>, name_len: nat },
    Text(Seq<u8>),
    End,
    Other,
    /// The input is malformed here.
    Fault,
}

impl View for XmlToken {
    type V = Item;

    /// The item that the token was read from.
    open spec fn view(&self) -> Item {
        match *self {
            XmlToken::Start { content, name_len } => Item::Start {
                content: content@,
                name_len: name_len as nat,
            },
            XmlToken::Text(raw) => Item::Text(raw@),
            XmlToken::End => Item::End,
            XmlToken::Other => Item::Other,
        }
    }
}

/// An attribute as it stands in a start tag: raw key, raw value.
pub struct RawAttr {
    pub key: Vec<u8>,
    pub value: Vec<u8>,
}

/// View of [`RawAttr`].
pub struct RawAttrView {
    pub key: Seq<u8>,
    pub value: Seq<u8>,
}

impl View for RawAttr {
    type V = RawAttrView;

    open spec fn view(&self) -> RawAttrView {
        RawAttrView { key: self.key@, value: self.value@ }
    }
}

/// View of what the attribute iterator yields: the attribute, or `None`
/// where the tag is malformed.
pub open spec fn attr_views(attrs: Seq<Result<RawAttr, quick_xml::Error>>) -> Seq<
    Option<RawAttrView>,
> {
    attrs.map_values(
        |a: Result<RawAttr, quick_xml::Error>|
            match a {
                Ok(a) => Some(a@),
                Err(_) => None,
            },
    )
}

/// The items that a source has yet to yield, in order, up to the end of the
/// input or the first failure.
pub uninterp spec fn pending(source: XmlSource) -> Seq<Item>;

/// The items that a fresh source over `input` yields, where `trim_text` and
/// `expand_empty` say whether text is trimmed and whether an empty-element
/// tag is reported as a start followed by an end.
pub uninterp spec fn xml_events(input: Seq<u8>, trim_text: bool, expand_empty: bool) -> Seq<Item>;

/// The attributes that `quick_xml` finds in the content of a start tag whose
/// name is `name_len` bytes long; `None` stands for a malformed attribute.
pub uninterp spec fn tag_attributes(content: Seq<u8>, name_len: nat) -> Seq<Option<RawAttrView>>;

/// Raw character data with its escapes resolved by `quick_xml`, or `None`
/// where an escape is malformed.
pub uninterp spec fn unescaped(raw: Seq<u8>) -> Option<Seq<u8>>;

/// The message that an end-of-input error of `quick_xml` carries; `None` for
/// an error of any other kind.
pub uninterp spec fn eof_message(error: quick_xml::Error) -> Option<Seq<char>>;

/// The text that `bytes` encode, if they are valid UTF-8.
pub open spec fn text_of(bytes: Seq<u8>) -> Option<Seq<char>> {
    if valid_utf8(bytes) {
        Some(decode_utf8(bytes))
    } else {
        None
    }
}

/// The text of a raw attribute value: the value must be valid UTF-8, its
/// escapes are resolved, and what comes of that is decoded. `None` if any of
/// the three fails.
pub open spec fn attribute_text(value: Seq<u8>) -> Option<Seq<char>> {
    if valid_utf8(value) {
        match unescaped(value) {
            Some(bytes) => text_of(bytes),
            None => None,
        }
    } else {
        None
    }
}

/// Makes a reader over `input` with `quick_xml::Reader::from_reader` and
/// sets its options `trim_text` and `expand_empty_elements`.
///
/// Taken for granted: what the reader will yield depends on the input and
/// the two options alone, and it yields no more items than the input has
/// bytes. (Every event is read from at least one byte of its own, except the
/// end that follows an empty-element tag, whose start is read from at least
/// two.)
#[verifier::external_body]
pub(crate) fn open_source<'a>(input: &'a [u8], trim_text: bool, expand_empty: bool) -> (source:
    XmlSource<'a>)
    ensures
        pending(source) == xml_events(input@, trim_text, expand_empty),
        pending(source).len() <= input@.len(),
{
    let mut reader = quick_xml::Reader::from_reader(input);
    reader.trim_text(trim_text);
    reader.expand_empty_elements(expand_empty);
    XmlSource { reader }
}

/// Reads the next event with `quick_xml::Reader::read_event`, into a buffer
/// of its own, and copies out what the library reads of it. `None` is the
/// end of the input.
///
/// Taken for granted: the call does not panic; it yields the first pending
/// item and leaves the rest pending; the name of a start tag lies within its
/// content; at the end of the input, and after a failure, nothing is pending
/// any more.
#[verifier::external_body]
pub(crate) fn next_event(source: &mut XmlSource) -> (event: Result<
    Option<XmlToken>,
    quick_xml::Error,
>)
    ensures
        match event {
            Ok(Some(token)) => pending(*old(source)).len() > 0 && pending(*old(source))[0]
                == token@ && pending(*final(source)) == pending(*old(source)).skip(1),
            Ok(None) => pending(*old(source)).len() == 0 && pending(*final(source)).len() == 0,
            Err(_) => pending(*old(source)).len() > 0 && pending(*old(source))[0] == Item::Fault
                && pending(*final(source)).len() == 0,
        },
        event matches Ok(Some(XmlToken::Start { content, name_len })) ==> name_len
            <= content.len(),
    no_unwind
{
    let mut buf = Vec::new();
    Ok(
        match source.reader.read_event(&mut buf)? {
            Event::Start(e) => Some(
                XmlToken::Start { content: e.to_vec(), name_len: e.name().len() },
            ),
            Event::Text(e) | Event::CData(e) => Some(XmlToken::Text(e.escaped().to_vec())),
            Event::End(_) => Some(XmlToken::End),
            Event::Eof => None,
            _ => Some(XmlToken::Other),
        },
    )
}

/// Decodes bytes with `quick_xml::Reader::decode`, which succeeds exactly on
/// valid UTF-8 and then gives the text that the bytes encode.
#[verifier::external_body]
pub(crate) fn decode<'b>(source: &XmlSource, bytes: &'b [u8]) -> (text: Result<
    &'b str,
    quick_xml::Error,
>)
    ensures
        match text {
            Ok(s) => text_of(bytes@) == Some(s@),
            Err(_) => text_of(bytes@).is_none(),
        },
{
    source.reader.decode(bytes)
}

/// Walks the attributes of a start tag with `quick_xml`'s attribute
/// iterator and copies out each key and raw value, or the error found in
/// their place.
#[verifier::external_body]
pub(crate) fn attributes(content: &[u8], name_len: usize) -> (attrs: Vec<
    Result<RawAttr, quick_xml::Error>,
>)
    ensures
        attr_views(attrs@) == tag_attributes(content@, name_len as nat),
{
    BytesStart::borrowed(content, name_len)
        .attributes()
        .map(|a| a.map(|a| RawAttr { key: a.key.to_vec(), value: a.value.into_owned() }))
        .collect()
}

/// Decodes and unescapes a raw attribute value with
/// `quick_xml::events::attributes::Attribute::unescape_and_decode_value`,
/// which checks that the value is UTF-8, resolves its escapes as
/// `BytesText::unescaped` does, and decodes the outcome.
#[verifier::external_body]
pub(crate) fn attribute_value(source: &XmlSource, value: &[u8]) -> (text: Result<
    String,
    quick_xml::Error,
>)
    ensures
        match text {
            Ok(s) => attribute_text(value@) == Some(s@),
            Err(_) => attribute_text(value@).is_none(),
        },
{
    let attr = Attribute { key: &[], value: std::borrow::Cow::Borrowed(value) };
    attr.unescape_and_decode_value(&source.reader)
}

/// Resolves the escapes of raw character data with
/// `quick_xml::events::BytesText::unescaped`.
#[verifier::external_body]
pub(crate) fn unescape(raw: &[u8]) -> (bytes: Result<Vec<u8>, quick_xml::Error>)
    ensures
        match bytes {
            Ok(b) => unescaped(raw@) == Some(b@),
            Err(_) => unescaped(raw@).is_none(),
        },
{
    BytesText::from_escaped(raw).unescaped().map(|b| b.into_owned())
}

/// Makes a `quick_xml::Error::UnexpectedEof`, the end-of-input error, that
/// carries `message`.
#[verifier::external_body]
pub(crate) fn unexpected_eof(message: String) -> (error: quick_xml::Error)
    ensures
        eof_message(error) == Some(message@),
{
    quick_xml::Error::UnexpectedEof(message)
}

/// The text that `quick_xml` gives for one of its errors.
#[verifier::external_body]
pub(crate) fn error_text(error: &quick_xml::Error) -> String {
    format!("{}", error)
}

} // verus!

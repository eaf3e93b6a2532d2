//! The driver: from the events of the token source to a catalog.
//!
//! The first half of this module says, as functions on sequences of items,
//! what reading yields; the second half is the reader that does it. The
//! reader consumes events one by one and descends into a child's subtree
//! before it goes on with the parent; what it returns is what the functions
//! of the first half say.

use vstd::prelude::*;
use vstd::slice::slice_subrange;
use vstd::string::StringSliceAdditionalSpecFns;

use crate::error::{
    no_document_text, truncated_text, unexpected_attribute, unexpected_child, unexpected_root,
    DatReaderError, Failure,
};
use crate::model::{data_file_view, DataFile, DataFileView};
use crate::source::{
    attr_views, attribute_text, attribute_value, attributes, decode, next_event, open_source,
    pending, tag_attributes, text_of, unescape, unescaped, unexpected_eof, xml_events, Item,
    RawAttr, RawAttrView, XmlSource, XmlToken,
};
use crate::text::str_eq;
use crate::xml_element::{Element, Node, XmlCursor};

verus! {

/// The outcome of reading from a sequence of items: a value or a failure,
/// and the items that are left.
pub struct Step<T> {
    pub value: Result<T, Failure>,
    pub rest: Seq<Item>,
}

/// The name of a start tag, as text.
pub open spec fn tag_of(content: Seq<u8>, name_len: nat) -> Option<Seq<char>> {
    text_of(content.subrange(0, name_len as int))
}

/// The element `node`, found under the tag `element`, after the attributes
/// `attrs` have been applied to it in order.
///
/// An attribute that the element does not take, or whose value it refuses,
/// ends the reading in strict mode and is passed over otherwise. An
/// attribute that cannot be read ends it in either mode.
pub open spec fn applied(
    node: Node,
    element: Seq<char>,
    attrs: Seq<Option<RawAttrView>>,
    strict: bool,
) -> Result<Node, Failure>
    decreases attrs.len(),
{
    if attrs.len() == 0 {
        Ok(node)
    } else {
        match attrs[0] {
            None => Err(Failure::Malformed),
            Some(a) => match text_of(a.key) {
                None => Err(Failure::Malformed),
                Some(key) => match attribute_text(a.value) {
                    None => Err(Failure::Malformed),
                    Some(value) => match node.attr(key, value) {
                        Some(next) => applied(next, element, attrs.skip(1), strict),
                        None => if strict {
                            Err(Failure::UnexpectedAttribute { element, key, value })
                        } else {
                            applied(node, element, attrs.skip(1), strict)
                        },
                    },
                },
            },
        }
    }
}

/// How the rest of an element ends, by the count of its tags.
pub enum Ending {
    /// The end tag that closes the element is there.
    Closed,
    /// An item before that end tag is malformed.
    Broken,
    /// The input ends before that end tag.
    Open,
}

/// What passing over the rest of an element comes to: how the element ends,
/// and the items that are left after it.
pub struct Passage {
    pub ending: Ending,
    pub rest: Seq<Item>,
}

/// Passing over the rest of an element, `depth` levels below its start:
/// starts and ends are counted, up to and including the end that closes the
/// element. Nothing else of the items is looked at.
pub open spec fn passed(s: Seq<Item>, depth: nat) -> Passage
    decreases s.len(),
{
    if s.len() == 0 {
        Passage { ending: Ending::Open, rest: s }
    } else {
        match s[0] {
            Item::Fault => Passage { ending: Ending::Broken, rest: s.skip(1) },
            Item::Start { .. } => passed(s.skip(1), depth + 1),
            Item::End => if depth == 0 {
                Passage { ending: Ending::Closed, rest: s.skip(1) }
            } else {
                passed(s.skip(1), (depth - 1) as nat)
            },
            _ => passed(s.skip(1), depth),
        }
    }
}

/// Skipping the rest of the element `element`, `depth` levels below its
/// start: the items are passed over up to and including the end that closes
/// the element. A malformed item ends the reading, and so does input that
/// ends while the element is open.
pub open spec fn skipped(s: Seq<Item>, depth: nat, element: Seq<char>) -> Step<()> {
    let over = passed(s, depth);
    Step {
        value: match over.ending {
            Ending::Closed => Ok(()),
            Ending::Broken => Err(Failure::Malformed),
            Ending::Open => Err(Failure::Truncated { element }),
        },
        rest: over.rest,
    }
}

/// Passing over an element leaves no more items than there were.
pub proof fn lemma_passed_rest(s: Seq<Item>, depth: nat)
    ensures
        passed(s, depth).rest.len() <= s.len(),
        s.len() > 0 ==> passed(s, depth).rest.len() < s.len(),
    decreases s.len(),
{
    if s.len() > 0 {
        match s[0] {
            Item::Fault => {},
            Item::Start { .. } => {
                lemma_passed_rest(s.skip(1), depth + 1);
            },
            Item::End => {
                if depth != 0 {
                    lemma_passed_rest(s.skip(1), (depth - 1) as nat);
                }
            },
            _ => {
                lemma_passed_rest(s.skip(1), depth);
            },
        }
    }
}

/// Reading the content of the element `node`, found under the tag
/// `element`, up to and including its end tag.
///
/// A start tag is resolved against `node`. If it binds a child, the child
/// takes its attributes, its own content is read, and `node` adopts it;
/// if not, reading fails in strict mode and skips the child's subtree
/// otherwise. Character data goes to `node` if it takes any and is dropped
/// if not. The end of the input is a failure that names `element`, also
/// where it comes while an unknown child is skipped.
///
/// The test on the length of what a child leaves is always met (see
/// `lemma_content_rest`); it stands here so that the definition is
/// well-founded.
pub open spec fn content(s: Seq<Item>, node: Node, element: Seq<char>, strict: bool) -> Step<Node>
    decreases s.len(),
{
    if s.len() == 0 {
        Step { value: Err(Failure::Truncated { element }), rest: s }
    } else {
        let rest = s.skip(1);
        match s[0] {
            Item::Fault => Step { value: Err(Failure::Malformed), rest },
            Item::End => Step { value: Ok(node), rest },
            Item::Other => content(rest, node, element, strict),
            Item::Text(raw) => if node.has_content() {
                match unescaped(raw) {
                    None => Step { value: Err(Failure::Malformed), rest },
                    Some(bytes) => match text_of(bytes) {
                        None => Step { value: Err(Failure::Malformed), rest },
                        Some(text) => content(rest, node.with_content(text), element, strict),
                    },
                }
            } else {
                content(rest, node, element, strict)
            },
            Item::Start { content: tag_content, name_len } => match tag_of(tag_content, name_len) {
                None => Step { value: Err(Failure::Malformed), rest },
                Some(tag) => match node.child(tag) {
                    Some(bound) => match applied(
                        bound.node,
                        bound.tag,
                        tag_attributes(tag_content, name_len),
                        strict,
                    ) {
                        Err(f) => Step { value: Err(f), rest },
                        Ok(child) => {
                            let sub = content(rest, child, bound.tag, strict);
                            match sub.value {
                                Err(f) => Step { value: Err(f), rest: sub.rest },
                                Ok(done) => if sub.rest.len() < s.len() {
                                    content(sub.rest, node.adopt(bound.tag, done), element, strict)
                                } else {
                                    Step { value: Err(Failure::Malformed), rest: sub.rest }
                                },
                            }
                        },
                    },
                    None => if strict {
                        Step {
                            value: Err(
                                Failure::UnexpectedElement { parent: Some(element), tag },
                            ),
                            rest,
                        }
                    } else {
                        proof {
                            lemma_passed_rest(rest, 0);
                        }
                        let gap = skipped(rest, 0, element);
                        match gap.value {
                            Err(f) => Step { value: Err(f), rest: gap.rest },
                            Ok(_) => content(gap.rest, node, element, strict),
                        }
                    },
                },
            },
        }
    }
}

/// Reading an element's content leaves no more items than there were.
pub proof fn lemma_content_rest(s: Seq<Item>, node: Node, element: Seq<char>, strict: bool)
    ensures
        content(s, node, element, strict).rest.len() <= s.len(),
        s.len() > 0 ==> content(s, node, element, strict).rest.len() < s.len(),
    decreases s.len(),
{
    if s.len() > 0 {
        let rest = s.skip(1);
        match s[0] {
            Item::Fault => {},
            Item::End => {},
            Item::Other => {
                lemma_content_rest(rest, node, element, strict);
            },
            Item::Text(raw) => {
                if node.has_content() {
                    match unescaped(raw) {
                        None => {},
                        Some(bytes) => match text_of(bytes) {
                            None => {},
                            Some(text) => {
                                lemma_content_rest(rest, node.with_content(text), element, strict);
                            },
                        },
                    }
                } else {
                    lemma_content_rest(rest, node, element, strict);
                }
            },
            Item::Start { content: tag_content, name_len } => match tag_of(tag_content, name_len) {
                None => {},
                Some(tag) => match node.child(tag) {
                    Some(bound) => match applied(
                        bound.node,
                        bound.tag,
                        tag_attributes(tag_content, name_len),
                        strict,
                    ) {
                        Err(_) => {},
                        Ok(child) => {
                            lemma_content_rest(rest, child, bound.tag, strict);
                            let sub = content(rest, child, bound.tag, strict);
                            match sub.value {
                                Err(_) => {},
                                Ok(done) => {
                                    lemma_content_rest(
                                        sub.rest,
                                        node.adopt(bound.tag, done),
                                        element,
                                        strict,
                                    );
                                },
                            }
                        },
                    },
                    None => {
                        if !strict {
                            lemma_passed_rest(rest, 0);
                            let gap = skipped(rest, 0, element);
                            if gap.value is Ok {
                                lemma_content_rest(gap.rest, node, element, strict);
                            }
                        }
                    },
                },
            },
        }
    }
}

/// Reading at the top level, where `doc` is the catalog read so far, if a
/// `datafile` element has been seen.
///
/// Only a `datafile` element is taken: its attributes and its content go
/// to the one catalog, which is made when the first such element is seen.
/// Any other element fails in strict mode and is skipped otherwise; input
/// that ends while such an element is skipped is a failure that names it.
/// When the input ends, the catalog is the result; if there is none, that is
/// a failure.
///
/// A further `datafile` element at the top level is not refused: it is read
/// into the same catalog, its attributes over those of the first and its
/// games after them. The format does not say what a second such element
/// means. Reading it this way follows what readers of the format are seen
/// to do, and may not be what the writer of such a document intends.
///
/// What is read as the content of a catalog is always a catalog (see
/// `law_content_ends_with_the_element`), so the branch for anything else is
/// never taken.
pub open spec fn top_level(s: Seq<Item>, doc: Option<DataFileView>, strict: bool) -> Result<
    DataFileView,
    Failure,
>
    decreases s.len(),
{
    if s.len() == 0 {
        match doc {
            Some(d) => Ok(d),
            None => Err(Failure::NoDocument),
        }
    } else {
        let rest = s.skip(1);
        match s[0] {
            Item::Fault => Err(Failure::Malformed),
            Item::Start { content: tag_content, name_len } => match tag_of(tag_content, name_len) {
                None => Err(Failure::Malformed),
                Some(tag) => if tag == "datafile"@ {
                    let root = match doc {
                        Some(d) => d,
                        None => DataFileView::initial(),
                    };
                    match applied(
                        Node::DataFile(root),
                        "datafile"@,
                        tag_attributes(tag_content, name_len),
                        strict,
                    ) {
                        Err(f) => Err(f),
                        Ok(node) => {
                            proof {
                                lemma_content_rest(rest, node, "datafile"@, strict);
                            }
                            let sub = content(rest, node, "datafile"@, strict);
                            match sub.value {
                                Err(f) => Err(f),
                                Ok(Node::DataFile(d)) => top_level(sub.rest, Some(d), strict),
                                Ok(_) => Err(Failure::Malformed),
                            }
                        },
                    }
                } else if strict {
                    Err(Failure::UnexpectedElement { parent: None, tag })
                } else {
                    proof {
                        lemma_passed_rest(rest, 0);
                    }
                    let gap = skipped(rest, 0, tag);
                    match gap.value {
                        Err(f) => Err(f),
                        Ok(_) => top_level(gap.rest, doc, strict),
                    }
                },
            },
            _ => top_level(rest, doc, strict),
        }
    }
}

/// The items that the reader reads from the bytes of a document: text is
/// trimmed, and an empty-element tag counts as a start followed by an end.
pub open spec fn document_events(input: Seq<u8>) -> Seq<Item> {
    xml_events(input, true, true)
}

/// The catalog that the items `s` hold, or the failure that reading them
/// ends with.
pub open spec fn document(s: Seq<Item>, strict: bool) -> Result<DataFileView, Failure> {
    top_level(s, None, strict)
}

/// Whether `r` is what reading ends with when the items hold `expected`.
pub open spec fn yields(
    r: Result<DataFile, DatReaderError>,
    expected: Result<DataFileView, Failure>,
) -> bool {
    match r {
        Ok(doc) => expected == Ok::<DataFileView, Failure>(doc@),
        Err(e) => expected matches Err(f) && e.reports(f),
    }
}

/// Reads a catalog from XML text held in memory.
pub struct DatReader<'a> {
    source: XmlSource<'a>,
    strict: bool,
}

impl XmlCursor {
    /// Applies the attributes of a start tag to the bound element, in
    /// order. Each key and value is decoded as it is reached, so that an
    /// attribute that the element refuses is reported before a later one
    /// that cannot be read.
    pub(crate) fn apply_attrs(
        &mut self,
        source: &XmlSource,
        attrs: Vec<Result<RawAttr, quick_xml::Error>>,
        strict: bool,
    ) -> (r: Result<(), DatReaderError>)
        ensures
            match r {
                Ok(_) => applied(old(self).element@, old(self).tag@, attr_views(attrs@), strict)
                    == Ok::<Node, Failure>(final(self).element@) && final(self).tag == old(
                    self,
                ).tag && final(self).element@.same_kind(old(self).element@),
                Err(e) => applied(old(self).element@, old(self).tag@, attr_views(attrs@), strict)
                    matches Err(f) && e.reports(f),
            },
    {
        let ghost all = attr_views(attrs@);
        let ghost goal = applied(self.element@, self.tag@, all, strict);
        let mut items = attrs;
        let mut i: usize = 0;
        proof {
            assert(all.skip(0) =~= all);
        }
        while i < items.len()
            invariant
                i <= items.len(),
                attr_views(items@) == all,
                all == attr_views(attrs@),
                goal == applied(old(self).element@, old(self).tag@, all, strict),
                self.tag == old(self).tag,
                self.element@.same_kind(old(self).element@),
                applied(self.element@, self.tag@, all.skip(i as int), strict) == goal,
            decreases items.len() - i,
        {
            proof {
                assert(all.skip(i as int).skip(1) =~= all.skip(i as int + 1));
            }
            match &items[i] {
                Err(_) => {
                    let failed = items.swap_remove(i);
                    return match failed {
                        Err(e) => Err(DatReaderError::Xml(e)),
                        Ok(_) => vstd::pervasive::unreached(),
                    };
                },
                Ok(attr) => {
                    let key = match decode(source, attr.key.as_slice()) {
                        Ok(key) => key,
                        Err(e) => {
                            return Err(DatReaderError::Xml(e));
                        },
                    };
                    let value = match attribute_value(source, attr.value.as_slice()) {
                        Ok(value) => value,
                        Err(e) => {
                            return Err(DatReaderError::Xml(e));
                        },
                    };
                    if !self.element.attr(key, value.as_str()) {
                        if strict {
                            return Err(unexpected_attribute(self.tag, key, value.as_str()));
                        }
                    }
                },
            }
            i = i + 1;
        }
        Ok(())
    }
}

impl<'a> DatReader<'a> {
    /// The source never holds more items than a machine can count.
    #[verifier::type_invariant]
    spec fn countable(self) -> bool {
        pending(self.source).len() <= usize::MAX
    }

    /// The items that the reader has yet to read.
    pub closed spec fn events(self) -> Seq<Item> {
        pending(self.source)
    }

    /// Whether the reader is in strict mode.
    pub closed spec fn is_strict(self) -> bool {
        self.strict
    }

    /// A strict reader over XML text.
    pub fn from_string(xml: &'a str) -> (reader: DatReader<'a>)
        ensures
            reader.events() == document_events(xml.spec_bytes()),
            reader.is_strict(),
    {
        DatReader::from_reader(xml.as_bytes())
    }

    /// A strict reader over the bytes of an XML document.
    pub fn from_reader(input: &'a [u8]) -> (reader: DatReader<'a>)
        ensures
            reader.events() == document_events(input@),
            reader.is_strict(),
    {
        DatReader::from_xml_reader(input)
    }

    /// Sets up the token source, to trim text and to report an
    /// empty-element tag as a start followed by an end, and makes a strict
    /// reader over it.
    fn from_xml_reader(input: &'a [u8]) -> (reader: DatReader<'a>)
        ensures
            reader.events() == document_events(input@),
            reader.is_strict(),
    {
        let source = open_source(input, true, true);
        assert(input@.len() == input.len());
        DatReader { source, strict: true }
    }

    /// Chooses between strict mode, in which anything that the schema does
    /// not know ends the reading, and lenient mode, in which it is passed
    /// over.
    pub fn set_strict(&mut self, strict: bool)
        ensures
            final(self).is_strict() == strict,
            final(self).events() == old(self).events(),
    {
        proof {
            use_type_invariant(&*self);
        }
        self.strict = strict;
    }

    /// Reads all there is and returns the catalog, or the one error that
    /// ended the reading.
    pub fn read_all(self) -> (r: Result<DataFile, DatReaderError>)
        ensures
            yields(r, document(self.events(), self.is_strict())),
    {
        let ghost goal = document(self.events(), self.strict);
        let mut reader = self;
        let mut result: Option<DataFile> = None;
        loop
            invariant
                top_level(reader.events(), data_file_view(result), reader.strict) == goal,
                goal == document(self.events(), self.is_strict()),
            decreases reader.events().len(),
        {
            proof {
                use_type_invariant(&reader);
            }
            let ghost before = reader.events();
            let token = match next_event(&mut reader.source) {
                Ok(token) => token,
                Err(e) => {
                    return Err(DatReaderError::from(e));
                },
            };
            match token {
                Some(XmlToken::Start { content, name_len }) => {
                    let tag = match decode(
                        &reader.source,
                        slice_subrange(content.as_slice(), 0, name_len),
                    ) {
                        Ok(tag) => tag,
                        Err(e) => {
                            return Err(DatReaderError::from(e));
                        },
                    };
                    if str_eq(tag, "datafile") {
                        let root = match result.take() {
                            Some(doc) => doc,
                            None => DataFile::default(),
                        };
                        let mut cursor = XmlCursor {
                            tag: "datafile",
                            element: Element::DataFile(root),
                        };
                        let attrs = attributes(content.as_slice(), name_len);
                        match cursor.apply_attrs(&reader.source, attrs, reader.strict) {
                            Ok(_) => {},
                            Err(e) => {
                                return Err(e);
                            },
                        }
                        proof {
                            lemma_content_rest(
                                before.skip(1),
                                cursor.element@,
                                "datafile"@,
                                reader.strict,
                            );
                        }
                        match reader.read_content(&mut cursor) {
                            Ok(_) => {},
                            Err(e) => {
                                return Err(e);
                            },
                        }
                        match cursor.element {
                            Element::DataFile(doc) => {
                                result = Some(doc);
                            },
                            _ => {
                                return vstd::pervasive::unreached();
                            },
                        }
                    } else if reader.strict {
                        return Err(unexpected_root(tag));
                    } else {
                        proof {
                            lemma_passed_rest(before.skip(1), 0);
                        }
                        match reader.skip_content(tag) {
                            Ok(_) => {},
                            Err(e) => {
                                return Err(e);
                            },
                        }
                    }
                },
                None => {
                    return match result {
                        Some(doc) => Ok(doc),
                        None => Err(DatReaderError::Xml(unexpected_eof(no_document_text()))),
                    };
                },
                _ => {},
            }
        }
    }

    /// Passes over the rest of an element whose start tag has been read,
    /// whatever it holds, counting nested starts and ends. No element of the
    /// catalog is touched: all that happens is that items are read. Input
    /// that ends before the element is closed is an error that names `tag`.
    pub fn skip_content(&mut self, tag: &str) -> (r: Result<(), DatReaderError>)
        ensures
            final(self).is_strict() == old(self).is_strict(),
            match r {
                Ok(_) => skipped(old(self).events(), 0, tag@).value is Ok && final(self).events()
                    == skipped(old(self).events(), 0, tag@).rest,
                Err(e) => skipped(old(self).events(), 0, tag@).value matches Err(f)
                    && e.reports(f),
            },
    {
        proof {
            use_type_invariant(&*self);
        }
        let ghost start = self.events();
        let mut depth: usize = 0;
        loop
            invariant
                passed(self.events(), depth as nat) == passed(start, 0),
                depth + self.events().len() <= start.len(),
                start.len() <= usize::MAX,
                start == old(self).events(),
                self.strict == old(self).strict,
            decreases self.events().len(),
        {
            proof {
                use_type_invariant(&*self);
            }
            match next_event(&mut self.source) {
                Err(e) => {
                    return Err(DatReaderError::from(e));
                },
                Ok(Some(XmlToken::Start { .. })) => {
                    depth = depth + 1;
                },
                Ok(Some(XmlToken::End)) => {
                    if depth == 0 {
                        return Ok(());
                    }
                    depth = depth - 1;
                },
                Ok(Some(_)) => {},
                Ok(None) => {
                    return Err(DatReaderError::Xml(unexpected_eof(truncated_text(tag))));
                },
            }
        }
    }

    /// Reads the content of the element that `cursor` binds, whose start
    /// tag has been read, up to and including its end tag.
    pub fn read_content(&mut self, cursor: &mut XmlCursor) -> (r: Result<(), DatReaderError>)
        ensures
            final(self).is_strict() == old(self).is_strict(),
            ({
                let out = content(
                    old(self).events(),
                    old(cursor).element@,
                    old(cursor).tag@,
                    old(self).is_strict(),
                );
                match r {
                    Ok(_) => out.value == Ok::<Node, Failure>(final(cursor).element@)
                        && final(self).events() == out.rest && final(cursor).tag == old(
                        cursor,
                    ).tag && final(cursor).element@.same_kind(old(cursor).element@),
                    Err(e) => out.value matches Err(f) && e.reports(f),
                }
            }),
        decreases old(self).events().len(),
    {
        let ghost start = self.events();
        let ghost goal = content(start, cursor.element@, cursor.tag@, self.strict);
        loop
            invariant
                content(self.events(), cursor.element@, cursor.tag@, self.strict) == goal,
                goal == content(start, old(cursor).element@, old(cursor).tag@, old(self).strict),
                self.events().len() <= start.len(),
                start == old(self).events(),
                self.strict == old(self).strict,
                cursor.tag == old(cursor).tag,
                cursor.element@.same_kind(old(cursor).element@),
            decreases self.events().len(),
        {
            proof {
                use_type_invariant(&*self);
            }
            let ghost before = self.events();
            let token = match next_event(&mut self.source) {
                Ok(token) => token,
                Err(e) => {
                    return Err(DatReaderError::from(e));
                },
            };
            match token {
                Some(XmlToken::Start { content, name_len }) => {
                    let tag = match decode(
                        &self.source,
                        slice_subrange(content.as_slice(), 0, name_len),
                    ) {
                        Ok(tag) => tag,
                        Err(e) => {
                            return Err(DatReaderError::from(e));
                        },
                    };
                    match cursor.element.child(tag) {
                        Some(mut child) => {
                            let ghost bound = child@;
                            let attrs = attributes(content.as_slice(), name_len);
                            match child.apply_attrs(&self.source, attrs, self.strict) {
                                Ok(_) => {},
                                Err(e) => {
                                    return Err(e);
                                },
                            }
                            proof {
                                lemma_content_rest(
                                    before.skip(1),
                                    child.element@,
                                    bound.tag,
                                    self.strict,
                                );
                            }
                            match self.read_content(&mut child) {
                                Ok(_) => {},
                                Err(e) => {
                                    return Err(e);
                                },
                            }
                            cursor.element.adopt(child);
                        },
                        None => {
                            if self.strict {
                                return Err(unexpected_child(cursor.tag, tag));
                            }
                            proof {
                                lemma_passed_rest(before.skip(1), 0);
                            }
                            match self.skip_content(cursor.tag) {
                                Ok(_) => {},
                                Err(e) => {
                                    return Err(e);
                                },
                            }
                        },
                    }
                },
                Some(XmlToken::Text(raw)) => {
                    match cursor.element.content() {
                        Some(buffer) => {
                            let bytes = match unescape(raw.as_slice()) {
                                Ok(bytes) => bytes,
                                Err(e) => {
                                    return Err(DatReaderError::from(e));
                                },
                            };
                            let text = match decode(&self.source, bytes.as_slice()) {
                                Ok(text) => text,
                                Err(e) => {
                                    return Err(DatReaderError::from(e));
                                },
                            };
                            buffer.append(text);
                        },
                        None => {},
                    }
                },
                Some(XmlToken::End) => {
                    return Ok(());
                },
                Some(XmlToken::Other) => {},
                None => {
                    return Err(DatReaderError::Xml(unexpected_eof(truncated_text(cursor.tag))));
                },
            }
        }
    }
}

} // verus!

//! Strict and lenient reading.
//!
//! What the schema does not know ends a strict reading and is passed over by
//! a lenient one; what cannot be read ends both.

use vstd::prelude::*;

use crate::error::Failure;
use crate::laws::structure::{lemma_passed_over, well_nested};
use crate::model::DataFileView;
use crate::reader::{
    applied, content, lemma_content_rest, lemma_passed_rest, passed, skipped, tag_of, top_level,
};
use crate::source::{attribute_text, tag_attributes, text_of, unescaped, Item, RawAttrView};
use crate::xml_element::Node;

verus! {

/// An attribute that an element does not take, or whose value it refuses,
/// ends the reading in strict mode, with a failure that names the element,
/// the attribute and the value; in lenient mode the element stays as it was
/// and the attributes that follow are applied.
pub proof fn law_refused_attribute(
    node: Node,
    element: Seq<char>,
    first: RawAttrView,
    others: Seq<Option<RawAttrView>>,
    key: Seq<char>,
    value: Seq<char>,
)
    requires
        text_of(first.key) == Some(key),
        attribute_text(first.value) == Some(value),
        node.attr(key, value) is None,
    ensures
        applied(node, element, seq![Some(first)] + others, true) == Err::<Node, Failure>(
            Failure::UnexpectedAttribute { element, key, value },
        ),
        applied(node, element, seq![Some(first)] + others, false) == applied(
            node,
            element,
            others,
            false,
        ),
{
    let attrs = seq![Some(first)] + others;
    assert(attrs.skip(1) =~= others);
}

/// The status of a ROM or disk is what it was unless one of the attributes
/// applied to it is named `status`: without such an attribute a fresh ROM or
/// disk stays good.
pub proof fn law_status_stays_without_its_attribute(
    node: Node,
    element: Seq<char>,
    attrs: Seq<Option<RawAttrView>>,
    strict: bool,
)
    requires
        forall|i: int|
            0 <= i < attrs.len() ==> (#[trigger] attrs[i] matches Some(a) ==> text_of(a.key)
                != Some("status"@)),
    ensures
        node matches Node::Rom(r) ==> (applied(node, element, attrs, strict) matches Ok(done)
            ==> done matches Node::Rom(r2) && r2.status == r.status),
        node matches Node::Disk(d) ==> (applied(node, element, attrs, strict) matches Ok(done)
            ==> done matches Node::Disk(d2) && d2.status == d.status),
    decreases attrs.len(),
{
    if attrs.len() > 0 {
        match attrs[0] {
            None => {},
            Some(a) => match text_of(a.key) {
                None => {},
                Some(key) => match attribute_text(a.value) {
                    None => {},
                    Some(value) => match node.attr(key, value) {
                        Some(next) => {
                            law_status_stays_without_its_attribute(
                                next,
                                element,
                                attrs.skip(1),
                                strict,
                            );
                        },
                        None => {
                            if !strict {
                                law_status_stays_without_its_attribute(
                                    node,
                                    element,
                                    attrs.skip(1),
                                    strict,
                                );
                            }
                        },
                    },
                },
            },
        }
    }
}

/// Whether the first `i` items of `s` are of the kinds that reading passes
/// over at the top level: text, stray end tags, comments and the like.
pub open spec fn passed_over_at_top(s: Seq<Item>, i: int) -> bool {
    forall|j: int| 0 <= j < i ==> !(#[trigger] s[j] is Start) && !(s[j] is Fault)
}

/// Whether the first `i` items of `s` are of the kinds that reading passes
/// over in the content of `node`: comments and the like, and text if the
/// element takes none.
pub open spec fn passed_over_in(s: Seq<Item>, i: int, node: Node) -> bool {
    forall|j: int|
        0 <= j < i ==> (#[trigger] s[j] is Other) || (s[j] is Text && !node.has_content())
}

/// In strict mode, reading fails at the first element at the top level
/// that is not a `datafile`, and the failure names the element.
pub proof fn law_strict_refuses_unknown_root(
    s: Seq<Item>,
    i: int,
    doc: Option<DataFileView>,
    tag: Seq<char>,
)
    requires
        0 <= i < s.len(),
        passed_over_at_top(s, i),
        s[i] matches Item::Start { content, name_len } && tag_of(content, name_len) == Some(tag),
        tag != "datafile"@,
    ensures
        top_level(s, doc, true) == Err::<DataFileView, Failure>(
            Failure::UnexpectedElement { parent: None, tag },
        ),
    decreases i,
{
    if i > 0 {
        law_strict_refuses_unknown_root(s.skip(1), i - 1, doc, tag);
    }
}

/// In strict mode, reading the content of an element fails at the first
/// child that the element does not know, and the failure names the child
/// and the element.
pub proof fn law_strict_refuses_unknown_child(
    s: Seq<Item>,
    i: int,
    node: Node,
    element: Seq<char>,
    tag: Seq<char>,
)
    requires
        0 <= i < s.len(),
        passed_over_in(s, i, node),
        s[i] matches Item::Start { content, name_len } && tag_of(content, name_len) == Some(tag),
        node.child(tag) is None,
    ensures
        content(s, node, element, true).value == Err::<Node, Failure>(
            Failure::UnexpectedElement { parent: Some(element), tag },
        ),
    decreases i,
{
    if i > 0 {
        law_strict_refuses_unknown_child(s.skip(1), i - 1, node, element, tag);
    }
}

/// In lenient mode, an element that its parent does not know is passed
/// over with all that it holds: whatever stands inside it, reading the
/// parent's content yields what it yields without the element.
pub proof fn law_lenient_skips_unknown_child(
    start: Item,
    inner: Seq<Item>,
    tail: Seq<Item>,
    node: Node,
    element: Seq<char>,
    tag: Seq<char>,
)
    requires
        start matches Item::Start { content, name_len } && tag_of(content, name_len) == Some(tag),
        node.child(tag) is None,
        well_nested(inner),
    ensures
        content(seq![start] + inner + seq![Item::End] + tail, node, element, false) == content(
            tail,
            node,
            element,
            false,
        ),
{
    let s = seq![start] + inner + seq![Item::End] + tail;
    let closing = seq![Item::End] + tail;
    assert(s.skip(1) =~= inner + closing);
    lemma_passed_over(inner, closing, 0, 0);
    assert(closing.skip(1) =~= tail);
}

/// In lenient mode, an element at the top level that is not a `datafile`
/// is passed over with all that it holds: whatever stands inside it, reading
/// yields what it yields without the element.
pub proof fn law_lenient_skips_unknown_root(
    start: Item,
    inner: Seq<Item>,
    tail: Seq<Item>,
    doc: Option<DataFileView>,
    tag: Seq<char>,
)
    requires
        start matches Item::Start { content, name_len } && tag_of(content, name_len) == Some(tag),
        tag != "datafile"@,
        well_nested(inner),
    ensures
        top_level(seq![start] + inner + seq![Item::End] + tail, doc, false) == top_level(
            tail,
            doc,
            false,
        ),
{
    let s = seq![start] + inner + seq![Item::End] + tail;
    let closing = seq![Item::End] + tail;
    assert(s.skip(1) =~= inner + closing);
    lemma_passed_over(inner, closing, 0, 0);
    assert(closing.skip(1) =~= tail);
}

/// In lenient mode, attributes end the reading only if one of them cannot
/// be read.
pub proof fn law_lenient_attributes_fail_only_on_bad_input(
    node: Node,
    element: Seq<char>,
    attrs: Seq<Option<RawAttrView>>,
)
    ensures
        applied(node, element, attrs, false) matches Err(f) ==> f is Malformed,
    decreases attrs.len(),
{
    if attrs.len() > 0 {
        match attrs[0] {
            None => {},
            Some(a) => match text_of(a.key) {
                None => {},
                Some(key) => match attribute_text(a.value) {
                    None => {},
                    Some(value) => match node.attr(key, value) {
                        Some(next) => {
                            law_lenient_attributes_fail_only_on_bad_input(
                                next,
                                element,
                                attrs.skip(1),
                            );
                        },
                        None => {
                            law_lenient_attributes_fail_only_on_bad_input(
                                node,
                                element,
                                attrs.skip(1),
                            );
                        },
                    },
                },
            },
        }
    }
}

/// Skipping fails only where the input is malformed or ends before the
/// skipped element is closed; in the latter case the failure names the
/// element that was handed to it.
pub proof fn law_skipping_fails_only_on_bad_input(s: Seq<Item>, depth: nat, element: Seq<char>)
    ensures
        skipped(s, depth, element).value matches Err(f) ==> f is Malformed || f
            == (Failure::Truncated { element }),
{
}

/// In lenient mode, reading the content of an element fails only where the
/// input is malformed or ends too early: nothing that is merely unknown ends
/// the reading.
pub proof fn law_lenient_content_fails_only_on_bad_input(
    s: Seq<Item>,
    node: Node,
    element: Seq<char>,
)
    ensures
        content(s, node, element, false).value matches Err(f) ==> f is Malformed
            || f is Truncated,
    decreases s.len(),
{
    if s.len() > 0 {
        let rest = s.skip(1);
        match s[0] {
            Item::Fault => {},
            Item::End => {},
            Item::Other => {
                law_lenient_content_fails_only_on_bad_input(rest, node, element);
            },
            Item::Text(raw) => {
                if node.has_content() {
                    match unescaped(raw) {
                        None => {},
                        Some(bytes) => match text_of(bytes) {
                            None => {},
                            Some(text) => {
                                law_lenient_content_fails_only_on_bad_input(
                                    rest,
                                    node.with_content(text),
                                    element,
                                );
                            },
                        },
                    }
                } else {
                    law_lenient_content_fails_only_on_bad_input(rest, node, element);
                }
            },
            Item::Start { content: tag_content, name_len } => match tag_of(tag_content, name_len) {
                None => {},
                Some(tag) => match node.child(tag) {
                    Some(bound) => {
                        let attrs = tag_attributes(tag_content, name_len);
                        law_lenient_attributes_fail_only_on_bad_input(bound.node, bound.tag, attrs);
                        match applied(bound.node, bound.tag, attrs, false) {
                            Err(_) => {},
                            Ok(child) => {
                                law_lenient_content_fails_only_on_bad_input(rest, child, bound.tag);
                                lemma_content_rest(rest, child, bound.tag, false);
                                let sub = content(rest, child, bound.tag, false);
                                match sub.value {
                                    Err(_) => {},
                                    Ok(done) => {
                                        law_lenient_content_fails_only_on_bad_input(
                                            sub.rest,
                                            node.adopt(bound.tag, done),
                                            element,
                                        );
                                    },
                                }
                            },
                        }
                    },
                    None => {
                        lemma_passed_rest(rest, 0);
                        let gap = passed(rest, 0);
                        if gap.ending is Closed {
                            law_lenient_content_fails_only_on_bad_input(gap.rest, node, element);
                        }
                    },
                },
            },
        }
    }
}

/// In lenient mode, reading fails only where the input is malformed, ends
/// too early or holds no catalog: an unknown attribute or element never
/// ends the reading.
pub proof fn law_lenient_fails_only_on_bad_input(s: Seq<Item>, doc: Option<DataFileView>)
    ensures
        top_level(s, doc, false) matches Err(f) ==> f is Malformed || f is Truncated
            || f is NoDocument,
    decreases s.len(),
{
    if s.len() > 0 {
        let rest = s.skip(1);
        match s[0] {
            Item::Fault => {},
            Item::Start { content: tag_content, name_len } => match tag_of(tag_content, name_len) {
                None => {},
                Some(tag) => {
                    if tag == "datafile"@ {
                        let root = match doc {
                            Some(d) => d,
                            None => DataFileView::initial(),
                        };
                        let attrs = tag_attributes(tag_content, name_len);
                        law_lenient_attributes_fail_only_on_bad_input(
                            Node::DataFile(root),
                            "datafile"@,
                            attrs,
                        );
                        match applied(Node::DataFile(root), "datafile"@, attrs, false) {
                            Err(_) => {},
                            Ok(node) => {
                                law_lenient_content_fails_only_on_bad_input(
                                    rest,
                                    node,
                                    "datafile"@,
                                );
                                lemma_content_rest(rest, node, "datafile"@, false);
                                let sub = content(rest, node, "datafile"@, false);
                                match sub.value {
                                    Ok(Node::DataFile(d)) => {
                                        law_lenient_fails_only_on_bad_input(sub.rest, Some(d));
                                    },
                                    _ => {},
                                }
                            },
                        }
                    } else {
                        lemma_passed_rest(rest, 0);
                        let gap = passed(rest, 0);
                        if gap.ending is Closed {
                            law_lenient_fails_only_on_bad_input(gap.rest, doc);
                        }
                    }
                },
            },
            _ => {
                law_lenient_fails_only_on_bad_input(rest, doc);
            },
        }
    }
}

/// Attributes that a strict reading accepts give the same element in a
/// lenient reading.
pub proof fn law_lenient_attributes_agree_with_strict(
    node: Node,
    element: Seq<char>,
    attrs: Seq<Option<RawAttrView>>,
)
    requires
        applied(node, element, attrs, true) is Ok,
    ensures
        applied(node, element, attrs, false) == applied(node, element, attrs, true),
    decreases attrs.len(),
{
    if attrs.len() > 0 {
        let a = attrs[0]->0;
        let key = text_of(a.key)->0;
        let value = attribute_text(a.value)->0;
        let next = node.attr(key, value)->0;
        law_lenient_attributes_agree_with_strict(next, element, attrs.skip(1));
    }
}

/// Content that a strict reading accepts is read in the same way by a
/// lenient reading.
pub proof fn law_lenient_content_agrees_with_strict(
    s: Seq<Item>,
    node: Node,
    element: Seq<char>,
)
    requires
        content(s, node, element, true).value is Ok,
    ensures
        content(s, node, element, false) == content(s, node, element, true),
    decreases s.len(),
{
    let rest = s.skip(1);
    match s[0] {
        Item::Fault => {},
        Item::End => {},
        Item::Other => {
            law_lenient_content_agrees_with_strict(rest, node, element);
        },
        Item::Text(raw) => {
            if node.has_content() {
                let text = text_of(unescaped(raw)->0)->0;
                law_lenient_content_agrees_with_strict(rest, node.with_content(text), element);
            } else {
                law_lenient_content_agrees_with_strict(rest, node, element);
            }
        },
        Item::Start { content: tag_content, name_len } => {
            let tag = tag_of(tag_content, name_len)->0;
            let bound = node.child(tag)->0;
            let attrs = tag_attributes(tag_content, name_len);
            law_lenient_attributes_agree_with_strict(bound.node, bound.tag, attrs);
            let child = applied(bound.node, bound.tag, attrs, true)->Ok_0;
            law_lenient_content_agrees_with_strict(rest, child, bound.tag);
            let sub = content(rest, child, bound.tag, true);
            law_lenient_content_agrees_with_strict(
                sub.rest,
                node.adopt(bound.tag, sub.value->Ok_0),
                element,
            );
        },
    }
}

/// A document that a strict reading accepts gives the same catalog in a
/// lenient reading.
pub proof fn law_lenient_agrees_with_strict(s: Seq<Item>, doc: Option<DataFileView>)
    requires
        top_level(s, doc, true) is Ok,
    ensures
        top_level(s, doc, false) == top_level(s, doc, true),
    decreases s.len(),
{
    if s.len() > 0 {
        let rest = s.skip(1);
        match s[0] {
            Item::Fault => {},
            Item::Start { content: tag_content, name_len } => {
                let root = match doc {
                    Some(d) => d,
                    None => DataFileView::initial(),
                };
                let attrs = tag_attributes(tag_content, name_len);
                law_lenient_attributes_agree_with_strict(Node::DataFile(root), "datafile"@, attrs);
                let node = applied(Node::DataFile(root), "datafile"@, attrs, true)->Ok_0;
                law_lenient_content_agrees_with_strict(rest, node, "datafile"@);
                let sub = content(rest, node, "datafile"@, true);
                lemma_content_rest(rest, node, "datafile"@, true);
                law_lenient_agrees_with_strict(sub.rest, Some(sub.value->Ok_0->DataFile_0));
            },
            _ => {
                law_lenient_agrees_with_strict(rest, doc);
            },
        }
    }
}

/// Input that ends inside an element ends the reading, in either mode, and
/// the failure names the element: here where nothing but comments, and text
/// that the element does not take, come before the end of the input.
pub proof fn law_end_of_input_names_the_element(
    s: Seq<Item>,
    node: Node,
    element: Seq<char>,
    strict: bool,
)
    requires
        passed_over_in(s, s.len() as int, node),
    ensures
        content(s, node, element, strict).value == Err::<Node, Failure>(
            Failure::Truncated { element },
        ),
    decreases s.len(),
{
    if s.len() > 0 {
        law_end_of_input_names_the_element(s.skip(1), node, element, strict);
    }
}

/// In lenient mode, input that ends while an unknown child is skipped ends
/// the reading, and the failure names the element whose content was being
/// read.
pub proof fn law_unclosed_unknown_child_fails(
    start: Item,
    rest: Seq<Item>,
    node: Node,
    element: Seq<char>,
    tag: Seq<char>,
)
    requires
        start matches Item::Start { content, name_len } && tag_of(content, name_len) == Some(tag),
        node.child(tag) is None,
        passed(rest, 0).ending is Open,
    ensures
        content(seq![start] + rest, node, element, false).value == Err::<Node, Failure>(
            Failure::Truncated { element },
        ),
{
    assert((seq![start] + rest).skip(1) =~= rest);
}

/// In lenient mode, input that ends while an unknown element at the top
/// level is skipped ends the reading, whatever was read before, and the
/// failure names the skipped element.
pub proof fn law_unclosed_unknown_root_fails(
    start: Item,
    rest: Seq<Item>,
    doc: Option<DataFileView>,
    tag: Seq<char>,
)
    requires
        start matches Item::Start { content, name_len } && tag_of(content, name_len) == Some(tag),
        tag != "datafile"@,
        passed(rest, 0).ending is Open,
    ensures
        top_level(seq![start] + rest, doc, false) == Err::<DataFileView, Failure>(
            Failure::Truncated { element: tag },
        ),
{
    assert((seq![start] + rest).skip(1) =~= rest);
}

} // verus!

//! Elements as the count of tags finds them, and what reading keeps of that
//! structure.
//!
//! The functions here find the elements of a document by counting start and
//! end tags alone, as [`passed`] does, without regard to what the reader
//! makes of them. The laws say that a reading that does not fail stops where the
//! element ends by that count, and passes over nothing that is malformed.

use vstd::prelude::*;

use crate::error::Failure;
use crate::model::DataFileView;
use crate::reader::{applied, content, lemma_passed_rest, passed, tag_of, top_level};
use crate::source::{attribute_text, tag_attributes, text_of, unescaped, Item, RawAttrView};
use crate::xml_element::Node;

verus! {

/// The elements named `tag` that stand directly in the content that `s`
/// begins with, in order, each given as the items from its start tag on.
/// They are found by the count of start and end tags alone.
pub open spec fn children_named(s: Seq<Item>, tag: Seq<char>) -> Seq<Seq<Item>>
    decreases s.len(),
{
    if s.len() == 0 {
        Seq::empty()
    } else {
        match s[0] {
            Item::End => Seq::empty(),
            Item::Fault => Seq::empty(),
            Item::Start { content: tag_content, name_len } => {
                proof {
                    lemma_passed_rest(s.skip(1), 0);
                }
                let here = if tag_of(tag_content, name_len) == Some(tag) {
                    seq![s]
                } else {
                    Seq::empty()
                };
                here + children_named(passed(s.skip(1), 0).rest, tag)
            },
            _ => children_named(s.skip(1), tag),
        }
    }
}

/// What the element that `items` begin with holds when it is read on its
/// own, as a fresh element `fresh` under the tag `tag`: the attributes of
/// its start tag are applied, then its content is read.
pub open spec fn read_alone(items: Seq<Item>, fresh: Node, tag: Seq<char>, strict: bool) -> Result<
    Node,
    Failure,
> {
    if items.len() == 0 {
        Err(Failure::Malformed)
    } else {
        match items[0] {
            Item::Start { content: tag_content, name_len } => match applied(
                fresh,
                tag,
                tag_attributes(tag_content, name_len),
                strict,
            ) {
                Err(f) => Err(f),
                Ok(node) => content(items.skip(1), node, tag, strict).value,
            },
            _ => Err(Failure::Malformed),
        }
    }
}

/// The depth at which the items `inner` end if they begin at `depth`, by
/// the count of start and end tags; `None` if an item is malformed or an
/// end tag closes what was not opened among the items.
pub open spec fn nesting(inner: Seq<Item>, depth: nat) -> Option<nat>
    decreases inner.len(),
{
    if inner.len() == 0 {
        Some(depth)
    } else {
        match inner[0] {
            Item::Fault => None,
            Item::Start { .. } => nesting(inner.skip(1), depth + 1),
            Item::End => if depth == 0 {
                None
            } else {
                nesting(inner.skip(1), (depth - 1) as nat)
            },
            _ => nesting(inner.skip(1), depth),
        }
    }
}

/// Items that are closed in themselves: every start tag among them has its
/// end tag among them, and the other way round.
pub open spec fn well_nested(inner: Seq<Item>) -> bool {
    nesting(inner, 0) == Some(0nat)
}

/// Applying attributes leaves an element the kind of element it was.
pub proof fn law_attributes_keep_the_kind(
    node: Node,
    element: Seq<char>,
    attrs: Seq<Option<RawAttrView>>,
    strict: bool,
)
    ensures
        applied(node, element, attrs, strict) matches Ok(done) ==> done.same_kind(node),
    decreases attrs.len(),
{
    if attrs.len() > 0 {
        match attrs[0] {
            None => {},
            Some(a) => match text_of(a.key) {
                None => {},
                Some(key) => match attribute_text(a.value) {
                    None => {},
                    Some(value) => match node.attr(key, value) {
                        Some(next) => {
                            law_attributes_keep_the_kind(next, element, attrs.skip(1), strict);
                        },
                        None => {
                            if !strict {
                                law_attributes_keep_the_kind(node, element, attrs.skip(1), strict);
                            }
                        },
                    },
                },
            },
        }
    }
}

/// Passing over an element from deeper inside is the same as passing over
/// the inner element first and going on from where it ends.
pub proof fn lemma_passed_in_two(s: Seq<Item>, inner: nat, outer: nat)
    requires
        passed(s, inner).ending is Closed,
    ensures
        passed(s, inner + outer + 1) == passed(passed(s, inner).rest, outer),
    decreases s.len(),
{
    if s.len() > 0 {
        match s[0] {
            Item::Fault => {},
            Item::Start { .. } => {
                lemma_passed_in_two(s.skip(1), inner + 1, outer);
            },
            Item::End => {
                if inner != 0 {
                    lemma_passed_in_two(s.skip(1), (inner - 1) as nat, outer);
                }
            },
            _ => {
                lemma_passed_in_two(s.skip(1), inner, outer);
            },
        }
    }
}

/// Passing over items whose nesting is known goes on after them at the
/// depth at which they end.
pub proof fn lemma_passed_over(inner: Seq<Item>, tail: Seq<Item>, below: nat, depth: nat)
    requires
        nesting(inner, depth) is Some,
    ensures
        passed(inner + tail, below + depth) == passed(tail, below + nesting(inner, depth)->0),
    decreases inner.len(),
{
    if inner.len() > 0 {
        assert((inner + tail).skip(1) =~= inner.skip(1) + tail);
        match inner[0] {
            Item::Fault => {},
            Item::Start { .. } => {
                lemma_passed_over(inner.skip(1), tail, below, depth + 1);
            },
            Item::End => {
                lemma_passed_over(inner.skip(1), tail, below, (depth - 1) as nat);
            },
            _ => {
                lemma_passed_over(inner.skip(1), tail, below, depth);
            },
        }
    }
}

/// Where the content of an element is read without failure, the reader
/// stops where the element ends by the count of its tags, and the element
/// is still the kind of element it was.
pub proof fn law_content_ends_with_the_element(
    s: Seq<Item>,
    node: Node,
    element: Seq<char>,
    strict: bool,
)
    requires
        content(s, node, element, strict).value is Ok,
    ensures
        passed(s, 0).ending is Closed,
        content(s, node, element, strict).rest == passed(s, 0).rest,
        content(s, node, element, strict).value matches Ok(done) && done.same_kind(node),
    decreases s.len(),
{
    let rest = s.skip(1);
    match s[0] {
        Item::Fault => {},
        Item::End => {},
        Item::Other => {
            law_content_ends_with_the_element(rest, node, element, strict);
        },
        Item::Text(raw) => {
            if node.has_content() {
                let text = text_of(unescaped(raw)->0)->0;
                law_content_ends_with_the_element(rest, node.with_content(text), element, strict);
            } else {
                law_content_ends_with_the_element(rest, node, element, strict);
            }
        },
        Item::Start { content: tag_content, name_len } => {
            let tag = tag_of(tag_content, name_len)->0;
            match node.child(tag) {
                Some(bound) => {
                    let child = applied(
                        bound.node,
                        bound.tag,
                        tag_attributes(tag_content, name_len),
                        strict,
                    )->Ok_0;
                    let sub = content(rest, child, bound.tag, strict);
                    law_content_ends_with_the_element(rest, child, bound.tag, strict);
                    law_content_ends_with_the_element(
                        sub.rest,
                        node.adopt(bound.tag, sub.value->Ok_0),
                        element,
                        strict,
                    );
                    lemma_passed_in_two(rest, 0, 0);
                },
                None => {
                    let gap = passed(rest, 0);
                    lemma_passed_rest(rest, 0);
                    law_content_ends_with_the_element(gap.rest, node, element, strict);
                    lemma_passed_in_two(rest, 0, 0);
                },
            }
        },
    }
}

/// Where an element is closed, what is left after it is the end of the
/// items, and nothing that was passed over is malformed.
pub proof fn law_passing_meets_no_fault(s: Seq<Item>, depth: nat)
    requires
        passed(s, depth).ending is Closed,
    ensures
        passed(s, depth).rest.len() <= s.len(),
        passed(s, depth).rest == s.skip(s.len() - passed(s, depth).rest.len()),
        forall|i: int|
            0 <= i < s.len() - passed(s, depth).rest.len() ==> !(#[trigger] s[i] is Fault),
    decreases s.len(),
{
    if s.len() > 0 && !(s[0] is End && depth == 0) {
        let rest = s.skip(1);
        let deeper = match s[0] {
            Item::Start { .. } => depth + 1,
            Item::End => (depth - 1) as nat,
            _ => depth,
        };
        law_passing_meets_no_fault(rest, deeper);
        let left = passed(rest, deeper).rest;
        assert forall|i: int| 0 <= i < s.len() - left.len() implies !(#[trigger] s[i]
            is Fault) by {
            if i > 0 {
                assert(s[i] == rest[i - 1]);
            }
        }
    }
}

/// A catalog is returned only where the whole input was read and none of
/// it is malformed, in either mode.
pub proof fn law_catalog_means_no_fault(s: Seq<Item>, doc: Option<DataFileView>, strict: bool)
    requires
        top_level(s, doc, strict) is Ok,
    ensures
        forall|i: int| 0 <= i < s.len() ==> !(#[trigger] s[i] is Fault),
    decreases s.len(),
{
    if s.len() > 0 {
        let rest = s.skip(1);
        match s[0] {
            Item::Fault => {},
            Item::Start { content: tag_content, name_len } => {
                let tag = tag_of(tag_content, name_len)->0;
                lemma_passed_rest(rest, 0);
                if tag == "datafile"@ {
                    let root = match doc {
                        Some(d) => d,
                        None => DataFileView::initial(),
                    };
                    let attrs = tag_attributes(tag_content, name_len);
                    let node = applied(Node::DataFile(root), "datafile"@, attrs, strict)->Ok_0;
                    law_content_ends_with_the_element(rest, node, "datafile"@, strict);
                    let sub = content(rest, node, "datafile"@, strict);
                    law_catalog_means_no_fault(
                        sub.rest,
                        Some(sub.value->Ok_0->DataFile_0),
                        strict,
                    );
                } else {
                    law_catalog_means_no_fault(passed(rest, 0).rest, doc, strict);
                }
                law_passing_meets_no_fault(rest, 0);
                let left = passed(rest, 0).rest;
                assert forall|i: int| 0 <= i < s.len() implies !(#[trigger] s[i] is Fault) by {
                    if 0 < i && i - 1 < rest.len() - left.len() {
                        assert(s[i] == rest[i - 1]);
                    } else if i > 0 {
                        assert(s[i] == left[i - 1 - (rest.len() - left.len())]);
                    }
                }
            },
            _ => {
                law_catalog_means_no_fault(rest, doc, strict);
                assert forall|i: int| 0 <= i < s.len() implies !(#[trigger] s[i] is Fault) by {
                    if i > 0 {
                        assert(s[i] == rest[i - 1]);
                    }
                }
            },
        }
    }
}

/// Whether every element that begins at the top level of `s` is closed
/// before the items end, by the count of its tags.
pub open spec fn all_closed(s: Seq<Item>) -> bool
    decreases s.len(),
{
    if s.len() == 0 {
        true
    } else {
        match s[0] {
            Item::Start { .. } => {
                proof {
                    lemma_passed_rest(s.skip(1), 0);
                }
                passed(s.skip(1), 0).ending is Closed && all_closed(passed(s.skip(1), 0).rest)
            },
            _ => all_closed(s.skip(1)),
        }
    }
}

/// A catalog is returned only where every element of the document is
/// closed, in either mode: input that ends inside an element, read or
/// skipped, is never a success.
pub proof fn law_catalog_means_all_closed(s: Seq<Item>, doc: Option<DataFileView>, strict: bool)
    requires
        top_level(s, doc, strict) is Ok,
    ensures
        all_closed(s),
    decreases s.len(),
{
    if s.len() > 0 {
        let rest = s.skip(1);
        match s[0] {
            Item::Fault => {},
            Item::Start { content: tag_content, name_len } => {
                let tag = tag_of(tag_content, name_len)->0;
                lemma_passed_rest(rest, 0);
                if tag == "datafile"@ {
                    let root = match doc {
                        Some(d) => d,
                        None => DataFileView::initial(),
                    };
                    let attrs = tag_attributes(tag_content, name_len);
                    let node = applied(Node::DataFile(root), "datafile"@, attrs, strict)->Ok_0;
                    law_content_ends_with_the_element(rest, node, "datafile"@, strict);
                    let sub = content(rest, node, "datafile"@, strict);
                    law_catalog_means_all_closed(
                        sub.rest,
                        Some(sub.value->Ok_0->DataFile_0),
                        strict,
                    );
                } else {
                    law_catalog_means_all_closed(passed(rest, 0).rest, doc, strict);
                }
            },
            _ => {
                law_catalog_means_all_closed(rest, doc, strict);
            },
        }
    }
}

} // verus!

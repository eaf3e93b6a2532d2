//! What a lenient reading skips, wherever it stands.
//!
//! An element that its parent does not know may stand anywhere in the
//! parent's content, after any number of children that are read or skipped.
//! The laws here say that it leaves no trace: the reading yields what it
//! yields for the same items without the element.

use vstd::prelude::*;

use crate::laws::modes::{law_lenient_skips_unknown_child, law_lenient_skips_unknown_root};
use crate::laws::structure::{nesting, well_nested};
use crate::model::DataFileView;
use crate::reader::{
    applied, content, lemma_content_rest, lemma_passed_rest, passed, tag_of, top_level,
};
use crate::source::{tag_attributes, text_of, unescaped, Item};
use crate::xml_element::Node;

verus! {

/// Whether `longer` is `shorter` with the items `extra` put in at one
/// place, which lies `depth` levels above the place where the two begin:
/// as many elements that are open where they begin are closed before
/// `extra` comes. Up to there the two agree item by item.
pub open spec fn put_in(shorter: Seq<Item>, longer: Seq<Item>, extra: Seq<Item>, depth: nat) -> bool
    decreases shorter.len(),
{
    ||| depth == 0 && longer == extra + shorter
    ||| shorter.len() > 0 && longer.len() > 0 && shorter[0] == longer[0] && match shorter[0] {
        Item::Fault => false,
        Item::Start { .. } => put_in(shorter.skip(1), longer.skip(1), extra, depth + 1),
        Item::End => depth > 0 && put_in(
            shorter.skip(1),
            longer.skip(1),
            extra,
            (depth - 1) as nat,
        ),
        _ => put_in(shorter.skip(1), longer.skip(1), extra, depth),
    }
}

/// Items put in after items that close `depth` levels are put in `depth`
/// levels up.
pub proof fn lemma_put_in_after(before: Seq<Item>, after: Seq<Item>, extra: Seq<Item>, depth: nat)
    requires
        nesting(before, depth) == Some(0nat),
    ensures
        put_in(before + after, before + extra + after, extra, depth),
    decreases before.len(),
{
    if before.len() == 0 {
        assert(before + after =~= after);
        assert(before + extra + after =~= extra + after);
    } else {
        let deeper = match before[0] {
            Item::Start { .. } => depth + 1,
            Item::End => (depth - 1) as nat,
            _ => depth,
        };
        lemma_put_in_after(before.skip(1), after, extra, deeper);
        assert((before + after).skip(1) =~= before.skip(1) + after);
        assert((before + extra + after).skip(1) =~= before.skip(1) + extra + after);
    }
}

/// An element of the same kind knows the same tags.
pub proof fn lemma_kind_decides_the_children(node: Node, other: Node, tag: Seq<char>)
    requires
        node.same_kind(other),
    ensures
        node.child(tag) is None <==> other.child(tag) is None,
{
}

/// Passing over an element goes the same way with items put in further
/// up: it ends where it ended, and what is left differs by the same items.
pub proof fn lemma_passed_with_put_in(
    shorter: Seq<Item>,
    longer: Seq<Item>,
    extra: Seq<Item>,
    depth: nat,
    below: nat,
)
    requires
        put_in(shorter, longer, extra, depth),
        depth >= below + 1,
        passed(shorter, below).ending is Closed,
    ensures
        passed(longer, below).ending is Closed,
        put_in(
            passed(shorter, below).rest,
            passed(longer, below).rest,
            extra,
            (depth - below - 1) as nat,
        ),
    decreases shorter.len(),
{
    match shorter[0] {
        Item::Fault => {},
        Item::Start { .. } => {
            lemma_passed_with_put_in(shorter.skip(1), longer.skip(1), extra, depth + 1, below + 1);
        },
        Item::End => {
            if below != 0 {
                lemma_passed_with_put_in(
                    shorter.skip(1),
                    longer.skip(1),
                    extra,
                    (depth - 1) as nat,
                    (below - 1) as nat,
                );
            }
        },
        _ => {
            lemma_passed_with_put_in(shorter.skip(1), longer.skip(1), extra, depth, below);
        },
    }
}

/// In lenient mode, an unknown element put in anywhere in what is read
/// leaves no trace. Where it is put in directly in the content of `node`,
/// which does not know its tag, reading the content yields the same element
/// and leaves the same items. Where it is put in further up, reading the
/// content yields the same element, and what is left differs by the unknown
/// element as before, one level nearer.
pub proof fn law_lenient_reading_with_put_in(
    shorter: Seq<Item>,
    longer: Seq<Item>,
    start: Item,
    inner: Seq<Item>,
    depth: nat,
    node: Node,
    element: Seq<char>,
    tag: Seq<char>,
)
    requires
        start matches Item::Start { content, name_len } && tag_of(content, name_len) == Some(tag),
        well_nested(inner),
        put_in(shorter, longer, seq![start] + inner + seq![Item::End], depth),
        content(shorter, node, element, false).value is Ok,
        depth == 0 ==> node.child(tag) is None,
    ensures
        content(longer, node, element, false).value == content(
            shorter,
            node,
            element,
            false,
        ).value,
        depth == 0 ==> content(longer, node, element, false) == content(
            shorter,
            node,
            element,
            false,
        ),
        depth > 0 ==> put_in(
            content(shorter, node, element, false).rest,
            content(longer, node, element, false).rest,
            seq![start] + inner + seq![Item::End],
            (depth - 1) as nat,
        ),
    decreases shorter.len(),
{
    let extra = seq![start] + inner + seq![Item::End];
    if depth == 0 && longer == extra + shorter {
        assert(longer =~= seq![start] + inner + seq![Item::End] + shorter);
        law_lenient_skips_unknown_child(start, inner, shorter, node, element, tag);
    } else {
        let rest = shorter.skip(1);
        let more = longer.skip(1);
        match shorter[0] {
            Item::Fault => {},
            Item::End => {},
            Item::Other => {
                law_lenient_reading_with_put_in(rest, more, start, inner, depth, node, element, tag);
            },
            Item::Text(raw) => {
                if node.has_content() {
                    let grown = node.with_content(text_of(unescaped(raw)->0)->0);
                    law_lenient_reading_with_put_in(
                        rest,
                        more,
                        start,
                        inner,
                        depth,
                        grown,
                        element,
                        tag,
                    );
                } else {
                    law_lenient_reading_with_put_in(
                        rest,
                        more,
                        start,
                        inner,
                        depth,
                        node,
                        element,
                        tag,
                    );
                }
            },
            Item::Start { content: tag_content, name_len } => {
                let other = tag_of(tag_content, name_len)->0;
                match node.child(other) {
                    Some(bound) => {
                        let attrs = tag_attributes(tag_content, name_len);
                        let child = applied(bound.node, bound.tag, attrs, false)->Ok_0;
                        law_lenient_reading_with_put_in(
                            rest,
                            more,
                            start,
                            inner,
                            depth + 1,
                            child,
                            bound.tag,
                            tag,
                        );
                        lemma_content_rest(rest, child, bound.tag, false);
                        lemma_content_rest(more, child, bound.tag, false);
                        let sub = content(rest, child, bound.tag, false);
                        let sub_more = content(more, child, bound.tag, false);
                        let grown = node.adopt(bound.tag, sub.value->Ok_0);
                        lemma_kind_decides_the_children(node, grown, tag);
                        law_lenient_reading_with_put_in(
                            sub.rest,
                            sub_more.rest,
                            start,
                            inner,
                            depth,
                            grown,
                            element,
                            tag,
                        );
                    },
                    None => {
                        lemma_passed_with_put_in(rest, more, extra, depth + 1, 0);
                        lemma_passed_rest(rest, 0);
                        lemma_passed_rest(more, 0);
                        law_lenient_reading_with_put_in(
                            passed(rest, 0).rest,
                            passed(more, 0).rest,
                            start,
                            inner,
                            depth,
                            node,
                            element,
                            tag,
                        );
                    },
                }
            },
        }
    }
}

/// In lenient mode, an element that its parent does not know is passed
/// over with all that it holds, wherever it stands in the parent's content:
/// after any children of the parent, read or skipped, reading the content
/// yields what it yields without the element.
pub proof fn law_lenient_skips_unknown_child_anywhere(
    before: Seq<Item>,
    start: Item,
    inner: Seq<Item>,
    after: Seq<Item>,
    node: Node,
    element: Seq<char>,
    tag: Seq<char>,
)
    requires
        well_nested(before),
        start matches Item::Start { content, name_len } && tag_of(content, name_len) == Some(tag),
        node.child(tag) is None,
        well_nested(inner),
        content(before + after, node, element, false).value is Ok,
    ensures
        content(
            before + (seq![start] + inner + seq![Item::End]) + after,
            node,
            element,
            false,
        ) == content(before + after, node, element, false),
{
    let extra = seq![start] + inner + seq![Item::End];
    lemma_put_in_after(before, after, extra, 0);
    law_lenient_reading_with_put_in(
        before + after,
        before + extra + after,
        start,
        inner,
        0,
        node,
        element,
        tag,
    );
}

/// In lenient mode, an element other than `datafile` put in at the top
/// level, between the elements that stand there, leaves no trace: reading
/// yields the catalog that it yields without the element.
pub proof fn law_lenient_top_level_with_put_in(
    shorter: Seq<Item>,
    longer: Seq<Item>,
    start: Item,
    inner: Seq<Item>,
    doc: Option<DataFileView>,
    tag: Seq<char>,
)
    requires
        start matches Item::Start { content, name_len } && tag_of(content, name_len) == Some(tag),
        tag != "datafile"@,
        well_nested(inner),
        put_in(shorter, longer, seq![start] + inner + seq![Item::End], 0),
        top_level(shorter, doc, false) is Ok,
    ensures
        top_level(longer, doc, false) == top_level(shorter, doc, false),
    decreases shorter.len(),
{
    let extra = seq![start] + inner + seq![Item::End];
    if longer == extra + shorter {
        assert(longer =~= seq![start] + inner + seq![Item::End] + shorter);
        law_lenient_skips_unknown_root(start, inner, shorter, doc, tag);
    } else {
        let rest = shorter.skip(1);
        let more = longer.skip(1);
        match shorter[0] {
            Item::Fault => {},
            Item::End => {},
            Item::Start { content: tag_content, name_len } => {
                let other = tag_of(tag_content, name_len)->0;
                if other == "datafile"@ {
                    let root = match doc {
                        Some(d) => d,
                        None => DataFileView::initial(),
                    };
                    let attrs = tag_attributes(tag_content, name_len);
                    let node = applied(Node::DataFile(root), "datafile"@, attrs, false)->Ok_0;
                    law_lenient_reading_with_put_in(
                        rest,
                        more,
                        start,
                        inner,
                        1,
                        node,
                        "datafile"@,
                        tag,
                    );
                    lemma_content_rest(rest, node, "datafile"@, false);
                    lemma_content_rest(more, node, "datafile"@, false);
                    let sub = content(rest, node, "datafile"@, false);
                    let sub_more = content(more, node, "datafile"@, false);
                    law_lenient_top_level_with_put_in(
                        sub.rest,
                        sub_more.rest,
                        start,
                        inner,
                        Some(sub.value->Ok_0->DataFile_0),
                        tag,
                    );
                } else {
                    lemma_passed_with_put_in(rest, more, extra, 1, 0);
                    lemma_passed_rest(rest, 0);
                    lemma_passed_rest(more, 0);
                    law_lenient_top_level_with_put_in(
                        passed(rest, 0).rest,
                        passed(more, 0).rest,
                        start,
                        inner,
                        doc,
                        tag,
                    );
                }
            },
            _ => {
                law_lenient_top_level_with_put_in(rest, more, start, inner, doc, tag);
            },
        }
    }
}

} // verus!

//! What a catalog holds, told from the elements of the document.
//!
//! A list of the catalog gains one entry for each element of its tag, in
//! document order; a part that may occur once is there only if its element
//! is.

use vstd::prelude::*;

use crate::error::Failure;
use crate::laws::structure::{
    children_named, law_attributes_keep_the_kind, law_content_ends_with_the_element, read_alone,
};
use crate::model::{
    ArchiveView, BiosSetView, DataFileView, DiskView, GameView, HeaderView, ReleaseView, RomView,
    SampleView,
};
use crate::reader::{applied, content, document, lemma_passed_rest, passed, tag_of, top_level};
use crate::source::{attribute_text, tag_attributes, text_of, Item, RawAttrView};
use crate::xml_element::Node;

verus! {

/// The elements that `node` holds under the repeatable tag `tag`, in order;
/// `None` if elements of that tag do not repeat in `node`.
pub open spec fn list_under(node: Node, tag: Seq<char>) -> Option<Seq<Node>> {
    match node {
        Node::DataFile(d) => if tag == "game"@ {
            Some(d.games.map_values(|g: GameView| Node::Game(g)))
        } else {
            None
        },
        Node::Game(g) => if tag == "comment"@ {
            Some(g.comments.map_values(|t: Seq<char>| Node::Text(t)))
        } else if tag == "release"@ {
            Some(g.releases.map_values(|r: ReleaseView| Node::Release(r)))
        } else if tag == "biosset"@ {
            Some(g.bios_sets.map_values(|b: BiosSetView| Node::BiosSet(b)))
        } else if tag == "rom"@ {
            Some(g.roms.map_values(|r: RomView| Node::Rom(r)))
        } else if tag == "disk"@ {
            Some(g.disks.map_values(|d: DiskView| Node::Disk(d)))
        } else if tag == "sample"@ {
            Some(g.samples.map_values(|s: SampleView| Node::Sample(s)))
        } else if tag == "archive"@ {
            Some(g.archives.map_values(|a: ArchiveView| Node::Archive(a)))
        } else {
            None
        },
        _ => None,
    }
}

/// The fresh element that the repeatable tag `tag` binds in `node`.
pub open spec fn fresh_under(node: Node, tag: Seq<char>) -> Node {
    match node {
        Node::DataFile(_) => Node::Game(GameView::initial()),
        Node::Game(_) => if tag == "comment"@ {
            Node::Text(Seq::empty())
        } else if tag == "release"@ {
            Node::Release(ReleaseView::initial())
        } else if tag == "biosset"@ {
            Node::BiosSet(BiosSetView::initial())
        } else if tag == "rom"@ {
            Node::Rom(RomView::initial())
        } else if tag == "disk"@ {
            Node::Disk(DiskView::initial())
        } else if tag == "sample"@ {
            Node::Sample(SampleView::initial())
        } else {
            Node::Archive(ArchiveView::initial())
        },
        _ => node,
    }
}

/// Whether `longer` is the list `base` followed by what the elements
/// `elements` hold, one entry for each element, in the same order, each
/// read on its own as a fresh element `fresh` under the tag `tag`.
pub open spec fn grown_by(
    longer: Seq<Node>,
    base: Seq<Node>,
    elements: Seq<Seq<Item>>,
    fresh: Node,
    tag: Seq<char>,
    strict: bool,
) -> bool {
    &&& longer.len() == base.len() + elements.len()
    &&& forall|i: int| 0 <= i < base.len() ==> longer[i] == base[i]
    &&& forall|k: int|
        0 <= k < elements.len() ==> read_alone(#[trigger] elements[k], fresh, tag, strict) == Ok::<
            Node,
            Failure,
        >(longer[base.len() + k])
}

/// The tags of the schema, told apart by their length and first letter.
pub proof fn lemma_tags_differ()
    ensures
        "header"@.len() == 6 && "header"@[0] == 'h',
        "game"@.len() == 4 && "game"@[0] == 'g',
        "name"@.len() == 4 && "name"@[0] == 'n',
        "description"@.len() == 11,
        "comment"@.len() == 7 && "comment"@[0] == 'c',
        "year"@.len() == 4 && "year"@[0] == 'y',
        "manufacturer"@.len() == 12,
        "release"@.len() == 7 && "release"@[0] == 'r',
        "biosset"@.len() == 7 && "biosset"@[0] == 'b',
        "rom"@.len() == 3,
        "disk"@.len() == 4 && "disk"@[0] == 'd',
        "sample"@.len() == 6 && "sample"@[0] == 's',
        "archive"@.len() == 7 && "archive"@[0] == 'a',
{
    reveal_strlit("header");
    reveal_strlit("game");
    reveal_strlit("name");
    reveal_strlit("description");
    reveal_strlit("comment");
    reveal_strlit("year");
    reveal_strlit("manufacturer");
    reveal_strlit("release");
    reveal_strlit("biosset");
    reveal_strlit("rom");
    reveal_strlit("disk");
    reveal_strlit("sample");
    reveal_strlit("archive");
}

/// A repeatable tag binds a fresh element, whatever the parent holds, and
/// the parent adopts what was read under it by appending it to its list.
/// What is read under any other tag leaves the list as it is.
pub proof fn lemma_lists_take_their_own(
    node: Node,
    tag: Seq<char>,
    other: Seq<char>,
    read: Node,
)
    requires
        list_under(node, tag) is Some,
        node.child(other) matches Some(bound) && read.same_kind(bound.node),
    ensures
        node.child(tag) matches Some(bound) && bound.tag == tag && bound.node == fresh_under(
            node,
            tag,
        ),
        list_under(node.adopt(node.child(other)->0.tag, read), tag) == Some(
            if other == tag {
                list_under(node, tag)->0.push(read)
            } else {
                list_under(node, tag)->0
            },
        ),
{
    lemma_tags_differ();
}

/// Where the content of an element is read without failure, each of its
/// lists gains one entry for each element of the list's tag that stands
/// directly in the content, in document order, and each of these entries is
/// what its element holds when read on its own. The entries that were there
/// stay in front: a list only grows, and only at its end.
pub proof fn law_lists_grow_by_their_elements(
    s: Seq<Item>,
    node: Node,
    element: Seq<char>,
    tag: Seq<char>,
    strict: bool,
)
    requires
        content(s, node, element, strict).value is Ok,
        list_under(node, tag) is Some,
    ensures
        list_under(content(s, node, element, strict).value->Ok_0, tag) matches Some(longer)
            && grown_by(
            longer,
            list_under(node, tag)->0,
            children_named(s, tag),
            fresh_under(node, tag),
            tag,
            strict,
        ),
    decreases s.len(),
{
    let rest = s.skip(1);
    match s[0] {
        Item::Fault => {},
        Item::End => {},
        Item::Other => {
            law_lists_grow_by_their_elements(rest, node, element, tag, strict);
        },
        Item::Text(_) => {
            law_lists_grow_by_their_elements(rest, node, element, tag, strict);
        },
        Item::Start { content: tag_content, name_len } => {
            let other = tag_of(tag_content, name_len)->0;
            lemma_passed_rest(rest, 0);
            match node.child(other) {
                Some(bound) => {
                    let attrs = tag_attributes(tag_content, name_len);
                    let child = applied(bound.node, bound.tag, attrs, strict)->Ok_0;
                    law_attributes_keep_the_kind(bound.node, bound.tag, attrs, strict);
                    let sub = content(rest, child, bound.tag, strict);
                    law_content_ends_with_the_element(rest, child, bound.tag, strict);
                    let read = sub.value->Ok_0;
                    let grown = node.adopt(bound.tag, read);
                    lemma_lists_take_their_own(node, tag, other, read);
                    law_lists_grow_by_their_elements(sub.rest, grown, element, tag, strict);
                },
                None => {
                    law_lists_grow_by_their_elements(
                        passed(rest, 0).rest,
                        node,
                        element,
                        tag,
                        strict,
                    );
                },
            }
        },
    }
}

/// The elements named `tag` that stand directly in the `datafile` elements
/// at the top level of `s`, in order, each given as the items from its start
/// tag on. They are found by the count of start and end tags alone.
pub open spec fn catalog_children(s: Seq<Item>, tag: Seq<char>) -> Seq<Seq<Item>>
    decreases s.len(),
{
    if s.len() == 0 {
        Seq::empty()
    } else {
        match s[0] {
            Item::Fault => Seq::empty(),
            Item::Start { content: tag_content, name_len } => {
                proof {
                    lemma_passed_rest(s.skip(1), 0);
                }
                let here = if tag_of(tag_content, name_len) == Some("datafile"@) {
                    children_named(s.skip(1), tag)
                } else {
                    Seq::empty()
                };
                here + catalog_children(passed(s.skip(1), 0).rest, tag)
            },
            _ => catalog_children(s.skip(1), tag),
        }
    }
}

/// The `game` elements of the catalog, as [`catalog_children`] finds them.
pub open spec fn catalog_games(s: Seq<Item>) -> Seq<Seq<Item>> {
    catalog_children(s, "game"@)
}

/// Whether `games` are the games `base` followed by what the elements
/// `elements` hold, one game for each element, in the same order.
pub open spec fn follows(
    games: Seq<GameView>,
    base: Seq<GameView>,
    elements: Seq<Seq<Item>>,
    strict: bool,
) -> bool {
    &&& games.len() == base.len() + elements.len()
    &&& forall|i: int| 0 <= i < base.len() ==> games[i] == base[i]
    &&& forall|k: int|
        0 <= k < elements.len() ==> read_alone(
            #[trigger] elements[k],
            Node::Game(GameView::initial()),
            "game"@,
            strict,
        ) == Ok::<Node, Failure>(Node::Game(games[base.len() + k]))
}

/// Attributes change neither the header nor the games of a catalog.
pub proof fn law_attributes_keep_the_games(
    d: DataFileView,
    element: Seq<char>,
    attrs: Seq<Option<RawAttrView>>,
    strict: bool,
)
    ensures
        applied(Node::DataFile(d), element, attrs, strict) matches Ok(done) ==> {
            &&& done matches Node::DataFile(e)
            &&& e.games == d.games
            &&& e.header == d.header
        },
    decreases attrs.len(),
{
    if attrs.len() > 0 {
        match attrs[0] {
            None => {},
            Some(a) => match text_of(a.key) {
                None => {},
                Some(key) => match attribute_text(a.value) {
                    None => {},
                    Some(value) => match d.attr(key, value) {
                        Some(next) => {
                            law_attributes_keep_the_games(next, element, attrs.skip(1), strict);
                        },
                        None => {
                            if !strict {
                                law_attributes_keep_the_games(d, element, attrs.skip(1), strict);
                            }
                        },
                    },
                },
            },
        }
    }
}

/// Where the content of a catalog is read without failure, the catalog
/// gains one game for each `game` element that stands directly in it, in
/// document order, and each of these games is what its element holds when
/// read on its own. The games that were there stay in front.
pub proof fn law_catalog_gains_its_games(
    s: Seq<Item>,
    d: DataFileView,
    element: Seq<char>,
    strict: bool,
)
    requires
        content(s, Node::DataFile(d), element, strict).value is Ok,
    ensures
        content(s, Node::DataFile(d), element, strict).value matches Ok(Node::DataFile(done))
            && follows(done.games, d.games, children_named(s, "game"@), strict),
{
    let node = Node::DataFile(d);
    law_content_ends_with_the_element(s, node, element, strict);
    law_lists_grow_by_their_elements(s, node, element, "game"@, strict);
    let done = content(s, node, element, strict).value->Ok_0->DataFile_0;
    let longer = list_under(Node::DataFile(done), "game"@)->0;
    let base = list_under(node, "game"@)->0;
    assert forall|i: int| 0 <= i < d.games.len() implies done.games[i] == d.games[i] by {
        assert(longer[i] == base[i]);
    }
}

/// The games of a catalog that is read without failure are the games that
/// the catalog had so far, followed by one game for each `game` element
/// that stands directly in a `datafile` element at the top level of what is
/// read, in document order.
pub proof fn law_top_level_gains_its_games(s: Seq<Item>, doc: Option<DataFileView>, strict: bool)
    requires
        top_level(s, doc, strict) is Ok,
    ensures
        follows(
            top_level(s, doc, strict)->Ok_0.games,
            match doc {
                Some(d) => d.games,
                None => Seq::empty(),
            },
            catalog_games(s),
            strict,
        ),
    decreases s.len(),
{
    if s.len() > 0 {
        let rest = s.skip(1);
        match s[0] {
            Item::Fault => {},
            Item::Start { content: tag_content, name_len } => {
                let tag = tag_of(tag_content, name_len)->0;
                lemma_passed_rest(rest, 0);
                if tag == "datafile"@ {
                    let root = match doc {
                        Some(d) => d,
                        None => DataFileView::initial(),
                    };
                    let attrs = tag_attributes(tag_content, name_len);
                    law_attributes_keep_the_games(root, "datafile"@, attrs, strict);
                    let opened = applied(Node::DataFile(root), "datafile"@, attrs, strict)->Ok_0;
                    let opened = opened->DataFile_0;
                    let node = Node::DataFile(opened);
                    law_content_ends_with_the_element(rest, node, "datafile"@, strict);
                    law_catalog_gains_its_games(rest, opened, "datafile"@, strict);
                    let sub = content(rest, node, "datafile"@, strict);
                    let read = sub.value->Ok_0->DataFile_0;
                    law_top_level_gains_its_games(sub.rest, Some(read), strict);
                } else {
                    let gap = passed(rest, 0);
                    law_top_level_gains_its_games(gap.rest, doc, strict);
                }
            },
            _ => {
                law_top_level_gains_its_games(rest, doc, strict);
            },
        }
    }
}

/// A catalog that is read without failure has one game for each `game`
/// element that stands directly in a `datafile` element at the top level of
/// the document, in document order, and each game is what its element holds
/// when read on its own.
pub proof fn law_games_follow_the_document(s: Seq<Item>, strict: bool)
    requires
        document(s, strict) is Ok,
    ensures
        document(s, strict)->Ok_0.games.len() == catalog_games(s).len(),
        forall|k: int|
            0 <= k < catalog_games(s).len() ==> read_alone(
                #[trigger] catalog_games(s)[k],
                Node::Game(GameView::initial()),
                "game"@,
                strict,
            ) == Ok::<Node, Failure>(Node::Game(document(s, strict)->Ok_0.games[k])),
{
    law_top_level_gains_its_games(s, None, strict);
}

/// Where the content of a catalog is read without failure, a header that
/// was there is still there, and if no `header` element stands directly in
/// the content, the header is what it was: a catalog without a `header`
/// element has no header.
pub proof fn law_header_comes_from_its_element(
    s: Seq<Item>,
    d: DataFileView,
    element: Seq<char>,
    strict: bool,
)
    requires
        content(s, Node::DataFile(d), element, strict).value is Ok,
    ensures
        content(s, Node::DataFile(d), element, strict).value matches Ok(Node::DataFile(done)) && {
            &&& d.header is Some ==> done.header is Some
            &&& children_named(s, "header"@).len() == 0 ==> done.header == d.header
        },
    decreases s.len(),
{
    let node = Node::DataFile(d);
    let rest = s.skip(1);
    match s[0] {
        Item::Fault => {},
        Item::End => {},
        Item::Other => {
            law_header_comes_from_its_element(rest, d, element, strict);
        },
        Item::Text(_) => {
            law_header_comes_from_its_element(rest, d, element, strict);
        },
        Item::Start { content: tag_content, name_len } => {
            let tag = tag_of(tag_content, name_len)->0;
            lemma_passed_rest(rest, 0);
            match node.child(tag) {
                Some(bound) => {
                    let attrs = tag_attributes(tag_content, name_len);
                    let child = applied(bound.node, bound.tag, attrs, strict)->Ok_0;
                    law_attributes_keep_the_kind(bound.node, bound.tag, attrs, strict);
                    let sub = content(rest, child, bound.tag, strict);
                    law_content_ends_with_the_element(rest, child, bound.tag, strict);
                    law_header_comes_from_its_element(
                        sub.rest,
                        d.adopt(sub.value->Ok_0),
                        element,
                        strict,
                    );
                },
                None => {
                    law_header_comes_from_its_element(passed(rest, 0).rest, d, element, strict);
                },
            }
        },
    }
}

/// Where the content of a header is read without failure, a tool profile
/// that was there is still there, and a profile whose element does not stand
/// directly in the content is what it was: a header without a `clrmamepro`
/// or `romcenter` element has no such profile.
pub proof fn law_profiles_come_from_their_elements(
    s: Seq<Item>,
    h: HeaderView,
    element: Seq<char>,
    strict: bool,
)
    requires
        content(s, Node::Header(h), element, strict).value is Ok,
    ensures
        content(s, Node::Header(h), element, strict).value matches Ok(Node::Header(done)) && {
            &&& h.clr_mame_pro is Some ==> done.clr_mame_pro is Some
            &&& h.rom_center is Some ==> done.rom_center is Some
            &&& children_named(s, "clrmamepro"@).len() == 0 ==> done.clr_mame_pro
                == h.clr_mame_pro
            &&& children_named(s, "romcenter"@).len() == 0 ==> done.rom_center == h.rom_center
        },
    decreases s.len(),
{
    let node = Node::Header(h);
    let rest = s.skip(1);
    match s[0] {
        Item::Fault => {},
        Item::End => {},
        Item::Other => {
            law_profiles_come_from_their_elements(rest, h, element, strict);
        },
        Item::Text(_) => {
            law_profiles_come_from_their_elements(rest, h, element, strict);
        },
        Item::Start { content: tag_content, name_len } => {
            let tag = tag_of(tag_content, name_len)->0;
            lemma_passed_rest(rest, 0);
            let next = passed(rest, 0).rest;
            assert(children_named(s, "clrmamepro"@).len() >= children_named(
                next,
                "clrmamepro"@,
            ).len());
            assert(children_named(s, "romcenter"@).len() >= children_named(
                next,
                "romcenter"@,
            ).len());
            match node.child(tag) {
                Some(bound) => {
                    let attrs = tag_attributes(tag_content, name_len);
                    let child = applied(bound.node, bound.tag, attrs, strict)->Ok_0;
                    law_attributes_keep_the_kind(bound.node, bound.tag, attrs, strict);
                    let sub = content(rest, child, bound.tag, strict);
                    law_content_ends_with_the_element(rest, child, bound.tag, strict);
                    law_profiles_come_from_their_elements(
                        sub.rest,
                        h.adopt(bound.tag, sub.value->Ok_0),
                        element,
                        strict,
                    );
                },
                None => {
                    law_profiles_come_from_their_elements(next, h, element, strict);
                },
            }
        },
    }
}

/// A catalog that is read without failure has a header only if a `header`
/// element stands directly in one of the `datafile` elements at the top
/// level of the document.
pub proof fn law_header_follows_the_document(
    s: Seq<Item>,
    doc: Option<DataFileView>,
    strict: bool,
)
    requires
        top_level(s, doc, strict) is Ok,
        catalog_children(s, "header"@).len() == 0,
        doc matches Some(d) ==> d.header is None,
    ensures
        top_level(s, doc, strict)->Ok_0.header is None,
    decreases s.len(),
{
    if s.len() > 0 {
        let rest = s.skip(1);
        match s[0] {
            Item::Fault => {},
            Item::Start { content: tag_content, name_len } => {
                let tag = tag_of(tag_content, name_len)->0;
                lemma_passed_rest(rest, 0);
                if tag == "datafile"@ {
                    let root = match doc {
                        Some(d) => d,
                        None => DataFileView::initial(),
                    };
                    let attrs = tag_attributes(tag_content, name_len);
                    law_attributes_keep_the_games(root, "datafile"@, attrs, strict);
                    let opened = applied(Node::DataFile(root), "datafile"@, attrs, strict)->Ok_0;
                    let opened = opened->DataFile_0;
                    let node = Node::DataFile(opened);
                    law_content_ends_with_the_element(rest, node, "datafile"@, strict);
                    law_header_comes_from_its_element(rest, opened, "datafile"@, strict);
                    let sub = content(rest, node, "datafile"@, strict);
                    assert(catalog_children(s, "header"@).len() == children_named(
                        rest,
                        "header"@,
                    ).len() + catalog_children(sub.rest, "header"@).len());
                    law_header_follows_the_document(
                        sub.rest,
                        Some(sub.value->Ok_0->DataFile_0),
                        strict,
                    );
                } else {
                    law_header_follows_the_document(passed(rest, 0).rest, doc, strict);
                }
            },
            _ => {
                law_header_follows_the_document(rest, doc, strict);
            },
        }
    }
}

} // verus!

//! What holds of reading, whatever the input.
//!
//! The laws speak of sequences of items and of the functions of
//! [`crate::reader`] that say what reading them yields. Since a reader over
//! a text yields the items of that text and returns what those functions
//! say, the laws hold of every reading.

pub mod lists;
pub mod modes;
pub mod skipping;
pub mod structure;

use vstd::prelude::*;

use crate::error::{DatReaderError, Failure};
use crate::model::{DataFile, DataFileView};
use crate::reader::{content, document, tag_of, top_level, yields, Step};
use crate::source::{tag_attributes, Item};
use crate::xml_element::Node;

verus! {

/// Reading is a function of the items and the mode: two readings of the
/// same items in the same mode both succeed, with equal catalogs, or both
/// fail, for the same reason. Where the reason is input that ends too early,
/// both errors carry the same message.
pub proof fn law_reading_is_deterministic(
    s: Seq<Item>,
    strict: bool,
    first: Result<DataFile, DatReaderError>,
    second: Result<DataFile, DatReaderError>,
)
    requires
        yields(first, document(s, strict)),
        yields(second, document(s, strict)),
    ensures
        first is Ok <==> second is Ok,
        first matches Ok(a) ==> second matches Ok(b) && a@ == b@,
        first matches Err(a) ==> second matches Err(b) && exists|f: Failure|
            a.reports(f) && b.reports(f),
{
}

/// A document that is one `datafile` element without attributes and
/// without content is the catalog with no header and no games, in either
/// mode.
pub proof fn law_empty_datafile(start: Item, strict: bool)
    requires
        start matches Item::Start { content, name_len } && tag_of(content, name_len) == Some(
            "datafile"@,
        ) && tag_attributes(content, name_len).len() == 0,
    ensures
        document(seq![start, Item::End], strict) == Ok::<DataFileView, Failure>(
            DataFileView::initial(),
        ),
{
    let s = seq![start, Item::End];
    let inside = s.skip(1);
    let after = inside.skip(1);
    assert(top_level(after, Some(DataFileView::initial()), strict) == Ok::<DataFileView, Failure>(
        DataFileView::initial(),
    ));
    assert(content(inside, Node::DataFile(DataFileView::initial()), "datafile"@, strict) == Step {
        value: Ok::<Node, Failure>(Node::DataFile(DataFileView::initial())),
        rest: after,
    });
}

} // verus!

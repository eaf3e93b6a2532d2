//! Reader for ROM-management catalog files in the XML "datafile" format.
//!
//! A [`DatReader`] turns the text of a catalog into a [`DataFile`]: the
//! catalog's own attributes, its optional header, and its games with their
//! releases, ROMs, disks and so on, all in document order. In strict mode
//! anything that the format does not know ends the reading with an error; in
//! lenient mode unknown attributes are dropped and unknown elements are
//! skipped with all they hold.
//!
//! The XML itself is tokenised by `quick_xml`. What the library does with
//! the tokens is specified in [`reader`] as functions on sequences of items
//! and proved of the code; [`laws`] states what follows for every input.

pub mod error;
pub mod laws;
pub mod model;
pub mod reader;
pub mod source;
pub mod text;
pub mod xml_attr;
pub mod xml_element;

pub use error::DatReaderError;
pub use model::{
    Archive, BiosSet, ClrMamePro, DataFile, Disk, ForceMerging, ForceNoDump, ForcePacking, Game,
    Header, Release, Rom, RomCenter, RomMode, Sample, SampleMode, Status,
};
pub use reader::DatReader;
pub use xml_attr::XmlAttr;
pub use xml_element::{cursor, Element, XmlCursor};

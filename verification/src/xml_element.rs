//! What each kind of element can do.
//!
//! An element of the catalog may resolve an attribute name to one of its
//! fields, resolve a child tag to a child element, or take character data.
//! A lookup that finds nothing is no error here: the driver decides what an
//! unknown attribute or child means.
//!
//! A child is handed out as a value of its own, bound to its tag in an
//! [`XmlCursor`]. A repeatable child starts out fresh; a child that may occur
//! only once starts out as what the parent already holds. When the child's
//! subtree has been read, the parent adopts it: repeatable children are
//! appended in document order, the others are stored in their place.

use vstd::prelude::*;

use crate::model::{
    Archive, ArchiveView, BiosSet, BiosSetView, ClrMamePro, ClrMameProView, DataFile,
    DataFileView, Disk, DiskView, Game, GameView, Header, HeaderView, Release, ReleaseView, Rom,
    RomCenter, RomCenterView, RomView, Sample, SampleView,
};
use crate::text::str_eq;
use crate::xml_attr::{
    flag_of, force_merging_of, force_no_dump_of, force_packing_of, rom_mode_of, sample_mode_of,
    status_of, XmlAttr,
};

verus! {

/// An element of any kind, by value.
#[derive(Debug, Eq, PartialEq)]
pub enum Element {
    DataFile(DataFile),
    Header(Header),
    ClrMamePro(ClrMamePro),
    RomCenter(RomCenter),
    Game(Game),
    Release(Release),
    BiosSet(BiosSet),
    Rom(Rom),
    Disk(Disk),
    Sample(Sample),
    Archive(Archive),
    /// An element that holds nothing but character data.
    Text(String),
}

/// View of [`Element`].
pub enum Node {
    DataFile(DataFileView),
    Header(HeaderView),
    ClrMamePro(ClrMameProView),
    RomCenter(RomCenterView),
    Game(GameView),
    Release(ReleaseView),
    BiosSet(BiosSetView),
    Rom(RomView),
    Disk(DiskView),
    Sample(SampleView),
    Archive(ArchiveView),
    Text(Seq<char>),
}

impl View for Element {
    type V = Node;

    open spec fn view(&self) -> Node {
        match *self {
            Element::DataFile(e) => Node::DataFile(e@),
            Element::Header(e) => Node::Header(e@),
            Element::ClrMamePro(e) => Node::ClrMamePro(e@),
            Element::RomCenter(e) => Node::RomCenter(e@),
            Element::Game(e) => Node::Game(e@),
            Element::Release(e) => Node::Release(e@),
            Element::BiosSet(e) => Node::BiosSet(e@),
            Element::Rom(e) => Node::Rom(e@),
            Element::Disk(e) => Node::Disk(e@),
            Element::Sample(e) => Node::Sample(e@),
            Element::Archive(e) => Node::Archive(e@),
            Element::Text(s) => Node::Text(s@),
        }
    }
}

/// An element bound to the tag under which it was found. The tag serves in
/// messages and tells the parent where the element belongs.
#[derive(Debug, Eq, PartialEq)]
pub struct XmlCursor {
    pub tag: &'static str,
    pub element: Element,
}

/// View of [`XmlCursor`].
pub struct Bound {
    pub tag: Seq<char>,
    pub node: Node,
}

impl View for XmlCursor {
    type V = Bound;

    open spec fn view(&self) -> Bound {
        Bound { tag: self.tag@, node: self.element@ }
    }
}

/// View of an optional [`XmlCursor`].
pub open spec fn cursor_view(c: Option<XmlCursor>) -> Option<Bound> {
    match c {
        Some(c) => Some(c@),
        None => None,
    }
}

/// Binds `element` to `tag`.
pub fn cursor(tag: &'static str, element: Element) -> (c: Option<XmlCursor>)
    ensures
        c == Some(XmlCursor { tag, element }),
{
    Some(XmlCursor { tag, element })
}

impl DataFileView {
    /// The catalog after the attribute `key` has taken `value`, or `None`
    /// if the catalog has no such attribute or the value is refused.
    pub open spec fn attr(self, key: Seq<char>, value: Seq<char>) -> Option<DataFileView> {
        if key == "build"@ {
            Some(DataFileView { build: value, ..self })
        } else if key == "debug"@ {
            match flag_of(value) {
                Some(b) => Some(DataFileView { debug: b, ..self }),
                None => None,
            }
        } else {
            None
        }
    }

    /// The child that `tag` binds: the header that is there, or a fresh
    /// one; always a fresh game.
    pub open spec fn child(self, tag: Seq<char>) -> Option<Bound> {
        if tag == "header"@ {
            Some(
                Bound {
                    tag: "header"@,
                    node: Node::Header(
                        match self.header {
                            Some(h) => h,
                            None => HeaderView::initial(),
                        },
                    ),
                },
            )
        } else if tag == "game"@ {
            Some(Bound { tag: "game"@, node: Node::Game(GameView::initial()) })
        } else {
            None
        }
    }

    /// The catalog after it has taken `child` back: a header is stored, a
    /// game is appended.
    pub open spec fn adopt(self, child: Node) -> DataFileView {
        match child {
            Node::Header(h) => DataFileView { header: Some(h), ..self },
            Node::Game(g) => DataFileView { games: self.games.push(g), ..self },
            _ => self,
        }
    }
}

impl DataFile {
    /// Sets the attribute `key` from `value`. Returns false, and changes
    /// nothing, if there is no such attribute or the value is refused.
    pub fn attr(&mut self, key: &str, value: &str) -> (ok: bool)
        ensures
            match old(self)@.attr(key@, value@) {
                Some(v) => ok && final(self)@ == v,
                None => !ok && final(self)@ == old(self)@,
            },
    {
        if str_eq(key, "build") {
            self.build.set_from_str(value)
        } else if str_eq(key, "debug") {
            self.debug.set_from_str(value)
        } else {
            false
        }
    }

    /// Resolves a child tag to the child it binds.
    pub fn child(&self, tag: &str) -> (c: Option<XmlCursor>)
        ensures
            cursor_view(c) == self@.child(tag@),
    {
        if str_eq(tag, "header") {
            let header = match &self.header {
                Some(h) => h.clone(),
                None => Header::default(),
            };
            cursor("header", Element::Header(header))
        } else if str_eq(tag, "game") {
            cursor("game", Element::Game(Game::default()))
        } else {
            None
        }
    }

    /// Takes back a child whose subtree has been read.
    pub fn adopt(&mut self, child: XmlCursor)
        ensures
            final(self)@ == old(self)@.adopt(child.element@),
    {
        match child.element {
            Element::Header(h) => {
                self.header = Some(h);
            },
            Element::Game(g) => {
                self.games.push(g);
                assert(self@.games =~= old(self)@.games.push(g@));
            },
            _ => {},
        }
    }
}

impl HeaderView {
    /// The child that `tag` binds: one of the ten text fields with what it
    /// holds so far, or a tool profile, the one that is there or a fresh
    /// one.
    pub open spec fn child(self, tag: Seq<char>) -> Option<Bound> {
        if tag == "name"@ {
            Some(Bound { tag: "name"@, node: Node::Text(self.name) })
        } else if tag == "description"@ {
            Some(Bound { tag: "description"@, node: Node::Text(self.description) })
        } else if tag == "category"@ {
            Some(Bound { tag: "category"@, node: Node::Text(self.category) })
        } else if tag == "version"@ {
            Some(Bound { tag: "version"@, node: Node::Text(self.version) })
        } else if tag == "date"@ {
            Some(Bound { tag: "date"@, node: Node::Text(self.date) })
        } else if tag == "author"@ {
            Some(Bound { tag: "author"@, node: Node::Text(self.author) })
        } else if tag == "email"@ {
            Some(Bound { tag: "email"@, node: Node::Text(self.email) })
        } else if tag == "homepage"@ {
            Some(Bound { tag: "homepage"@, node: Node::Text(self.homepage) })
        } else if tag == "url"@ {
            Some(Bound { tag: "url"@, node: Node::Text(self.url) })
        } else if tag == "comment"@ {
            Some(Bound { tag: "comment"@, node: Node::Text(self.comment) })
        } else if tag == "clrmamepro"@ {
            Some(
                Bound {
                    tag: "clrmamepro"@,
                    node: Node::ClrMamePro(
                        match self.clr_mame_pro {
                            Some(c) => c,
                            None => ClrMameProView::initial(),
                        },
                    ),
                },
            )
        } else if tag == "romcenter"@ {
            Some(
                Bound {
                    tag: "romcenter"@,
                    node: Node::RomCenter(
                        match self.rom_center {
                            Some(c) => c,
                            None => RomCenterView::initial(),
                        },
                    ),
                },
            )
        } else {
            None
        }
    }

    /// The header after it has taken back `child`, which was bound to
    /// `tag`.
    pub open spec fn adopt(self, tag: Seq<char>, child: Node) -> HeaderView {
        match child {
            Node::Text(t) => {
                if tag == "name"@ {
                    HeaderView { name: t, ..self }
                } else if tag == "description"@ {
                    HeaderView { description: t, ..self }
                } else if tag == "category"@ {
                    HeaderView { category: t, ..self }
                } else if tag == "version"@ {
                    HeaderView { version: t, ..self }
                } else if tag == "date"@ {
                    HeaderView { date: t, ..self }
                } else if tag == "author"@ {
                    HeaderView { author: t, ..self }
                } else if tag == "email"@ {
                    HeaderView { email: t, ..self }
                } else if tag == "homepage"@ {
                    HeaderView { homepage: t, ..self }
                } else if tag == "url"@ {
                    HeaderView { url: t, ..self }
                } else if tag == "comment"@ {
                    HeaderView { comment: t, ..self }
                } else {
                    self
                }
            },
            Node::ClrMamePro(c) => HeaderView { clr_mame_pro: Some(c), ..self },
            Node::RomCenter(c) => HeaderView { rom_center: Some(c), ..self },
            _ => self,
        }
    }
}

impl Header {
    /// Resolves a child tag to the child it binds.
    pub fn child(&self, tag: &str) -> (c: Option<XmlCursor>)
        ensures
            cursor_view(c) == self@.child(tag@),
    {
        if str_eq(tag, "name") {
            cursor("name", Element::Text(self.name.clone()))
        } else if str_eq(tag, "description") {
            cursor("description", Element::Text(self.description.clone()))
        } else if str_eq(tag, "category") {
            cursor("category", Element::Text(self.category.clone()))
        } else if str_eq(tag, "version") {
            cursor("version", Element::Text(self.version.clone()))
        } else if str_eq(tag, "date") {
            cursor("date", Element::Text(self.date.clone()))
        } else if str_eq(tag, "author") {
            cursor("author", Element::Text(self.author.clone()))
        } else if str_eq(tag, "email") {
            cursor("email", Element::Text(self.email.clone()))
        } else if str_eq(tag, "homepage") {
            cursor("homepage", Element::Text(self.homepage.clone()))
        } else if str_eq(tag, "url") {
            cursor("url", Element::Text(self.url.clone()))
        } else if str_eq(tag, "comment") {
            cursor("comment", Element::Text(self.comment.clone()))
        } else if str_eq(tag, "clrmamepro") {
            let profile = match &self.clr_mame_pro {
                Some(c) => c.clone(),
                None => ClrMamePro::default(),
            };
            cursor("clrmamepro", Element::ClrMamePro(profile))
        } else if str_eq(tag, "romcenter") {
            let profile = match &self.rom_center {
                Some(c) => c.clone(),
                None => RomCenter::default(),
            };
            cursor("romcenter", Element::RomCenter(profile))
        } else {
            None
        }
    }

    /// Takes back a child whose subtree has been read.
    pub fn adopt(&mut self, child: XmlCursor)
        ensures
            final(self)@ == old(self)@.adopt(child.tag@, child.element@),
    {
        let tag = child.tag;
        match child.element {
            Element::Text(t) => {
                if str_eq(tag, "name") {
                    self.name = t;
                } else if str_eq(tag, "description") {
                    self.description = t;
                } else if str_eq(tag, "category") {
                    self.category = t;
                } else if str_eq(tag, "version") {
                    self.version = t;
                } else if str_eq(tag, "date") {
                    self.date = t;
                } else if str_eq(tag, "author") {
                    self.author = t;
                } else if str_eq(tag, "email") {
                    self.email = t;
                } else if str_eq(tag, "homepage") {
                    self.homepage = t;
                } else if str_eq(tag, "url") {
                    self.url = t;
                } else if str_eq(tag, "comment") {
                    self.comment = t;
                }
            },
            Element::ClrMamePro(c) => {
                self.clr_mame_pro = Some(c);
            },
            Element::RomCenter(c) => {
                self.rom_center = Some(c);
            },
            _ => {},
        }
    }
}

impl ClrMameProView {
    /// The profile after the attribute `key` has taken `value`, or `None`
    /// if there is no such attribute or the value is refused.
    pub open spec fn attr(self, key: Seq<char>, value: Seq<char>) -> Option<ClrMameProView> {
        if key == "header"@ {
            Some(ClrMameProView { header: value, ..self })
        } else if key == "forcemerging"@ {
            match force_merging_of(value) {
                Some(m) => Some(ClrMameProView { force_merging: m, ..self }),
                None => None,
            }
        } else if key == "forcenodump"@ {
            match force_no_dump_of(value) {
                Some(m) => Some(ClrMameProView { force_no_dump: m, ..self }),
                None => None,
            }
        } else if key == "forcepacking"@ {
            match force_packing_of(value) {
                Some(m) => Some(ClrMameProView { force_packing: m, ..self }),
                None => None,
            }
        } else {
            None
        }
    }
}

impl ClrMamePro {
    /// Sets the attribute `key` from `value`. Returns false, and changes
    /// nothing, if there is no such attribute or the value is refused.
    pub fn attr(&mut self, key: &str, value: &str) -> (ok: bool)
        ensures
            match old(self)@.attr(key@, value@) {
                Some(v) => ok && final(self)@ == v,
                None => !ok && final(self)@ == old(self)@,
            },
    {
        if str_eq(key, "header") {
            self.header.set_from_str(value)
        } else if str_eq(key, "forcemerging") {
            self.force_merging.set_from_str(value)
        } else if str_eq(key, "forcenodump") {
            self.force_no_dump.set_from_str(value)
        } else if str_eq(key, "forcepacking") {
            self.force_packing.set_from_str(value)
        } else {
            false
        }
    }
}

impl RomCenterView {
    /// The profile after the attribute `key` has taken `value`, or `None`
    /// if there is no such attribute or the value is refused.
    pub open spec fn attr(self, key: Seq<char>, value: Seq<char>) -> Option<RomCenterView> {
        if key == "plugin"@ {
            Some(RomCenterView { plugin: value, ..self })
        } else if key == "rommode"@ {
            match rom_mode_of(value) {
                Some(m) => Some(RomCenterView { rom_mode: m, ..self }),
                None => None,
            }
        } else if key == "biosmode"@ {
            match rom_mode_of(value) {
                Some(m) => Some(RomCenterView { bios_mode: m, ..self }),
                None => None,
            }
        } else if key == "samplemode"@ {
            match sample_mode_of(value) {
                Some(m) => Some(RomCenterView { sample_mode: m, ..self }),
                None => None,
            }
        } else if key == "lockrommode"@ {
            match flag_of(value) {
                Some(b) => Some(RomCenterView { lock_rom_mode: b, ..self }),
                None => None,
            }
        } else if key == "lockbiosmode"@ {
            match flag_of(value) {
                Some(b) => Some(RomCenterView { lock_bios_mode: b, ..self }),
                None => None,
            }
        } else if key == "locksamplemode"@ {
            match flag_of(value) {
                Some(b) => Some(RomCenterView { lock_sample_mode: b, ..self }),
                None => None,
            }
        } else {
            None
        }
    }
}

impl RomCenter {
    /// Sets the attribute `key` from `value`. Returns false, and changes
    /// nothing, if there is no such attribute or the value is refused.
    pub fn attr(&mut self, key: &str, value: &str) -> (ok: bool)
        ensures
            match old(self)@.attr(key@, value@) {
                Some(v) => ok && final(self)@ == v,
                None => !ok && final(self)@ == old(self)@,
            },
    {
        if str_eq(key, "plugin") {
            self.plugin.set_from_str(value)
        } else if str_eq(key, "rommode") {
            self.rom_mode.set_from_str(value)
        } else if str_eq(key, "biosmode") {
            self.bios_mode.set_from_str(value)
        } else if str_eq(key, "samplemode") {
            self.sample_mode.set_from_str(value)
        } else if str_eq(key, "lockrommode") {
            self.lock_rom_mode.set_from_str(value)
        } else if str_eq(key, "lockbiosmode") {
            self.lock_bios_mode.set_from_str(value)
        } else if str_eq(key, "locksamplemode") {
            self.lock_sample_mode.set_from_str(value)
        } else {
            false
        }
    }
}

impl GameView {
    /// The game after the attribute `key` has taken `value`, or `None` if
    /// there is no such attribute or the value is refused.
    pub open spec fn attr(self, key: Seq<char>, value: Seq<char>) -> Option<GameView> {
        if key == "id"@ {
            Some(GameView { id: value, ..self })
        } else if key == "name"@ {
            Some(GameView { name: value, ..self })
        } else if key == "sourcefile"@ {
            Some(GameView { source_file: value, ..self })
        } else if key == "isbios"@ {
            match flag_of(value) {
                Some(b) => Some(GameView { is_bios: b, ..self }),
                None => None,
            }
        } else if key == "cloneof"@ {
            Some(GameView { clone_of: value, ..self })
        } else if key == "cloneofid"@ {
            Some(GameView { clone_of_id: value, ..self })
        } else if key == "romof"@ {
            Some(GameView { rom_of: value, ..self })
        } else if key == "sampleof"@ {
            Some(GameView { sample_of: value, ..self })
        } else if key == "board"@ {
            Some(GameView { board: value, ..self })
        } else if key == "rebuildto"@ {
            Some(GameView { rebuild_to: value, ..self })
        } else {
            None
        }
    }

    /// The child that `tag` binds: a text field with what it holds so far,
    /// or a fresh element of one of the repeatable kinds.
    ///
    /// A `name` element is taken too, beyond what the format lists for a
    /// game, which gives the name as an attribute: its text is added to the
    /// name that the game has.
    pub open spec fn child(self, tag: Seq<char>) -> Option<Bound> {
        if tag == "name"@ {
            Some(Bound { tag: "name"@, node: Node::Text(self.name) })
        } else if tag == "description"@ {
            Some(Bound { tag: "description"@, node: Node::Text(self.description) })
        } else if tag == "comment"@ {
            Some(Bound { tag: "comment"@, node: Node::Text(Seq::empty()) })
        } else if tag == "year"@ {
            Some(Bound { tag: "year"@, node: Node::Text(self.year) })
        } else if tag == "manufacturer"@ {
            Some(Bound { tag: "manufacturer"@, node: Node::Text(self.manufacturer) })
        } else if tag == "release"@ {
            Some(Bound { tag: "release"@, node: Node::Release(ReleaseView::initial()) })
        } else if tag == "biosset"@ {
            Some(Bound { tag: "biosset"@, node: Node::BiosSet(BiosSetView::initial()) })
        } else if tag == "rom"@ {
            Some(Bound { tag: "rom"@, node: Node::Rom(RomView::initial()) })
        } else if tag == "disk"@ {
            Some(Bound { tag: "disk"@, node: Node::Disk(DiskView::initial()) })
        } else if tag == "sample"@ {
            Some(Bound { tag: "sample"@, node: Node::Sample(SampleView::initial()) })
        } else if tag == "archive"@ {
            Some(Bound { tag: "archive"@, node: Node::Archive(ArchiveView::initial()) })
        } else {
            None
        }
    }

    /// The game after it has taken back `child`, which was bound to `tag`:
    /// a text field is stored, anything repeatable is appended.
    pub open spec fn adopt(self, tag: Seq<char>, child: Node) -> GameView {
        match child {
            Node::Text(t) => {
                if tag == "name"@ {
                    GameView { name: t, ..self }
                } else if tag == "description"@ {
                    GameView { description: t, ..self }
                } else if tag == "comment"@ {
                    GameView { comments: self.comments.push(t), ..self }
                } else if tag == "year"@ {
                    GameView { year: t, ..self }
                } else if tag == "manufacturer"@ {
                    GameView { manufacturer: t, ..self }
                } else {
                    self
                }
            },
            Node::Release(r) => GameView { releases: self.releases.push(r), ..self },
            Node::BiosSet(b) => GameView { bios_sets: self.bios_sets.push(b), ..self },
            Node::Rom(r) => GameView { roms: self.roms.push(r), ..self },
            Node::Disk(d) => GameView { disks: self.disks.push(d), ..self },
            Node::Sample(s) => GameView { samples: self.samples.push(s), ..self },
            Node::Archive(a) => GameView { archives: self.archives.push(a), ..self },
            _ => self,
        }
    }
}

impl Game {
    /// Sets the attribute `key` from `value`. Returns false, and changes
    /// nothing, if there is no such attribute or the value is refused.
    pub fn attr(&mut self, key: &str, value: &str) -> (ok: bool)
        ensures
            match old(self)@.attr(key@, value@) {
                Some(v) => ok && final(self)@ == v,
                None => !ok && final(self)@ == old(self)@,
            },
    {
        if str_eq(key, "id") {
            self.id.set_from_str(value)
        } else if str_eq(key, "name") {
            self.name.set_from_str(value)
        } else if str_eq(key, "sourcefile") {
            self.source_file.set_from_str(value)
        } else if str_eq(key, "isbios") {
            self.is_bios.set_from_str(value)
        } else if str_eq(key, "cloneof") {
            self.clone_of.set_from_str(value)
        } else if str_eq(key, "cloneofid") {
            self.clone_of_id.set_from_str(value)
        } else if str_eq(key, "romof") {
            self.rom_of.set_from_str(value)
        } else if str_eq(key, "sampleof") {
            self.sample_of.set_from_str(value)
        } else if str_eq(key, "board") {
            self.board.set_from_str(value)
        } else if str_eq(key, "rebuildto") {
            self.rebuild_to.set_from_str(value)
        } else {
            false
        }
    }

    /// Resolves a child tag to the child it binds.
    pub fn child(&self, tag: &str) -> (c: Option<XmlCursor>)
        ensures
            cursor_view(c) == self@.child(tag@),
    {
        if str_eq(tag, "name") {
            cursor("name", Element::Text(self.name.clone()))
        } else if str_eq(tag, "description") {
            cursor("description", Element::Text(self.description.clone()))
        } else if str_eq(tag, "comment") {
            cursor("comment", Element::Text(String::new()))
        } else if str_eq(tag, "year") {
            cursor("year", Element::Text(self.year.clone()))
        } else if str_eq(tag, "manufacturer") {
            cursor("manufacturer", Element::Text(self.manufacturer.clone()))
        } else if str_eq(tag, "release") {
            cursor("release", Element::Release(Release::default()))
        } else if str_eq(tag, "biosset") {
            cursor("biosset", Element::BiosSet(BiosSet::default()))
        } else if str_eq(tag, "rom") {
            cursor("rom", Element::Rom(Rom::default()))
        } else if str_eq(tag, "disk") {
            cursor("disk", Element::Disk(Disk::default()))
        } else if str_eq(tag, "sample") {
            cursor("sample", Element::Sample(Sample::default()))
        } else if str_eq(tag, "archive") {
            cursor("archive", Element::Archive(Archive::default()))
        } else {
            None
        }
    }

    /// Takes back a child whose subtree has been read.
    pub fn adopt(&mut self, child: XmlCursor)
        ensures
            final(self)@ == old(self)@.adopt(child.tag@, child.element@),
    {
        let tag = child.tag;
        match child.element {
            Element::Text(t) => {
                if str_eq(tag, "name") {
                    self.name = t;
                } else if str_eq(tag, "description") {
                    self.description = t;
                } else if str_eq(tag, "comment") {
                    self.comments.push(t);
                    assert(self@.comments =~= old(self)@.comments.push(t@));
                } else if str_eq(tag, "year") {
                    self.year = t;
                } else if str_eq(tag, "manufacturer") {
                    self.manufacturer = t;
                }
            },
            Element::Release(r) => {
                self.releases.push(r);
                assert(self@.releases =~= old(self)@.releases.push(r@));
            },
            Element::BiosSet(b) => {
                self.bios_sets.push(b);
                assert(self@.bios_sets =~= old(self)@.bios_sets.push(b@));
            },
            Element::Rom(r) => {
                self.roms.push(r);
                assert(self@.roms =~= old(self)@.roms.push(r@));
            },
            Element::Disk(d) => {
                self.disks.push(d);
                assert(self@.disks =~= old(self)@.disks.push(d@));
            },
            Element::Sample(s) => {
                self.samples.push(s);
                assert(self@.samples =~= old(self)@.samples.push(s@));
            },
            Element::Archive(a) => {
                self.archives.push(a);
                assert(self@.archives =~= old(self)@.archives.push(a@));
            },
            _ => {},
        }
    }
}

impl ReleaseView {
    /// The release after the attribute `key` has taken `value`, or `None`
    /// if there is no such attribute or the value is refused.
    pub open spec fn attr(self, key: Seq<char>, value: Seq<char>) -> Option<ReleaseView> {
        if key == "name"@ {
            Some(ReleaseView { name: value, ..self })
        } else if key == "region"@ {
            Some(ReleaseView { region: value, ..self })
        } else if key == "language"@ {
            Some(ReleaseView { language: value, ..self })
        } else if key == "date"@ {
            Some(ReleaseView { date: value, ..self })
        } else if key == "default"@ {
            match flag_of(value) {
                Some(b) => Some(ReleaseView { default: b, ..self }),
                None => None,
            }
        } else {
            None
        }
    }
}

impl Release {
    /// Sets the attribute `key` from `value`. Returns false, and changes
    /// nothing, if there is no such attribute or the value is refused.
    pub fn attr(&mut self, key: &str, value: &str) -> (ok: bool)
        ensures
            match old(self)@.attr(key@, value@) {
                Some(v) => ok && final(self)@ == v,
                None => !ok && final(self)@ == old(self)@,
            },
    {
        if str_eq(key, "name") {
            self.name.set_from_str(value)
        } else if str_eq(key, "region") {
            self.region.set_from_str(value)
        } else if str_eq(key, "language") {
            self.language.set_from_str(value)
        } else if str_eq(key, "date") {
            self.date.set_from_str(value)
        } else if str_eq(key, "default") {
            self.default.set_from_str(value)
        } else {
            false
        }
    }
}

impl BiosSetView {
    /// The BIOS set after the attribute `key` has taken `value`, or `None`
    /// if there is no such attribute or the value is refused.
    pub open spec fn attr(self, key: Seq<char>, value: Seq<char>) -> Option<BiosSetView> {
        if key == "name"@ {
            Some(BiosSetView { name: value, ..self })
        } else if key == "description"@ {
            Some(BiosSetView { description: value, ..self })
        } else if key == "default"@ {
            match flag_of(value) {
                Some(b) => Some(BiosSetView { default: b, ..self }),
                None => None,
            }
        } else {
            None
        }
    }
}

impl BiosSet {
    /// Sets the attribute `key` from `value`. Returns false, and changes
    /// nothing, if there is no such attribute or the value is refused.
    pub fn attr(&mut self, key: &str, value: &str) -> (ok: bool)
        ensures
            match old(self)@.attr(key@, value@) {
                Some(v) => ok && final(self)@ == v,
                None => !ok && final(self)@ == old(self)@,
            },
    {
        if str_eq(key, "name") {
            self.name.set_from_str(value)
        } else if str_eq(key, "description") {
            self.description.set_from_str(value)
        } else if str_eq(key, "default") {
            self.default.set_from_str(value)
        } else {
            false
        }
    }
}

impl RomView {
    /// The ROM after the attribute `key` has taken `value`, or `None` if
    /// there is no such attribute or the value is refused.
    pub open spec fn attr(self, key: Seq<char>, value: Seq<char>) -> Option<RomView> {
        if key == "name"@ {
            Some(RomView { name: value, ..self })
        } else if key == "size"@ {
            Some(RomView { size: value, ..self })
        } else if key == "crc"@ {
            Some(RomView { crc: value, ..self })
        } else if key == "sha1"@ {
            Some(RomView { sha1: value, ..self })
        } else if key == "sha256"@ {
            Some(RomView { sha256: value, ..self })
        } else if key == "md5"@ {
            Some(RomView { md5: value, ..self })
        } else if key == "merge"@ {
            Some(RomView { merge: value, ..self })
        } else if key == "status"@ {
            match status_of(value) {
                Some(s) => Some(RomView { status: s, ..self }),
                None => None,
            }
        } else if key == "date"@ {
            Some(RomView { date: value, ..self })
        } else if key == "serial"@ {
            Some(RomView { serial: value, ..self })
        } else {
            None
        }
    }
}

impl Rom {
    /// Sets the attribute `key` from `value`. Returns false, and changes
    /// nothing, if there is no such attribute or the value is refused.
    pub fn attr(&mut self, key: &str, value: &str) -> (ok: bool)
        ensures
            match old(self)@.attr(key@, value@) {
                Some(v) => ok && final(self)@ == v,
                None => !ok && final(self)@ == old(self)@,
            },
    {
        if str_eq(key, "name") {
            self.name.set_from_str(value)
        } else if str_eq(key, "size") {
            self.size.set_from_str(value)
        } else if str_eq(key, "crc") {
            self.crc.set_from_str(value)
        } else if str_eq(key, "sha1") {
            self.sha1.set_from_str(value)
        } else if str_eq(key, "sha256") {
            self.sha256.set_from_str(value)
        } else if str_eq(key, "md5") {
            self.md5.set_from_str(value)
        } else if str_eq(key, "merge") {
            self.merge.set_from_str(value)
        } else if str_eq(key, "status") {
            self.status.set_from_str(value)
        } else if str_eq(key, "date") {
            self.date.set_from_str(value)
        } else if str_eq(key, "serial") {
            self.serial.set_from_str(value)
        } else {
            false
        }
    }
}

impl DiskView {
    /// The disk after the attribute `key` has taken `value`, or `None` if
    /// there is no such attribute or the value is refused.
    pub open spec fn attr(self, key: Seq<char>, value: Seq<char>) -> Option<DiskView> {
        if key == "name"@ {
            Some(DiskView { name: value, ..self })
        } else if key == "sha1"@ {
            Some(DiskView { sha1: value, ..self })
        } else if key == "md5"@ {
            Some(DiskView { md5: value, ..self })
        } else if key == "merge"@ {
            Some(DiskView { merge: value, ..self })
        } else if key == "status"@ {
            match status_of(value) {
                Some(s) => Some(DiskView { status: s, ..self }),
                None => None,
            }
        } else {
            None
        }
    }
}

impl Disk {
    /// Sets the attribute `key` from `value`. Returns false, and changes
    /// nothing, if there is no such attribute or the value is refused.
    pub fn attr(&mut self, key: &str, value: &str) -> (ok: bool)
        ensures
            match old(self)@.attr(key@, value@) {
                Some(v) => ok && final(self)@ == v,
                None => !ok && final(self)@ == old(self)@,
            },
    {
        if str_eq(key, "name") {
            self.name.set_from_str(value)
        } else if str_eq(key, "sha1") {
            self.sha1.set_from_str(value)
        } else if str_eq(key, "md5") {
            self.md5.set_from_str(value)
        } else if str_eq(key, "merge") {
            self.merge.set_from_str(value)
        } else if str_eq(key, "status") {
            self.status.set_from_str(value)
        } else {
            false
        }
    }
}

impl SampleView {
    /// The sample after the attribute `key` has taken `value`, or `None`
    /// if there is no such attribute.
    pub open spec fn attr(self, key: Seq<char>, value: Seq<char>) -> Option<SampleView> {
        if key == "name"@ {
            Some(SampleView { name: value })
        } else {
            None
        }
    }
}

impl Sample {
    /// Sets the attribute `key` from `value`. Returns false, and changes
    /// nothing, if there is no such attribute.
    pub fn attr(&mut self, key: &str, value: &str) -> (ok: bool)
        ensures
            match old(self)@.attr(key@, value@) {
                Some(v) => ok && final(self)@ == v,
                None => !ok && final(self)@ == old(self)@,
            },
    {
        if str_eq(key, "name") {
            self.name.set_from_str(value)
        } else {
            false
        }
    }
}

impl ArchiveView {
    /// The archive after the attribute `key` has taken `value`, or `None`
    /// if there is no such attribute.
    pub open spec fn attr(self, key: Seq<char>, value: Seq<char>) -> Option<ArchiveView> {
        if key == "name"@ {
            Some(ArchiveView { name: value })
        } else {
            None
        }
    }
}

impl Archive {
    /// Sets the attribute `key` from `value`. Returns false, and changes
    /// nothing, if there is no such attribute.
    pub fn attr(&mut self, key: &str, value: &str) -> (ok: bool)
        ensures
            match old(self)@.attr(key@, value@) {
                Some(v) => ok && final(self)@ == v,
                None => !ok && final(self)@ == old(self)@,
            },
    {
        if str_eq(key, "name") {
            self.name.set_from_str(value)
        } else {
            false
        }
    }
}

impl Node {
    /// The element after the attribute `key` has taken `value`, or `None`
    /// if this kind of element has no such attribute or the value is
    /// refused. A header and a text element have no attributes.
    pub open spec fn attr(self, key: Seq<char>, value: Seq<char>) -> Option<Node> {
        match self {
            Node::DataFile(e) => match e.attr(key, value) {
                Some(v) => Some(Node::DataFile(v)),
                None => None,
            },
            Node::ClrMamePro(e) => match e.attr(key, value) {
                Some(v) => Some(Node::ClrMamePro(v)),
                None => None,
            },
            Node::RomCenter(e) => match e.attr(key, value) {
                Some(v) => Some(Node::RomCenter(v)),
                None => None,
            },
            Node::Game(e) => match e.attr(key, value) {
                Some(v) => Some(Node::Game(v)),
                None => None,
            },
            Node::Release(e) => match e.attr(key, value) {
                Some(v) => Some(Node::Release(v)),
                None => None,
            },
            Node::BiosSet(e) => match e.attr(key, value) {
                Some(v) => Some(Node::BiosSet(v)),
                None => None,
            },
            Node::Rom(e) => match e.attr(key, value) {
                Some(v) => Some(Node::Rom(v)),
                None => None,
            },
            Node::Disk(e) => match e.attr(key, value) {
                Some(v) => Some(Node::Disk(v)),
                None => None,
            },
            Node::Sample(e) => match e.attr(key, value) {
                Some(v) => Some(Node::Sample(v)),
                None => None,
            },
            Node::Archive(e) => match e.attr(key, value) {
                Some(v) => Some(Node::Archive(v)),
                None => None,
            },
            Node::Header(_) => None,
            Node::Text(_) => None,
        }
    }

    /// The child that `tag` binds in this element, if it binds one. Only a
    /// catalog, a header and a game have children.
    pub open spec fn child(self, tag: Seq<char>) -> Option<Bound> {
        match self {
            Node::DataFile(e) => e.child(tag),
            Node::Header(e) => e.child(tag),
            Node::Game(e) => e.child(tag),
            _ => None,
        }
    }

    /// The element after it has taken back `child`, which was bound to
    /// `tag`.
    pub open spec fn adopt(self, tag: Seq<char>, child: Node) -> Node {
        match self {
            Node::DataFile(e) => Node::DataFile(e.adopt(child)),
            Node::Header(e) => Node::Header(e.adopt(tag, child)),
            Node::Game(e) => Node::Game(e.adopt(tag, child)),
            _ => self,
        }
    }

    /// Whether the element takes character data.
    pub open spec fn has_content(self) -> bool {
        self is Text
    }

    /// The element after `text` has been added to its character data.
    pub open spec fn with_content(self, text: Seq<char>) -> Node {
        match self {
            Node::Text(t) => Node::Text(t + text),
            _ => self,
        }
    }

    /// Whether two elements are of the same kind.
    pub open spec fn same_kind(self, other: Node) -> bool {
        match self {
            Node::DataFile(_) => other is DataFile,
            Node::Header(_) => other is Header,
            Node::ClrMamePro(_) => other is ClrMamePro,
            Node::RomCenter(_) => other is RomCenter,
            Node::Game(_) => other is Game,
            Node::Release(_) => other is Release,
            Node::BiosSet(_) => other is BiosSet,
            Node::Rom(_) => other is Rom,
            Node::Disk(_) => other is Disk,
            Node::Sample(_) => other is Sample,
            Node::Archive(_) => other is Archive,
            Node::Text(_) => other is Text,
        }
    }
}

impl Element {
    /// Resolves the attribute `key` to a field and sets it from `value`.
    /// Returns false, and changes nothing, if the element has no such
    /// attribute or the value is refused.
    pub fn attr(&mut self, key: &str, value: &str) -> (ok: bool)
        ensures
            match old(self)@.attr(key@, value@) {
                Some(v) => ok && final(self)@ == v,
                None => !ok && final(self)@ == old(self)@,
            },
    {
        match self {
            Element::DataFile(e) => e.attr(key, value),
            Element::ClrMamePro(e) => e.attr(key, value),
            Element::RomCenter(e) => e.attr(key, value),
            Element::Game(e) => e.attr(key, value),
            Element::Release(e) => e.attr(key, value),
            Element::BiosSet(e) => e.attr(key, value),
            Element::Rom(e) => e.attr(key, value),
            Element::Disk(e) => e.attr(key, value),
            Element::Sample(e) => e.attr(key, value),
            Element::Archive(e) => e.attr(key, value),
            Element::Header(_) => false,
            Element::Text(_) => false,
        }
    }

    /// Resolves a child tag to the child it binds, if the element has such
    /// a child.
    pub fn child(&self, tag: &str) -> (c: Option<XmlCursor>)
        ensures
            cursor_view(c) == self@.child(tag@),
    {
        match self {
            Element::DataFile(e) => e.child(tag),
            Element::Header(e) => e.child(tag),
            Element::Game(e) => e.child(tag),
            _ => None,
        }
    }

    /// Takes back a child whose subtree has been read.
    pub fn adopt(&mut self, child: XmlCursor)
        ensures
            final(self)@ == old(self)@.adopt(child.tag@, child.element@),
    {
        match self {
            Element::DataFile(e) => e.adopt(child),
            Element::Header(e) => e.adopt(child),
            Element::Game(e) => e.adopt(child),
            _ => {},
        }
    }

    /// The buffer that takes the element's character data, if it takes
    /// any. What is written to the buffer is written to the element.
    pub fn content(&mut self) -> (buffer: Option<&mut String>)
        ensures
            match *old(self) {
                Element::Text(s) => buffer.is_some() && *buffer.unwrap() == s && *final(self)
                    == Element::Text(*final(buffer.unwrap())),
                _ => buffer.is_none() && *final(self) == *old(self),
            },
    {
        match self {
            Element::Text(s) => Some(s),
            _ => None,
        }
    }
}

} // verus!

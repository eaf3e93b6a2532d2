//! The catalog document tree.
//!
//! Every type of the tree comes with a mathematical view: strings become
//! `Seq<char>`, vectors become `Seq`, nested records become their own views.
//! Contracts throughout the crate are stated over these views.

use vstd::prelude::*;

verus! {

/// How a tool should merge sets (`forcemerging`).
#[derive(Copy, Clone, Debug, Eq, PartialEq)]
pub enum ForceMerging {
    NoMerging,
    Split,
    Full,
}

/// How a tool should treat missing dumps (`forcenodump`).
#[derive(Copy, Clone, Debug, Eq, PartialEq)]
pub enum ForceNoDump {
    Obsolete,
    Required,
    Ignore,
}

/// How a tool should pack sets (`forcepacking`).
#[derive(Copy, Clone, Debug, Eq, PartialEq)]
pub enum ForcePacking {
    Zip,
    Unzip,
}

/// Merge mode of ROM and BIOS sets (`rommode`, `biosmode`).
#[derive(Copy, Clone, Debug, Eq, PartialEq)]
pub enum RomMode {
    Merged,
    Split,
    Unmerged,
}

/// Merge mode of sample sets (`samplemode`).
#[derive(Copy, Clone, Debug, Eq, PartialEq)]
pub enum SampleMode {
    Merged,
    Unmerged,
}

/// Dump status of a ROM or disk (`status`).
#[derive(Copy, Clone, Debug, Eq, PartialEq, Ord, PartialOrd)]
pub enum Status {
    BadDump,
    NoDump,
    Good,
    Verified,
}

impl View for ForceMerging {
    type V = ForceMerging;

    open spec fn view(&self) -> ForceMerging {
        *self
    }
}

impl View for ForceNoDump {
    type V = ForceNoDump;

    open spec fn view(&self) -> ForceNoDump {
        *self
    }
}

impl View for ForcePacking {
    type V = ForcePacking;

    open spec fn view(&self) -> ForcePacking {
        *self
    }
}

impl View for RomMode {
    type V = RomMode;

    open spec fn view(&self) -> RomMode {
        *self
    }
}

impl View for SampleMode {
    type V = SampleMode;

    open spec fn view(&self) -> SampleMode {
        *self
    }
}

impl View for Status {
    type V = Status;

    open spec fn view(&self) -> Status {
        *self
    }
}

impl Default for ForceMerging {
    fn default() -> (r: ForceMerging)
        ensures
            r == ForceMerging::Split,
    {
        ForceMerging::Split
    }
}

impl Default for ForceNoDump {
    fn default() -> (r: ForceNoDump)
        ensures
            r == ForceNoDump::Obsolete,
    {
        ForceNoDump::Obsolete
    }
}

impl Default for ForcePacking {
    fn default() -> (r: ForcePacking)
        ensures
            r == ForcePacking::Zip,
    {
        ForcePacking::Zip
    }
}

impl Default for RomMode {
    fn default() -> (r: RomMode)
        ensures
            r == RomMode::Split,
    {
        RomMode::Split
    }
}

impl Default for SampleMode {
    fn default() -> (r: SampleMode)
        ensures
            r == SampleMode::Merged,
    {
        SampleMode::Merged
    }
}

impl Default for Status {
    fn default() -> (r: Status)
        ensures
            r == Status::Good,
    {
        Status::Good
    }
}

/// Settings for ClrMamePro (`clrmamepro`).
#[derive(Debug, Eq, PartialEq)]
pub struct ClrMamePro {
    pub header: String,
    pub force_merging: ForceMerging,
    pub force_no_dump: ForceNoDump,
    pub force_packing: ForcePacking,
}

/// View of [`ClrMamePro`].
pub struct ClrMameProView {
    pub header: Seq<char>,
    pub force_merging: ForceMerging,
    pub force_no_dump: ForceNoDump,
    pub force_packing: ForcePacking,
}

impl View for ClrMamePro {
    type V = ClrMameProView;

    open spec fn view(&self) -> ClrMameProView {
        ClrMameProView {
            header: self.header@,
            force_merging: self.force_merging,
            force_no_dump: self.force_no_dump,
            force_packing: self.force_packing,
        }
    }
}

impl ClrMameProView {
    /// The record as it is before any attribute is applied.
    pub open spec fn initial() -> ClrMameProView {
        ClrMameProView {
            header: Seq::empty(),
            force_merging: ForceMerging::Split,
            force_no_dump: ForceNoDump::Obsolete,
            force_packing: ForcePacking::Zip,
        }
    }
}

impl Default for ClrMamePro {
    fn default() -> (r: ClrMamePro)
        ensures
            r@ == ClrMameProView::initial(),
    {
        ClrMamePro {
            header: String::new(),
            force_merging: ForceMerging::default(),
            force_no_dump: ForceNoDump::default(),
            force_packing: ForcePacking::default(),
        }
    }
}

impl Clone for ClrMamePro {
    fn clone(&self) -> (r: ClrMamePro)
        ensures
            r@ == self@,
    {
        ClrMamePro {
            header: self.header.clone(),
            force_merging: self.force_merging,
            force_no_dump: self.force_no_dump,
            force_packing: self.force_packing,
        }
    }
}

/// Settings for RomCenter (`romcenter`).
#[derive(Debug, Eq, PartialEq)]
pub struct RomCenter {
    pub plugin: String,
    pub rom_mode: RomMode,
    pub bios_mode: RomMode,
    pub sample_mode: SampleMode,
    pub lock_rom_mode: bool,
    pub lock_bios_mode: bool,
    pub lock_sample_mode: bool,
}

/// View of [`RomCenter`].
pub struct RomCenterView {
    pub plugin: Seq<char>,
    pub rom_mode: RomMode,
    pub bios_mode: RomMode,
    pub sample_mode: SampleMode,
    pub lock_rom_mode: bool,
    pub lock_bios_mode: bool,
    pub lock_sample_mode: bool,
}

impl View for RomCenter {
    type V = RomCenterView;

    open spec fn view(&self) -> RomCenterView {
        RomCenterView {
            plugin: self.plugin@,
            rom_mode: self.rom_mode,
            bios_mode: self.bios_mode,
            sample_mode: self.sample_mode,
            lock_rom_mode: self.lock_rom_mode,
            lock_bios_mode: self.lock_bios_mode,
            lock_sample_mode: self.lock_sample_mode,
        }
    }
}

impl RomCenterView {
    /// The record as it is before any attribute is applied.
    pub open spec fn initial() -> RomCenterView {
        RomCenterView {
            plugin: Seq::empty(),
            rom_mode: RomMode::Split,
            bios_mode: RomMode::Split,
            sample_mode: SampleMode::Merged,
            lock_rom_mode: false,
            lock_bios_mode: false,
            lock_sample_mode: false,
        }
    }
}

impl Default for RomCenter {
    fn default() -> (r: RomCenter)
        ensures
            r@ == RomCenterView::initial(),
    {
        RomCenter {
            plugin: String::new(),
            rom_mode: RomMode::default(),
            bios_mode: RomMode::default(),
            sample_mode: SampleMode::default(),
            lock_rom_mode: false,
            lock_bios_mode: false,
            lock_sample_mode: false,
        }
    }
}

impl Clone for RomCenter {
    fn clone(&self) -> (r: RomCenter)
        ensures
            r@ == self@,
    {
        RomCenter {
            plugin: self.plugin.clone(),
            rom_mode: self.rom_mode,
            bios_mode: self.bios_mode,
            sample_mode: self.sample_mode,
            lock_rom_mode: self.lock_rom_mode,
            lock_bios_mode: self.lock_bios_mode,
            lock_sample_mode: self.lock_sample_mode,
        }
    }
}

/// View of an optional [`ClrMamePro`].
pub open spec fn clr_mame_pro_view(o: Option<ClrMamePro>) -> Option<ClrMameProView> {
    match o {
        Some(c) => Some(c@),
        None => None,
    }
}

/// View of an optional [`RomCenter`].
pub open spec fn rom_center_view(o: Option<RomCenter>) -> Option<RomCenterView> {
    match o {
        Some(c) => Some(c@),
        None => None,
    }
}

/// Descriptive header of a catalog (`header`).
#[derive(Debug, Eq, PartialEq)]
pub struct Header {
    pub name: String,
    pub description: String,
    pub category: String,
    pub version: String,
    pub date: String,
    pub author: String,
    pub email: String,
    pub homepage: String,
    pub url: String,
    pub comment: String,
    pub clr_mame_pro: Option<ClrMamePro>,
    pub rom_center: Option<RomCenter>,
}

/// View of [`Header`].
pub struct HeaderView {
    pub name: Seq<char>,
    pub description: Seq<char>,
    pub category: Seq<char>,
    pub version: Seq<char>,
    pub date: Seq<char>,
    pub author: Seq<char>,
    pub email: Seq<char>,
    pub homepage: Seq<char>,
    pub url: Seq<char>,
    pub comment: Seq<char>,
    pub clr_mame_pro: Option<ClrMameProView>,
    pub rom_center: Option<RomCenterView>,
}

impl View for Header {
    type V = HeaderView;

    open spec fn view(&self) -> HeaderView {
        HeaderView {
            name: self.name@,
            description: self.description@,
            category: self.category@,
            version: self.version@,
            date: self.date@,
            author: self.author@,
            email: self.email@,
            homepage: self.homepage@,
            url: self.url@,
            comment: self.comment@,
            clr_mame_pro: clr_mame_pro_view(self.clr_mame_pro),
            rom_center: rom_center_view(self.rom_center),
        }
    }
}

impl HeaderView {
    /// The header as it is when its element is first seen: all text empty,
    /// neither tool profile present.
    pub open spec fn initial() -> HeaderView {
        HeaderView {
            name: Seq::empty(),
            description: Seq::empty(),
            category: Seq::empty(),
            version: Seq::empty(),
            date: Seq::empty(),
            author: Seq::empty(),
            email: Seq::empty(),
            homepage: Seq::empty(),
            url: Seq::empty(),
            comment: Seq::empty(),
            clr_mame_pro: None,
            rom_center: None,
        }
    }
}

impl Default for Header {
    fn default() -> (r: Header)
        ensures
            r@ == HeaderView::initial(),
    {
        Header {
            name: String::new(),
            description: String::new(),
            category: String::new(),
            version: String::new(),
            date: String::new(),
            author: String::new(),
            email: String::new(),
            homepage: String::new(),
            url: String::new(),
            comment: String::new(),
            clr_mame_pro: None,
            rom_center: None,
        }
    }
}

impl Clone for Header {
    fn clone(&self) -> (r: Header)
        ensures
            r@ == self@,
    {
        let clr_mame_pro = match &self.clr_mame_pro {
            Some(c) => Some(c.clone()),
            None => None,
        };
        let rom_center = match &self.rom_center {
            Some(c) => Some(c.clone()),
            None => None,
        };
        Header {
            name: self.name.clone(),
            description: self.description.clone(),
            category: self.category.clone(),
            version: self.version.clone(),
            date: self.date.clone(),
            author: self.author.clone(),
            email: self.email.clone(),
            homepage: self.homepage.clone(),
            url: self.url.clone(),
            comment: self.comment.clone(),
            clr_mame_pro,
            rom_center,
        }
    }
}

/// A release of a game (`release`).
#[derive(Clone, Debug, Eq, PartialEq)]
pub struct Release {
    pub name: String,
    pub region: String,
    pub language: String,
    pub date: String,
    pub default: bool,
}

/// View of [`Release`].
pub struct ReleaseView {
    pub name: Seq<char>,
    pub region: Seq<char>,
    pub language: Seq<char>,
    pub date: Seq<char>,
    pub default: bool,
}

impl View for Release {
    type V = ReleaseView;

    open spec fn view(&self) -> ReleaseView {
        ReleaseView {
            name: self.name@,
            region: self.region@,
            language: self.language@,
            date: self.date@,
            default: self.default,
        }
    }
}

impl ReleaseView {
    /// The record as it is before any attribute is applied.
    pub open spec fn initial() -> ReleaseView {
        ReleaseView {
            name: Seq::empty(),
            region: Seq::empty(),
            language: Seq::empty(),
            date: Seq::empty(),
            default: false,
        }
    }
}

impl Default for Release {
    fn default() -> (r: Release)
        ensures
            r@ == ReleaseView::initial(),
    {
        Release {
            name: String::new(),
            region: String::new(),
            language: String::new(),
            date: String::new(),
            default: false,
        }
    }
}

/// A BIOS variant of a game (`biosset`).
#[derive(Clone, Debug, Eq, PartialEq)]
pub struct BiosSet {
    pub name: String,
    pub description: String,
    pub default: bool,
}

/// View of [`BiosSet`].
pub struct BiosSetView {
    pub name: Seq<char>,
    pub description: Seq<char>,
    pub default: bool,
}

impl View for BiosSet {
    type V = BiosSetView;

    open spec fn view(&self) -> BiosSetView {
        BiosSetView { name: self.name@, description: self.description@, default: self.default }
    }
}

impl BiosSetView {
    /// The record as it is before any attribute is applied.
    pub open spec fn initial() -> BiosSetView {
        BiosSetView { name: Seq::empty(), description: Seq::empty(), default: false }
    }
}

impl Default for BiosSet {
    fn default() -> (r: BiosSet)
        ensures
            r@ == BiosSetView::initial(),
    {
        BiosSet { name: String::new(), description: String::new(), default: false }
    }
}

/// A ROM image of a game (`rom`).
#[derive(Clone, Debug, Eq, PartialEq)]
pub struct Rom {
    pub name: String,
    pub size: String,
    pub crc: String,
    pub sha1: String,
    pub sha256: String,
    pub md5: String,
    pub merge: String,
    pub status: Status,
    pub date: String,
    pub serial: String,
}

/// View of [`Rom`].
pub struct RomView {
    pub name: Seq<char>,
    pub size: Seq<char>,
    pub crc: Seq<char>,
    pub sha1: Seq<char>,
    pub sha256: Seq<char>,
    pub md5: Seq<char>,
    pub merge: Seq<char>,
    pub status: Status,
    pub date: Seq<char>,
    pub serial: Seq<char>,
}

impl View for Rom {
    type V = RomView;

    open spec fn view(&self) -> RomView {
        RomView {
            name: self.name@,
            size: self.size@,
            crc: self.crc@,
            sha1: self.sha1@,
            sha256: self.sha256@,
            md5: self.md5@,
            merge: self.merge@,
            status: self.status,
            date: self.date@,
            serial: self.serial@,
        }
    }
}

impl RomView {
    /// The record as it is before any attribute is applied.
    pub open spec fn initial() -> RomView {
        RomView {
            name: Seq::empty(),
            size: Seq::empty(),
            crc: Seq::empty(),
            sha1: Seq::empty(),
            sha256: Seq::empty(),
            md5: Seq::empty(),
            merge: Seq::empty(),
            status: Status::Good,
            date: Seq::empty(),
            serial: Seq::empty(),
        }
    }
}

impl Default for Rom {
    fn default() -> (r: Rom)
        ensures
            r@ == RomView::initial(),
    {
        Rom {
            name: String::new(),
            size: String::new(),
            crc: String::new(),
            sha1: String::new(),
            sha256: String::new(),
            md5: String::new(),
            merge: String::new(),
            status: Status::default(),
            date: String::new(),
            serial: String::new(),
        }
    }
}

/// A disk image of a game (`disk`).
#[derive(Clone, Debug, Eq, PartialEq)]
pub struct Disk {
    pub name: String,
    pub sha1: String,
    pub md5: String,
    pub merge: String,
    pub status: Status,
}

/// View of [`Disk`].
pub struct DiskView {
    pub name: Seq<char>,
    pub sha1: Seq<char>,
    pub md5: Seq<char>,
    pub merge: Seq<char>,
    pub status: Status,
}

impl View for Disk {
    type V = DiskView;

    open spec fn view(&self) -> DiskView {
        DiskView {
            name: self.name@,
            sha1: self.sha1@,
            md5: self.md5@,
            merge: self.merge@,
            status: self.status,
        }
    }
}

impl DiskView {
    /// The record as it is before any attribute is applied.
    pub open spec fn initial() -> DiskView {
        DiskView {
            name: Seq::empty(),
            sha1: Seq::empty(),
            md5: Seq::empty(),
            merge: Seq::empty(),
            status: Status::Good,
        }
    }
}

impl Default for Disk {
    fn default() -> (r: Disk)
        ensures
            r@ == DiskView::initial(),
    {
        Disk {
            name: String::new(),
            sha1: String::new(),
            md5: String::new(),
            merge: String::new(),
            status: Status::default(),
        }
    }
}

/// A sample used by a game (`sample`).
#[derive(Clone, Debug, Eq, PartialEq)]
pub struct Sample {
    pub name: String,
}

/// View of [`Sample`].
pub struct SampleView {
    pub name: Seq<char>,
}

impl View for Sample {
    type V = SampleView;

    open spec fn view(&self) -> SampleView {
        SampleView { name: self.name@ }
    }
}

impl SampleView {
    /// The record as it is before any attribute is applied.
    pub open spec fn initial() -> SampleView {
        SampleView { name: Seq::empty() }
    }
}

impl Default for Sample {
    fn default() -> (r: Sample)
        ensures
            r@ == SampleView::initial(),
    {
        Sample { name: String::new() }
    }
}

/// An archive used by a game (`archive`).
#[derive(Clone, Debug, Eq, PartialEq)]
pub struct Archive {
    pub name: String,
}

/// View of [`Archive`].
pub struct ArchiveView {
    pub name: Seq<char>,
}

impl View for Archive {
    type V = ArchiveView;

    open spec fn view(&self) -> ArchiveView {
        ArchiveView { name: self.name@ }
    }
}

impl ArchiveView {
    /// The record as it is before any attribute is applied.
    pub open spec fn initial() -> ArchiveView {
        ArchiveView { name: Seq::empty() }
    }
}

impl Default for Archive {
    fn default() -> (r: Archive)
        ensures
            r@ == ArchiveView::initial(),
    {
        Archive { name: String::new() }
    }
}

/// One cataloged game (`game`).
#[derive(Clone, Debug, Eq, PartialEq)]
pub struct Game {
    pub id: String,
    pub name: String,
    pub description: String,
    pub is_bios: bool,
    pub source_file: String,
    pub clone_of: String,
    pub clone_of_id: String,
    pub rom_of: String,
    pub sample_of: String,
    pub board: String,
    pub rebuild_to: String,
    pub comments: Vec<String>,
    pub year: String,
    pub manufacturer: String,
    pub releases: Vec<Release>,
    pub bios_sets: Vec<BiosSet>,
    pub roms: Vec<Rom>,
    pub disks: Vec<Disk>,
    pub samples: Vec<Sample>,
    pub archives: Vec<Archive>,
}

/// View of [`Game`].
pub struct GameView {
    pub id: Seq<char>,
    pub name: Seq<char>,
    pub description: Seq<char>,
    pub is_bios: bool,
    pub source_file: Seq<char>,
    pub clone_of: Seq<char>,
    pub clone_of_id: Seq<char>,
    pub rom_of: Seq<char>,
    pub sample_of: Seq<char>,
    pub board: Seq<char>,
    pub rebuild_to: Seq<char>,
    pub comments: Seq<Seq<char>>,
    pub year: Seq<char>,
    pub manufacturer: Seq<char>,
    pub releases: Seq<ReleaseView>,
    pub bios_sets: Seq<BiosSetView>,
    pub roms: Seq<RomView>,
    pub disks: Seq<DiskView>,
    pub samples: Seq<SampleView>,
    pub archives: Seq<ArchiveView>,
}

impl View for Game {
    type V = GameView;

    open spec fn view(&self) -> GameView {
        GameView {
            id: self.id@,
            name: self.name@,
            description: self.description@,
            is_bios: self.is_bios,
            source_file: self.source_file@,
            clone_of: self.clone_of@,
            clone_of_id: self.clone_of_id@,
            rom_of: self.rom_of@,
            sample_of: self.sample_of@,
            board: self.board@,
            rebuild_to: self.rebuild_to@,
            comments: self.comments@.map_values(|s: String| s@),
            year: self.year@,
            manufacturer: self.manufacturer@,
            releases: self.releases@.map_values(|r: Release| r@),
            bios_sets: self.bios_sets@.map_values(|b: BiosSet| b@),
            roms: self.roms@.map_values(|r: Rom| r@),
            disks: self.disks@.map_values(|d: Disk| d@),
            samples: self.samples@.map_values(|s: Sample| s@),
            archives: self.archives@.map_values(|a: Archive| a@),
        }
    }
}

impl GameView {
    /// The game as it is when its element is first seen: all text empty, the
    /// BIOS flag off, every list empty.
    pub open spec fn initial() -> GameView {
        GameView {
            id: Seq::empty(),
            name: Seq::empty(),
            description: Seq::empty(),
            is_bios: false,
            source_file: Seq::empty(),
            clone_of: Seq::empty(),
            clone_of_id: Seq::empty(),
            rom_of: Seq::empty(),
            sample_of: Seq::empty(),
            board: Seq::empty(),
            rebuild_to: Seq::empty(),
            comments: Seq::empty(),
            year: Seq::empty(),
            manufacturer: Seq::empty(),
            releases: Seq::empty(),
            bios_sets: Seq::empty(),
            roms: Seq::empty(),
            disks: Seq::empty(),
            samples: Seq::empty(),
            archives: Seq::empty(),
        }
    }
}

impl Default for Game {
    fn default() -> (r: Game)
        ensures
            r@ == GameView::initial(),
    {
        let r = Game {
            id: String::new(),
            name: String::new(),
            description: String::new(),
            is_bios: false,
            source_file: String::new(),
            clone_of: String::new(),
            clone_of_id: String::new(),
            rom_of: String::new(),
            sample_of: String::new(),
            board: String::new(),
            rebuild_to: String::new(),
            comments: Vec::new(),
            year: String::new(),
            manufacturer: String::new(),
            releases: Vec::new(),
            bios_sets: Vec::new(),
            roms: Vec::new(),
            disks: Vec::new(),
            samples: Vec::new(),
            archives: Vec::new(),
        };
        assert(r@.comments =~= Seq::empty());
        assert(r@.releases =~= Seq::empty());
        assert(r@.bios_sets =~= Seq::empty());
        assert(r@.roms =~= Seq::empty());
        assert(r@.disks =~= Seq::empty());
        assert(r@.samples =~= Seq::empty());
        assert(r@.archives =~= Seq::empty());
        r
    }
}

/// View of an optional [`Header`].
pub open spec fn header_view(o: Option<Header>) -> Option<HeaderView> {
    match o {
        Some(h) => Some(h@),
        None => None,
    }
}

/// A whole catalog (`datafile`).
#[derive(Clone, Debug, Eq, PartialEq)]
pub struct DataFile {
    pub build: String,
    pub debug: bool,
    pub header: Option<Header>,
    pub games: Vec<Game>,
}

/// View of [`DataFile`].
pub struct DataFileView {
    pub build: Seq<char>,
    pub debug: bool,
    pub header: Option<HeaderView>,
    pub games: Seq<GameView>,
}

impl View for DataFile {
    type V = DataFileView;

    open spec fn view(&self) -> DataFileView {
        DataFileView {
            build: self.build@,
            debug: self.debug,
            header: header_view(self.header),
            games: self.games@.map_values(|g: Game| g@),
        }
    }
}

/// View of an optional [`DataFile`].
pub open spec fn data_file_view(o: Option<DataFile>) -> Option<DataFileView> {
    match o {
        Some(d) => Some(d@),
        None => None,
    }
}

impl DataFileView {
    /// The catalog as it is when its element is first seen: no header, no
    /// games.
    pub open spec fn initial() -> DataFileView {
        DataFileView { build: Seq::empty(), debug: false, header: None, games: Seq::empty() }
    }
}

impl Default for DataFile {
    fn default() -> (r: DataFile)
        ensures
            r@ == DataFileView::initial(),
    {
        let r = DataFile { build: String::new(), debug: false, header: None, games: Vec::new() };
        assert(r@.games =~= Seq::empty());
        r
    }
}

} // verus!
